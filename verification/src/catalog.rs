//! The catalog of drawing tests and compositing operations.
//!
//! Pure immutable data: every test kind knows its name, its render
//! operation, and, where it applies, its polygon complexity or its named
//! shape.  Compositing operations map a name to an optional blend mode; an
//! entry without a mode is an explicitly unsupported operation, not a
//! fallback.

use vstd::prelude::*;
use crate::text::{eq_ignore_case, range_eq_ignore_case, str_eq_ignore_case};

verus! {

/// The named vector shapes that some tests draw.
#[derive(Copy, Clone, Debug, PartialEq, Eq, Hash, Structural)]
pub enum ShapeKind {
    Butterfly,
    Fish,
    Dragon,
    World,
}

/// How a test rasterizes its geometry.
#[derive(Copy, Clone, Debug, PartialEq, Eq, Hash, Structural)]
pub enum RenderOp {
    FillNonZero,
    FillEvenOdd,
    Stroke,
}

/// One cell row of the benchmark matrix: the drawing operation measured.
#[derive(Copy, Clone, Debug, PartialEq, Eq, Hash, Structural)]
pub enum TestKind {
    FillRectA,
    FillRectU,
    FillRectRot,
    FillRoundU,
    FillRoundRot,
    FillTriangle,
    FillPolyNZ10,
    FillPolyEO10,
    FillPolyNZ20,
    FillPolyEO20,
    FillPolyNZ40,
    FillPolyEO40,
    FillButterfly,
    FillFish,
    FillDragon,
    FillWorld,
    StrokeRectA,
    StrokeRectU,
    StrokeRectRot,
    StrokeRoundU,
    StrokeRoundRot,
    StrokeTriangle,
    StrokePoly10,
    StrokePoly20,
    StrokePoly40,
    StrokeButterfly,
    StrokeFish,
    StrokeDragon,
    StrokeWorld,
}

/// The blend modes a compositing operation can carry; mirrors the mode set
/// of the rendering backend, one variant per supported table entry.
#[derive(Copy, Clone, Debug, PartialEq, Eq, Hash, Structural)]
pub enum BlendModeKind {
    SrcOver,
    SrcCopy,
    SrcIn,
    SrcOut,
    SrcAtop,
    DstOver,
    DstCopy,
    DstIn,
    DstOut,
    DstAtop,
    Xor,
    Clear,
    Plus,
    Modulate,
    Multiply,
    Screen,
    Overlay,
    Darken,
    Lighten,
    ColorDodge,
    ColorBurn,
    HardLight,
    SoftLight,
    Difference,
    Exclusion,
}

/// A compositing-operation table entry: its name, and its blend mode where
/// one is supported.
#[derive(Copy, Clone, Debug)]
pub struct CompOpInfo {
    pub name: &'static str,
    pub mode: Option<BlendModeKind>,
}

/// All test kinds, in catalog order.
pub open spec fn spec_all_tests() -> Seq<TestKind> {
    seq![
        TestKind::FillRectA,
        TestKind::FillRectU,
        TestKind::FillRectRot,
        TestKind::FillRoundU,
        TestKind::FillRoundRot,
        TestKind::FillTriangle,
        TestKind::FillPolyNZ10,
        TestKind::FillPolyEO10,
        TestKind::FillPolyNZ20,
        TestKind::FillPolyEO20,
        TestKind::FillPolyNZ40,
        TestKind::FillPolyEO40,
        TestKind::FillButterfly,
        TestKind::FillFish,
        TestKind::FillDragon,
        TestKind::FillWorld,
        TestKind::StrokeRectA,
        TestKind::StrokeRectU,
        TestKind::StrokeRectRot,
        TestKind::StrokeRoundU,
        TestKind::StrokeRoundRot,
        TestKind::StrokeTriangle,
        TestKind::StrokePoly10,
        TestKind::StrokePoly20,
        TestKind::StrokePoly40,
        TestKind::StrokeButterfly,
        TestKind::StrokeFish,
        TestKind::StrokeDragon,
        TestKind::StrokeWorld,
    ]
}

/// The position of a test kind in the catalog.
pub open spec fn spec_test_index(t: TestKind) -> int {
    match t {
        TestKind::FillRectA => 0,
        TestKind::FillRectU => 1,
        TestKind::FillRectRot => 2,
        TestKind::FillRoundU => 3,
        TestKind::FillRoundRot => 4,
        TestKind::FillTriangle => 5,
        TestKind::FillPolyNZ10 => 6,
        TestKind::FillPolyEO10 => 7,
        TestKind::FillPolyNZ20 => 8,
        TestKind::FillPolyEO20 => 9,
        TestKind::FillPolyNZ40 => 10,
        TestKind::FillPolyEO40 => 11,
        TestKind::FillButterfly => 12,
        TestKind::FillFish => 13,
        TestKind::FillDragon => 14,
        TestKind::FillWorld => 15,
        TestKind::StrokeRectA => 16,
        TestKind::StrokeRectU => 17,
        TestKind::StrokeRectRot => 18,
        TestKind::StrokeRoundU => 19,
        TestKind::StrokeRoundRot => 20,
        TestKind::StrokeTriangle => 21,
        TestKind::StrokePoly10 => 22,
        TestKind::StrokePoly20 => 23,
        TestKind::StrokePoly40 => 24,
        TestKind::StrokeButterfly => 25,
        TestKind::StrokeFish => 26,
        TestKind::StrokeDragon => 27,
        TestKind::StrokeWorld => 28,
    }
}

/// Every test kind sits in the catalog at its own index.
pub proof fn lemma_test_index(t: TestKind)
    ensures
        0 <= spec_test_index(t) < spec_all_tests().len(),
        spec_all_tests()[spec_test_index(t)] == t,
{
}

/// The catalog lists every test kind exactly once.
pub proof fn lemma_all_tests_no_duplicates()
    ensures
        spec_all_tests().no_duplicates(),
{
    assert forall|i: int, j: int|
        0 <= i < j < spec_all_tests().len() implies spec_all_tests()[i] != spec_all_tests()[j] by {
        assert(spec_test_index(spec_all_tests()[i]) == i);
        assert(spec_test_index(spec_all_tests()[j]) == j);
    }
}

/// The display name of a test kind.
pub open spec fn spec_test_name(t: TestKind) -> Seq<char> {
    match t {
        TestKind::FillRectA => "FillRectA"@,
        TestKind::FillRectU => "FillRectU"@,
        TestKind::FillRectRot => "FillRectRot"@,
        TestKind::FillRoundU => "FillRoundU"@,
        TestKind::FillRoundRot => "FillRoundRot"@,
        TestKind::FillTriangle => "FillTriangle"@,
        TestKind::FillPolyNZ10 => "FillPolyNZi10"@,
        TestKind::FillPolyEO10 => "FillPolyEOi10"@,
        TestKind::FillPolyNZ20 => "FillPolyNZi20"@,
        TestKind::FillPolyEO20 => "FillPolyEOi20"@,
        TestKind::FillPolyNZ40 => "FillPolyNZi40"@,
        TestKind::FillPolyEO40 => "FillPolyEOi40"@,
        TestKind::FillButterfly => "FillButterfly"@,
        TestKind::FillFish => "FillFish"@,
        TestKind::FillDragon => "FillDragon"@,
        TestKind::FillWorld => "FillWorld"@,
        TestKind::StrokeRectA => "StrokeRectA"@,
        TestKind::StrokeRectU => "StrokeRectU"@,
        TestKind::StrokeRectRot => "StrokeRectRot"@,
        TestKind::StrokeRoundU => "StrokeRoundU"@,
        TestKind::StrokeRoundRot => "StrokeRoundRot"@,
        TestKind::StrokeTriangle => "StrokeTriangle"@,
        TestKind::StrokePoly10 => "StrokePoly10"@,
        TestKind::StrokePoly20 => "StrokePoly20"@,
        TestKind::StrokePoly40 => "StrokePoly40"@,
        TestKind::StrokeButterfly => "StrokeButterfly"@,
        TestKind::StrokeFish => "StrokeFish"@,
        TestKind::StrokeDragon => "StrokeDragon"@,
        TestKind::StrokeWorld => "StrokeWorld"@,
    }
}

/// Which render operation a test uses.
pub open spec fn spec_render_op(t: TestKind) -> RenderOp {
    match t {
        TestKind::FillRectA
        | TestKind::FillRectU
        | TestKind::FillRectRot
        | TestKind::FillRoundU
        | TestKind::FillRoundRot
        | TestKind::FillTriangle
        | TestKind::FillPolyNZ10
        | TestKind::FillPolyNZ20
        | TestKind::FillPolyNZ40
        | TestKind::FillButterfly
        | TestKind::FillFish
        | TestKind::FillDragon
        | TestKind::FillWorld => RenderOp::FillNonZero,
        TestKind::FillPolyEO10 | TestKind::FillPolyEO20 | TestKind::FillPolyEO40
            => RenderOp::FillEvenOdd,
        _ => RenderOp::Stroke,
    }
}

/// How many vertices a polygon test draws, where the test is one.
pub open spec fn spec_polygon_complexity(t: TestKind) -> Option<u32> {
    match t {
        TestKind::FillTriangle | TestKind::StrokeTriangle => Some(3u32),
        TestKind::FillPolyNZ10 | TestKind::FillPolyEO10 | TestKind::StrokePoly10 => Some(10u32),
        TestKind::FillPolyNZ20 | TestKind::FillPolyEO20 | TestKind::StrokePoly20 => Some(20u32),
        TestKind::FillPolyNZ40 | TestKind::FillPolyEO40 | TestKind::StrokePoly40 => Some(40u32),
        _ => None,
    }
}

/// Which named shape a test draws, where the test draws one.
pub open spec fn spec_shape(t: TestKind) -> Option<ShapeKind> {
    match t {
        TestKind::FillButterfly | TestKind::StrokeButterfly => Some(ShapeKind::Butterfly),
        TestKind::FillFish | TestKind::StrokeFish => Some(ShapeKind::Fish),
        TestKind::FillDragon | TestKind::StrokeDragon => Some(ShapeKind::Dragon),
        TestKind::FillWorld | TestKind::StrokeWorld => Some(ShapeKind::World),
        _ => None,
    }
}

impl TestKind {
    /// The stable display name, used as a table row label and a baseline
    /// lookup key.
    pub fn name(self) -> (r: &'static str)
        ensures
            r@ == spec_test_name(self),
    {
        match self {
            TestKind::FillRectA => "FillRectA",
            TestKind::FillRectU => "FillRectU",
            TestKind::FillRectRot => "FillRectRot",
            TestKind::FillRoundU => "FillRoundU",
            TestKind::FillRoundRot => "FillRoundRot",
            TestKind::FillTriangle => "FillTriangle",
            TestKind::FillPolyNZ10 => "FillPolyNZi10",
            TestKind::FillPolyEO10 => "FillPolyEOi10",
            TestKind::FillPolyNZ20 => "FillPolyNZi20",
            TestKind::FillPolyEO20 => "FillPolyEOi20",
            TestKind::FillPolyNZ40 => "FillPolyNZi40",
            TestKind::FillPolyEO40 => "FillPolyEOi40",
            TestKind::FillButterfly => "FillButterfly",
            TestKind::FillFish => "FillFish",
            TestKind::FillDragon => "FillDragon",
            TestKind::FillWorld => "FillWorld",
            TestKind::StrokeRectA => "StrokeRectA",
            TestKind::StrokeRectU => "StrokeRectU",
            TestKind::StrokeRectRot => "StrokeRectRot",
            TestKind::StrokeRoundU => "StrokeRoundU",
            TestKind::StrokeRoundRot => "StrokeRoundRot",
            TestKind::StrokeTriangle => "StrokeTriangle",
            TestKind::StrokePoly10 => "StrokePoly10",
            TestKind::StrokePoly20 => "StrokePoly20",
            TestKind::StrokePoly40 => "StrokePoly40",
            TestKind::StrokeButterfly => "StrokeButterfly",
            TestKind::StrokeFish => "StrokeFish",
            TestKind::StrokeDragon => "StrokeDragon",
            TestKind::StrokeWorld => "StrokeWorld",
        }
    }

    /// Which render operation this test uses.
    pub fn render_op(self) -> (r: RenderOp)
        ensures
            r == spec_render_op(self),
    {
        match self {
            TestKind::FillRectA
            | TestKind::FillRectU
            | TestKind::FillRectRot
            | TestKind::FillRoundU
            | TestKind::FillRoundRot
            | TestKind::FillTriangle
            | TestKind::FillPolyNZ10
            | TestKind::FillPolyNZ20
            | TestKind::FillPolyNZ40
            | TestKind::FillButterfly
            | TestKind::FillFish
            | TestKind::FillDragon
            | TestKind::FillWorld => RenderOp::FillNonZero,
            TestKind::FillPolyEO10 | TestKind::FillPolyEO20 | TestKind::FillPolyEO40
                => RenderOp::FillEvenOdd,
            _ => RenderOp::Stroke,
        }
    }

    /// How many vertices this test's polygons have, where it draws polygons.
    pub fn polygon_complexity(self) -> (r: Option<u32>)
        ensures
            r == spec_polygon_complexity(self),
    {
        match self {
            TestKind::FillTriangle | TestKind::StrokeTriangle => Some(3),
            TestKind::FillPolyNZ10 | TestKind::FillPolyEO10 | TestKind::StrokePoly10 => Some(10),
            TestKind::FillPolyNZ20 | TestKind::FillPolyEO20 | TestKind::StrokePoly20 => Some(20),
            TestKind::FillPolyNZ40 | TestKind::FillPolyEO40 | TestKind::StrokePoly40 => Some(40),
            _ => None,
        }
    }

    /// Which named shape this test draws, where it draws one.
    pub fn shape(self) -> (r: Option<ShapeKind>)
        ensures
            r == spec_shape(self),
    {
        match self {
            TestKind::FillButterfly | TestKind::StrokeButterfly => Some(ShapeKind::Butterfly),
            TestKind::FillFish | TestKind::StrokeFish => Some(ShapeKind::Fish),
            TestKind::FillDragon | TestKind::StrokeDragon => Some(ShapeKind::Dragon),
            TestKind::FillWorld | TestKind::StrokeWorld => Some(ShapeKind::World),
            _ => None,
        }
    }

    /// All test kinds, in catalog order.
    pub fn all() -> (r: Vec<TestKind>)
        ensures
            r@ == spec_all_tests(),
    {
        let mut v: Vec<TestKind> = Vec::new();
        v.push(TestKind::FillRectA);
        v.push(TestKind::FillRectU);
        v.push(TestKind::FillRectRot);
        v.push(TestKind::FillRoundU);
        v.push(TestKind::FillRoundRot);
        v.push(TestKind::FillTriangle);
        v.push(TestKind::FillPolyNZ10);
        v.push(TestKind::FillPolyEO10);
        v.push(TestKind::FillPolyNZ20);
        v.push(TestKind::FillPolyEO20);
        v.push(TestKind::FillPolyNZ40);
        v.push(TestKind::FillPolyEO40);
        v.push(TestKind::FillButterfly);
        v.push(TestKind::FillFish);
        v.push(TestKind::FillDragon);
        v.push(TestKind::FillWorld);
        v.push(TestKind::StrokeRectA);
        v.push(TestKind::StrokeRectU);
        v.push(TestKind::StrokeRectRot);
        v.push(TestKind::StrokeRoundU);
        v.push(TestKind::StrokeRoundRot);
        v.push(TestKind::StrokeTriangle);
        v.push(TestKind::StrokePoly10);
        v.push(TestKind::StrokePoly20);
        v.push(TestKind::StrokePoly40);
        v.push(TestKind::StrokeButterfly);
        v.push(TestKind::StrokeFish);
        v.push(TestKind::StrokeDragon);
        v.push(TestKind::StrokeWorld);
        assert(v@ =~= spec_all_tests());
        v
    }
}

/// How many compositing operations the table holds.
pub open spec fn spec_comp_op_count() -> int {
    29
}

/// The name of the compositing operation at a table index.
pub open spec fn spec_comp_op_name(i: int) -> Seq<char> {
    if i == 0 {
        "SrcOver"@
    } else if i == 1 {
        "SrcCopy"@
    } else if i == 2 {
        "SrcIn"@
    } else if i == 3 {
        "SrcOut"@
    } else if i == 4 {
        "SrcAtop"@
    } else if i == 5 {
        "DstOver"@
    } else if i == 6 {
        "DstCopy"@
    } else if i == 7 {
        "DstIn"@
    } else if i == 8 {
        "DstOut"@
    } else if i == 9 {
        "DstAtop"@
    } else if i == 10 {
        "Xor"@
    } else if i == 11 {
        "Clear"@
    } else if i == 12 {
        "Plus"@
    } else if i == 13 {
        "Minus"@
    } else if i == 14 {
        "Modulate"@
    } else if i == 15 {
        "Multiply"@
    } else if i == 16 {
        "Screen"@
    } else if i == 17 {
        "Overlay"@
    } else if i == 18 {
        "Darken"@
    } else if i == 19 {
        "Lighten"@
    } else if i == 20 {
        "ColorDodge"@
    } else if i == 21 {
        "ColorBurn"@
    } else if i == 22 {
        "LinearBurn"@
    } else if i == 23 {
        "LinearLight"@
    } else if i == 24 {
        "PinLight"@
    } else if i == 25 {
        "HardLight"@
    } else if i == 26 {
        "SoftLight"@
    } else if i == 27 {
        "Difference"@
    } else {
        "Exclusion"@
    }
}

/// The blend mode of the compositing operation at a table index; `None`
/// marks an explicitly unsupported operation.
pub open spec fn spec_comp_op_mode(i: int) -> Option<BlendModeKind> {
    if i == 0 {
        Some(BlendModeKind::SrcOver)
    } else if i == 1 {
        Some(BlendModeKind::SrcCopy)
    } else if i == 2 {
        Some(BlendModeKind::SrcIn)
    } else if i == 3 {
        Some(BlendModeKind::SrcOut)
    } else if i == 4 {
        Some(BlendModeKind::SrcAtop)
    } else if i == 5 {
        Some(BlendModeKind::DstOver)
    } else if i == 6 {
        Some(BlendModeKind::DstCopy)
    } else if i == 7 {
        Some(BlendModeKind::DstIn)
    } else if i == 8 {
        Some(BlendModeKind::DstOut)
    } else if i == 9 {
        Some(BlendModeKind::DstAtop)
    } else if i == 10 {
        Some(BlendModeKind::Xor)
    } else if i == 11 {
        Some(BlendModeKind::Clear)
    } else if i == 12 {
        Some(BlendModeKind::Plus)
    } else if i == 13 {
        None
    } else if i == 14 {
        Some(BlendModeKind::Modulate)
    } else if i == 15 {
        Some(BlendModeKind::Multiply)
    } else if i == 16 {
        Some(BlendModeKind::Screen)
    } else if i == 17 {
        Some(BlendModeKind::Overlay)
    } else if i == 18 {
        Some(BlendModeKind::Darken)
    } else if i == 19 {
        Some(BlendModeKind::Lighten)
    } else if i == 20 {
        Some(BlendModeKind::ColorDodge)
    } else if i == 21 {
        Some(BlendModeKind::ColorBurn)
    } else if i == 22 {
        None
    } else if i == 23 {
        None
    } else if i == 24 {
        None
    } else if i == 25 {
        Some(BlendModeKind::HardLight)
    } else if i == 26 {
        Some(BlendModeKind::SoftLight)
    } else if i == 27 {
        Some(BlendModeKind::Difference)
    } else {
        Some(BlendModeKind::Exclusion)
    }
}

/// The name of the compositing operation at a table index.
pub fn comp_op_name(i: usize) -> (r: &'static str)
    requires
        i < spec_comp_op_count(),
    ensures
        r@ == spec_comp_op_name(i as int),
{
    if i == 0 {
        "SrcOver"
    } else if i == 1 {
        "SrcCopy"
    } else if i == 2 {
        "SrcIn"
    } else if i == 3 {
        "SrcOut"
    } else if i == 4 {
        "SrcAtop"
    } else if i == 5 {
        "DstOver"
    } else if i == 6 {
        "DstCopy"
    } else if i == 7 {
        "DstIn"
    } else if i == 8 {
        "DstOut"
    } else if i == 9 {
        "DstAtop"
    } else if i == 10 {
        "Xor"
    } else if i == 11 {
        "Clear"
    } else if i == 12 {
        "Plus"
    } else if i == 13 {
        "Minus"
    } else if i == 14 {
        "Modulate"
    } else if i == 15 {
        "Multiply"
    } else if i == 16 {
        "Screen"
    } else if i == 17 {
        "Overlay"
    } else if i == 18 {
        "Darken"
    } else if i == 19 {
        "Lighten"
    } else if i == 20 {
        "ColorDodge"
    } else if i == 21 {
        "ColorBurn"
    } else if i == 22 {
        "LinearBurn"
    } else if i == 23 {
        "LinearLight"
    } else if i == 24 {
        "PinLight"
    } else if i == 25 {
        "HardLight"
    } else if i == 26 {
        "SoftLight"
    } else if i == 27 {
        "Difference"
    } else {
        "Exclusion"
    }
}

/// The table entry of the compositing operation at a table index.
pub fn comp_op(i: usize) -> (r: CompOpInfo)
    requires
        i < spec_comp_op_count(),
    ensures
        r.name@ == spec_comp_op_name(i as int),
        r.mode == spec_comp_op_mode(i as int),
{
    let mode: Option<BlendModeKind> = if i == 0 {
        Some(BlendModeKind::SrcOver)
    } else if i == 1 {
        Some(BlendModeKind::SrcCopy)
    } else if i == 2 {
        Some(BlendModeKind::SrcIn)
    } else if i == 3 {
        Some(BlendModeKind::SrcOut)
    } else if i == 4 {
        Some(BlendModeKind::SrcAtop)
    } else if i == 5 {
        Some(BlendModeKind::DstOver)
    } else if i == 6 {
        Some(BlendModeKind::DstCopy)
    } else if i == 7 {
        Some(BlendModeKind::DstIn)
    } else if i == 8 {
        Some(BlendModeKind::DstOut)
    } else if i == 9 {
        Some(BlendModeKind::DstAtop)
    } else if i == 10 {
        Some(BlendModeKind::Xor)
    } else if i == 11 {
        Some(BlendModeKind::Clear)
    } else if i == 12 {
        Some(BlendModeKind::Plus)
    } else if i == 13 {
        None
    } else if i == 14 {
        Some(BlendModeKind::Modulate)
    } else if i == 15 {
        Some(BlendModeKind::Multiply)
    } else if i == 16 {
        Some(BlendModeKind::Screen)
    } else if i == 17 {
        Some(BlendModeKind::Overlay)
    } else if i == 18 {
        Some(BlendModeKind::Darken)
    } else if i == 19 {
        Some(BlendModeKind::Lighten)
    } else if i == 20 {
        Some(BlendModeKind::ColorDodge)
    } else if i == 21 {
        Some(BlendModeKind::ColorBurn)
    } else if i == 22 {
        None
    } else if i == 23 {
        None
    } else if i == 24 {
        None
    } else if i == 25 {
        Some(BlendModeKind::HardLight)
    } else if i == 26 {
        Some(BlendModeKind::SoftLight)
    } else if i == 27 {
        Some(BlendModeKind::Difference)
    } else {
        Some(BlendModeKind::Exclusion)
    };
    CompOpInfo { name: comp_op_name(i), mode }
}

/// The first test kind at or after catalog position `i` whose name matches
/// `name` up to ASCII case.
pub open spec fn spec_find_test_from(name: Seq<char>, i: int) -> Option<TestKind>
    decreases spec_all_tests().len() - i,
{
    if i < 0 || i >= spec_all_tests().len() {
        None
    } else if eq_ignore_case(name, spec_test_name(spec_all_tests()[i])) {
        Some(spec_all_tests()[i])
    } else {
        spec_find_test_from(name, i + 1)
    }
}

/// The test kind with the given name, compared ignoring ASCII case.
pub open spec fn spec_find_test(name: Seq<char>) -> Option<TestKind> {
    spec_find_test_from(name, 0)
}

/// Looks a test kind up by name, ignoring ASCII case.
pub fn find_test(name: &str) -> (r: Option<TestKind>)
    ensures
        r == spec_find_test(name@),
{
    let all: Vec<TestKind> = TestKind::all();
    let mut i: usize = 0;
    while i < all.len()
        invariant
            all@ == spec_all_tests(),
            i <= all@.len(),
            spec_find_test(name@) == spec_find_test_from(name@, i as int),
        decreases all@.len() - i,
    {
        let t: TestKind = all[i];
        if str_eq_ignore_case(name, t.name()) {
            return Some(t);
        }
        i = i + 1;
    }
    None
}

/// Looks a test kind up by a name given as a character range, ignoring
/// ASCII case.
pub fn find_test_chars(chars: &Vec<char>, lo: usize, hi: usize) -> (r: Option<TestKind>)
    requires
        lo <= hi <= chars@.len(),
    ensures
        r == spec_find_test(chars@.subrange(lo as int, hi as int)),
{
    let ghost name = chars@.subrange(lo as int, hi as int);
    let all: Vec<TestKind> = TestKind::all();
    let mut i: usize = 0;
    while i < all.len()
        invariant
            lo <= hi <= chars@.len(),
            name == chars@.subrange(lo as int, hi as int),
            all@ == spec_all_tests(),
            i <= all@.len(),
            spec_find_test(name) == spec_find_test_from(name, i as int),
        decreases all@.len() - i,
    {
        let t: TestKind = all[i];
        if range_eq_ignore_case(chars, lo, hi, t.name()) {
            return Some(t);
        }
        i = i + 1;
    }
    None
}

/// The first compositing-operation index at or after `i` whose name matches
/// `name` up to ASCII case.
pub open spec fn spec_find_comp_op_from(name: Seq<char>, i: int) -> Option<usize>
    decreases spec_comp_op_count() - i,
{
    if i < 0 || i >= spec_comp_op_count() {
        None
    } else if eq_ignore_case(name, spec_comp_op_name(i)) {
        Some(i as usize)
    } else {
        spec_find_comp_op_from(name, i + 1)
    }
}

/// The table index of the compositing operation with the given name,
/// compared ignoring ASCII case.
pub open spec fn spec_find_comp_op(name: Seq<char>) -> Option<usize> {
    spec_find_comp_op_from(name, 0)
}

/// Looks a compositing operation up by name, ignoring ASCII case.
pub fn find_comp_op(name: &str) -> (r: Option<usize>)
    ensures
        r == spec_find_comp_op(name@),
{
    let mut i: usize = 0;
    while i < 29
        invariant
            i <= 29,
            spec_find_comp_op(name@) == spec_find_comp_op_from(name@, i as int),
        decreases 29 - i,
    {
        if str_eq_ignore_case(name, comp_op_name(i)) {
            return Some(i);
        }
        i = i + 1;
    }
    None
}

/// The fixed ascending ladder of shape sizes benchmarked for every test.
pub open spec fn spec_bench_sizes() -> Seq<u32> {
    seq![8u32, 16u32, 32u32, 64u32, 128u32, 256u32]
}

/// The fixed ascending ladder of shape sizes benchmarked for every test.
pub fn bench_shape_sizes() -> (r: Vec<u32>)
    ensures
        r@ == spec_bench_sizes(),
{
    let mut v: Vec<u32> = Vec::new();
    v.push(8);
    v.push(16);
    v.push(32);
    v.push(64);
    v.push(128);
    v.push(256);
    assert(v@ =~= spec_bench_sizes());
    v
}

} // verus!
