//! The benchmark orchestrator: drives the backend over the test and size
//! matrix, invokes calibration per cell, aggregates per-size totals,
//! formats the table rows, compares against the baseline, and accumulates
//! the result records.
//!
//! The orchestrator performs no input or output itself: it hands back the
//! finished table lines and overview images, and its caller prints and
//! saves them.

use vstd::prelude::*;
use vstd::string::*;
use crate::backend::{Backend, BenchParams};
use crate::baseline::{
    Baseline, BaselineEntry, BaselineSum, CellData, EntryModel, SumModel, format_cell,
    spec_cell_display, spec_lookup_entry, spec_sum_finish, spec_sum_push, BASELINE_VALUE_MAX,
};
use crate::buffer::{Buffer, Rgba, blit, buffer_is_wf, clear_pixmap, spec_blit_pixel};
use crate::calibrate::run_single_test;
use crate::catalog::{comp_op, comp_op_name, spec_test_name, TestKind};
use crate::config::BenchmarkConfig;
use crate::format::{
    format_cpms, format_size_label, spec_format_cpms, spec_size_label, throughput_e4,
};
use crate::json::{JsonRecord, JsonWriter};
use crate::text::{
    push_char, push_padded, push_repeat, sanitize, spec_pad_right, spec_repeat_char,
    spec_sanitized, spec_truncate, truncate,
};

verus! {

/// The largest throughput one cell can measure, in fixed-point units: the
/// largest operation count over one microsecond.
pub const CELL_CPMS_MAX: u64 = 42_949_672_950_000_000;

/// The fixed column style label of this harness.
pub open spec fn spec_solid_style() -> Seq<char> {
    "Solid"@
}

/// How many value columns the table shows: one per ladder size, at least
/// six.
pub open spec fn spec_ncols(nsizes: int) -> int {
    if nsizes < 6 {
        6
    } else {
        nsizes
    }
}

/// Whether the overview canvas for `nsizes` ladder positions of
/// `width`-wide surfaces fits the supported surface dimensions.
pub open spec fn spec_overview_fits(width: u32, height: u32, nsizes: int) -> bool {
    &&& (width + 1) * nsizes + 1 <= 65535
    &&& height <= 65533
}

/// The header's value columns: one square label per ladder size, padded
/// with dashes up to the table's column count.
pub open spec fn spec_header_cols(sizes: Seq<u32>) -> Seq<Seq<char>> {
    Seq::new(
        spec_ncols(sizes.len() as int) as nat,
        |i: int|
            if i < sizes.len() {
                spec_size_label(sizes[i] as int)
            } else {
                "-"@
            },
    )
}

/// The baseline aggregate of one size column: the per-test lookups folded
/// in test order with sticky errors.
pub open spec fn spec_column_baseline(
    entries: Seq<EntryModel>,
    backend: Seq<char>,
    tests: Seq<TestKind>,
    size: u32,
) -> SumModel
    decreases tests.len(),
{
    if tests.len() == 0 {
        SumModel { total: 0, has_value: false, error: Option::None }
    } else {
        spec_sum_push(
            spec_column_baseline(entries, backend, tests.drop_last(), size),
            spec_lookup_entry(entries, backend, spec_test_name(tests.last()), size),
        )
    }
}

/// The sum of one size column over the per-test measured values.
pub open spec fn spec_column_sum(values: Seq<Seq<u64>>, s: int) -> int
    decreases values.len(),
{
    if values.len() == 0 {
        0
    } else {
        spec_column_sum(values.drop_last(), s) + (if 0 <= s < values.last().len() {
            values.last()[s] as int
        } else {
            0
        })
    }
}

/// The table columns after the three label columns, each cell padded to
/// eighteen characters, separated by a bar and a space, closed by a bar.
pub open spec fn spec_row_cols(cols: Seq<Seq<char>>, i: int) -> Seq<char>
    decreases cols.len() - i,
{
    if i < 0 || i >= cols.len() {
        Seq::<char>::empty()
    } else {
        spec_pad_right(cols[i], 18) + (if i == cols.len() - 1 {
            seq!['|']
        } else {
            seq!['|', ' ']
        }) + spec_row_cols(cols, i + 1)
    }
}

/// One bordered table row: the test, compositing-operation and style
/// labels truncated and padded to their fixed widths, then the value
/// columns.
pub open spec fn spec_row(
    test: Seq<char>,
    comp: Seq<char>,
    style: Seq<char>,
    cols: Seq<Seq<char>>,
) -> Seq<char> {
    seq!['|'] + spec_pad_right(spec_truncate(test, 20), 20) + seq!['|', ' '] + spec_pad_right(
        spec_truncate(comp, 11),
        11,
    ) + seq![' ', '|', ' '] + spec_pad_right(spec_truncate(style, 13), 13) + seq![' ', '|', ' ']
        + spec_row_cols(cols, 0)
}

/// Renders one table row from its labels and its value column cells.
pub fn format_row(test: &str, comp: &str, style: &str, cells: &Vec<String>) -> (r: String)
    ensures
        r@ == spec_row(test@, comp@, style@, cells@.map_values(|s: String| s@)),
{
    let ghost cols = cells@.map_values(|s: String| s@);
    let mut out = String::new();
    push_char(&mut out, '|');
    let t = truncate(test, 20);
    push_padded(&mut out, t.as_str(), 20);
    push_char(&mut out, '|');
    push_char(&mut out, ' ');
    let c = truncate(comp, 11);
    push_padded(&mut out, c.as_str(), 11);
    push_char(&mut out, ' ');
    push_char(&mut out, '|');
    push_char(&mut out, ' ');
    let s = truncate(style, 13);
    push_padded(&mut out, s.as_str(), 13);
    push_char(&mut out, ' ');
    push_char(&mut out, '|');
    push_char(&mut out, ' ');
    proof {
        assert(out@ =~= seq!['|'] + spec_pad_right(spec_truncate(test@, 20), 20) + seq!['|', ' ']
            + spec_pad_right(spec_truncate(comp@, 11), 11) + seq![' ', '|', ' ']
            + spec_pad_right(spec_truncate(style@, 13), 13) + seq![' ', '|', ' ']);
    }
    let ghost head = out@;
    let mut i: usize = 0;
    while i < cells.len()
        invariant
            i <= cells@.len(),
            cols == cells@.map_values(|s: String| s@),
            out@ + spec_row_cols(cols, i as int) == head + spec_row_cols(cols, 0),
        decreases cells@.len() - i,
    {
        push_padded(&mut out, cells[i].as_str(), 18);
        push_char(&mut out, '|');
        if i + 1 < cells.len() {
            push_char(&mut out, ' ');
            assert(out@ + spec_row_cols(cols, i + 1) =~= head + spec_row_cols(cols, 0)) by {
                assert(spec_row_cols(cols, i as int) =~= spec_pad_right(cols[i as int], 18)
                    + seq!['|', ' '] + spec_row_cols(cols, i + 1));
            }
        } else {
            assert(out@ + spec_row_cols(cols, i + 1) =~= head + spec_row_cols(cols, 0)) by {
                assert(spec_row_cols(cols, i as int) =~= spec_pad_right(cols[i as int], 18)
                    + seq!['|'] + spec_row_cols(cols, i + 1));
            }
        }
        i = i + 1;
    }
    proof {
        assert(spec_row_cols(cols, cols.len() as int) =~= Seq::<char>::empty());
        assert(out@ + Seq::<char>::empty() =~= out@);
        assert(head + spec_row_cols(cols, 0) =~= spec_row(test@, comp@, style@, cols));
    }
    out
}

/// The dash-and-plus segments of the border under the value columns.
pub open spec fn spec_border_cols(n: int) -> Seq<char>
    decreases n,
{
    if n <= 0 {
        Seq::<char>::empty()
    } else {
        spec_border_cols(n - 1) + spec_repeat_char('-', 18) + seq!['+']
    }
}

/// The horizontal border of the table, sized for `n` value columns.
pub open spec fn spec_border(n: int) -> Seq<char> {
    seq!['+'] + spec_repeat_char('-', 20) + seq!['+'] + spec_repeat_char('-', 13) + seq!['+']
        + spec_repeat_char('-', 15) + seq!['+'] + spec_border_cols(n)
}

/// Renders the horizontal table border for `n` value columns.
pub fn make_border(n: usize) -> (r: String)
    ensures
        r@ == spec_border(n as int),
{
    let mut out = String::new();
    push_char(&mut out, '+');
    push_repeat(&mut out, '-', 20);
    push_char(&mut out, '+');
    push_repeat(&mut out, '-', 13);
    push_char(&mut out, '+');
    push_repeat(&mut out, '-', 15);
    push_char(&mut out, '+');
    assert(out@ =~= spec_border(0));
    let mut i: usize = 0;
    while i < n
        invariant
            i <= n,
            out@ == spec_border(i as int),
        decreases n - i,
    {
        push_repeat(&mut out, '-', 18);
        push_char(&mut out, '+');
        assert(out@ =~= spec_border(i + 1));
        i = i + 1;
    }
    out
}

/// The sanitized file name of an overview image.
pub open spec fn spec_overview_name(test: TestKind, backend: Seq<char>) -> Seq<char> {
    spec_sanitized(
        "images/"@ + spec_test_name(test) + seq!['-'] + "SrcOver"@ + seq!['-'] + "Solid"@
            + seq!['-'] + backend + ".png"@,
    )
}

fn overview_file_name(test: TestKind, backend: &str) -> (r: String)
    ensures
        r@ == spec_overview_name(test, backend@),
{
    let mut name = String::from_str("images/");
    name.append(test.name());
    push_char(&mut name, '-');
    name.append("SrcOver");
    push_char(&mut name, '-');
    name.append("Solid");
    push_char(&mut name, '-');
    name.append(backend);
    name.append(".png");
    assert(name@ =~= "images/"@ + spec_test_name(test) + seq!['-'] + "SrcOver"@ + seq!['-']
        + "Solid"@ + seq!['-'] + backend@ + ".png"@);
    sanitize(name.as_str())
}

/// Creates the overview canvas for one test in preview mode: room for one
/// surface per ladder size with a one-pixel frame, cleared to opaque
/// black.  Yields nothing outside preview mode or when the canvas would
/// not fit the supported surface dimensions.
pub fn maybe_create_overview(preview: bool, width: u32, height: u32, nsizes: usize) -> (r: Option<
    Buffer,
>)
    ensures
        r is Some <==> preview && spec_overview_fits(width, height, nsizes as int),
        r is Some ==> {
            let b = r->Some_0;
            &&& b.wf()
            &&& b.width == (width + 1) * nsizes + 1
            &&& b.width <= 65535
            &&& b.height == height + 2
            &&& b.height <= 65535
            &&& nsizes <= 65534
            &&& (forall|i: int|
                0 <= i < b.data@.len() ==> b.data@[i] == (Rgba { r: 0, g: 0, b: 0, a: 255 }))
        },
{
    if !preview {
        return None;
    }
    if nsizes > 65534 {
        proof {
            assert(((width as int) + 1) * (nsizes as int) >= nsizes as int) by (nonlinear_arith)
                requires
                    nsizes >= 0,
                    width >= 0,
            ;
        }
        return None;
    }
    proof {
        assert(((width as int) + 1) * (nsizes as int) <= 0x1_0000_0000 * 65534)
            by (nonlinear_arith)
            requires
                width <= 0xFFFF_FFFF,
                0 <= nsizes <= 65534,
        ;
        assert(0 <= ((width as int) + 1) * (nsizes as int)) by (nonlinear_arith)
            requires
                0 <= nsizes,
                width >= 0,
        ;
    }
    let width_total: u64 = ((width as u64) + 1) * (nsizes as u64) + 1;
    if width_total > 65535 {
        return None;
    }
    if height > 65533 {
        return None;
    }
    assert(width_total * ((height + 2) as u64) <= 65535 * 65535) by (nonlinear_arith)
        requires
            0 <= width_total <= 65535,
            0 <= height <= 65533,
    ;
    let mut b = Buffer::new(width_total as u32, height + 2);
    clear_pixmap(&mut b, Rgba { r: 0, g: 0, b: 0, a: 255 });
    Some(b)
}

/// Copies a rendered surface into the overview canvas at its ladder
/// position: one pixel of frame, then one slot of the surface's width per
/// position.
pub fn copy_into_overview(target: &mut Buffer, index: usize, surface: &Buffer, width: u32)
    requires
        old(target).wf(),
        surface.wf(),
        index <= 65534,
    ensures
        final(target).wf(),
        final(target).width == old(target).width,
        final(target).height == old(target).height,
        forall|x: int, y: int|
            0 <= x < final(target).width && 0 <= y < final(target).height
                ==> final(target).spec_pixel(x, y) == spec_blit_pixel(
                *surface,
                *old(target),
                1 + index * (width + 1),
                1,
                x,
                y,
            ),
{
    proof {
        assert(0 <= (index as int) * ((width as int) + 1) <= 65534 * 0x1_0000_0000)
            by (nonlinear_arith)
            requires
                0 <= index <= 65534,
                0 <= width <= 0xFFFF_FFFF,
        ;
    }
    let x: i64 = 1 + (index as i64) * ((width as i64) + 1);
    blit(surface, target, x, 1);
}

/// One backend's finished output: the table lines to print, in order, and
/// the overview images to save, one per test in preview mode.  The ghost
/// fields carry the value columns of each test row and of the total row,
/// so callers can reason about the exact shape of every line.
pub struct BackendReport {
    pub lines: Vec<String>,
    pub overviews: Vec<(String, Buffer)>,
    pub row_columns: Ghost<Seq<Seq<Seq<char>>>>,
    pub total_columns: Ghost<Seq<Seq<char>>>,
    pub cell_values: Ghost<Seq<Seq<u64>>>,
    pub column_totals: Ghost<Seq<u64>>,
}

/// Drives the whole benchmark matrix over backends handed to it and
/// accumulates the result document.
pub struct BenchRunner {
    pub config: BenchmarkConfig,
    pub json: JsonWriter,
    pub baseline: Option<Baseline>,
}

fn clone_u32s(v: &Vec<u32>) -> (r: Vec<u32>)
    ensures
        r@ == v@,
{
    let mut out: Vec<u32> = Vec::new();
    let mut i: usize = 0;
    while i < v.len()
        invariant
            i <= v@.len(),
            out@ =~= v@.subrange(0, i as int),
        decreases v@.len() - i,
    {
        out.push(v[i]);
        i = i + 1;
    }
    assert(out@ =~= v@);
    out
}

fn clone_tests(v: &Vec<TestKind>) -> (r: Vec<TestKind>)
    ensures
        r@ == v@,
{
    let mut out: Vec<TestKind> = Vec::new();
    let mut i: usize = 0;
    while i < v.len()
        invariant
            i <= v@.len(),
            out@ =~= v@.subrange(0, i as int),
        decreases v@.len() - i,
    {
        out.push(v[i]);
        i = i + 1;
    }
    assert(out@ =~= v@);
    out
}

impl BenchRunner {
    /// What the orchestrator relies on: a validated configuration, and a
    /// well-formed baseline index where one is loaded.
    pub open spec fn wf(&self) -> bool {
        &&& self.config.wf()
        &&& match self.baseline {
            Option::Some(b) => b.wf(),
            Option::None => true,
        }
    }

    /// Sets a run up from a validated configuration and an optional
    /// loaded baseline index.
    pub fn new(config: BenchmarkConfig, baseline: Option<Baseline>) -> (r: BenchRunner)
        ensures
            r.config == config,
            r.baseline == baseline,
            r.json.runs@.len() == 0,
            r.json.screen_w == config.width,
            r.json.screen_h == config.height,
            r.json.quantity == config.quantity,
            r.json.repeat == config.min_runs,
            r.json.sizes@ == config.sizes@,
    {
        let sizes = clone_u32s(&config.sizes);
        let json = JsonWriter::new(
            config.width,
            config.height,
            config.quantity,
            config.min_runs,
            sizes,
        );
        BenchRunner { config, json, baseline }
    }

    /// Runs the whole test and size matrix on one backend: calibrates
    /// every cell, accumulates the per-size totals and the baseline
    /// column sums, renders the bordered table (header, one row per test
    /// in selection order, a final total row), gathers overview images in
    /// preview mode, and appends one run with one record per test to the
    /// result document.
    pub fn run_backend<B: Backend>(&mut self, backend: &mut B) -> (r: BackendReport)
        requires
            old(self).wf(),
        ensures
            final(self).wf(),
            final(self).config == old(self).config,
            final(self).baseline == old(self).baseline,
            final(self).json.screen_w == old(self).json.screen_w,
            final(self).json.screen_h == old(self).json.screen_h,
            final(self).json.quantity == old(self).json.quantity,
            final(self).json.repeat == old(self).json.repeat,
            final(self).json.sizes@ == old(self).json.sizes@,
            final(self).json.runs@.len() == old(self).json.runs@.len() + 1,
            forall|i: int|
                0 <= i < old(self).json.runs@.len() ==> final(self).json.runs@[i] == old(
                    self,
                ).json.runs@[i],
            ({
                let run = final(self).json.runs@.last();
                &&& run.records@.len() == old(self).config.tests@.len()
                &&& run.version is None
                &&& forall|t: int|
                    0 <= t < run.records@.len() ==> {
                        let rec = #[trigger] run.records@[t];
                        &&& rec.test_name@ == spec_test_name(old(self).config.tests@[t])
                        &&& rec.comp_op@ == "SrcOver"@
                        &&& rec.style@ == spec_solid_style()
                        &&& rec.rcpms@.len() == old(self).config.sizes@.len()
                    }
            }),
            r.lines@.len() == old(self).config.tests@.len() + 5,
            ({
                let n = old(self).config.tests@.len() as int;
                let ncols = spec_ncols(old(self).config.sizes@.len() as int);
                &&& r.lines@[0]@ == spec_border(ncols)
                &&& r.lines@[2]@ == spec_border(ncols)
                &&& r.lines@[n + 4]@ == spec_border(ncols)
                &&& r.row_columns@.len() == n
                &&& (forall|t: int|
                    #![trigger r.lines@[3 + t]]
                    0 <= t < n ==> r.lines@[3 + t]@ == spec_row(
                        spec_test_name(old(self).config.tests@[t]),
                        "SrcOver"@,
                        spec_solid_style(),
                        r.row_columns@[t],
                    ))
                &&& r.lines@[n + 3]@ == spec_row(
                    "Total"@,
                    "SrcOver"@,
                    spec_solid_style(),
                    r.total_columns@,
                )
                &&& r.lines@[1]@ == spec_row(
                    final(self).json.runs@.last().name@,
                    "SrcOver"@,
                    spec_solid_style(),
                    spec_header_cols(old(self).config.sizes@),
                )
            }),
            r.cell_values@.len() == old(self).config.tests@.len(),
            forall|t: int|
                0 <= t < r.cell_values@.len() ==> (#[trigger] r.cell_values@[t]).len() == old(
                    self,
                ).config.sizes@.len(),
            ({
                let run = final(self).json.runs@.last();
                forall|t: int, s: int|
                    0 <= t < old(self).config.tests@.len() && 0 <= s < old(
                        self,
                    ).config.sizes@.len() ==> (#[trigger] run.records@[t].rcpms@[s])@
                        == spec_format_cpms(r.cell_values@[t][s] as int)
            }),
            r.column_totals@.len() == old(self).config.sizes@.len(),
            forall|s: int|
                0 <= s < r.column_totals@.len() ==> #[trigger] r.column_totals@[s] as int
                    == spec_column_sum(r.cell_values@, s),
            old(self).baseline is None ==> forall|t: int, s: int|
                0 <= t < old(self).config.tests@.len() && 0 <= s < old(self).config.sizes@.len()
                    ==> #[trigger] r.row_columns@[t][s] == spec_format_cpms(
                    r.cell_values@[t][s] as int,
                ),
            old(self).baseline is None ==> forall|s: int|
                0 <= s < old(self).config.sizes@.len() ==> #[trigger] r.total_columns@[s]
                    == spec_format_cpms(r.column_totals@[s] as int),
            old(self).baseline is Some ==> (forall|t: int, s: int|
                0 <= t < old(self).config.tests@.len() && 0 <= s < old(self).config.sizes@.len()
                    ==> #[trigger] r.row_columns@[t][s] == spec_cell_display(
                    r.cell_values@[t][s] as int,
                    spec_format_cpms(r.cell_values@[t][s] as int),
                    Some(
                        spec_lookup_entry(
                            old(self).baseline->Some_0.entries@.map_values(
                                |e: BaselineEntry| e@,
                            ),
                            final(self).json.runs@.last().name@,
                            spec_test_name(old(self).config.tests@[t]),
                            old(self).config.sizes@[s],
                        ),
                    ),
                )),
            old(self).baseline is Some ==> (forall|s: int|
                0 <= s < old(self).config.sizes@.len() ==> #[trigger] r.total_columns@[s]
                    == spec_cell_display(
                    r.column_totals@[s] as int,
                    spec_format_cpms(r.column_totals@[s] as int),
                    Some(
                        spec_sum_finish(
                            spec_column_baseline(
                                old(self).baseline->Some_0.entries@.map_values(
                                    |e: BaselineEntry| e@,
                                ),
                                final(self).json.runs@.last().name@,
                                old(self).config.tests@,
                                old(self).config.sizes@[s],
                            ),
                        ),
                    ),
                )),
            !old(self).config.preview ==> r.overviews@.len() == 0,
            old(self).config.preview && spec_overview_fits(
                old(self).config.width,
                old(self).config.height,
                old(self).config.sizes@.len() as int,
            ) ==> r.overviews@.len() == old(self).config.tests@.len() && (forall|t: int|
                0 <= t < old(self).config.tests@.len() ==> (#[trigger] r.overviews@[t]).0@
                    == spec_overview_name(
                    old(self).config.tests@[t],
                    final(self).json.runs@.last().name@,
                )),
    {
        let preview: bool = self.config.preview;
        let width: u32 = self.config.width;
        let height: u32 = self.config.height;
        let quantity: u32 = self.config.quantity;
        let min_runs: u32 = self.config.min_runs;
        let tests: Vec<TestKind> = clone_tests(&self.config.tests);
        let sizes: Vec<u32> = clone_u32s(&self.config.sizes);
        let name: String = backend.name().to_owned();
        let ghost base_models: Seq<EntryModel> = if old(self).baseline is Some {
            old(self).baseline->Some_0.entries@.map_values(|e: BaselineEntry| e@)
        } else {
            Seq::empty()
        };
        let default_comp = comp_op(0);

        let mut params = BenchParams {
            screen_width: width,
            screen_height: height,
            test: TestKind::FillRectA,
            comp_op: default_comp,
            shape_size: sizes[0],
            quantity,
            stroke_width: 2,
        };

        let mut totals: Vec<u64> = Vec::new();
        while totals.len() < sizes.len()
            invariant
                totals@.len() <= sizes@.len(),
                forall|s: int| 0 <= s < totals@.len() ==> totals@[s] == 0u64,
            decreases sizes@.len() - totals@.len(),
        {
            totals.push(0);
        }

        let mut lines: Vec<String> = Vec::new();
        let mut overviews: Vec<(String, Buffer)> = Vec::new();
        let mut records: Vec<JsonRecord> = Vec::new();

        let ncols: usize = if sizes.len() < 6 {
            6
        } else {
            sizes.len()
        };
        let border = make_border(ncols);
        lines.push(border.clone());
        let mut header_cols: Vec<String> = Vec::new();
        let mut hi: usize = 0;
        while hi < sizes.len()
            invariant
                hi <= sizes@.len(),
                header_cols@.len() == hi,
                forall|j: int|
                    0 <= j < hi ==> (#[trigger] header_cols@[j])@ == spec_size_label(
                        sizes@[j] as int,
                    ),
            decreases sizes@.len() - hi,
        {
            header_cols.push(format_size_label(sizes[hi]));
            hi = hi + 1;
        }
        while header_cols.len() < 6
            invariant
                sizes@.len() <= header_cols@.len() <= spec_ncols(sizes@.len() as int),
                forall|j: int|
                    0 <= j < sizes@.len() ==> (#[trigger] header_cols@[j])@ == spec_size_label(
                        sizes@[j] as int,
                    ),
                forall|j: int|
                    sizes@.len() <= j < header_cols@.len() ==> (#[trigger] header_cols@[j])@
                        == "-"@,
            decreases 6 - header_cols@.len(),
        {
            header_cols.push(String::from_str("-"));
        }
        proof {
            assert(header_cols@.map_values(|s: String| s@) =~= spec_header_cols(sizes@));
        }
        lines.push(format_row(name.as_str(), comp_op_name(0), "Solid", &header_cols));
        lines.push(border.clone());

        let ghost mut row_cols: Seq<Seq<Seq<char>>> = Seq::empty();
        let ghost mut cell_values: Seq<Seq<u64>> = Seq::empty();
        let mut ti: usize = 0;
        while ti < tests.len()
            invariant
                old(self).wf(),
                *self == *old(self),
                tests@ == old(self).config.tests@,
                sizes@ == old(self).config.sizes@,
                tests@.len() <= 29,
                sizes@.len() >= 1,
                preview == old(self).config.preview,
                width == old(self).config.width,
                height == old(self).config.height,
                quantity == old(self).config.quantity,
                min_runs == old(self).config.min_runs,
                ti <= tests@.len(),
                totals@.len() == sizes@.len(),
                forall|s: int|
                    0 <= s < totals@.len() ==> #[trigger] totals@[s] <= ti * CELL_CPMS_MAX,
                records@.len() == ti,
                forall|t: int|
                    0 <= t < ti ==> {
                        let rec = #[trigger] records@[t];
                        &&& rec.test_name@ == spec_test_name(tests@[t])
                        &&& rec.comp_op@ == "SrcOver"@
                        &&& rec.style@ == spec_solid_style()
                        &&& rec.rcpms@.len() == sizes@.len()
                    },
                lines@.len() == 3 + ti,
                ncols == spec_ncols(sizes@.len() as int),
                lines@[0]@ == spec_border(ncols as int),
                lines@[2]@ == spec_border(ncols as int),
                lines@[1]@ == spec_row(
                    name@,
                    "SrcOver"@,
                    spec_solid_style(),
                    spec_header_cols(sizes@),
                ),
                old(self).baseline is Some ==> base_models == old(
                    self,
                ).baseline->Some_0.entries@.map_values(|e: BaselineEntry| e@),
                row_cols.len() == ti,
                forall|t: int|
                    #![trigger lines@[3 + t]]
                    0 <= t < ti ==> lines@[3 + t]@ == spec_row(
                        spec_test_name(tests@[t]),
                        "SrcOver"@,
                        spec_solid_style(),
                        row_cols[t],
                    ),
                cell_values.len() == ti,
                forall|t: int|
                    0 <= t < ti ==> (#[trigger] cell_values[t]).len() == sizes@.len(),
                forall|t: int, s: int|
                    0 <= t < ti && 0 <= s < sizes@.len() ==> (
                    #[trigger] records@[t].rcpms@[s])@ == spec_format_cpms(
                        cell_values[t][s] as int,
                    ),
                forall|s: int|
                    0 <= s < totals@.len() ==> #[trigger] totals@[s] as int == spec_column_sum(
                        cell_values,
                        s,
                    ),
                old(self).baseline is None ==> forall|t: int, s: int|
                    0 <= t < ti && 0 <= s < sizes@.len() ==> #[trigger] row_cols[t][s]
                        == spec_format_cpms(cell_values[t][s] as int),
                old(self).baseline is Some ==> forall|t: int, s: int|
                    0 <= t < ti && 0 <= s < sizes@.len() ==> #[trigger] row_cols[t][s]
                        == spec_cell_display(
                        cell_values[t][s] as int,
                        spec_format_cpms(cell_values[t][s] as int),
                        Some(
                            spec_lookup_entry(
                                base_models,
                                name@,
                                spec_test_name(tests@[t]),
                                sizes@[s],
                            ),
                        ),
                    ),
                !preview ==> overviews@.len() == 0,
                preview && spec_overview_fits(width, height, sizes@.len() as int)
                    ==> overviews@.len() == ti && (forall|t: int|
                    0 <= t < ti ==> (#[trigger] overviews@[t]).0@ == spec_overview_name(
                        tests@[t],
                        name@,
                    )),
            decreases tests@.len() - ti,
        {
            let test: TestKind = tests[ti];
            params.test = test;
            let mut cpms_strings: Vec<String> = Vec::new();
            let mut display_cells: Vec<String> = Vec::new();
            let created: Option<Buffer> = maybe_create_overview(
                preview,
                width,
                height,
                sizes.len(),
            );
            let (mut ov_active, mut ov_buf): (bool, Buffer) = match created {
                Some(b) => (true, b),
                None => (false, Buffer::new(0, 0)),
            };

            let ghost mut row_vals: Seq<u64> = Seq::empty();
            let mut si: usize = 0;
            while si < sizes.len()
                invariant
                    old(self).wf(),
                    *self == *old(self),
                    sizes@ == old(self).config.sizes@,
                    tests@ == old(self).config.tests@,
                    tests@.len() <= 29,
                    ti < tests@.len(),
                    test == tests@[ti as int],
                    si <= sizes@.len(),
                    quantity == old(self).config.quantity,
                    min_runs == old(self).config.min_runs,
                    width == old(self).config.width,
                    preview == old(self).config.preview,
                    totals@.len() == sizes@.len(),
                    forall|s: int|
                        0 <= s < totals@.len() ==> #[trigger] totals@[s] <= (if s < si {
                            (ti + 1) as int
                        } else {
                            ti as int
                        }) * CELL_CPMS_MAX,
                    cpms_strings@.len() == si,
                    display_cells@.len() == si,
                    row_vals.len() == si,
                    cell_values.len() == ti,
                    forall|s: int|
                        0 <= s < si ==> (#[trigger] cpms_strings@[s])@ == spec_format_cpms(
                            row_vals[s] as int,
                        ),
                    old(self).baseline is None ==> forall|s: int|
                        0 <= s < si ==> (#[trigger] display_cells@[s])@ == spec_format_cpms(
                            row_vals[s] as int,
                        ),
                    old(self).baseline is Some ==> base_models == old(
                        self,
                    ).baseline->Some_0.entries@.map_values(|e: BaselineEntry| e@),
                    old(self).baseline is Some ==> forall|s: int|
                        0 <= s < si ==> (#[trigger] display_cells@[s])@ == spec_cell_display(
                            row_vals[s] as int,
                            spec_format_cpms(row_vals[s] as int),
                            Some(
                                spec_lookup_entry(
                                    base_models,
                                    name@,
                                    spec_test_name(test),
                                    sizes@[s],
                                ),
                            ),
                        ),
                    forall|s: int|
                        0 <= s < totals@.len() ==> #[trigger] totals@[s] as int
                            == spec_column_sum(cell_values, s) + (if 0 <= s < si {
                            row_vals[s] as int
                        } else {
                            0
                        }),
                    ov_active ==> preview && ov_buf.wf() && sizes@.len() <= 65534,
                decreases sizes@.len() - si,
            {
                params.shape_size = sizes[si];
                let cell: (u64, u32) = run_single_test(backend, &mut params, quantity, min_runs);
                let duration: u64 = cell.0;
                let used_quantity: u32 = cell.1;
                let cpms: u64 = throughput_e4(used_quantity, duration);
                assert(cpms <= CELL_CPMS_MAX);
                let prior: u64 = totals[si];
                assert(prior + cpms <= (ti + 1) * CELL_CPMS_MAX && (ti + 1) * CELL_CPMS_MAX <= 29
                    * CELL_CPMS_MAX);
                totals.set(si, prior + cpms);
                let formatted: String = format_cpms(cpms);
                let baseline_entry: Option<Result<u64, String>> = match &self.baseline {
                    Some(b) => Some(b.lookup(name.as_str(), test.name(), sizes[si])),
                    None => None,
                };
                if ov_active {
                    let surface: &Buffer = backend.surface();
                    if buffer_is_wf(surface) {
                        copy_into_overview(&mut ov_buf, si, surface, width);
                    }
                }
                cpms_strings.push(formatted.clone());
                let cell_data = CellData::new(cpms, formatted, baseline_entry);
                display_cells.push(format_cell(&cell_data));
                proof {
                    row_vals = row_vals.push(cpms);
                    assert forall|s: int| 0 <= s < totals@.len() implies
                        #[trigger] totals@[s] as int == spec_column_sum(cell_values, s) + (
                    if 0 <= s < si + 1 {
                        row_vals[s] as int
                    } else {
                        0
                    }) by {
                        if s < si {
                            assert(row_vals[s] == row_vals.drop_last()[s]);
                        }
                    }
                }
                si = si + 1;
            }

            if ov_active {
                let file = overview_file_name(test, name.as_str());
                overviews.push((file, ov_buf));
            }

            while display_cells.len() < 6
                invariant
                    sizes@.len() <= display_cells@.len(),
                    old(self).baseline is None ==> forall|s: int|
                        0 <= s < sizes@.len() ==> (#[trigger] display_cells@[s])@
                            == spec_format_cpms(row_vals[s] as int),
                    old(self).baseline is Some ==> forall|s: int|
                        0 <= s < sizes@.len() ==> (#[trigger] display_cells@[s])@
                            == spec_cell_display(
                            row_vals[s] as int,
                            spec_format_cpms(row_vals[s] as int),
                            Some(
                                spec_lookup_entry(
                                    base_models,
                                    name@,
                                    spec_test_name(test),
                                    sizes@[s],
                                ),
                            ),
                        ),
                decreases 6 - display_cells@.len(),
            {
                display_cells.push(String::from_str("-"));
            }
            let row = format_row(test.name(), comp_op_name(0), "Solid", &display_cells);
            let ghost lines_before = lines@;
            lines.push(row);
            proof {
                let cols = display_cells@.map_values(|s: String| s@);
                let cells_before = cell_values;
                row_cols = row_cols.push(cols);
                cell_values = cell_values.push(row_vals);
                assert(lines@[3 + ti as int]@ == spec_row(
                    spec_test_name(tests@[ti as int]),
                    "SrcOver"@,
                    spec_solid_style(),
                    cols,
                ));
                assert forall|t: int| #![trigger lines@[3 + t]] 0 <= t < ti + 1 implies lines@[3
                    + t]@ == spec_row(
                    spec_test_name(tests@[t]),
                    "SrcOver"@,
                    spec_solid_style(),
                    row_cols[t],
                ) by {
                    if t < ti {
                        assert(lines@[3 + t] == lines_before[3 + t]);
                        assert(row_cols[t] == row_cols.drop_last()[t]);
                    }
                }
                assert forall|s: int| 0 <= s < totals@.len() implies
                    #[trigger] totals@[s] as int == spec_column_sum(cell_values, s) by {
                    assert(cell_values.drop_last() =~= cells_before);
                    assert(cell_values.last() == row_vals);
                    assert(totals@[s] as int == spec_column_sum(cells_before, s)
                        + row_vals[s] as int);
                }
                if old(self).baseline is None {
                    assert forall|t: int, s: int|
                        0 <= t < ti + 1 && 0 <= s < sizes@.len() implies #[trigger] row_cols[t][s]
                        == spec_format_cpms(cell_values[t][s] as int) by {
                        if t < ti {
                            assert(row_cols[t] == row_cols.drop_last()[t]);
                            assert(cell_values[t] == cell_values.drop_last()[t]);
                        } else {
                            assert(row_cols[t][s] == display_cells@[s]@);
                        }
                    }
                }
                if old(self).baseline is Some {
                    assert forall|t: int, s: int|
                        0 <= t < ti + 1 && 0 <= s < sizes@.len() implies #[trigger] row_cols[t][s]
                        == spec_cell_display(
                        cell_values[t][s] as int,
                        spec_format_cpms(cell_values[t][s] as int),
                        Some(
                            spec_lookup_entry(
                                base_models,
                                name@,
                                spec_test_name(tests@[t]),
                                sizes@[s],
                            ),
                        ),
                    ) by {
                        if t < ti {
                            assert(row_cols[t] == row_cols.drop_last()[t]);
                            assert(cell_values[t] == cell_values.drop_last()[t]);
                        } else {
                            assert(row_cols[t][s] == display_cells@[s]@);
                            assert(cell_values[t] == row_vals);
                        }
                    }
                }
            }
            let ghost records_before = records@;
            records.push(
                JsonRecord {
                    test_name: test.name().to_owned(),
                    comp_op: comp_op_name(0).to_owned(),
                    style: String::from_str("Solid"),
                    rcpms: cpms_strings,
                },
            );
            proof {
                assert forall|t: int, s: int|
                    0 <= t < ti + 1 && 0 <= s < sizes@.len() implies (
                #[trigger] records@[t].rcpms@[s])@ == spec_format_cpms(
                    cell_values[t][s] as int,
                ) by {
                    if t < ti {
                        assert(records@[t] == records_before[t]);
                        assert(cell_values[t] == cell_values.drop_last()[t]);
                    } else {
                        assert(records@[t].rcpms@ == cpms_strings@);
                        assert(cell_values[t] == row_vals);
                    }
                }
            }
            ti = ti + 1;
        }

        // the total row: per-size sums of throughput, and, when a baseline
        // is loaded, the sticky-error sums of the per-test baseline values
        let mut total_cells: Vec<String> = Vec::new();
        let mut si: usize = 0;
        while si < sizes.len()
            invariant
                old(self).wf(),
                *self == *old(self),
                sizes@ == old(self).config.sizes@,
                tests@ == old(self).config.tests@,
                tests@.len() <= 29,
                si <= sizes@.len(),
                totals@.len() == sizes@.len(),
                total_cells@.len() == si,
                old(self).baseline is None ==> forall|s: int|
                    0 <= s < si ==> (#[trigger] total_cells@[s])@ == spec_format_cpms(
                        totals@[s] as int,
                    ),
                old(self).baseline is Some ==> base_models == old(
                    self,
                ).baseline->Some_0.entries@.map_values(|e: BaselineEntry| e@),
                old(self).baseline is Some ==> forall|s: int|
                    0 <= s < si ==> (#[trigger] total_cells@[s])@ == spec_cell_display(
                        totals@[s] as int,
                        spec_format_cpms(totals@[s] as int),
                        Some(
                            spec_sum_finish(
                                spec_column_baseline(base_models, name@, tests@, sizes@[s]),
                            ),
                        ),
                    ),
            decreases sizes@.len() - si,
        {
            let value: u64 = totals[si];
            let formatted: String = format_cpms(value);
            let has_baseline: bool = self.baseline.is_some();
            let baseline_entry: Option<Result<u64, String>> = if has_baseline {
                let mut sum = BaselineSum::default();
                proof {
                    assert(tests@.take(0) =~= Seq::<TestKind>::empty());
                }
                let mut ci: usize = 0;
                while ci < tests.len()
                    invariant
                        old(self).wf(),
                        *self == *old(self),
                        self.baseline is Some,
                        base_models == old(self).baseline->Some_0.entries@.map_values(
                            |e: BaselineEntry| e@,
                        ),
                        tests@ == old(self).config.tests@,
                        tests@.len() <= 29,
                        si < sizes@.len(),
                        sizes@ == old(self).config.sizes@,
                        totals@.len() == sizes@.len(),
                        ci <= tests@.len(),
                        0 <= sum@.total <= ci * BASELINE_VALUE_MAX,
                        sum@ == spec_column_baseline(
                            base_models,
                            name@,
                            tests@.take(ci as int),
                            sizes@[si as int],
                        ),
                    decreases tests@.len() - ci,
                {
                    let entry: Result<u64, String> = match &self.baseline {
                        Some(b) => b.lookup(name.as_str(), tests[ci].name(), sizes[si]),
                        None => Err(String::new()),
                    };
                    sum.push(entry);
                    proof {
                        assert(tests@.take(ci + 1).drop_last() =~= tests@.take(ci as int));
                        assert(tests@.take(ci + 1).last() == tests@[ci as int]);
                    }
                    ci = ci + 1;
                }
                proof {
                    assert(tests@.take(tests@.len() as int) =~= tests@);
                }
                Some(sum.finish())
            } else {
                None
            };
            let cell_data = CellData::new(value, formatted, baseline_entry);
            total_cells.push(format_cell(&cell_data));
            si = si + 1;
        }
        while total_cells.len() < 6
            invariant
                sizes@.len() <= total_cells@.len(),
                old(self).baseline is None ==> forall|s: int|
                    0 <= s < sizes@.len() ==> (#[trigger] total_cells@[s])@ == spec_format_cpms(
                        totals@[s] as int,
                    ),
                old(self).baseline is Some ==> forall|s: int|
                    0 <= s < sizes@.len() ==> (#[trigger] total_cells@[s])@ == spec_cell_display(
                        totals@[s] as int,
                        spec_format_cpms(totals@[s] as int),
                        Some(
                            spec_sum_finish(
                                spec_column_baseline(base_models, name@, tests@, sizes@[s]),
                            ),
                        ),
                    ),
            decreases 6 - total_cells@.len(),
        {
            total_cells.push(String::from_str("-"));
        }
        let total_row = format_row("Total", comp_op_name(0), "Solid", &total_cells);
        let ghost lines_at_exit = lines@;
        lines.push(total_row);
        proof {
            let cols = total_cells@.map_values(|s: String| s@);
            assert(lines@[lines@.len() - 1]@ == spec_row(
                "Total"@,
                "SrcOver"@,
                spec_solid_style(),
                cols,
            ));
        }
        let ghost lines_with_total = lines@;
        lines.push(border);
        proof {
            let n = tests@.len() as int;
            assert(lines@[n + 3] == lines_with_total[n + 3]);
            assert(lines@[n + 3]@ == spec_row(
                "Total"@,
                "SrcOver"@,
                spec_solid_style(),
                total_cells@.map_values(|s: String| s@),
            ));
        }

        let ghost name_view = name@;
        self.json.push_run(name, None, records);
        let report = BackendReport {
            lines,
            overviews,
            row_columns: Ghost(row_cols),
            total_columns: Ghost(total_cells@.map_values(|s: String| s@)),
            cell_values: Ghost(cell_values),
            column_totals: Ghost(totals@),
        };
        proof {
            let n = old(self).config.tests@.len() as int;
            let nsizes = old(self).config.sizes@.len() as int;
            assert forall|t: int| #![trigger report.lines@[3 + t]] 0 <= t < n implies report
                .lines@[3 + t]@ == spec_row(
                spec_test_name(old(self).config.tests@[t]),
                "SrcOver"@,
                spec_solid_style(),
                report.row_columns@[t],
            ) by {
                assert(tests@[t] == old(self).config.tests@[t]);
                assert(report.lines@[3 + t] == lines_at_exit[3 + t]);
            }
            let run = self.json.runs@.last();
            assert(run.records@ == records@);
            assert forall|t: int, s: int|
                0 <= t < n && 0 <= s < nsizes implies (#[trigger] run.records@[t].rcpms@[s])@
                == spec_format_cpms(report.cell_values@[t][s] as int) by {
                assert(records@[t].rcpms@[s]@ == spec_format_cpms(cell_values[t][s] as int));
            }
            if old(self).baseline is None {
                assert forall|s: int| 0 <= s < nsizes implies #[trigger] report.total_columns@[s]
                    == spec_format_cpms(report.column_totals@[s] as int) by {
                    assert(report.total_columns@[s] == total_cells@[s]@);
                    assert(total_cells@[s]@ == spec_format_cpms(totals@[s] as int));
                }
            }
            assert(self.json.runs@.last().name@ == name_view);
            assert(report.lines@[1] == lines_at_exit[1]);
            assert(report.lines@[1]@ == spec_row(
                name_view,
                "SrcOver"@,
                spec_solid_style(),
                spec_header_cols(old(self).config.sizes@),
            ));
            if old(self).config.preview && spec_overview_fits(
                old(self).config.width,
                old(self).config.height,
                old(self).config.sizes@.len() as int,
            ) {
                assert forall|t: int| 0 <= t < n implies (#[trigger] report.overviews@[t]).0@
                    == spec_overview_name(old(self).config.tests@[t], name_view) by {
                    assert(report.overviews@[t].0@ == spec_overview_name(tests@[t], name_view));
                }
            }
            if old(self).baseline is Some {
                assert forall|t: int, s: int|
                    0 <= t < n && 0 <= s < nsizes implies #[trigger] report.row_columns@[t][s]
                    == spec_cell_display(
                    report.cell_values@[t][s] as int,
                    spec_format_cpms(report.cell_values@[t][s] as int),
                    Some(
                        spec_lookup_entry(
                            old(self).baseline->Some_0.entries@.map_values(
                                |e: BaselineEntry| e@,
                            ),
                            self.json.runs@.last().name@,
                            spec_test_name(old(self).config.tests@[t]),
                            old(self).config.sizes@[s],
                        ),
                    ),
                ) by {
                    assert(row_cols[t][s] == spec_cell_display(
                        cell_values[t][s] as int,
                        spec_format_cpms(cell_values[t][s] as int),
                        Some(
                            spec_lookup_entry(
                                base_models,
                                name_view,
                                spec_test_name(tests@[t]),
                                sizes@[s],
                            ),
                        ),
                    ));
                }
                assert forall|s: int| 0 <= s < nsizes implies #[trigger] report.total_columns@[s]
                    == spec_cell_display(
                    report.column_totals@[s] as int,
                    spec_format_cpms(report.column_totals@[s] as int),
                    Some(
                        spec_sum_finish(
                            spec_column_baseline(
                                old(self).baseline->Some_0.entries@.map_values(
                                    |e: BaselineEntry| e@,
                                ),
                                self.json.runs@.last().name@,
                                old(self).config.tests@,
                                old(self).config.sizes@[s],
                            ),
                        ),
                    ),
                ) by {
                    assert(report.total_columns@[s] == total_cells@[s]@);
                    assert(total_cells@[s]@ == spec_cell_display(
                        totals@[s] as int,
                        spec_format_cpms(totals@[s] as int),
                        Some(
                            spec_sum_finish(
                                spec_column_baseline(base_models, name_view, tests@, sizes@[s]),
                            ),
                        ),
                    ));
                }
            }
        }
        report
    }

    /// Assembles the final result document from everything accumulated,
    /// with the given environment and processor identifiers.
    pub fn finish(self, os: String, arch: String) -> (r: crate::json::JsonDocument)
        ensures
            r.runs == self.json.runs,
            r.environment.os@ == os@,
            r.cpu.arch@ == arch@,
            r.screen.width == self.json.screen_w,
            r.screen.height == self.json.screen_h,
            r.options.quantity == self.json.quantity,
            r.options.repeat == self.json.repeat,
    {
        self.json.document(os, arch)
    }
}

} // verus!
