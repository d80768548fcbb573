//! A plain pixel surface and the pixel transforms the harness needs:
//! clearing, clipped blitting and nearest-neighbour scaling.
//!
//! The buffer holds its pixels row by row; the pixel at column `x` of row
//! `y` sits at index `y * width + x`.

use vstd::prelude::*;

verus! {

/// One pixel, four channels of eight bits each.
#[derive(Copy, Clone, Debug, PartialEq, Eq, Structural)]
pub struct Rgba {
    pub r: u8,
    pub g: u8,
    pub b: u8,
    pub a: u8,
}

/// A rectangular pixel surface.
pub struct Buffer {
    pub width: u32,
    pub height: u32,
    pub data: Vec<Rgba>,
}

impl Buffer {
    /// A buffer is well formed when it holds exactly one pixel per
    /// coordinate.
    pub open spec fn wf(&self) -> bool {
        self.data@.len() == self.width * self.height
    }

    /// The pixel at column `x` of row `y`.
    pub open spec fn spec_pixel(&self, x: int, y: int) -> Rgba {
        self.data@[y * self.width + x]
    }

    /// Creates a buffer of the given dimensions with every pixel fully
    /// transparent black.
    pub fn new(width: u32, height: u32) -> (r: Buffer)
        requires
            width * height <= usize::MAX,
        ensures
            r.wf(),
            r.width == width,
            r.height == height,
            forall|i: int| 0 <= i < r.data@.len() ==> r.data@[i] == (Rgba { r: 0, g: 0, b: 0, a: 0 }),
    {
        let total: usize = (width as usize) * (height as usize);
        let mut data: Vec<Rgba> = Vec::new();
        while data.len() < total
            invariant
                data@.len() <= total,
                forall|i: int|
                    0 <= i < data@.len() ==> data@[i] == (Rgba { r: 0, g: 0, b: 0, a: 0 }),
            decreases total - data@.len(),
        {
            data.push(Rgba { r: 0, g: 0, b: 0, a: 0 });
        }
        Buffer { width, height, data }
    }
}

/// Checks well-formedness of a buffer of unknown provenance, so that an
/// untrusted surface can be read safely.
pub fn buffer_is_wf(b: &Buffer) -> (r: bool)
    ensures
        r == b.wf(),
{
    proof {
        lemma_u32_mul_fits(b.width as int, b.height as int);
    }
    let len: u64 = b.data.len() as u64;
    len == (b.width as u64) * (b.height as u64)
}

/// A row-major pixel index names exactly one coordinate pair.
proof fn lemma_index_coords(w: int, x1: int, y1: int, x2: int, y2: int)
    requires
        0 <= x1 < w,
        0 <= x2 < w,
        0 <= y1,
        0 <= y2,
        y1 * w + x1 == y2 * w + x2,
    ensures
        x1 == x2,
        y1 == y2,
{
    assert(x1 == x2 && y1 == y2) by (nonlinear_arith)
        requires
            0 <= x1 < w,
            0 <= x2 < w,
            0 <= y1,
            0 <= y2,
            y1 * w + x1 == y2 * w + x2,
    ;
}

/// A coordinate pair inside the buffer names an index inside its data.
proof fn lemma_coords_in_range(w: int, h: int, x: int, y: int)
    requires
        0 <= x < w,
        0 <= y < h,
    ensures
        0 <= y * w + x < w * h,
{
    assert(0 <= y * w + x < w * h) by (nonlinear_arith)
        requires
            0 <= x < w,
            0 <= y < h,
    ;
}

/// The product of two 32-bit values fits in 64 bits.
proof fn lemma_u32_mul_fits(a: int, b: int)
    requires
        0 <= a < 0x1_0000_0000,
        0 <= b < 0x1_0000_0000,
    ensures
        0 <= a * b <= 0xFFFF_FFFE_0000_0001,
{
    assert(0 <= a * b <= 0xFFFF_FFFE_0000_0001) by (nonlinear_arith)
        requires
            0 <= a < 0x1_0000_0000,
            0 <= b < 0x1_0000_0000,
    ;
}

/// Sets every pixel of the buffer to `color`.
pub fn clear_pixmap(pixmap: &mut Buffer, color: Rgba)
    ensures
        final(pixmap).width == old(pixmap).width,
        final(pixmap).height == old(pixmap).height,
        final(pixmap).data@.len() == old(pixmap).data@.len(),
        forall|i: int| 0 <= i < final(pixmap).data@.len() ==> final(pixmap).data@[i] == color,
{
    let mut i: usize = 0;
    let len: usize = pixmap.data.len();
    while i < len
        invariant
            len == pixmap.data@.len(),
            pixmap.width == old(pixmap).width,
            pixmap.height == old(pixmap).height,
            i <= len,
            forall|j: int| 0 <= j < i ==> pixmap.data@[j] == color,
        decreases len - i,
    {
        pixmap.data.set(i, color);
        i = i + 1;
    }
}

/// What one destination pixel holds after a blit of `src` at the given
/// origin: the source pixel where the source covers it, the old pixel
/// everywhere else.
pub open spec fn spec_blit_pixel(
    src: Buffer,
    dst_before: Buffer,
    origin_x: int,
    origin_y: int,
    x: int,
    y: int,
) -> Rgba {
    if origin_x <= x < origin_x + src.width && origin_y <= y < origin_y + src.height {
        src.spec_pixel(x - origin_x, y - origin_y)
    } else {
        dst_before.spec_pixel(x, y)
    }
}

/// Copies `src` into `dst` with its top-left corner at the given origin,
/// clipping whatever falls outside `dst`.
pub fn blit(src: &Buffer, dst: &mut Buffer, origin_x: i64, origin_y: i64)
    requires
        src.wf(),
        old(dst).wf(),
        origin_x <= i64::MAX - src.width,
        origin_y <= i64::MAX - src.height,
    ensures
        final(dst).wf(),
        final(dst).width == old(dst).width,
        final(dst).height == old(dst).height,
        forall|x: int, y: int|
            0 <= x < final(dst).width && 0 <= y < final(dst).height ==> final(dst).spec_pixel(x, y)
                == spec_blit_pixel(*src, *old(dst), origin_x as int, origin_y as int, x, y),
{
    let sw: u32 = src.width;
    let sh: u32 = src.height;
    let dw: u32 = dst.width;
    let dh: u32 = dst.height;
    let src_len: usize = src.data.len();
    let dst_len: usize = dst.data.len();
    let mut y: u32 = 0;
    while y < sh
        invariant
            src.wf(),
            dst.wf(),
            src_len == src.data@.len(),
            dst_len == dst.data@.len(),
            sw == src.width,
            sh == src.height,
            dw == dst.width,
            dh == dst.height,
            dst.width == old(dst).width,
            dst.height == old(dst).height,
            origin_x <= i64::MAX - sw,
            origin_y <= i64::MAX - sh,
            y <= sh,
            forall|xi: int, yi: int|
                0 <= xi < dw && 0 <= yi < dh ==> dst.spec_pixel(xi, yi) == (
                if origin_x <= xi < origin_x + sw && origin_y <= yi && yi < origin_y + y {
                    src.spec_pixel(xi - origin_x, yi - origin_y)
                } else {
                    old(dst).spec_pixel(xi, yi)
                }),
        decreases sh - y,
    {
        let dy: i64 = origin_y + y as i64;
        if 0 <= dy && dy < dh as i64 {
            let mut x: u32 = 0;
            while x < sw
                invariant
                    src.wf(),
                    dst.wf(),
                    src_len == src.data@.len(),
                    dst_len == dst.data@.len(),
                    sw == src.width,
                    sh == src.height,
                    dw == dst.width,
                    dh == dst.height,
                    dst.width == old(dst).width,
                    dst.height == old(dst).height,
                    origin_x <= i64::MAX - sw,
                    origin_y <= i64::MAX - sh,
                    y < sh,
                    x <= sw,
                    dy == origin_y + y,
                    0 <= dy < dh,
                    forall|xi: int, yi: int|
                        0 <= xi < dw && 0 <= yi < dh ==> dst.spec_pixel(xi, yi) == (
                        if origin_x <= xi < origin_x + sw && origin_y <= yi && (yi < origin_y
                            + y || (yi == origin_y + y && xi < origin_x + x)) {
                            src.spec_pixel(xi - origin_x, yi - origin_y)
                        } else {
                            old(dst).spec_pixel(xi, yi)
                        }),
                decreases sw - x,
            {
                let dx: i64 = origin_x + x as i64;
                if 0 <= dx && dx < dw as i64 {
                    proof {
                        lemma_coords_in_range(sw as int, sh as int, x as int, y as int);
                        lemma_coords_in_range(dw as int, dh as int, dx as int, dy as int);
                    }
                    let src_idx: usize = (y as usize) * (sw as usize) + (x as usize);
                    let dst_idx: usize = (dy as usize) * (dw as usize) + (dx as usize);
                    let ghost prev = *dst;
                    let px: Rgba = src.data[src_idx];
                    dst.data.set(dst_idx, px);
                    proof {
                        assert forall|xi: int, yi: int|
                            0 <= xi < dw && 0 <= yi < dh implies dst.spec_pixel(xi, yi) == (
                        if origin_x <= xi < origin_x + sw && origin_y <= yi && (yi < origin_y
                            + y || (yi == origin_y + y && xi < origin_x + x + 1)) {
                            src.spec_pixel(xi - origin_x, yi - origin_y)
                        } else {
                            old(dst).spec_pixel(xi, yi)
                        }) by {
                            lemma_coords_in_range(dw as int, dh as int, xi, yi);
                            if yi * dw + xi == dst_idx {
                                lemma_index_coords(dw as int, xi, yi, dx as int, dy as int);
                            } else {
                                assert(dst.spec_pixel(xi, yi) == prev.spec_pixel(xi, yi));
                            }
                        }
                    }
                }
                x = x + 1;
            }
        }
        y = y + 1;
    }
}

/// Copies a buffer pixel for pixel.
pub fn copy_pixmap(src: &Buffer) -> (r: Buffer)
    requires
        src.wf(),
    ensures
        r.wf(),
        r.width == src.width,
        r.height == src.height,
        r.data@ == src.data@,
{
    let mut data: Vec<Rgba> = Vec::new();
    let len: usize = src.data.len();
    let mut i: usize = 0;
    while i < len
        invariant
            len == src.data@.len(),
            i <= len,
            data@ =~= src.data@.subrange(0, i as int),
        decreases len - i,
    {
        data.push(src.data[i]);
        i = i + 1;
    }
    assert(data@ =~= src.data@);
    Buffer { width: src.width, height: src.height, data }
}

/// Scales `src` to a square of side `size` by nearest-neighbour sampling:
/// the result's pixel `(x, y)` is the source pixel at column
/// `x * src.width / size` of row `y * src.height / size`.
pub fn scale_pixmap(src: &Buffer, size: u32) -> (r: Buffer)
    requires
        src.wf(),
        src.width >= 1,
        src.height >= 1,
        size >= 1,
        size * size <= usize::MAX,
    ensures
        r.wf(),
        r.width == size,
        r.height == size,
        forall|x: int, y: int|
            0 <= x < size && 0 <= y < size ==> r.spec_pixel(x, y) == src.spec_pixel(
                x * src.width / (size as int),
                y * src.height / (size as int),
            ),
{
    let sw: u32 = src.width;
    let sh: u32 = src.height;
    let src_len: usize = src.data.len();
    let mut dst: Buffer = Buffer::new(size, size);
    let mut y: u32 = 0;
    while y < size
        invariant
            src.wf(),
            dst.wf(),
            src_len == src.data@.len(),
            sw == src.width,
            sh == src.height,
            sw >= 1,
            sh >= 1,
            size >= 1,
            dst.width == size,
            dst.height == size,
            size * size <= usize::MAX,
            y <= size,
            forall|xi: int, yi: int|
                0 <= xi < size && 0 <= yi < y ==> dst.spec_pixel(xi, yi) == src.spec_pixel(
                    xi * sw / (size as int),
                    yi * sh / (size as int),
                ),
        decreases size - y,
    {
        proof {
            lemma_u32_mul_fits(y as int, sh as int);
        }
        let sy: u64 = (y as u64) * (sh as u64) / (size as u64);
        proof {
            assert(y * sh / (size as int) < sh) by (nonlinear_arith)
                requires
                    0 <= y < size,
                    sh >= 1,
            ;
        }
        let mut x: u32 = 0;
        while x < size
            invariant
                src.wf(),
                dst.wf(),
                src_len == src.data@.len(),
                sw == src.width,
                sh == src.height,
                sw >= 1,
                sh >= 1,
                size >= 1,
                dst.width == size,
                dst.height == size,
                size * size <= usize::MAX,
                y < size,
                x <= size,
                sy == y * sh / (size as int),
                sy < sh,
                forall|xi: int, yi: int|
                    0 <= xi < size && yi == y && xi < x ==> dst.spec_pixel(xi, yi)
                        == src.spec_pixel(xi * sw / (size as int), yi * sh / (size as int)),
                forall|xi: int, yi: int|
                    0 <= xi < size && 0 <= yi < y ==> dst.spec_pixel(xi, yi) == src.spec_pixel(
                        xi * sw / (size as int),
                        yi * sh / (size as int),
                    ),
            decreases size - x,
        {
            proof {
                lemma_u32_mul_fits(x as int, sw as int);
            }
            let sx: u64 = (x as u64) * (sw as u64) / (size as u64);
            proof {
                assert(x * sw / (size as int) < sw) by (nonlinear_arith)
                    requires
                        0 <= x < size,
                        sw >= 1,
                ;
                lemma_coords_in_range(sw as int, sh as int, sx as int, sy as int);
                lemma_coords_in_range(size as int, size as int, x as int, y as int);
            }
            let src_idx: usize = (sy as usize) * (sw as usize) + (sx as usize);
            let dst_idx: usize = (y as usize) * (size as usize) + (x as usize);
            let ghost prev = dst;
            let px: Rgba = src.data[src_idx];
            dst.data.set(dst_idx, px);
            proof {
                assert forall|xi: int, yi: int|
                    0 <= xi < size && ((yi == y && xi < x + 1) || (0 <= yi < y)) implies
                    dst.spec_pixel(xi, yi) == src.spec_pixel(
                    xi * sw / (size as int),
                    yi * sh / (size as int),
                ) by {
                    lemma_coords_in_range(size as int, size as int, xi, yi);
                    if yi * size + xi == dst_idx {
                        lemma_index_coords(size as int, xi, yi, x as int, y as int);
                    } else {
                        assert(dst.spec_pixel(xi, yi) == prev.spec_pixel(xi, yi));
                    }
                }
            }
            x = x + 1;
        }
        y = y + 1;
    }
    dst
}

} // verus!
