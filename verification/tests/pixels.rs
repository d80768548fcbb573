use blend2d_bench::buffer::{blit, clear_pixmap, copy_pixmap, scale_pixmap, Buffer, Rgba};

fn px(v: u8) -> Rgba {
    Rgba { r: v, g: v, b: v, a: 255 }
}

fn buffer_from(width: u32, height: u32, values: &[u8]) -> Buffer {
    let mut b = Buffer::new(width, height);
    for (i, v) in values.iter().enumerate() {
        b.data[i] = px(*v);
    }
    b
}

fn value_at(b: &Buffer, x: u32, y: u32) -> u8 {
    b.data[(y * b.width + x) as usize].r
}

#[test]
fn new_buffer_is_transparent() {
    let b = Buffer::new(3, 2);
    assert_eq!(b.width, 3);
    assert_eq!(b.height, 2);
    assert_eq!(b.data.len(), 6);
    assert!(b.data.iter().all(|p| *p == Rgba { r: 0, g: 0, b: 0, a: 0 }));
}

#[test]
fn clear_sets_every_pixel() {
    let mut b = Buffer::new(4, 4);
    clear_pixmap(&mut b, Rgba { r: 1, g: 2, b: 3, a: 4 });
    assert!(b.data.iter().all(|p| *p == Rgba { r: 1, g: 2, b: 3, a: 4 }));
}

#[test]
fn blit_copies_where_the_source_covers() {
    let src = buffer_from(2, 2, &[1, 2, 3, 4]);
    let mut dst = Buffer::new(4, 4);
    clear_pixmap(&mut dst, px(9));
    blit(&src, &mut dst, 1, 1);
    assert_eq!(value_at(&dst, 0, 0), 9);
    assert_eq!(value_at(&dst, 1, 1), 1);
    assert_eq!(value_at(&dst, 2, 1), 2);
    assert_eq!(value_at(&dst, 1, 2), 3);
    assert_eq!(value_at(&dst, 2, 2), 4);
    assert_eq!(value_at(&dst, 3, 3), 9);
}

#[test]
fn blit_clips_outside_the_destination() {
    let src = buffer_from(2, 2, &[1, 2, 3, 4]);
    let mut dst = Buffer::new(2, 2);
    clear_pixmap(&mut dst, px(9));
    blit(&src, &mut dst, -1, -1);
    // only the source's bottom-right pixel lands inside
    assert_eq!(value_at(&dst, 0, 0), 4);
    assert_eq!(value_at(&dst, 1, 0), 9);
    assert_eq!(value_at(&dst, 0, 1), 9);
    assert_eq!(value_at(&dst, 1, 1), 9);
    // a blit entirely outside changes nothing
    blit(&src, &mut dst, 10, 10);
    assert_eq!(value_at(&dst, 0, 0), 4);
}

#[test]
fn copy_is_pixel_exact() {
    let src = buffer_from(2, 3, &[1, 2, 3, 4, 5, 6]);
    let c = copy_pixmap(&src);
    assert_eq!(c.width, 2);
    assert_eq!(c.height, 3);
    assert_eq!(c.data, src.data);
}

#[test]
fn scale_picks_nearest_neighbours() {
    let src = buffer_from(2, 2, &[1, 2, 3, 4]);
    let up = scale_pixmap(&src, 4);
    assert_eq!(up.width, 4);
    assert_eq!(up.height, 4);
    // each source pixel covers a 2 by 2 block
    assert_eq!(value_at(&up, 0, 0), 1);
    assert_eq!(value_at(&up, 1, 1), 1);
    assert_eq!(value_at(&up, 2, 0), 2);
    assert_eq!(value_at(&up, 3, 1), 2);
    assert_eq!(value_at(&up, 0, 2), 3);
    assert_eq!(value_at(&up, 3, 3), 4);

    let down = scale_pixmap(&src, 1);
    assert_eq!(down.data.len(), 1);
    assert_eq!(value_at(&down, 0, 0), 1);

    let same = scale_pixmap(&src, 2);
    assert_eq!(same.data, src.data);
}
