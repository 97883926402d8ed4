use ssd1322_ui::pixel_buffer::{MonochomeSpriteRef, PixelBuffer};
use ssd1322_ui::Rect;

fn buffer(w: usize, h: usize) -> PixelBuffer {
    PixelBuffer::new(vec![0u8; w * h], w, h, w)
}

#[test]
fn clear_then_rect_touches_only_the_border() {
    let mut pb = buffer(32, 16);
    pb.clear(0);
    pb.rect(Rect { x: 1, y: 1, w: 10, h: 10 }, 15);
    assert_eq!(pb.at(1, 1), 15);
    assert_eq!(pb.at(5, 5), 0);
    assert_eq!(pb.at(10, 1), 15);
    assert_eq!(pb.at(1, 10), 15);
    assert_eq!(pb.at(10, 10), 15);
    assert_eq!(pb.at(5, 1), 15);
    assert_eq!(pb.at(1, 5), 15);
    assert_eq!(pb.at(0, 0), 0);
    assert_eq!(pb.at(11, 11), 0);
    assert_eq!(pb.at(2, 2), 0);
}

#[test]
fn clear_fills_every_pixel() {
    let mut pb = buffer(8, 4);
    pb.clear(9);
    for y in 0..4 {
        for x in 0..8 {
            assert_eq!(pb.at(x, y), 9);
        }
    }
}

#[test]
fn hline_fills_the_inclusive_span() {
    let mut pb = buffer(16, 4);
    pb.clear(0);
    pb.hline(2, 5, 1, 7);
    assert_eq!(pb.at(1, 1), 0);
    assert_eq!(pb.at(2, 1), 7);
    assert_eq!(pb.at(5, 1), 7);
    assert_eq!(pb.at(6, 1), 0);
    assert_eq!(pb.at(2, 0), 0);
    assert_eq!(pb.at(2, 2), 0);
}

#[test]
fn vline_fills_the_inclusive_span() {
    let mut pb = buffer(8, 8);
    pb.clear(0);
    pb.vline(3, 2, 5, 4);
    assert_eq!(pb.at(3, 1), 0);
    assert_eq!(pb.at(3, 2), 4);
    assert_eq!(pb.at(3, 5), 4);
    assert_eq!(pb.at(3, 6), 0);
    assert_eq!(pb.at(2, 3), 0);
    assert_eq!(pb.at(4, 3), 0);
}

#[test]
fn at_mut_writes_one_pixel() {
    let mut pb = buffer(8, 4);
    pb.clear(0);
    *pb.at_mut(3, 2) = 9;
    assert_eq!(pb.at(3, 2), 9);
    assert_eq!(pb.at(2, 2), 0);
    assert_eq!(pb.at(3, 1), 0);
}

#[test]
fn all_covers_the_drawable_area() {
    let pb = buffer(256, 64);
    assert_eq!(pb.all(), Rect { x: 0, y: 0, w: 256, h: 64 });
}

#[test]
fn blit_sets_and_clears_under_the_sprite() {
    let mut pb = buffer(16, 8);
    pb.clear(5);
    // Two rows, lsb-first: row 0 has bits 0 and 2 set, row 1 has bit 1 set.
    let data = [0b0000_0101u8, 0b0000_0010u8];
    let sprite = MonochomeSpriteRef { width: 8, height: 2, stride: 1, data: &data };
    pb.blit_monochrome(&sprite, 2, 3, 7);
    assert_eq!(pb.at(2, 3), 7);
    assert_eq!(pb.at(3, 3), 0); // cleared, not left at 5
    assert_eq!(pb.at(4, 3), 7);
    assert_eq!(pb.at(5, 3), 0);
    assert_eq!(pb.at(2, 4), 0);
    assert_eq!(pb.at(3, 4), 7);
    assert_eq!(pb.at(1, 3), 5); // outside the bounding box
    assert_eq!(pb.at(2, 2), 5);
    assert_eq!(pb.at(2, 5), 5);
}

#[test]
fn blit_skips_columns_past_the_logical_width() {
    let mut pb = buffer(16, 4);
    pb.clear(5);
    // All bits set, but the sprite is only 3 pixels wide.
    let data = [0xffu8];
    let sprite = MonochomeSpriteRef { width: 3, height: 1, stride: 1, data: &data };
    pb.blit_monochrome(&sprite, 1, 1, 9);
    assert_eq!(pb.at(1, 1), 9);
    assert_eq!(pb.at(2, 1), 9);
    assert_eq!(pb.at(3, 1), 9);
    assert_eq!(pb.at(4, 1), 5); // beyond the logical width: untouched
}
