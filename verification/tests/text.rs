use ssd1322_ui::pixel_buffer::PixelBuffer;
use ssd1322_ui::text::Font;

/// Builds a font blob with glyph records for 'A' and 'B'.
///
/// 'A': stride 1, height 2, baseline_offset 2, advance 5, rows
/// `[0b01, 0b10]`; 'B': stride 1, height 1, baseline_offset 0, advance 3,
/// row `[0b01]`.
fn font_blob() -> Vec<u8> {
    let mut blob = vec![0u8; 0x180];
    let a_off: u32 = 0x180;
    let b_off: u32 = 0x180 + 6;
    let a_idx = (b'A' as usize - 0x20) * 4;
    blob[a_idx..a_idx + 4].copy_from_slice(&a_off.to_le_bytes());
    let b_idx = (b'B' as usize - 0x20) * 4;
    blob[b_idx..b_idx + 4].copy_from_slice(&b_off.to_le_bytes());
    // 'A' record
    blob.extend_from_slice(&[1, 2, 2, 5, 0b01, 0b10]);
    // 'B' record
    blob.extend_from_slice(&[1, 1, 0, 3, 0b01]);
    blob
}

#[test]
fn glyph_info_parses_the_record() {
    let blob = font_blob();
    let font = Font::new(&blob);
    let a = font.glyph_info(b'A').unwrap();
    assert_eq!(a.baseline_offset, 2);
    assert_eq!(a.advance, 5);
    assert_eq!(a.sprite.stride, 1);
    assert_eq!(a.sprite.height, 2);
    assert_eq!(a.sprite.width, 8);
    assert_eq!(a.sprite.data, &[0b01, 0b10]);
}

#[test]
fn glyph_info_rejects_unprintable_codes() {
    let blob = font_blob();
    let font = Font::new(&blob);
    assert!(font.glyph_info(0x1f).is_none());
    assert!(font.glyph_info(0x80).is_none());
    assert!(font.glyph_info(b'\n').is_none());
}

#[test]
fn glyph_info_rejects_a_truncated_header() {
    let blob = vec![0u8; 0x100];
    let font = Font::new(&blob);
    assert!(font.glyph_info(b'A').is_none());
}

#[test]
fn glyph_info_rejects_a_record_past_the_blob() {
    let mut blob = vec![0u8; 0x180];
    let idx = (b'Z' as usize - 0x20) * 4;
    blob[idx..idx + 4].copy_from_slice(&0x180u32.to_le_bytes());
    // The record itself would start exactly at the end of the blob.
    let font = Font::new(&blob);
    assert!(font.glyph_info(b'Z').is_none());
}

#[test]
fn draw_advances_by_the_sum_of_advances() {
    let blob = font_blob();
    let font = Font::new(&blob);
    let mut pb = PixelBuffer::new(vec![0u8; 64 * 16], 64, 16, 64);
    let end = font.draw(&mut pb, "AB", 10, 5, 15);
    assert_eq!(end, 10 + 5 + 3);
}

#[test]
fn draw_of_an_empty_string_keeps_the_cursor() {
    let blob = font_blob();
    let font = Font::new(&blob);
    let mut pb = PixelBuffer::new(vec![0u8; 32 * 8], 32, 8, 32);
    assert_eq!(font.draw(&mut pb, "", 7, 4, 15), 7);
}

#[test]
fn draw_blits_each_glyph_at_the_cursor() {
    let blob = font_blob();
    let font = Font::new(&blob);
    let mut pb = PixelBuffer::new(vec![3u8; 64 * 16], 64, 16, 64);
    font.draw(&mut pb, "AB", 10, 5, 15);
    // 'A' is drawn at (10, 5 - 2): bit 0 of row 0, bit 1 of row 1.
    assert_eq!(pb.at(10, 3), 15);
    assert_eq!(pb.at(11, 3), 0);
    assert_eq!(pb.at(10, 4), 0);
    assert_eq!(pb.at(11, 4), 15);
    // 'B' is drawn at (15, 5 - 0): bit 0 of its single row.
    assert_eq!(pb.at(15, 5), 15);
    assert_eq!(pb.at(16, 5), 0);
    // Outside both bounding boxes the buffer is untouched.
    assert_eq!(pb.at(9, 3), 3);
    assert_eq!(pb.at(10, 6), 3);
}
