//! Binary glyph-table fonts and string layout.
//!
//! A font blob is a fixed header of 96 little-endian 4-byte offsets (one per
//! printable ASCII code in `0x20..=0x7f`) followed by glyph records:
//! `stride, height, baseline_offset, advance`, then `stride * height` bytes
//! of 1-bit row-major bitmap data.

use vstd::prelude::*;
use vstd::string::StringSliceAdditionalSpecFns;

use crate::pixel_buffer::{blit_result, MonochomeSpriteRef, PixelBuffer, SpriteView};

verus! {

/// The 32-bit little-endian value stored at `i`.
pub open spec fn le32_at(s: Seq<u8>, i: int) -> int {
    s[i] + 0x100 * s[i + 1] + 0x1_0000 * s[i + 2] + 0x100_0000 * s[i + 3]
}

/// Offset of the glyph record for code `c`, read from the header.
pub open spec fn glyph_offset(s: Seq<u8>, c: u8) -> int {
    le32_at(s, 4 * (c - 0x20))
}

/// Bytes-per-row of the glyph bitmap for `c`.
pub open spec fn glyph_stride(s: Seq<u8>, c: u8) -> u8 {
    s[glyph_offset(s, c)]
}

/// Pixel height of the glyph for `c`.
pub open spec fn glyph_height(s: Seq<u8>, c: u8) -> u8 {
    s[glyph_offset(s, c) + 1]
}

/// How far the glyph for `c` reaches above its draw position: the glyph is
/// blitted at `baseline_y - baseline_offset`.
pub open spec fn glyph_baseline_offset(s: Seq<u8>, c: u8) -> u8 {
    s[glyph_offset(s, c) + 2]
}

/// How far the cursor moves after drawing the glyph for `c`.
pub open spec fn glyph_advance(s: Seq<u8>, c: u8) -> u8 {
    s[glyph_offset(s, c) + 3]
}

/// Pixel width of the glyph's sprite (the full stored rows; trailing blank
/// columns are drawn as background).
pub open spec fn glyph_width(s: Seq<u8>, c: u8) -> int {
    8 * glyph_stride(s, c)
}

/// The font blob holds a complete, in-bounds glyph record for code `c`:
/// `c` is printable ASCII, the header table is complete, the record's
/// bitmap lies inside the blob, and the sprite width fits its byte.
pub open spec fn glyph_ok(s: Seq<u8>, c: u8) -> bool {
    &&& 0x20 <= c <= 0x7f
    &&& s.len() >= 0x180
    &&& glyph_offset(s, c) + 4 + glyph_stride(s, c) * glyph_height(s, c) <= s.len()
    &&& glyph_stride(s, c) <= 31
}

/// The sprite stored for code `c`.
pub open spec fn glyph_sprite(s: Seq<u8>, c: u8) -> SpriteView {
    SpriteView {
        width: glyph_width(s, c),
        height: glyph_height(s, c) as int,
        stride: glyph_stride(s, c) as int,
        data: s.subrange(
            glyph_offset(s, c) + 4,
            glyph_offset(s, c) + 4 + glyph_stride(s, c) * glyph_height(s, c),
        ),
    }
}

/// A parsed glyph record together with a zero-copy view of its bitmap.
#[derive(Debug)]
pub struct GlyphInfo<'a> {
    pub baseline_offset: u8,
    pub advance: u8,
    pub sprite: MonochomeSpriteRef<'a>,
}

/// A read-only binary glyph-table font.
pub struct Font<'a> {
    bin: &'a [u8],
}

impl<'a> View for Font<'a> {
    type V = Seq<u8>;

    closed spec fn view(&self) -> Seq<u8> {
        self.bin@
    }
}

impl<'a> Font<'a> {
    /// Wrap a font blob.
    pub fn new(bin: &'a [u8]) -> (r: Font<'a>)
        ensures
            r@ == bin@,
    {
        Font { bin }
    }

    /// Look up the glyph record for code `c`. Returns `None` exactly when
    /// the blob holds no complete record for `c` (code outside printable
    /// ASCII, truncated header, or a record that runs past the blob).
    pub fn glyph_info(&self, c: u8) -> (r: Option<GlyphInfo<'a>>)
        ensures
            r is Some <==> glyph_ok(self@, c),
            r is Some ==> {
                let g = r.unwrap();
                &&& g.baseline_offset == glyph_baseline_offset(self@, c)
                &&& g.advance == glyph_advance(self@, c)
                &&& g.sprite@ == glyph_sprite(self@, c)
                &&& g.sprite@.wf()
            },
    {
        if c < 0x20 || c > 0x7f {
            return None;
        }
        let len = self.bin.len();
        if len < 0x180 {
            return None;
        }
        let hdr = (c - 0x20) as usize * 4;
        let off_lo = self.bin[hdr];
        let off_b1 = self.bin[hdr + 1];
        let off_b2 = self.bin[hdr + 2];
        let off_b3 = self.bin[hdr + 3];
        let off: u64 = off_lo as u64 + 0x100 * (off_b1 as u64) + 0x1_0000 * (off_b2 as u64)
            + 0x100_0000 * (off_b3 as u64);
        if off + 4 > len as u64 {
            return None;
        }
        let off_us = off as usize;
        let stride = self.bin[off_us];
        let height = self.bin[off_us + 1];
        let baseline_offset = self.bin[off_us + 2];
        let advance = self.bin[off_us + 3];
        if stride > 31 {
            return None;
        }
        proof {
            assert(stride as int * height as int <= 31 * 255) by (nonlinear_arith)
                requires
                    0 <= stride <= 31 && 0 <= height <= 255,
            ;
        }
        let bitmap_len = stride as usize * height as usize;
        if off + 4 + bitmap_len as u64 > len as u64 {
            return None;
        }
        let data = vstd::slice::slice_subrange(self.bin, off_us + 4, off_us + 4 + bitmap_len);
        Some(
            GlyphInfo {
                baseline_offset,
                advance,
                sprite: MonochomeSpriteRef { width: stride * 8, height, stride, data },
            },
        )
    }

    /// Draw `string` into `pb`, one glyph per byte, left to right starting
    /// at `x` with the glyph baselines on `baseline_y`. Returns the final
    /// cursor position: `x` plus the sum of the glyphs' advance fields.
    pub fn draw(
        &self,
        pb: &mut PixelBuffer,
        string: &str,
        x: i32,
        baseline_y: i32,
        color: u8,
    ) -> (r: i32)
        requires
            old(pb).wf(),
            draw_fits(
                self@,
                string.spec_bytes(),
                old(pb).width(),
                old(pb).height(),
                x as int,
                baseline_y as int,
            ),
            cursor_at(self@, string.spec_bytes(), x as int, string.spec_bytes().len() as int)
                <= i32::MAX,
        ensures
            r == cursor_at(self@, string.spec_bytes(), x as int, string.spec_bytes().len() as int),
            final(pb).wf(),
            final(pb).same_shape(*old(pb)),
            final(pb)@ == draw_upto(
                self@,
                old(pb)@,
                old(pb).stride(),
                string.spec_bytes(),
                x as int,
                baseline_y as int,
                color,
                string.spec_bytes().len() as int,
            ),
    {
        let ghost font = self@;
        let ghost text = string.spec_bytes();
        let bytes = string.as_bytes();
        let n = bytes.len();
        let mut cur_x = x;
        let mut i: usize = 0;
        while i < n
            invariant
                old(pb).wf(),
                pb.wf(),
                pb.same_shape(*old(pb)),
                font == self@,
                bytes@ == text,
                n == text.len(),
                i <= n,
                draw_fits(font, text, old(pb).width(), old(pb).height(), x as int, baseline_y as int),
                cursor_at(font, text, x as int, n as int) <= i32::MAX,
                cur_x == cursor_at(font, text, x as int, i as int),
                pb@ == draw_upto(
                    font,
                    old(pb)@,
                    old(pb).stride(),
                    text,
                    x as int,
                    baseline_y as int,
                    color,
                    i as int,
                ),
            decreases n - i,
        {
            let c = bytes[i];
            proof {
                assert(c == text[i as int]);
                assert(glyph_ok(font, c));
                lemma_cursor_monotonic(font, text, x as int, i as int + 1, n as int);
            }
            let info = self.glyph_info(c).unwrap();
            let sprite_y = baseline_y - info.baseline_offset as i32;
            pb.blit_monochrome(&info.sprite, cur_x, sprite_y, color);
            cur_x = cur_x + info.advance as i32;
            i = i + 1;
        }
        cur_x
    }
}

/// Cursor x position after laying out the first `i` bytes of `text`,
/// starting from `x`: each glyph advances the cursor by its `advance`
/// field, regardless of its bitmap.
pub open spec fn cursor_at(font: Seq<u8>, text: Seq<u8>, x: int, i: int) -> int
    decreases i,
{
    if i <= 0 {
        x
    } else {
        cursor_at(font, text, x, i - 1) + glyph_advance(font, text[i - 1])
    }
}

/// Buffer contents after opaquely blitting the first `i` glyphs of `text`.
pub open spec fn draw_upto(
    font: Seq<u8>,
    dst: Seq<u8>,
    stride: int,
    text: Seq<u8>,
    x: int,
    baseline_y: int,
    color: u8,
    i: int,
) -> Seq<u8>
    decreases i,
{
    if i <= 0 {
        dst
    } else {
        let c = text[i - 1];
        blit_result(
            draw_upto(font, dst, stride, text, x, baseline_y, color, i - 1),
            stride,
            glyph_sprite(font, c),
            cursor_at(font, text, x, i - 1),
            baseline_y - glyph_baseline_offset(font, c),
            color,
        )
    }
}

/// Every glyph of `text` exists in `font` and its blit stays inside a
/// `dst_w x dst_h` buffer when layout starts at `x` with baseline
/// `baseline_y`.
pub open spec fn draw_fits(
    font: Seq<u8>,
    text: Seq<u8>,
    dst_w: int,
    dst_h: int,
    x: int,
    baseline_y: int,
) -> bool {
    forall|i: int| #![trigger text[i]]
        0 <= i < text.len() ==> {
            let c = text[i];
            &&& glyph_ok(font, c)
            &&& 0 <= cursor_at(font, text, x, i)
            &&& cursor_at(font, text, x, i) + glyph_width(font, c) <= dst_w
            &&& glyph_baseline_offset(font, c) <= baseline_y
            &&& baseline_y - glyph_baseline_offset(font, c) + glyph_height(font, c) <= dst_h
        }
}

/// Drawing a two-character string advances the cursor by exactly the sum
/// of the two glyphs' advance fields, regardless of their bitmaps.
pub proof fn lemma_cursor_two_chars(font: Seq<u8>, text: Seq<u8>, x: int)
    requires
        text.len() == 2,
    ensures
        cursor_at(font, text, x, 2) == x + glyph_advance(font, text[0]) + glyph_advance(
            font,
            text[1],
        ),
{
    assert(cursor_at(font, text, x, 0) == x);
    assert(cursor_at(font, text, x, 1) == x + glyph_advance(font, text[0]));
    assert(cursor_at(font, text, x, 2) == cursor_at(font, text, x, 1) + glyph_advance(
        font,
        text[1],
    ));
}

/// The layout cursor never moves left: glyph advances are non-negative.
pub proof fn lemma_cursor_monotonic(font: Seq<u8>, text: Seq<u8>, x: int, i: int, j: int)
    requires
        0 <= i <= j,
    ensures
        cursor_at(font, text, x, i) <= cursor_at(font, text, x, j),
    decreases j,
{
    if i < j {
        lemma_cursor_monotonic(font, text, x, i, j - 1);
    }
}

} // verus!
