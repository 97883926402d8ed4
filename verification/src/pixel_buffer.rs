//! A packed grayscale framebuffer: one pixel per byte (intensity in the low
//! nibble), rows padded to a stride, with line/rectangle drawing primitives
//! and an opaque monochrome sprite blit.

use vstd::prelude::*;

use crate::Rect;

verus! {

/// A 1-bit-per-pixel bitmap, row-major, each row padded to `stride` bytes,
/// least-significant bit first within a byte.
#[derive(Debug)]
pub struct MonochomeSpriteRef<'a> {
    pub width: u8,
    pub height: u8,
    pub stride: u8,
    pub data: &'a [u8],
}

/// The mathematical content of a monochrome sprite: its dimensions and raw
/// bitmap bytes.
pub ghost struct SpriteView {
    pub width: int,
    pub height: int,
    pub stride: int,
    pub data: Seq<u8>,
}

impl SpriteView {
    /// The bitmap holds `stride` bytes for each of the `height` rows, and
    /// the logical width is covered by those bytes.
    pub open spec fn wf(self) -> bool {
        &&& 0 <= self.width
        &&& 0 <= self.height
        &&& 0 <= self.stride
        &&& self.data.len() == self.stride * self.height
        &&& self.width <= 8 * self.stride
    }

    /// Whether the sprite pixel at column `dx` of row `dy` is set.
    pub open spec fn bit_at(self, dx: int, dy: int) -> bool {
        (self.data[dy * self.stride + dx / 8] & (1u8 << ((dx % 8) as u8))) != 0
    }
}

impl<'a> View for MonochomeSpriteRef<'a> {
    type V = SpriteView;

    open spec fn view(&self) -> SpriteView {
        SpriteView {
            width: self.width as int,
            height: self.height as int,
            stride: self.stride as int,
            data: self.data@,
        }
    }
}

/// A caller-sized byte buffer of `stride * height` bytes interpreted as a
/// `width x height` pixel grid; the pixel `(x, y)` lives at byte
/// `y * stride + x`.
#[derive(Debug)]
pub struct PixelBuffer {
    buf: Vec<u8>,
    /// width (px)
    w: usize,
    /// height (px)
    h: usize,
    /// stride (px)
    stride: usize,
}

impl View for PixelBuffer {
    type V = Seq<u8>;

    closed spec fn view(&self) -> Seq<u8> {
        self.buf@
    }
}

impl PixelBuffer {
    /// Pixel width of the drawable area.
    pub closed spec fn width(self) -> int {
        self.w as int
    }

    /// Pixel height of the drawable area.
    pub closed spec fn height(self) -> int {
        self.h as int
    }

    /// Row stride in bytes (at least the width; the bytes past the width are
    /// padding).
    pub closed spec fn stride(self) -> int {
        self.stride as int
    }

    /// The buffer holds exactly `stride` bytes per row, the drawable width
    /// fits in the stride, and the dimensions fit the `i32` coordinate
    /// space.
    pub open spec fn wf(self) -> bool {
        &&& self@.len() == self.stride() * self.height()
        &&& self@.len() <= usize::MAX
        &&& self.width() <= self.stride()
        &&& self.stride() <= i32::MAX
        &&& self.height() <= i32::MAX
    }

    /// The byte stored for pixel `(x, y)`.
    pub open spec fn pix(self, x: int, y: int) -> u8 {
        self@[y * self.stride() + x]
    }

    /// `self` and `other` have the same dimensions.
    pub open spec fn same_shape(self, other: PixelBuffer) -> bool {
        &&& self.width() == other.width()
        &&& self.height() == other.height()
        &&& self.stride() == other.stride()
        &&& self@.len() == other@.len()
    }

    /// Wrap a caller-provided backing store. The store must already be sized
    /// as `stride * height` bytes with `width <= stride`.
    pub fn new(buf: Vec<u8>, w: usize, h: usize, stride: usize) -> (r: PixelBuffer)
        requires
            buf@.len() == stride * h,
            w <= stride,
            stride <= i32::MAX,
            h <= i32::MAX,
        ensures
            r.wf(),
            r.width() == w,
            r.height() == h,
            r.stride() == stride,
            r@ == buf@,
    {
        proof {
            vstd::std_specs::vec::axiom_spec_len(&buf);
        }
        PixelBuffer { buf, w, h, stride }
    }

    /// The rectangle covering the whole drawable area.
    pub fn all(&self) -> (r: Rect)
        requires
            self.wf(),
        ensures
            r == (Rect { x: 0, y: 0, w: self.width() as i32, h: self.height() as i32 }),
    {
        Rect { x: 0, y: 0, w: self.w as i32, h: self.h as i32 }
    }

    /// Read the pixel at `(x, y)`.
    pub fn at(&self, x: i32, y: i32) -> (r: u8)
        requires
            self.wf(),
            0 <= x < self.width(),
            0 <= y < self.height(),
        ensures
            r == self.pix(x as int, y as int),
    {
        proof {
            lemma_flat_index_bound(x as int, y as int, self.width(), self.height(), self.stride());
        }
        self.buf[y as usize * self.stride + x as usize]
    }

    /// Mutable access to the pixel at `(x, y)`.
    pub fn at_mut(&mut self, x: i32, y: i32) -> (r: &mut u8)
        requires
            old(self).wf(),
            0 <= x < old(self).width(),
            0 <= y < old(self).height(),
        ensures
            *r == old(self).pix(x as int, y as int),
            final(self)@ == old(self)@.update(
                y as int * old(self).stride() + x as int,
                *final(r),
            ),
            final(self).same_shape(*old(self)),
            final(self).wf(),
    {
        proof {
            lemma_flat_index_bound(x as int, y as int, self.width(), self.height(), self.stride());
        }
        &mut self.buf[y as usize * self.stride + x as usize]
    }

    /// Fill every byte of the buffer (drawable pixels and padding alike)
    /// with `color`.
    pub fn clear(&mut self, color: u8)
        requires
            old(self).wf(),
        ensures
            final(self).wf(),
            final(self).same_shape(*old(self)),
            forall|i: int| 0 <= i < final(self)@.len() ==> final(self)@[i] == color,
    {
        let n = self.buf.len();
        let mut i: usize = 0;
        while i < n
            invariant
                n == self.buf@.len(),
                i <= n,
                self.w == old(self).w,
                self.h == old(self).h,
                self.stride == old(self).stride,
                forall|k: int| 0 <= k < i ==> self.buf@[k] == color,
            decreases n - i,
        {
            self.buf[i] = color;
            i = i + 1;
        }
    }

    /// Fill the inclusive horizontal span `x1..=x2` of row `y` with `color`.
    pub fn hline(&mut self, x1: i32, x2: i32, y: i32, color: u8)
        requires
            old(self).wf(),
            0 <= x1 <= x2 < old(self).width(),
            0 <= y < old(self).height(),
        ensures
            final(self).wf(),
            final(self).same_shape(*old(self)),
            forall|px: int, py: int|
                0 <= px < final(self).stride() && 0 <= py < final(self).height()
                    ==> final(self).pix(px, py) == (if py == y && x1 <= px <= x2 {
                    color
                } else {
                    old(self).pix(px, py)
                }),
    {
        proof {
            lemma_flat_index_bound(x1 as int, y as int, self.width(), self.height(), self.stride());
            lemma_flat_index_bound(x2 as int, y as int, self.width(), self.height(), self.stride());
        }
        let start = y as usize * self.stride + x1 as usize;
        let end = y as usize * self.stride + x2 as usize;
        let mut i: usize = start;
        while i <= end
            invariant
                start == y * old(self).stride() + x1,
                end == y * old(self).stride() + x2,
                start <= i <= end + 1,
                end < self.buf@.len(),
                self.buf@.len() <= usize::MAX,
                self.w == old(self).w,
                self.h == old(self).h,
                self.stride == old(self).stride,
                self.buf@.len() == old(self)@.len(),
                forall|k: int| start <= k < i ==> self.buf@[k] == color,
                forall|k: int| 0 <= k < self.buf@.len() && !(start <= k < i) ==> self.buf@[k]
                    == old(self)@[k],
            decreases end + 1 - i,
        {
            self.buf[i] = color;
            i = i + 1;
        }
        proof {
            assert forall|px: int, py: int|
                0 <= px < self.stride() && 0 <= py < self.height() implies self.pix(px, py) == (
            if py == y && x1 <= px <= x2 {
                color
            } else {
                old(self).pix(px, py)
            }) by {
                lemma_flat_index_bound(px, py, self.stride(), self.height(), self.stride());
                lemma_flat_span_membership(
                    px,
                    py,
                    y as int,
                    x1 as int,
                    x2 as int,
                    self.stride(),
                );
            }
        }
    }

    /// Fill the inclusive vertical span `y1..=y2` of column `x` with
    /// `color`.
    pub fn vline(&mut self, x: i32, y1: i32, y2: i32, color: u8)
        requires
            old(self).wf(),
            0 <= x < old(self).width(),
            0 <= y1 <= y2 < old(self).height(),
        ensures
            final(self).wf(),
            final(self).same_shape(*old(self)),
            forall|px: int, py: int|
                0 <= px < final(self).stride() && 0 <= py < final(self).height()
                    ==> final(self).pix(px, py) == (if px == x && y1 <= py <= y2 {
                    color
                } else {
                    old(self).pix(px, py)
                }),
    {
        let mut yy = y1;
        while yy <= y2
            invariant
                y1 <= yy <= y2 + 1,
                y2 < old(self).height(),
                0 <= y1,
                0 <= x < old(self).width(),
                old(self).wf(),
                self.w == old(self).w,
                self.h == old(self).h,
                self.stride == old(self).stride,
                self.buf@.len() == old(self)@.len(),
                forall|px: int, py: int|
                    0 <= px < self.stride() && 0 <= py < self.height() ==> self.pix(px, py) == (
                    if px == x && y1 <= py < yy {
                        color
                    } else {
                        old(self).pix(px, py)
                    }),
            decreases y2 + 1 - yy,
        {
            proof {
                lemma_flat_index_bound(
                    x as int,
                    yy as int,
                    self.width(),
                    self.height(),
                    self.stride(),
                );
            }
            let ghost prev = *self;
            let idx = yy as usize * self.stride + x as usize;
            self.buf[idx] = color;
            proof {
                assert forall|px: int, py: int|
                    0 <= px < self.stride() && 0 <= py < self.height() implies self.pix(px, py)
                    == (if px == x && y1 <= py < yy + 1 {
                    color
                } else {
                    old(self).pix(px, py)
                }) by {
                    lemma_flat_index_bound(px, py, prev.stride(), prev.height(), prev.stride());
                    lemma_flat_cell_membership(px, py, x as int, yy as int, prev.stride());
                    assert(prev.pix(px, py) == (if px == x && y1 <= py < yy {
                        color
                    } else {
                        old(self).pix(px, py)
                    }));
                }
            }
            yy = yy + 1;
        }
    }

    /// Draw a one-pixel border of `r` in `color`: both full horizontal
    /// edges, then both full vertical edges.
    pub fn rect(&mut self, r: Rect, color: u8)
        requires
            old(self).wf(),
            0 <= r.x,
            0 <= r.y,
            1 <= r.w,
            1 <= r.h,
            r.x + r.w <= old(self).width(),
            r.y + r.h <= old(self).height(),
        ensures
            final(self).wf(),
            final(self).same_shape(*old(self)),
            forall|px: int, py: int|
                0 <= px < final(self).stride() && 0 <= py < final(self).height()
                    ==> final(self).pix(px, py) == (if rect_border(r, px, py) {
                    color
                } else {
                    old(self).pix(px, py)
                }),
    {
        self.hline(r.x, r.x + r.w - 1, r.y, color);
        self.hline(r.x, r.x + r.w - 1, r.y + r.h - 1, color);
        self.vline(r.x, r.y, r.y + r.h - 1, color);
        self.vline(r.x + r.w - 1, r.y, r.y + r.h - 1, color);
    }

    /// Opaquely blit a monochrome sprite at `(x, y)`: inside the sprite's
    /// bounding box, destination pixels become `color` where the sprite bit
    /// is set and 0 where it is clear (the background under the sprite is
    /// deliberately cleared, matching opaque glyph rendering).
    pub fn blit_monochrome(&mut self, sprite_ref: &MonochomeSpriteRef, x: i32, y: i32, color: u8)
        requires
            old(self).wf(),
            sprite_ref@.wf(),
            0 <= x,
            0 <= y,
            x + sprite_ref.width <= old(self).width(),
            y + sprite_ref.height <= old(self).height(),
        ensures
            final(self).wf(),
            final(self).same_shape(*old(self)),
            final(self)@ == blit_result(
                old(self)@,
                old(self).stride(),
                sprite_ref@,
                x as int,
                y as int,
                color,
            ),
    {
        let ghost sp = sprite_ref@;
        let sprite_h = sprite_ref.height as usize;
        let sprite_w = sprite_ref.width as usize;
        let sprite_s = sprite_ref.stride as usize;
        let dlen = sprite_ref.data.len();
        let mut dy: usize = 0;
        proof {
            assert(self.buf@ =~= blit_partial(
                old(self)@,
                old(self).stride(),
                sp,
                x as int,
                y as int,
                color,
                0,
            ));
        }
        while dy < sprite_h
            invariant
                old(self).wf(),
                sp.wf(),
                sp == sprite_ref@,
                sprite_h == sp.height,
                sprite_w == sp.width,
                sprite_s == sp.stride,
                dlen == sp.data.len(),
                0 <= x,
                0 <= y,
                x + sp.width <= old(self).width(),
                y + sp.height <= old(self).height(),
                0 <= dy <= sprite_h,
                self.w == old(self).w,
                self.h == old(self).h,
                self.stride == old(self).stride,
                self.buf@.len() == old(self)@.len(),
                self.buf@ == blit_partial(
                    old(self)@,
                    old(self).stride(),
                    sp,
                    x as int,
                    y as int,
                    color,
                    dy * sp.width,
                ),
            decreases sprite_h - dy,
        {
            let mut dx: usize = 0;
            while dx < sprite_w
                invariant
                    old(self).wf(),
                    sp.wf(),
                    sp == sprite_ref@,
                    sprite_h == sp.height,
                    sprite_w == sp.width,
                    sprite_s == sp.stride,
                    dlen == sp.data.len(),
                    0 <= x,
                    0 <= y,
                    x + sp.width <= old(self).width(),
                    y + sp.height <= old(self).height(),
                    0 <= dy < sprite_h,
                    0 <= dx <= sprite_w,
                    self.w == old(self).w,
                    self.h == old(self).h,
                    self.stride == old(self).stride,
                    self.buf@.len() == old(self)@.len(),
                    self.buf@ == blit_partial(
                        old(self)@,
                        old(self).stride(),
                        sp,
                        x as int,
                        y as int,
                        color,
                        dy * sp.width + dx,
                    ),
                decreases sprite_w - dx,
            {
                proof {
                    lemma_div8_bound(dx as int, sprite_s as int);
                    lemma_flat_index_bound(
                        dx as int / 8,
                        dy as int,
                        sprite_s as int,
                        sprite_h as int,
                        sprite_s as int,
                    );
                    lemma_flat_index_bound(
                        x + dx,
                        y + dy,
                        old(self).width(),
                        old(self).height(),
                        old(self).stride(),
                    );
                }
                let byte = sprite_ref.data[dy * sprite_s + dx / 8];
                let bit = byte & (1u8 << ((dx % 8) as u8));
                let v = if bit != 0 {
                    color
                } else {
                    0
                };
                let ghost prev = self.buf@;
                let idx = (y as usize + dy) * self.stride + (x as usize + dx);
                self.buf[idx] = v;
                proof {
                    assert(v == (if sp.bit_at(dx as int, dy as int) {
                        color
                    } else {
                        0u8
                    }));
                    lemma_blit_advance(
                        old(self)@,
                        old(self).stride(),
                        old(self).width(),
                        old(self).height(),
                        sp,
                        x as int,
                        y as int,
                        color,
                        dy as int,
                        dx as int,
                    );
                    assert(self.buf@ == blit_partial(
                        old(self)@,
                        old(self).stride(),
                        sp,
                        x as int,
                        y as int,
                        color,
                        dy * sp.width + dx + 1,
                    ));
                }
                dx = dx + 1;
            }
            proof {
                assert(dy * sp.width + sp.width == (dy + 1) * sp.width) by (nonlinear_arith);
            }
            dy = dy + 1;
        }
        proof {
            assert(dy * sp.width == sp.height * sp.width) by (nonlinear_arith)
                requires
                    dy == sp.height,
            ;
        }
    }
}

/// The buffer contents after the first `k` pixels (in row-major sprite
/// order) of an opaque blit of `sp` at `(x, y)` have been written: a
/// destination pixel under an already-written sprite pixel holds `color`
/// where the sprite bit is set and 0 where it is clear; every other byte
/// still holds its `dst` value.
pub open spec fn blit_partial(
    dst: Seq<u8>,
    stride: int,
    sp: SpriteView,
    x: int,
    y: int,
    color: u8,
    k: int,
) -> Seq<u8> {
    Seq::new(
        dst.len(),
        |i: int|
            {
                let px = i % stride;
                let py = i / stride;
                let dx = px - x;
                let dy = py - y;
                if 0 <= dx < sp.width && 0 <= dy < sp.height && dy * sp.width + dx < k {
                    if sp.bit_at(dx, dy) {
                        color
                    } else {
                        0u8
                    }
                } else {
                    dst[i]
                }
            },
    )
}

/// The buffer contents after a whole opaque blit of `sp` at `(x, y)`.
pub open spec fn blit_result(
    dst: Seq<u8>,
    stride: int,
    sp: SpriteView,
    x: int,
    y: int,
    color: u8,
) -> Seq<u8> {
    blit_partial(dst, stride, sp, x, y, color, sp.height * sp.width)
}

/// Whether `(px, py)` lies on the one-pixel border of `r`.
pub open spec fn rect_border(r: Rect, px: int, py: int) -> bool {
    &&& r.x <= px < r.x + r.w
    &&& r.y <= py < r.y + r.h
    &&& (px == r.x || px == r.x + r.w - 1 || py == r.y || py == r.y + r.h - 1)
}

/// The flat index of an in-bounds pixel lies inside the buffer, in row `y`.
proof fn lemma_flat_index_bound(x: int, y: int, w: int, h: int, stride: int)
    requires
        0 <= x < w,
        0 <= y < h,
        w <= stride,
    ensures
        0 <= y * stride,
        0 <= y * stride + x < h * stride,
        y * stride + x < (y + 1) * stride,
        h * stride == stride * h,
{
    assert(0 <= y * stride && 0 <= y * stride + x < h * stride && y * stride + x < (y + 1)
        * stride && h * stride == stride * h) by (nonlinear_arith)
        requires
            0 <= x < w,
            0 <= y < h,
            w <= stride,
    ;
}

/// A flat index `py * stride + px` with `px` inside the stride falls in the
/// flat span of row `y` between columns `a` and `b` exactly when it denotes
/// one of those pixels.
proof fn lemma_flat_span_membership(px: int, py: int, y: int, a: int, b: int, stride: int)
    requires
        0 <= px < stride,
        0 <= py,
        0 <= y,
        0 <= a <= b < stride,
    ensures
        (y * stride + a <= py * stride + px <= y * stride + b) <==> (py == y && a <= px <= b),
{
    assert((y * stride + a <= py * stride + px <= y * stride + b) <==> (py == y && a <= px
        <= b)) by (nonlinear_arith)
        requires
            0 <= px < stride,
            0 <= py,
            0 <= y,
            0 <= a <= b < stride,
    ;
}

/// Two stride-decomposed flat indices are equal exactly when both
/// coordinates agree.
proof fn lemma_flat_cell_membership(px: int, py: int, x: int, y: int, stride: int)
    requires
        0 <= px < stride,
        0 <= py,
        0 <= x < stride,
        0 <= y,
    ensures
        (py * stride + px == y * stride + x) <==> (py == y && px == x),
{
    assert((py * stride + px == y * stride + x) <==> (py == y && px == x)) by (nonlinear_arith)
        requires
            0 <= px < stride,
            0 <= py,
            0 <= x < stride,
            0 <= y,
    ;
}

/// For `0 <= n < 8 * cap`, the byte index `n / 8` stays below `cap`.
proof fn lemma_div8_bound(n: int, cap: int)
    requires
        0 <= n < 8 * cap,
    ensures
        0 <= n / 8 < cap,
        0 <= n % 8 < 8,
{
    vstd::arithmetic::div_mod::lemma_fundamental_div_mod(n, 8);
    vstd::arithmetic::div_mod::lemma_mod_bound(n, 8);
    assert(n / 8 < cap) by (nonlinear_arith)
        requires
            n == 8 * (n / 8) + n % 8,
            0 <= n % 8,
            n < 8 * cap,
    ;
}

/// Writing the sprite pixel `(dx, dy)` advances a partial blit by exactly
/// one step.
proof fn lemma_blit_advance(
    dst: Seq<u8>,
    stride: int,
    w: int,
    h: int,
    sp: SpriteView,
    x: int,
    y: int,
    color: u8,
    dy: int,
    dx: int,
)
    requires
        sp.wf(),
        0 <= dx < sp.width,
        0 <= dy < sp.height,
        0 <= x,
        0 <= y,
        x + sp.width <= w,
        y + sp.height <= h,
        w <= stride,
        dst.len() == stride * h,
    ensures
        blit_partial(dst, stride, sp, x, y, color, dy * sp.width + dx + 1)
            == blit_partial(dst, stride, sp, x, y, color, dy * sp.width + dx).update(
            (y + dy) * stride + (x + dx),
            (if sp.bit_at(dx, dy) {
                color
            } else {
                0u8
            }),
        ),
{
    let sw = sp.width;
    let k = dy * sw + dx;
    let idx = (y + dy) * stride + (x + dx);
    let val = if sp.bit_at(dx, dy) {
        color
    } else {
        0u8
    };
    let lhs = blit_partial(dst, stride, sp, x, y, color, k + 1);
    let rhs = blit_partial(dst, stride, sp, x, y, color, k).update(idx, val);
    lemma_flat_index_bound(x + dx, y + dy, w, h, stride);
    vstd::arithmetic::div_mod::lemma_fundamental_div_mod_converse(idx, stride, y + dy, x + dx);
    assert(0 <= dy * sw + dx) by (nonlinear_arith)
        requires
            0 <= dy && 0 <= dx && 0 <= sw,
    ;
    assert forall|i: int| 0 <= i < dst.len() implies lhs[i] == rhs[i] by {
        let px = i % stride;
        let py = i / stride;
        vstd::arithmetic::div_mod::lemma_fundamental_div_mod(i, stride);
        vstd::arithmetic::div_mod::lemma_mod_bound(i, stride);
        if i == idx {
            assert(px == x + dx && py == y + dy);
            assert((py - y) * sw + (px - x) == k);
            assert(lhs[i] == val);
            assert(rhs[i] == val);
        } else {
            // The two partial blits can only differ at the pixel whose
            // row-major sprite index is exactly k, and that is the byte at
            // idx.
            if 0 <= px - x < sw && 0 <= py - y < sp.height && (py - y) * sw + (px - x) == k {
                vstd::arithmetic::div_mod::lemma_fundamental_div_mod_converse(k, sw, py - y, px - x);
                vstd::arithmetic::div_mod::lemma_fundamental_div_mod_converse(k, sw, dy, dx);
                assert(py - y == dy && px - x == dx);
                assert(py * stride == stride * py) by (nonlinear_arith);
                assert(i == py * stride + px);
                assert(false);
            }
            assert(lhs[i] == rhs[i]);
        }
    }
    assert(lhs =~= rhs);
}

} // verus!
