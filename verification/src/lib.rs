//! Driver-side model of an SSD1322-class grayscale OLED panel behind an
//! 8080-style parallel bus: pixel-buffer drawing, glyph-based text layout,
//! the controller's command encoding, and dirty-rectangle refresh.

pub mod commands;
pub mod display_device;
pub mod pixel_buffer;
pub mod ssd1322;
pub mod text;

use vstd::prelude::*;

verus! {

/// An axis-aligned rectangle in pixel units.
#[derive(Debug, Copy, Clone, Eq, PartialEq, Structural)]
pub struct Rect {
    pub x: i32,
    pub y: i32,
    pub w: i32,
    pub h: i32,
}

impl Rect {
    /// The left edge of `self` rounded down to a multiple of `min_span`
    /// (mathematical floor, so this also holds for negative coordinates).
    pub open spec fn fit_x(self, min_span: int) -> int {
        (self.x as int / min_span) * min_span
    }

    /// The right edge of `self` rounded up to a multiple of `min_span`.
    pub open spec fn fit_x2(self, min_span: int) -> int {
        ((self.x + self.w + min_span - 1) / min_span) * min_span
    }

    /// Round the rectangle outwards so that both horizontal boundaries land
    /// on `min_span` multiples; `y` and `h` are unchanged.
    ///
    /// The panel addresses its RAM in `min_span`-pixel columns (4 for the
    /// SSD1322), so partial refreshes must be aligned to that granularity.
    pub fn best_fit_x(&self, min_span: u32) -> (r: Self)
        requires
            1 <= min_span,
            1 <= self.w,
            i32::MIN <= self.x - min_span,
            self.x + self.w + min_span - 1 <= i32::MAX,
            self.w + 2 * min_span - 2 <= i32::MAX,
        ensures
            r.x == self.fit_x(min_span as int),
            r.x + r.w == self.fit_x2(min_span as int),
            (r.x as int) % (min_span as int) == 0,
            (r.x + r.w) % (min_span as int) == 0,
            r.x <= self.x,
            self.x + self.w <= r.x + r.w,
            r.y == self.y,
            r.h == self.h,
            r.w >= self.w,
            0 <= self.x ==> 0 <= r.x,
    {
        let s = min_span as i32;
        proof {
            lemma_floor_div_bounds(self.x as int, s as int);
            lemma_floor_div_bounds(self.x + self.w + s - 1, s as int);
        }
        let fit_x = self.x.checked_div_euclid(s).unwrap() * s;
        let x2 = self.x + self.w;
        let fit_x2 = (x2 - 1 + s).checked_div_euclid(s).unwrap() * s;
        Rect { x: fit_x, y: self.y, w: fit_x2 - fit_x, h: self.h }
    }

    /// Build a rectangle from its four components.
    pub fn xywh(x: i32, y: i32, w: i32, h: i32) -> (r: Self)
        ensures
            r == (Rect { x, y, w, h }),
    {
        Rect { x, y, w, h }
    }

    /// Grow the rectangle by `n` pixels on every side (shrink for negative
    /// `n`).
    pub fn with_offset(&self, n: i32) -> (r: Self)
        requires
            i32::MIN <= self.x - n <= i32::MAX,
            i32::MIN <= self.y - n <= i32::MAX,
            i32::MIN <= 2 * n <= i32::MAX,
            i32::MIN <= self.w + 2 * n <= i32::MAX,
            i32::MIN <= self.h + 2 * n <= i32::MAX,
        ensures
            r.x == self.x - n,
            r.y == self.y - n,
            r.w == self.w + 2 * n,
            r.h == self.h + 2 * n,
    {
        let two_n = n * 2;
        Rect { x: self.x - n, y: self.y - n, w: self.w + two_n, h: self.h + two_n }
    }
}

/// For a positive divisor `d`, the floor quotient `x / d` (Euclidean
/// division) lies between `x - d + 1` and `x`, scaled back by `d`; in
/// particular the quotient itself fits every range that contains both `x`
/// and `0`.
proof fn lemma_floor_div_bounds(x: int, d: int)
    requires
        1 <= d,
    ensures
        (x / d) * d <= x < (x / d) * d + d,
        ((x / d) * d) % d == 0,
        x >= 0 ==> 0 <= (x / d) * d,
        x >= 0 ==> 0 <= x / d <= x,
        x < 0 ==> x <= x / d <= 0,
{
    vstd::arithmetic::div_mod::lemma_fundamental_div_mod(x, d);
    vstd::arithmetic::div_mod::lemma_mod_multiples_basic(x / d, d);
    assert(0 <= x % d < d) by {
        vstd::arithmetic::div_mod::lemma_mod_bound(x, d);
    }
    let q = x / d;
    assert(q * d == d * q) by (nonlinear_arith);
    assert(x >= 0 ==> 0 <= q * d) by (nonlinear_arith)
        requires
            1 <= d,
            x == d * q + x % d,
            0 <= x % d < d,
    ;
    assert(x >= 0 ==> 0 <= q <= x) by (nonlinear_arith)
        requires
            1 <= d,
            x == d * q + x % d,
            0 <= x % d < d,
    ;
    assert(x < 0 ==> x <= q <= 0) by (nonlinear_arith)
        requires
            1 <= d,
            x == d * q + x % d,
            0 <= x % d < d,
    ;
}

} // verus!
