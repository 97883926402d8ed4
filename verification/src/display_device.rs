//! The device-facing abstraction the UI layer draws through.

use vstd::prelude::*;

use crate::pixel_buffer::PixelBuffer;
use crate::Rect;

verus! {

/// Something that can bring a region of a pixel buffer onto a physical
/// display. Implementations are free to refresh more than `area` (for
/// instance after aligning it to their addressing granularity), but never
/// less.
pub trait DisplayDevice {
    type Error;

    /// Push the pixels of `buf` under `area` out to the display.
    fn refresh(&mut self, buf: &PixelBuffer, area: Rect) -> Result<(), Self::Error>;
}

} // verus!
