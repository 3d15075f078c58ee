//! A rendered picture read back from the device, and the per-frame options.

use vstd::prelude::*;

verus! {

/// A rendered picture, 8-bit RGBA, tightly packed.
#[derive(Debug, Clone, PartialEq, Eq)]
pub struct Rgba {
    pub width: u32,
    pub height: u32,
    pub pixels: Vec<u8>,
}

impl Rgba {
    /// Four bytes for every pixel, row by row.
    pub open spec fn wf(&self) -> bool {
        self.pixels@.len() == self.width * self.height * 4
    }

    /// Where pixel `(x, y)` starts.
    pub open spec fn offset(&self, x: int, y: int) -> int {
        (y * self.width + x) * 4
    }

    /// The pixel at `(x, y)` as `(r, g, b, a)`; `None` outside the picture. Bytes past
    /// the last row are never read.
    pub fn pixel(&self, x: u32, y: u32) -> (rgba: Option<(u8, u8, u8, u8)>)
        requires
            self.width * self.height * 4 <= self.pixels@.len(),
        ensures
            x >= self.width || y >= self.height ==> rgba is None,
            x < self.width && y < self.height ==> rgba == Some(
                (
                    self.pixels@[self.offset(x as int, y as int)],
                    self.pixels@[self.offset(x as int, y as int) + 1],
                    self.pixels@[self.offset(x as int, y as int) + 2],
                    self.pixels@[self.offset(x as int, y as int) + 3],
                ),
            ),
    {
        if x >= self.width || y >= self.height {
            return None;
        }
        let total: usize = self.pixels.len();
        proof {
            assert((y as int) * (self.width as int) + (x as int) < (self.width as int) * (
            self.height as int)) by (nonlinear_arith)
                requires
                    x < self.width,
                    y < self.height,
            ;
            assert(0 <= (y as int) * (self.width as int)) by (nonlinear_arith);
        }
        let row: usize = (y as usize) * (self.width as usize);
        let at: usize = (row + x as usize) * 4;
        Some((self.pixels[at], self.pixels[at + 1], self.pixels[at + 2], self.pixels[at + 3]))
    }
}

/// What the operator has turned on for this frame.
#[derive(Debug, Clone, Copy, Default, PartialEq, Eq)]
pub struct GradeOptions {
    /// Horizontal flip, the MIRROR assist.
    pub mirror: bool,
    /// Bicubic reconstruction when the display raster is larger than the source.
    pub upscale: bool,
    /// Show the cube on half the picture only.
    pub split: bool,
    /// Split down the middle rather than across it.
    pub split_vertical: bool,
}

} // verus!
