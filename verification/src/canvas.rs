//! A flat pixel buffer in row-major order.

use vstd::prelude::*;
use crate::color::Color;

verus! {

pub struct Canvas {
    pub width: usize,
    pub height: usize,
    pub pixels: Vec<Color>,
}

/// The buffer holds exactly one color per pixel, and the pixel count
/// stays within the supported size.
pub open spec fn canvas_wf(c: Canvas) -> bool {
    c.pixels@.len() == c.width * c.height && c.width * c.height <= 0x1000_0000
}

impl Canvas {
    /// A canvas of the given size, filled with black.
    pub fn new(width: usize, height: usize) -> (r: Canvas)
        requires
            width * height <= 0x1000_0000,
        ensures
            r.width == width,
            r.height == height,
            canvas_wf(r),
            forall|i: int| 0 <= i < r.pixels@.len()
                ==> (#[trigger] r.pixels@[i]).r@ == 0 && r.pixels@[i].g@ == 0 && r.pixels@[i].b@ == 0,
    {
        let n = width * height;
        let mut pixels: Vec<Color> = Vec::new();
        let mut i: usize = 0;
        while i < n
            invariant
                i <= n,
                pixels@.len() == i,
                forall|k: int| 0 <= k < i
                    ==> (#[trigger] pixels@[k]).r@ == 0 && pixels@[k].g@ == 0 && pixels@[k].b@ == 0,
            decreases n - i,
        {
            pixels.push(Color::black());
            i = i + 1;
        }
        Canvas { width, height, pixels }
    }

    pub fn width(&self) -> (r: usize)
        ensures
            r == self.width,
    {
        self.width
    }

    pub fn height(&self) -> (r: usize)
        ensures
            r == self.height,
    {
        self.height
    }

    /// The whole buffer, row-major.
    pub fn pixels(&self) -> (r: &Vec<Color>)
        ensures
            r == &self.pixels,
    {
        &self.pixels
    }

    /// Sets every pixel to one color.
    pub fn fill(&mut self, color: &Color)
        requires
            canvas_wf(*old(self)),
        ensures
            canvas_wf(*final(self)),
            final(self).width == old(self).width,
            final(self).height == old(self).height,
            forall|i: int| 0 <= i < final(self).pixels@.len()
                ==> #[trigger] final(self).pixels@[i] == *color,
    {
        let n = self.pixels.len();
        let mut i: usize = 0;
        while i < n
            invariant
                i <= n,
                self.pixels@.len() == n,
                self.width == old(self).width,
                self.height == old(self).height,
                n == old(self).pixels@.len(),
                forall|k: int| 0 <= k < i ==> #[trigger] self.pixels@[k] == *color,
            decreases n - i,
        {
            self.pixels.set(i, *color);
            i = i + 1;
        }
    }

    /// Writes one pixel.
    pub fn write_pixel(&mut self, x: usize, y: usize, color: &Color)
        requires
            canvas_wf(*old(self)),
            x < old(self).width,
            y < old(self).height,
        ensures
            canvas_wf(*final(self)),
            final(self).width == old(self).width,
            final(self).height == old(self).height,
            final(self).pixels@ == old(self).pixels@.update(
                y * old(self).width + x, *color),
    {
        proof {
            assert(y * self.width + x < self.width * self.height) by (nonlinear_arith)
                requires
                    x < self.width,
                    y < self.height,
            {
                assert(y * self.width <= (self.height - 1) * self.width);
                assert((self.height - 1) * self.width + self.width == self.height * self.width);
                assert(self.height * self.width == self.width * self.height);
            }
        }
        let idx = y * self.width + x;
        self.pixels.set(idx, *color);
    }

    /// Reads one pixel.
    pub fn pixel_at(&self, x: usize, y: usize) -> (r: Color)
        requires
            canvas_wf(*self),
            x < self.width,
            y < self.height,
        ensures
            r == self.pixels@[y * self.width + x],
    {
        proof {
            assert(y * self.width + x < self.width * self.height) by (nonlinear_arith)
                requires
                    x < self.width,
                    y < self.height,
            {
                assert(y * self.width <= (self.height - 1) * self.width);
                assert((self.height - 1) * self.width + self.width == self.height * self.width);
                assert(self.height * self.width == self.width * self.height);
            }
        }
        self.pixels[y * self.width + x]
    }
}

} // verus!
