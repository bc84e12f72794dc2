//! Pixel buffers: the RGBA pixel type, a row-major buffer, and the
//! arithmetic facts about row-major indexing that the drawing code needs.

use vstd::prelude::*;

verus! {

/// One RGBA pixel, 8 bits per channel.
#[derive(Debug, Clone, Copy, PartialEq, Eq, Structural)]
pub struct Rgba {
    pub r: u8,
    pub g: u8,
    pub b: u8,
    pub a: u8,
}

/// A row-major RGBA pixel buffer.  The pixel at `(x, y)` sits at index
/// `y * width + x` of `pixels`.
#[derive(Debug, Clone, PartialEq, Eq)]
pub struct PixelBuf {
    pub width: usize,
    pub height: usize,
    pub pixels: Vec<Rgba>,
}

impl PixelBuf {
    /// Well-formedness: the buffer holds exactly one pixel per coordinate,
    /// and both dimensions fit in 32 bits (decoded images carry 32-bit
    /// dimensions).
    pub open spec fn wf(self) -> bool {
        &&& self.pixels.len() == self.width * self.height
        &&& self.width < 0x1_0000_0000
        &&& self.height < 0x1_0000_0000
    }

    /// The index of pixel `(x, y)` in the row-major buffer.
    pub open spec fn idx(self, x: int, y: int) -> int {
        y * self.width + x
    }

    /// The pixel stored at `(x, y)`.
    pub open spec fn pixel(self, x: int, y: int) -> Rgba {
        self.pixels[self.idx(x, y)]
    }

    pub fn get(&self, x: usize, y: usize) -> (r: Rgba)
        requires
            self.wf(),
            x < self.width,
            y < self.height,
        ensures
            r == self.pixel(x as int, y as int),
    {
        proof {
            lemma_row_major_index(self.width as int, self.height as int, x as int, y as int);
        }
        self.pixels[y * self.width + x]
    }

    pub fn set(&mut self, x: usize, y: usize, p: Rgba)
        requires
            old(self).wf(),
            x < old(self).width,
            y < old(self).height,
        ensures
            final(self).wf(),
            final(self).width == old(self).width,
            final(self).height == old(self).height,
            final(self).pixels@ == old(self).pixels@.update(
                old(self).idx(x as int, y as int),
                p,
            ),
    {
        proof {
            lemma_row_major_index(self.width as int, self.height as int, x as int, y as int);
        }
        let i = y * self.width + x;
        self.pixels.set(i, p);
    }
}

/// A row-major index lies inside the buffer.
pub proof fn lemma_row_major_index(w: int, h: int, x: int, y: int)
    requires
        0 <= x < w,
        0 <= y < h,
    ensures
        0 <= y * w + x < w * h,
{
    assert(0 <= y * w + x < w * h) by (nonlinear_arith)
        requires
            0 <= x < w,
            0 <= y < h,
    ;
}

/// Row-major indices agree exactly when the coordinates agree.
pub proof fn lemma_row_major_injective(w: int, x1: int, y1: int, x2: int, y2: int)
    requires
        0 <= x1 < w,
        0 <= x2 < w,
        0 <= y1,
        0 <= y2,
    ensures
        (y1 * w + x1 == y2 * w + x2) <==> (x1 == x2 && y1 == y2),
{
    assert((y1 * w + x1 == y2 * w + x2) <==> (x1 == x2 && y1 == y2)) by (nonlinear_arith)
        requires
            0 <= x1 < w,
            0 <= x2 < w,
            0 <= y1,
            0 <= y2,
    ;
}

/// A row-major index decomposes uniquely: `x` is the remainder and `y` the
/// quotient of the index by the width.
pub proof fn lemma_row_major_decompose(w: int, x: int, y: int)
    requires
        0 < w,
        0 <= x < w,
        0 <= y,
    ensures
        (y * w + x) % w == x,
        (y * w + x) / w == y,
{
    vstd::arithmetic::div_mod::lemma_fundamental_div_mod_converse(y * w + x, w, y, x);
}

} // verus!
