//! Background generation: the procedural dashed grid and the tiled
//! bitmap pattern.

use vstd::prelude::*;
use crate::canvas::{PixelBuf, Rgba, lemma_row_major_decompose};
use crate::hexcolor::{accent_of, gridline_of};

verus! {

/// Whether `(x, y)` lies on a dashed gridline: a two-pixel-wide line
/// every twenty pixels along each axis, drawn for the first half of each
/// ten-pixel sub-period.
pub open spec fn is_gridline(x: int, y: int) -> bool {
    (x % 20 < 2 && y % 10 < 5) || (y % 20 < 2 && x % 10 < 5)
}

/// The color of canvas pixel `(x, y)` in procedural grid mode.
pub open spec fn grid_pixel(accent: Rgba, line: Rgba, x: int, y: int) -> Rgba {
    if is_gridline(x, y) {
        line
    } else {
        accent
    }
}

/// Generates the procedural grid background: the canvas is filled with
/// the accent color resolved from `accent_hex` and dashed gridlines are
/// drawn in the derived gridline color.
pub fn generate_grid_background(accent_hex: &str) -> (r: PixelBuf)
    ensures
        r.wf(),
        r.width == crate::CANVAS_WIDTH,
        r.height == crate::CANVAS_HEIGHT,
        forall|x: int, y: int|
            0 <= x < crate::CANVAS_WIDTH && 0 <= y < crate::CANVAS_HEIGHT ==> r.pixel(x, y)
                == grid_pixel(accent_of(accent_hex@), gridline_of(accent_hex@), x, y),
{
    let (accent, line) = crate::hexcolor::resolve_colors(accent_hex);
    let mut pixels: Vec<Rgba> = Vec::new();
    let mut y: usize = 0;
    while y < 100
        invariant
            y <= 100,
            pixels@.len() == y * 440,
            forall|i: int|
                0 <= i < pixels@.len() ==> pixels@[i] == grid_pixel(accent, line, i % 440, i / 440),
        decreases 100 - y,
    {
        let mut x: usize = 0;
        while x < 440
            invariant
                x <= 440,
                y < 100,
                pixels@.len() == y * 440 + x,
                forall|i: int|
                    0 <= i < pixels@.len() ==> pixels@[i] == grid_pixel(
                        accent,
                        line,
                        i % 440,
                        i / 440,
                    ),
            decreases 440 - x,
        {
            let p = if (x % 20 < 2 && y % 10 < 5) || (y % 20 < 2 && x % 10 < 5) {
                line
            } else {
                accent
            };
            proof {
                lemma_row_major_decompose(440, x as int, y as int);
            }
            pixels.push(p);
            x = x + 1;
        }
        y = y + 1;
    }
    let r = PixelBuf { width: 440, height: 100, pixels };
    proof {
        assert forall|x: int, y: int| 0 <= x < 440 && 0 <= y < 100 implies r.pixel(x, y)
            == grid_pixel(accent, line, x, y) by {
            lemma_row_major_decompose(440, x, y);
        }
    }
    r
}

/// Tiles a fixed 40-by-40 pattern across the canvas in non-overlapping
/// blocks by direct copy: canvas pixel `(x, y)` takes the pattern pixel
/// `(x mod 40, y mod 40)`.
pub fn tile_background(pattern: &PixelBuf) -> (r: PixelBuf)
    requires
        pattern.wf(),
        pattern.width == 40,
        pattern.height == 40,
    ensures
        r.wf(),
        r.width == crate::CANVAS_WIDTH,
        r.height == crate::CANVAS_HEIGHT,
        forall|x: int, y: int|
            0 <= x < crate::CANVAS_WIDTH && 0 <= y < crate::CANVAS_HEIGHT ==> r.pixel(x, y)
                == pattern.pixel(x % 40, y % 40),
{
    let mut pixels: Vec<Rgba> = Vec::new();
    let mut y: usize = 0;
    while y < 100
        invariant
            y <= 100,
            pattern.wf(),
            pattern.width == 40,
            pattern.height == 40,
            pixels@.len() == y * 440,
            forall|i: int|
                0 <= i < pixels@.len() ==> pixels@[i] == pattern.pixel(
                    (i % 440) % 40,
                    (i / 440) % 40,
                ),
        decreases 100 - y,
    {
        let mut x: usize = 0;
        while x < 440
            invariant
                x <= 440,
                y < 100,
                pattern.wf(),
                pattern.width == 40,
                pattern.height == 40,
                pixels@.len() == y * 440 + x,
                forall|i: int|
                    0 <= i < pixels@.len() ==> pixels@[i] == pattern.pixel(
                        (i % 440) % 40,
                        (i / 440) % 40,
                    ),
            decreases 440 - x,
        {
            let p = pattern.get(x % 40, y % 40);
            proof {
                lemma_row_major_decompose(440, x as int, y as int);
            }
            pixels.push(p);
            x = x + 1;
        }
        y = y + 1;
    }
    let r = PixelBuf { width: 440, height: 100, pixels };
    proof {
        assert forall|x: int, y: int| 0 <= x < 440 && 0 <= y < 100 implies r.pixel(x, y)
            == pattern.pixel(x % 40, y % 40) by {
            lemma_row_major_decompose(440, x, y);
        }
    }
    r
}

} // verus!
