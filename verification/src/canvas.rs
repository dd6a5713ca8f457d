//! The image that a render fills: one colour for every pixel coordinate.

use vstd::prelude::*;
use crate::color::Color;
use crate::scalar::ZERO;

verus! {

/// A raster of colours, stored row by row.
pub struct Canvas {
    width: usize,
    height: usize,
    pixels: Vec<Color>,
}

/// A pixel's place in row-by-row storage.
pub open spec fn offset(width: int, x: int, y: int) -> int {
    y * width + x
}

/// Every coordinate inside the raster has a place inside the storage.
proof fn lemma_offset_in_range(width: int, height: int, x: int, y: int)
    by (nonlinear_arith)
    requires
        0 <= x < width,
        0 <= y < height,
    ensures
        0 <= y * width <= offset(width, x, y) < width * height,
{
}

/// Two coordinates inside the raster share a place only if they are equal.
proof fn lemma_offset_injective(width: int, x: int, y: int, i: int, j: int)
    by (nonlinear_arith)
    requires
        0 <= x < width,
        0 <= i < width,
        0 <= y,
        0 <= j,
        offset(width, x, y) == offset(width, i, j),
    ensures
        x == i,
        y == j,
{
}

impl Canvas {
    /// The storage holds exactly one colour per coordinate. Every canvas
    /// that `new` makes is well formed, and `set` keeps it so.
    pub closed spec fn well_formed(&self) -> bool {
        self.pixels@.len() == self.width * self.height <= usize::MAX
    }

    /// The number of columns.
    pub closed spec fn spec_width(&self) -> usize {
        self.width
    }

    /// The number of rows.
    pub closed spec fn spec_height(&self) -> usize {
        self.height
    }

    /// The colour at column `x` of row `y`.
    pub closed spec fn pixel(&self, x: int, y: int) -> Color {
        self.pixels@[offset(self.width as int, x, y)]
    }

    /// Whether `(x, y)` names a pixel of this canvas.
    pub open spec fn contains(&self, x: int, y: int) -> bool {
        0 <= x < self.width() && 0 <= y < self.height()
    }

    /// Makes a canvas of the given size with every pixel black.
    pub fn new(width: usize, height: usize) -> (canvas: Canvas)
        requires
            width * height <= usize::MAX,
        ensures
            canvas.well_formed(),
            canvas.width() == width,
            canvas.height() == height,
            forall|x: int, y: int|
                canvas.contains(x, y) ==> #[trigger] canvas.pixel(x, y) == (Color {
                    r: ZERO,
                    g: ZERO,
                    b: ZERO,
                }),
    {
        let count = width * height;
        let mut pixels: Vec<Color> = Vec::new();
        let mut filled: usize = 0;
        while filled < count
            invariant
                filled <= count,
                pixels@.len() == filled,
                forall|k: int|
                    0 <= k < filled ==> #[trigger] pixels@[k] == (Color {
                        r: ZERO,
                        g: ZERO,
                        b: ZERO,
                    }),
            decreases count - filled,
        {
            pixels.push(Color::black());
            filled += 1;
        }
        let canvas = Canvas { width, height, pixels };
        assert forall|x: int, y: int| canvas.contains(x, y) implies #[trigger] canvas.pixel(x, y)
            == (Color { r: ZERO, g: ZERO, b: ZERO }) by {
            lemma_offset_in_range(width as int, height as int, x, y);
        }
        canvas
    }

    /// The number of columns.
    #[verifier::when_used_as_spec(spec_width)]
    pub fn width(&self) -> (w: usize)
        ensures
            w == self.spec_width(),
    {
        self.width
    }

    /// The number of rows.
    #[verifier::when_used_as_spec(spec_height)]
    pub fn height(&self) -> (h: usize)
        ensures
            h == self.spec_height(),
    {
        self.height
    }

    /// Reads the pixel at column `x` of row `y`.
    pub fn get(&self, x: usize, y: usize) -> (color: Color)
        requires
            self.well_formed(),
            self.contains(x as int, y as int),
        ensures
            color == self.pixel(x as int, y as int),
    {
        proof {
            lemma_offset_in_range(self.width as int, self.height as int, x as int, y as int);
        }
        self.pixels[y * self.width + x]
    }

    /// Writes the pixel at column `x` of row `y` and leaves every other
    /// pixel as it was.
    pub fn set(&mut self, x: usize, y: usize, color: Color)
        requires
            old(self).well_formed(),
            old(self).contains(x as int, y as int),
        ensures
            final(self).well_formed(),
            final(self).width() == old(self).width(),
            final(self).height() == old(self).height(),
            final(self).pixel(x as int, y as int) == color,
            forall|i: int, j: int|
                old(self).contains(i, j) && (i != x || j != y) ==> #[trigger] final(self).pixel(
                    i,
                    j,
                ) == old(self).pixel(i, j),
    {
        proof {
            lemma_offset_in_range(self.width as int, self.height as int, x as int, y as int);
        }
        let place = y * self.width + x;
        self.pixels.set(place, color);
        proof {
            assert forall|i: int, j: int|
                old(self).contains(i, j) && (i != x || j != y) implies #[trigger] self.pixel(i, j)
                == old(self).pixel(i, j) by {
                lemma_offset_in_range(self.width as int, self.height as int, i, j);
                if offset(self.width as int, i, j) == place {
                    lemma_offset_injective(self.width as int, x as int, y as int, i, j);
                }
            }
        }
    }
}

} // verus!
