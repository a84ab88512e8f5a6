use vstd::prelude::*;
use crate::color::{Color, Rgba, color_rgba};

verus! {

/// A drawing request that a canvas refuses. Carries the offending
/// coordinates and the canvas dimensions.
#[derive(Clone, Copy, PartialEq, Eq, Structural, Debug)]
pub enum CanvasError {
    OutOfBounds { x: u32, y: u32, width: u32, height: u32 },
}

/// Cell `(px, py)` is covered by one of the first `n` elements of a
/// rectangular block of `w` columns anchored at `(x, y)`, filled row-major.
pub open spec fn in_block(x: int, y: int, w: int, n: int, px: int, py: int) -> bool {
    &&& x <= px < x + w
    &&& y <= py
    &&& (py - y) * w + (px - x) < n
}

/// The element index that covers cell `(px, py)` of a block of `w` columns
/// anchored at `(x, y)`.
pub open spec fn block_index(x: int, y: int, w: int, px: int, py: int) -> int {
    (py - y) * w + (px - x)
}

/// In a `w`-column row-major layout every in-range cell has an in-range
/// index, and distinct cells have distinct indices.
pub proof fn lemma_row_major(w: int, h: int, x1: int, y1: int, x2: int, y2: int) by (nonlinear_arith)
    requires
        w > 0,
        0 <= x1 < w,
        0 <= y1 < h,
        0 <= x2 < w,
        0 <= y2 < h,
    ensures
        0 <= y1 * w + x1 < w * h,
        0 <= y2 * w + x2 < w * h,
        y1 * w + x1 == y2 * w + x2 ==> x1 == x2 && y1 == y2,
{
}

/// How many full rows the first `i` of `n` block elements reach: `i / w`
/// stays below the row count that the block's guard admits.
pub proof fn lemma_block_rows(w: int, n: int, i: int) by (nonlinear_arith)
    requires
        w > 0,
        0 <= i < n,
    ensures
        n % w == 0 ==> i / w < n / w,
        n % w != 0 ==> i / w <= n / w,
{
}

/// Element `i` of a `w`-column block lands on a cell of column `i % w` and
/// row `i / w`, and the cell determines the element.
pub proof fn lemma_block_cell(w: int, i: int) by (nonlinear_arith)
    requires
        w > 0,
        0 <= i,
    ensures
        0 <= i % w < w,
        0 <= i / w,
        (i / w) * w + (i % w) == i,
{
}

/// A quotient-remainder pair determines the division: if `j == q * w + r`
/// with `0 <= r < w`, then `q == j / w` and `r == j % w`.
pub proof fn lemma_div_mod_unique(w: int, q: int, r: int) by (nonlinear_arith)
    requires
        w > 0,
        0 <= r < w,
        0 <= q,
    ensures
        (q * w + r) / w == q,
        (q * w + r) % w == r,
{
}

/// A `width` by `height` pixel buffer, stored row-major, with bounds-checked
/// drawing operations.
#[derive(Clone, Debug)]
pub struct Canvas {
    pub width: u32,
    pub height: u32,
    pub pixels: Vec<Rgba>,
}

impl Canvas {
    /// Positive dimensions, and a buffer of exactly `width * height` pixels.
    pub open spec fn wf(self) -> bool {
        &&& self.width > 0
        &&& self.height > 0
        &&& self.pixels@.len() == (self.width as int) * (self.height as int)
        &&& (self.width as int) * (self.height as int) <= usize::MAX as int
    }

    /// Position of cell `(x, y)` in the row-major buffer.
    pub open spec fn idx(self, x: int, y: int) -> int {
        y * (self.width as int) + x
    }

    /// The pixel stored at cell `(x, y)`.
    pub open spec fn pixel_at(self, x: int, y: int) -> Rgba {
        self.pixels@[self.idx(x, y)]
    }

    /// `(x, y)` addresses a cell of the canvas.
    pub open spec fn in_bounds(self, x: int, y: int) -> bool {
        0 <= x < self.width && 0 <= y < self.height
    }

    /// The error every refused drawing request carries.
    pub open spec fn bounds_error(self, x: u32, y: u32) -> CanvasError {
        CanvasError::OutOfBounds { x, y, width: self.width, height: self.height }
    }

    /// The rectangular block of `w` columns anchored at `(x, y)` holding `n`
    /// row-major elements lies entirely on the canvas.
    pub open spec fn area_fits(self, x: int, y: int, w: int, n: int) -> bool {
        &&& x + w <= self.width
        &&& y + n / w <= self.height
        &&& (n % w == 0 || y + n / w < self.height)
    }

    /// Allocates a `width` by `height` canvas with every pixel black and
    /// fully transparent (all four channels zero).
    pub fn new(width: u32, height: u32) -> (c: Canvas)
        requires
            width > 0,
            height > 0,
            (width as int) * (height as int) <= usize::MAX as int,
        ensures
            c.wf(),
            c.width == width,
            c.height == height,
            forall|x: int, y: int| c.in_bounds(x, y) ==> c.pixel_at(x, y) == (Rgba {
                r: 0,
                g: 0,
                b: 0,
                a: 0,
            }),
    {
        let total: usize = (width as usize) * (height as usize);
        let mut pixels: Vec<Rgba> = Vec::new();
        while pixels.len() < total
            invariant
                pixels@.len() <= total as int,
                forall|i: int| 0 <= i < pixels@.len() ==> pixels@[i] == (Rgba {
                    r: 0,
                    g: 0,
                    b: 0,
                    a: 0,
                }),
            decreases total - pixels.len(),
        {
            pixels.push(Rgba { r: 0, g: 0, b: 0, a: 0 });
        }
        let c = Canvas { width, height, pixels };
        proof {
            assert forall|x: int, y: int| c.in_bounds(x, y) implies c.pixel_at(x, y) == (Rgba {
                r: 0,
                g: 0,
                b: 0,
                a: 0,
            }) by {
                lemma_row_major(width as int, height as int, x, y, x, y);
            }
        }
        c
    }

    /// The canvas dimensions, `(width, height)`.
    pub fn get_dimensions(&self) -> (d: (u32, u32))
        ensures
            d.0 == self.width,
            d.1 == self.height,
    {
        (self.width, self.height)
    }

    /// The pixel at `(x, y)`.
    pub fn get_pixel(&self, x: u32, y: u32) -> (p: Rgba)
        requires
            self.wf(),
            x < self.width,
            y < self.height,
        ensures
            p == self.pixel_at(x as int, y as int),
    {
        proof {
            lemma_row_major(
                self.width as int,
                self.height as int,
                x as int,
                y as int,
                x as int,
                y as int,
            );
        }
        self.pixels[(y as usize) * (self.width as usize) + (x as usize)]
    }

    /// Writes `color` at `(x, y)`. A target outside the canvas is refused:
    /// the canvas is left unchanged and the offending coordinates are
    /// reported.
    pub fn draw(&mut self, x: u32, y: u32, color: Color) -> (r: Result<(), CanvasError>)
        requires
            old(self).wf(),
        ensures
            final(self).wf(),
            final(self).width == old(self).width,
            final(self).height == old(self).height,
            r is Ok <==> x < old(self).width && y < old(self).height,
            r is Ok ==> final(self).pixels@ == old(self).pixels@.update(
                old(self).idx(x as int, y as int),
                color_rgba(color),
            ),
            r is Err ==> *final(self) == *old(self) && r == Err::<(), CanvasError>(
                old(self).bounds_error(x, y),
            ),
    {
        if x >= self.width || y >= self.height {
            return Err(CanvasError::OutOfBounds { x, y, width: self.width, height: self.height });
        }
        proof {
            lemma_row_major(
                self.width as int,
                self.height as int,
                x as int,
                y as int,
                x as int,
                y as int,
            );
        }
        let i: usize = (y as usize) * (self.width as usize) + (x as usize);
        self.pixels[i] = color.to_rgba();
        Ok(())
    }

    /// Writes `colors` into a block of `width` columns anchored at `(x, y)`,
    /// row-major: element `i` goes to `(x + i % width, y + i / width)`, as if
    /// by one `draw` per element in order. A block that would leave the
    /// canvas is refused whole: the canvas is left unchanged.
    #[verifier::loop_isolation(false)]
    pub fn draw_area(&mut self, x: u32, y: u32, width: u32, colors: &[Color]) -> (r: Result<
        (),
        CanvasError,
    >)
        requires
            old(self).wf(),
            width > 0,
        ensures
            final(self).wf(),
            final(self).width == old(self).width,
            final(self).height == old(self).height,
            r is Ok <==> old(self).area_fits(
                x as int,
                y as int,
                width as int,
                colors@.len() as int,
            ),
            r is Err ==> *final(self) == *old(self) && r == Err::<(), CanvasError>(
                old(self).bounds_error(x, y),
            ),
            r is Ok ==> forall|i: int|
                0 <= i < colors@.len() ==> final(self).pixel_at(
                    x + i % (width as int),
                    y + i / (width as int),
                ) == color_rgba(colors@[i]),
            r is Ok ==> forall|px: int, py: int|
                old(self).in_bounds(px, py) && !in_block(
                    x as int,
                    y as int,
                    width as int,
                    colors@.len() as int,
                    px,
                    py,
                ) ==> final(self).pixel_at(px, py) == old(self).pixel_at(px, py),
    {
        let n: usize = colors.len();
        let w64: u64 = width as u64;
        let nrows: u64 = (n as u64) / w64;
        let fits: bool = (x as u64) + w64 <= (self.width as u64) && nrows <= (self.height as u64)
            && (y as u64) + nrows <= (self.height as u64) && ((n as u64) % w64 == 0 || (y as u64)
            + nrows < (self.height as u64));
        if !fits {
            return Err(CanvasError::OutOfBounds { x, y, width: self.width, height: self.height });
        }
        let ghost wi: int = width as int;
        let mut i: usize = 0;
        while i < n
            invariant
                0 <= i <= n,
                self.width == old(self).width,
                self.height == old(self).height,
                self.wf(),
                forall|px: int, py: int|
                    self.in_bounds(px, py) ==> #[trigger] self.pixel_at(px, py) == (
                    if in_block(x as int, y as int, wi, i as int, px, py) {
                        color_rgba(colors@[block_index(x as int, y as int, wi, px, py)])
                    } else {
                        old(self).pixel_at(px, py)
                    }),
            decreases n - i,
        {
            proof {
                lemma_block_rows(wi, n as int, i as int);
                lemma_block_cell(wi, i as int);
            }
            let xi: u32 = x + ((i as u64) % w64) as u32;
            let yi: u32 = y + ((i as u64) / w64) as u32;
            let ghost prev = *self;
            let _drawn = self.draw(xi, yi, colors[i]);
            proof {
                assert(xi as int == x + (i as int) % wi);
                assert(yi as int == y + (i as int) / wi);
                assert(block_index(x as int, y as int, wi, xi as int, yi as int) == i as int);
                assert(in_block(x as int, y as int, wi, i + 1, xi as int, yi as int));
                assert forall|px: int, py: int| self.in_bounds(px, py) implies #[trigger] self
                    .pixel_at(px, py) == (if in_block(x as int, y as int, wi, i + 1, px, py) {
                    color_rgba(colors@[block_index(x as int, y as int, wi, px, py)])
                } else {
                    old(self).pixel_at(px, py)
                }) by {
                    lemma_row_major(
                        self.width as int,
                        self.height as int,
                        px,
                        py,
                        xi as int,
                        yi as int,
                    );
                    assert(prev.pixel_at(px, py) == (if in_block(
                        x as int,
                        y as int,
                        wi,
                        i as int,
                        px,
                        py,
                    ) {
                        color_rgba(colors@[block_index(x as int, y as int, wi, px, py)])
                    } else {
                        old(self).pixel_at(px, py)
                    }));
                    if px == xi as int && py == yi as int {
                        assert(self.pixel_at(px, py) == color_rgba(colors@[i as int]));
                    } else {
                        assert(self.pixel_at(px, py) == prev.pixel_at(px, py));
                        if in_block(x as int, y as int, wi, i + 1, px, py) && !in_block(
                            x as int,
                            y as int,
                            wi,
                            i as int,
                            px,
                            py,
                        ) {
                            // the one fresh cell of the block is (xi, yi)
                            lemma_div_mod_unique(wi, py - y, px - x);
                        }
                    }
                }
            }
            i = i + 1;
        }
        proof {
            assert forall|j: int| 0 <= j < colors@.len() implies self.pixel_at(
                x + j % wi,
                y + j / wi,
            ) == color_rgba(colors@[j]) by {
                lemma_block_rows(wi, n as int, j);
                lemma_block_cell(wi, j);
                lemma_div_mod_unique(wi, j / wi, j % wi);
            }
        }
        Ok(())
    }

    /// Hands the row-major pixel buffer over, for export through an image
    /// encoder; consumes the canvas, so nothing can be drawn after it.
    pub fn into_pixels(self) -> (v: Vec<Rgba>)
        ensures
            v@ == self.pixels@,
    {
        self.pixels
    }
}

impl Default for Canvas {
    /// An 800 by 600 canvas, every pixel black and fully transparent.
    fn default() -> (c: Canvas)
        ensures
            c.wf(),
            c.width == 800,
            c.height == 600,
            forall|x: int, y: int| c.in_bounds(x, y) ==> c.pixel_at(x, y) == (Rgba {
                r: 0,
                g: 0,
                b: 0,
                a: 0,
            }),
    {
        Canvas::new(800, 600)
    }
}

} // verus!
