use vstd::prelude::*;
use crate::color::Color;

verus! {

/// Linear interpolation from `a` at row `0` to `b` at row `h`, evaluated at
/// row `y` with `t = y / h` and truncated to an integer:
/// `a * (1 - t) + b * t` over the rationals, rounded towards zero.
pub open spec fn lerp_channel(a: int, b: int, y: int, h: int) -> int {
    (a * (h - y) + b * y) / h
}

/// The truncated interpolation of two byte-sized endpoints stays a byte.
pub proof fn lemma_lerp_channel_range(a: int, b: int, y: int, h: int) by (nonlinear_arith)
    requires
        0 <= a <= 255,
        0 <= b <= 255,
        0 <= y < h,
    ensures
        0 <= lerp_channel(a, b, y, h) <= 255,
{
}

/// `i / w` stays below `h` while `i` stays below `w * h`.
pub proof fn lemma_div_below(i: int, w: int, h: int) by (nonlinear_arith)
    requires
        w > 0,
        0 <= i < w * h,
    ensures
        0 <= i / w < h,
{
}

/// The backdrop color of row `y` out of `height`: every channel is a linear
/// interpolation between the top triple `(122, 170, 255)` and the bottom
/// triple `(220, 220, 230)`, parameterized by `t = y / height` and
/// truncated to a byte.
pub fn backdrop_color(y: u32, height: u32) -> (c: Color)
    requires
        y < height,
    ensures
        c.red as int == lerp_channel(122, 220, y as int, height as int),
        c.green as int == lerp_channel(170, 220, y as int, height as int),
        c.blue as int == lerp_channel(255, 230, y as int, height as int),
{
    proof {
        lemma_lerp_channel_range(122, 220, y as int, height as int);
        lemma_lerp_channel_range(170, 220, y as int, height as int);
        lemma_lerp_channel_range(255, 230, y as int, height as int);
    }
    let h: u64 = height as u64;
    let yy: u64 = y as u64;
    let red: u64 = (122 * (h - yy) + 220 * yy) / h;
    let green: u64 = (170 * (h - yy) + 220 * yy) / h;
    let blue: u64 = (255 * (h - yy) + 230 * yy) / h;
    Color::new(red as u8, green as u8, blue as u8)
}

/// The whole backdrop, row-major for a `width`-column canvas: element `i`
/// carries the gradient color of row `i / width`, so drawing the result as
/// a `width`-wide block anchored at the origin fills the canvas.
#[verifier::loop_isolation(false)]
pub fn backdrop_colors(width: u32, height: u32) -> (v: Vec<Color>)
    requires
        width > 0,
        height > 0,
        (width as int) * (height as int) <= usize::MAX as int,
    ensures
        v@.len() == (width as int) * (height as int),
        forall|i: int|
            0 <= i < v@.len() ==> {
                &&& (#[trigger] v@[i]).red as int == lerp_channel(
                    122,
                    220,
                    i / (width as int),
                    height as int,
                )
                &&& v@[i].green as int == lerp_channel(170, 220, i / (width as int), height as int)
                &&& v@[i].blue as int == lerp_channel(255, 230, i / (width as int), height as int)
            },
{
    let total: usize = (width as usize) * (height as usize);
    let mut v: Vec<Color> = Vec::new();
    let mut i: usize = 0;
    while i < total
        invariant
            0 <= i <= total,
            v@.len() == i as int,
            forall|j: int|
                0 <= j < i ==> {
                    &&& (#[trigger] v@[j]).red as int == lerp_channel(
                        122,
                        220,
                        j / (width as int),
                        height as int,
                    )
                    &&& v@[j].green as int == lerp_channel(
                        170,
                        220,
                        j / (width as int),
                        height as int,
                    )
                    &&& v@[j].blue as int == lerp_channel(
                        255,
                        230,
                        j / (width as int),
                        height as int,
                    )
                },
        decreases total - i,
    {
        proof {
            lemma_div_below(i as int, width as int, height as int);
        }
        let row: u32 = ((i as u64) / (width as u64)) as u32;
        let c = backdrop_color(row, height);
        v.push(c);
        i = i + 1;
    }
    v
}

} // verus!
