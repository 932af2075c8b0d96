use vstd::prelude::*;
use crate::geometry::{div_toward_zero, FIXED_ONE};
use crate::vertex::ScreenPoint;

verus! {

/// `v` saturated to the range of `i32`.
pub open spec fn saturate_i32(v: int) -> i32 {
    if v < i32::MIN {
        i32::MIN
    } else if v > i32::MAX {
        i32::MAX
    } else {
        v as i32
    }
}

/// The viewport map from normalized device coordinates (units of
/// `1 / FIXED_ONE`) to pixels, with the y axis flipped:
/// `x = W/2 * ndc_x + W/2`, `y = -H/2 * ndc_y + H/2`, depth unchanged; pixel
/// coordinates are rounded toward zero and saturated to `i32`.
pub open spec fn viewport_spec(ndc_x: i32, ndc_y: i32, ndc_z: i32, width: usize, height: usize) -> ScreenPoint {
    ScreenPoint {
        x: saturate_i32(div_toward_zero((ndc_x + FIXED_ONE) * width, 2 * FIXED_ONE)),
        y: saturate_i32(div_toward_zero((FIXED_ONE - ndc_y) * height, 2 * FIXED_ONE)),
        depth: ndc_z,
    }
}

/// The centre of NDC maps to the centre of the screen, its top-left corner
/// `(-1, 1)` to pixel `(0, 0)` and its bottom-right corner `(1, -1)` to
/// `(W, H)`.
pub proof fn lemma_viewport_corners(width: usize, height: usize)
    requires
        width <= i32::MAX,
        height <= i32::MAX,
    ensures
        viewport_spec(0, 0, 0, width, height) == (ScreenPoint {
            x: (width / 2) as i32,
            y: (height / 2) as i32,
            depth: 0,
        }),
        viewport_spec(-65536i32, FIXED_ONE, 0, width, height) == (ScreenPoint { x: 0, y: 0, depth: 0 }),
        viewport_spec(FIXED_ONE, -65536i32, 0, width, height) == (ScreenPoint {
            x: width as i32,
            y: height as i32,
            depth: 0,
        }),
{
    let one = FIXED_ONE as int;
    assert((one * width) / (2 * one) == width as int / 2) by (nonlinear_arith)
        requires
            one == 65536,
            width >= 0,
    ;
    assert((one * height) / (2 * one) == height as int / 2) by (nonlinear_arith)
        requires
            one == 65536,
            height >= 0,
    ;
    assert((2 * one * width) / (2 * one) == width as int) by (nonlinear_arith)
        requires
            one == 65536,
    ;
    assert((2 * one * height) / (2 * one) == height as int) by (nonlinear_arith)
        requires
            one == 65536,
    ;
}

/// `n / d` rounded toward zero and saturated to `i32`, for `d > 0`.
fn div_saturate(n: i128, d: i128) -> (r: i32)
    requires
        d > 0,
        n > i128::MIN,
    ensures
        r == saturate_i32(div_toward_zero(n as int, d as int)),
{
    let q: i128 = if n >= 0 { n / d } else { -((-n) / d) };
    if q < i32::MIN as i128 {
        i32::MIN
    } else if q > i32::MAX as i128 {
        i32::MAX
    } else {
        q as i32
    }
}

/// Maps a point in normalized device coordinates to screen space.
pub fn viewport_transform(ndc_x: i32, ndc_y: i32, ndc_z: i32, width: usize, height: usize) -> (p: ScreenPoint)
    ensures
        p == viewport_spec(ndc_x, ndc_y, ndc_z, width, height),
{
    let w = width as i128;
    let h = height as i128;
    let one = FIXED_ONE as i128;
    assert(-0x1_0000_0000 * 0x1_0000_0000_0000_0000 <= (ndc_x + one) * w <= 0x1_0000_0000 * 0x1_0000_0000_0000_0000)
        by (nonlinear_arith)
        requires
            -0x1_0000_0000 <= ndc_x + one <= 0x1_0000_0000,
            0 <= w <= 0x1_0000_0000_0000_0000,
    ;
    assert(-0x1_0000_0000 * 0x1_0000_0000_0000_0000 <= (one - ndc_y) * h <= 0x1_0000_0000 * 0x1_0000_0000_0000_0000)
        by (nonlinear_arith)
        requires
            -0x1_0000_0000 <= one - ndc_y <= 0x1_0000_0000,
            0 <= h <= 0x1_0000_0000_0000_0000,
    ;
    ScreenPoint {
        x: div_saturate((ndc_x as i128 + one) * w, 2 * one),
        y: div_saturate((one - ndc_y as i128) * h, 2 * one),
        depth: ndc_z,
    }
}

} // verus!
