use vstd::prelude::*;
use vstd::arithmetic::div_mod::{
    lemma_div_is_ordered,
    lemma_div_multiples_vanish,
    lemma_hoist_over_denominator,
};
use crate::color::{Color, FRACTION_ONE};
use crate::fragment::Fragment;
use crate::framebuffer::Framebuffer;
use crate::geometry::Fixed3;
use crate::vertex::Vertex;

verus! {

/// Three vertices in submission order; either winding is accepted.
#[derive(Clone, Copy, Debug, PartialEq, Eq, Structural)]
pub struct Triangle {
    pub v1: Vertex,
    pub v2: Vertex,
    pub v3: Vertex,
}

/// Barycentric weights of a point scaled by a common positive `denom`: the
/// point is `(w1 * a + w2 * b + w3 * c) / denom`, and `w1 + w2 + w3 == denom`.
#[derive(Clone, Copy, Debug, PartialEq, Eq, Structural)]
pub struct Barycentric {
    pub w1: i128,
    pub w2: i128,
    pub w3: i128,
    pub denom: i128,
}

pub open spec fn abs_int(v: int) -> int {
    if v < 0 { -v } else { v }
}

pub open spec fn min3(a: int, b: int, c: int) -> int {
    if a <= b && a <= c { a } else if b <= c { b } else { c }
}

pub open spec fn max3(a: int, b: int, c: int) -> int {
    if a >= b && a >= c { a } else if b >= c { b } else { c }
}

/// Twice the signed area of the screen triangle `a b c`.
pub open spec fn det2(ax: int, ay: int, bx: int, by: int, cx: int, cy: int) -> int {
    (by - cy) * (ax - cx) + (cx - bx) * (ay - cy)
}

/// First barycentric weight of `p`, scaled by `det2`.
pub open spec fn raw_w1(px: int, py: int, bx: int, by: int, cx: int, cy: int) -> int {
    (by - cy) * (px - cx) + (cx - bx) * (py - cy)
}

/// Second barycentric weight of `p`, scaled by `det2`.
pub open spec fn raw_w2(px: int, py: int, ax: int, ay: int, cx: int, cy: int) -> int {
    (cy - ay) * (px - cx) + (ax - cx) * (py - cy)
}

/// A weight scaled by `det` brought to the scale `|det|`.
pub open spec fn oriented(det: int, w: int) -> int {
    if det < 0 { -w } else { w }
}

/// `(w1 * v1 + w2 * v2 + w3 * v3) / d`, rounded down.
pub open spec fn blend(w1: int, w2: int, w3: int, d: int, v1: int, v2: int, v3: int) -> int {
    (w1 * v1 + w2 * v2 + w3 * v3) / d
}

impl Triangle {
    pub open spec fn det(self) -> int {
        let a = self.v1.transformed_position;
        let b = self.v2.transformed_position;
        let c = self.v3.transformed_position;
        det2(a.x as int, a.y as int, b.x as int, b.y as int, c.x as int, c.y as int)
    }

    /// First weight of pixel `(px, py)`, on the scale `|det|`.
    pub open spec fn weight1(self, px: int, py: int) -> int {
        let b = self.v2.transformed_position;
        let c = self.v3.transformed_position;
        oriented(self.det(), raw_w1(px, py, b.x as int, b.y as int, c.x as int, c.y as int))
    }

    /// Second weight of pixel `(px, py)`, on the scale `|det|`.
    pub open spec fn weight2(self, px: int, py: int) -> int {
        let a = self.v1.transformed_position;
        let c = self.v3.transformed_position;
        oriented(self.det(), raw_w2(px, py, a.x as int, a.y as int, c.x as int, c.y as int))
    }

    /// Third weight of pixel `(px, py)`, on the scale `|det|`.
    pub open spec fn weight3(self, px: int, py: int) -> int {
        abs_int(self.det()) - self.weight1(px, py) - self.weight2(px, py)
    }

    /// The pixel lies in the closed triangle, which is not degenerate.
    pub open spec fn covers(self, px: int, py: int) -> bool {
        &&& self.det() != 0
        &&& self.weight1(px, py) >= 0
        &&& self.weight2(px, py) >= 0
        &&& self.weight3(px, py) >= 0
    }

    pub open spec fn interpolate(self, px: int, py: int, v1: int, v2: int, v3: int) -> int {
        blend(
            self.weight1(px, py),
            self.weight2(px, py),
            self.weight3(px, py),
            abs_int(self.det()),
            v1,
            v2,
            v3,
        )
    }

    /// Depth at the pixel, interpolated linearly in screen space.
    pub open spec fn depth_at(self, px: int, py: int) -> int {
        self.interpolate(
            px,
            py,
            self.v1.transformed_position.depth as int,
            self.v2.transformed_position.depth as int,
            self.v3.transformed_position.depth as int,
        )
    }

    /// Normal at the pixel: the vertex normals interpolated linearly, then
    /// rescaled to unit length.
    pub open spec fn normal_at(self, px: int, py: int) -> Fixed3 {
        let n1 = self.v1.transformed_normal;
        let n2 = self.v2.transformed_normal;
        let n3 = self.v3.transformed_normal;
        Fixed3 {
            x: self.interpolate(px, py, n1.x as int, n2.x as int, n3.x as int) as i32,
            y: self.interpolate(px, py, n1.y as int, n2.y as int, n3.y as int) as i32,
            z: self.interpolate(px, py, n1.z as int, n2.z as int, n3.z as int) as i32,
        }.normalized()
    }

    pub open spec fn min_depth(self) -> int {
        min3(
            self.v1.transformed_position.depth as int,
            self.v2.transformed_position.depth as int,
            self.v3.transformed_position.depth as int,
        )
    }

    pub open spec fn max_depth(self) -> int {
        max3(
            self.v1.transformed_position.depth as int,
            self.v2.transformed_position.depth as int,
            self.v3.transformed_position.depth as int,
        )
    }

    /// The pixel lies in the triangle's bounding box clipped to a grid of
    /// `width` by `height` cells.
    pub open spec fn in_clipped_box(self, width: int, height: int, px: int, py: int) -> bool {
        let a = self.v1.transformed_position;
        let b = self.v2.transformed_position;
        let c = self.v3.transformed_position;
        &&& 0 <= px < width
        &&& 0 <= py < height
        &&& min3(a.x as int, b.x as int, c.x as int) <= px <= max3(a.x as int, b.x as int, c.x as int)
        &&& min3(a.y as int, b.y as int, c.y as int) <= py <= max3(a.y as int, b.y as int, c.y as int)
    }

    /// `f` is the fragment that the triangle emits at its pixel, drawn on a
    /// grid of `width` by `height` cells whose current color is `color`.
    pub open spec fn emits(self, f: Fragment, width: int, height: int, color: Color) -> bool {
        &&& self.in_clipped_box(width, height, f.x as int, f.y as int)
        &&& self.covers(f.x as int, f.y as int)
        &&& f == self.fragment_at(f.x as int, f.y as int, color)
        &&& self.min_depth() <= self.depth_at(f.x as int, f.y as int) <= self.max_depth()
    }

    /// The fragment that the triangle emits at a covered pixel.
    pub open spec fn fragment_at(self, px: int, py: int, color: Color) -> Fragment {
        Fragment {
            x: px as i32,
            y: py as i32,
            color,
            depth: self.depth_at(px, py) as i32,
            normal: self.normal_at(px, py),
            intensity: FRACTION_ONE,
        }
    }

    pub fn new_from_vertices(v1: Vertex, v2: Vertex, v3: Vertex) -> (t: Triangle)
        ensures
            t == (Triangle { v1, v2, v3 }),
    {
        Triangle { v1, v2, v3 }
    }

    /// The fragments of every pixel of the clipped bounding box that the
    /// triangle covers, each carrying the interpolated depth and normal, the
    /// framebuffer's current color and full intensity. A degenerate triangle
    /// emits none.
    pub fn draw(&self, framebuffer: &mut Framebuffer) -> (frags: Vec<Fragment>)
        ensures
            *final(framebuffer) == *old(framebuffer),
            forall|i: int|
                0 <= i < frags@.len() ==> self.emits(
                    #[trigger] frags@[i],
                    old(framebuffer).width as int,
                    old(framebuffer).height as int,
                    old(framebuffer).current_color,
                ),
            forall|px: int, py: int|
                self.in_clipped_box(old(framebuffer).width as int, old(framebuffer).height as int, px, py)
                    && #[trigger] self.covers(px, py) ==> frags@.contains(
                    self.fragment_at(px, py, old(framebuffer).current_color),
                ),
            self.det() == 0 ==> frags@.len() == 0,
    {
        let a = self.v1.transformed_position;
        let b = self.v2.transformed_position;
        let c = self.v3.transformed_position;
        let color = framebuffer.current_color;
        let width: i64 = if framebuffer.width > 0x8000_0000 { 0x8000_0000 } else { framebuffer.width as i64 };
        let height: i64 = if framebuffer.height > 0x8000_0000 { 0x8000_0000 } else { framebuffer.height as i64 };
        let lo_x: i64 = min3_i32(a.x, b.x, c.x) as i64;
        let hi_x: i64 = max3_i32(a.x, b.x, c.x) as i64;
        let lo_y: i64 = min3_i32(a.y, b.y, c.y) as i64;
        let hi_y: i64 = max3_i32(a.y, b.y, c.y) as i64;
        let min_x: i64 = if lo_x > 0 { lo_x } else { 0 };
        let max_x: i64 = if hi_x < width - 1 { hi_x } else { width - 1 };
        let min_y: i64 = if lo_y > 0 { lo_y } else { 0 };
        let max_y: i64 = if hi_y < height - 1 { hi_y } else { height - 1 };
        let ghost w = framebuffer.width as int;
        let ghost h = framebuffer.height as int;
        let mut frags: Vec<Fragment> = Vec::new();
        let mut y: i64 = min_y;
        while y <= max_y
            invariant
                min_y <= y,
                y <= max_y + 1 || y == min_y,
                min_y == (if lo_y > 0 { lo_y } else { 0 }),
                max_y == (if hi_y < height - 1 { hi_y as int } else { height - 1 }),
                height == h || (h > 0x8000_0000 && height == 0x8000_0000),
                min_x == (if lo_x > 0 { lo_x } else { 0 }),
                max_x == (if hi_x < width - 1 { hi_x as int } else { width - 1 }),
                width == w || (w > 0x8000_0000 && width == 0x8000_0000),
                a == self.v1.transformed_position,
                b == self.v2.transformed_position,
                c == self.v3.transformed_position,
                w == framebuffer.width,
                h == framebuffer.height,
                color == framebuffer.current_color,
                *framebuffer == *old(framebuffer),
                lo_x == min3(a.x as int, b.x as int, c.x as int),
                hi_x == max3(a.x as int, b.x as int, c.x as int),
                lo_y == min3(a.y as int, b.y as int, c.y as int),
                hi_y == max3(a.y as int, b.y as int, c.y as int),
                forall|i: int| 0 <= i < frags@.len() ==> self.emits(#[trigger] frags@[i], w, h, color),
                forall|px: int, py: int|
                    self.in_clipped_box(w, h, px, py) && #[trigger] self.covers(px, py) && py < y
                        ==> frags@.contains(self.fragment_at(px, py, color)),
            decreases max_y + 1 - y,
        {
            let mut x: i64 = min_x;
            proof {
                assert forall|px: int, py: int|
                    self.in_clipped_box(w, h, px, py) && #[trigger] self.covers(px, py) && (py < y
                        || (py == y && px < x)) implies frags@.contains(self.fragment_at(px, py, color)) by {
                    assert(px >= min_x);
                }
            }
            while x <= max_x
                invariant
                    min_y <= y <= max_y,
                    min_y == (if lo_y > 0 { lo_y } else { 0 }),
                    max_y == (if hi_y < height - 1 { hi_y as int } else { height - 1 }),
                    height == h || (h > 0x8000_0000 && height == 0x8000_0000),
                    min_x <= x,
                    x <= max_x + 1 || x == min_x,
                    min_x == (if lo_x > 0 { lo_x } else { 0 }),
                    max_x == (if hi_x < width - 1 { hi_x as int } else { width - 1 }),
                    width == w || (w > 0x8000_0000 && width == 0x8000_0000),
                    a == self.v1.transformed_position,
                    b == self.v2.transformed_position,
                    c == self.v3.transformed_position,
                    w == framebuffer.width,
                    h == framebuffer.height,
                    color == framebuffer.current_color,
                    *framebuffer == *old(framebuffer),
                    lo_x == min3(a.x as int, b.x as int, c.x as int),
                    hi_x == max3(a.x as int, b.x as int, c.x as int),
                    lo_y == min3(a.y as int, b.y as int, c.y as int),
                    hi_y == max3(a.y as int, b.y as int, c.y as int),
                    forall|i: int| 0 <= i < frags@.len() ==> self.emits(#[trigger] frags@[i], w, h, color),
                    forall|px: int, py: int|
                        self.in_clipped_box(w, h, px, py) && #[trigger] self.covers(px, py) && (py < y
                            || (py == y && px < x)) ==> frags@.contains(self.fragment_at(px, py, color)),
                decreases max_x + 1 - x,
            {
                let px = x as i32;
                let py = y as i32;
                let bary = barycentric_coordinates(px, py, a.x, a.y, b.x, b.y, c.x, c.y);
                if let Some(wt) = bary {
                    if wt.w1 >= 0 && wt.w2 >= 0 && wt.w3 >= 0 {
                        let depth = interpolate(wt, a.depth, b.depth, c.depth);
                        let n1 = self.v1.transformed_normal;
                        let n2 = self.v2.transformed_normal;
                        let n3 = self.v3.transformed_normal;
                        let sum = Fixed3 {
                            x: interpolate(wt, n1.x, n2.x, n3.x),
                            y: interpolate(wt, n1.y, n2.y, n3.y),
                            z: interpolate(wt, n1.z, n2.z, n3.z),
                        };
                        let normal = sum.normalize();
                        let frag = Fragment::new_with_normal(px, py, color, depth, normal, FRACTION_ONE);
                        let ghost before = frags@;
                        proof {
                            assert(wt.w1 == self.weight1(x as int, y as int));
                            assert(wt.w2 == self.weight2(x as int, y as int));
                            assert(wt.w3 == self.weight3(x as int, y as int));
                            assert(self.covers(x as int, y as int));
                            assert(self.in_clipped_box(w, h, x as int, y as int));
                            assert(frag == self.fragment_at(x as int, y as int, color));
                            assert(self.emits(frag, w, h, color));
                        }
                        frags.push(frag);
                        proof {
                            assert forall|i: int| 0 <= i < frags@.len() implies self.emits(
                                #[trigger] frags@[i],
                                w,
                                h,
                                color,
                            ) by {
                                if i < before.len() {
                                    assert(frags@[i] == before[i]);
                                }
                            }
                            assert(frags@[frags@.len() - 1] == frag);
                            assert forall|qx: int, qy: int|
                                self.in_clipped_box(w, h, qx, qy) && #[trigger] self.covers(qx, qy) && (qy < y
                                    || (qy == y && qx < x + 1)) implies frags@.contains(self.fragment_at(qx, qy, color)) by {
                                if qy == y && qx == x {
                                    assert(frags@[frags@.len() - 1] == self.fragment_at(qx, qy, color));
                                } else {
                                    lemma_push_keeps_fragment(before, frag, self.fragment_at(qx, qy, color));
                                }
                            }
                        }
                    }
                }
                x = x + 1;
            }
            proof {
                assert forall|px: int, py: int|
                    self.in_clipped_box(w, h, px, py) && #[trigger] self.covers(px, py) && py < y
                        + 1 implies frags@.contains(self.fragment_at(px, py, color)) by {
                    assert(px <= max_x);
                }
            }
            y = y + 1;
        }
        proof {
            if self.det() == 0 && frags@.len() > 0 {
                assert(self.covers(frags@[0].x as int, frags@[0].y as int));
            }
        }
        frags
    }
}

/// A blend of three values with non-negative weights lies between the
/// smallest and the largest of them.
pub proof fn lemma_blend_between(w1: int, w2: int, w3: int, d: int, v1: int, v2: int, v3: int)
    requires
        w1 >= 0,
        w2 >= 0,
        w3 >= 0,
        w1 + w2 + w3 == d,
        d > 0,
    ensures
        min3(v1, v2, v3) <= blend(w1, w2, w3, d, v1, v2, v3) <= max3(v1, v2, v3),
{
    let lo = min3(v1, v2, v3);
    let hi = max3(v1, v2, v3);
    let s = w1 * v1 + w2 * v2 + w3 * v3;
    assert(d * lo <= s <= d * hi) by (nonlinear_arith)
        requires
            w1 >= 0,
            w2 >= 0,
            w3 >= 0,
            w1 + w2 + w3 == d,
            lo <= v1 <= hi,
            lo <= v2 <= hi,
            lo <= v3 <= hi,
            s == w1 * v1 + w2 * v2 + w3 * v3,
    ;
    lemma_div_is_ordered(d * lo, s, d);
    lemma_div_is_ordered(s, d * hi, d);
    lemma_div_multiples_vanish(lo, d);
    lemma_div_multiples_vanish(hi, d);
}

/// At every pixel that a triangle covers, the interpolated depth is a convex
/// combination of the three vertex depths, so it lies between the nearest and
/// the farthest of them.
pub proof fn lemma_depth_between(t: Triangle, px: int, py: int)
    requires
        t.covers(px, py),
    ensures
        t.min_depth() <= t.depth_at(px, py) <= t.max_depth(),
{
    lemma_blend_between(
        t.weight1(px, py),
        t.weight2(px, py),
        t.weight3(px, py),
        abs_int(t.det()),
        t.v1.transformed_position.depth as int,
        t.v2.transformed_position.depth as int,
        t.v3.transformed_position.depth as int,
    );
}

proof fn lemma_push_keeps_fragment(s: Seq<Fragment>, f: Fragment, g: Fragment)
    requires
        s.contains(g),
    ensures
        s.push(f).contains(g),
{
    let i = choose|i: int| 0 <= i < s.len() && s[i] == g;
    assert(s.push(f)[i] == s[i]);
}

fn min3_i32(a: i32, b: i32, c: i32) -> (r: i32)
    ensures
        r == min3(a as int, b as int, c as int),
{
    if a <= b && a <= c { a } else if b <= c { b } else { c }
}

fn max3_i32(a: i32, b: i32, c: i32) -> (r: i32)
    ensures
        r == max3(a as int, b as int, c as int),
{
    if a >= b && a >= c { a } else if b >= c { b } else { c }
}

proof fn lemma_diff_product(a: int, b: int, c: int, d: int)
    requires
        -0x8000_0000 <= a < 0x8000_0000,
        -0x8000_0000 <= b < 0x8000_0000,
        -0x8000_0000 <= c < 0x8000_0000,
        -0x8000_0000 <= d < 0x8000_0000,
    ensures
        -0x1_0000_0000_0000_0000 <= (a - b) * (c - d) <= 0x1_0000_0000_0000_0000,
{
    assert(-0x1_0000_0000_0000_0000 <= (a - b) * (c - d) <= 0x1_0000_0000_0000_0000)
        by (nonlinear_arith)
        requires
            -0x1_0000_0000 <= a - b <= 0x1_0000_0000,
            -0x1_0000_0000 <= c - d <= 0x1_0000_0000,
    ;
}

/// Barycentric weights of `p` in the screen triangle `a b c`, scaled by
/// `|det2|` and oriented so that they are all non-negative exactly when `p`
/// lies in the closed triangle; `None` for a degenerate triangle.
pub fn barycentric_coordinates(
    px: i32,
    py: i32,
    ax: i32,
    ay: i32,
    bx: i32,
    by: i32,
    cx: i32,
    cy: i32,
) -> (r: Option<Barycentric>)
    ensures
        r is None <==> det2(ax as int, ay as int, bx as int, by as int, cx as int, cy as int) == 0,
        r matches Some(w) ==> {
            let d = det2(ax as int, ay as int, bx as int, by as int, cx as int, cy as int);
            &&& w.denom == abs_int(d)
            &&& w.w1 == oriented(d, raw_w1(px as int, py as int, bx as int, by as int, cx as int, cy as int))
            &&& w.w2 == oriented(d, raw_w2(px as int, py as int, ax as int, ay as int, cx as int, cy as int))
            &&& w.w3 == w.denom - w.w1 - w.w2
            &&& 0 < w.denom <= 0x2_0000_0000_0000_0000
        },
{
    let (px, py) = (px as i128, py as i128);
    let (ax, ay, bx, by, cx, cy) = (ax as i128, ay as i128, bx as i128, by as i128, cx as i128, cy as i128);
    proof {
        lemma_diff_product(by as int, cy as int, ax as int, cx as int);
        lemma_diff_product(cx as int, bx as int, ay as int, cy as int);
        lemma_diff_product(by as int, cy as int, px as int, cx as int);
        lemma_diff_product(cx as int, bx as int, py as int, cy as int);
        lemma_diff_product(cy as int, ay as int, px as int, cx as int);
        lemma_diff_product(ax as int, cx as int, py as int, cy as int);
    }
    let denom = (by - cy) * (ax - cx) + (cx - bx) * (ay - cy);
    if denom == 0 {
        return None;
    }
    let w1 = (by - cy) * (px - cx) + (cx - bx) * (py - cy);
    let w2 = (cy - ay) * (px - cx) + (ax - cx) * (py - cy);
    if denom < 0 {
        Some(Barycentric { w1: -w1, w2: -w2, w3: -denom + w1 + w2, denom: -denom })
    } else {
        Some(Barycentric { w1, w2, w3: denom - w1 - w2, denom })
    }
}

/// `(w1 * v1 + w2 * v2 + w3 * v3) / d` for non-negative weights that sum to
/// `d`: a convex combination, so it lies between the smallest and the largest
/// of the three values.
fn interpolate(w: Barycentric, v1: i32, v2: i32, v3: i32) -> (r: i32)
    requires
        w.w1 >= 0,
        w.w2 >= 0,
        w.w3 >= 0,
        w.w1 + w.w2 + w.w3 == w.denom,
        0 < w.denom <= 0x2_0000_0000_0000_0000,
    ensures
        r == blend(w.w1 as int, w.w2 as int, w.w3 as int, w.denom as int, v1 as int, v2 as int, v3 as int),
        min3(v1 as int, v2 as int, v3 as int) <= r <= max3(v1 as int, v2 as int, v3 as int),
{
    let lo: i32 = if v1 <= v2 && v1 <= v3 { v1 } else if v2 <= v3 { v2 } else { v3 };
    let hi: i32 = if v1 >= v2 && v1 >= v3 { v1 } else if v2 >= v3 { v2 } else { v3 };
    let (d1, d2, d3) = (v1 as i128 - lo as i128, v2 as i128 - lo as i128, v3 as i128 - lo as i128);
    let span = hi as i128 - lo as i128;
    proof {
        assert(w.w1 * d1 + w.w2 * d2 + w.w3 * d3 <= w.denom * span
            && 0 <= w.w1 * d1 + w.w2 * d2 + w.w3 * d3
            && w.denom * span <= 0x2_0000_0000_0000_0000 * 0x1_0000_0000) by (nonlinear_arith)
            requires
                w.w1 >= 0,
                w.w2 >= 0,
                w.w3 >= 0,
                w.w1 + w.w2 + w.w3 == w.denom,
                0 < w.denom <= 0x2_0000_0000_0000_0000,
                0 <= d1 <= span,
                0 <= d2 <= span,
                0 <= d3 <= span,
                span <= 0x1_0000_0000,
        ;
        assert(w.w1 * d1 <= w.denom * span && w.w2 * d2 <= w.denom * span) by (nonlinear_arith)
            requires
                w.w1 >= 0,
                w.w2 >= 0,
                w.w3 >= 0,
                w.w1 + w.w2 + w.w3 == w.denom,
                0 <= d1 <= span,
                0 <= d2 <= span,
        ;
        assert(0 <= w.w1 * d1 && 0 <= w.w2 * d2 && 0 <= w.w3 * d3) by (nonlinear_arith)
            requires
                w.w1 >= 0,
                w.w2 >= 0,
                w.w3 >= 0,
                0 <= d1,
                0 <= d2,
                0 <= d3,
        ;
    }
    let num = w.w1 * d1 + w.w2 * d2 + w.w3 * d3;
    let q = num / w.denom;
    proof {
        let d = w.denom as int;
        lemma_div_is_ordered(0, num as int, d);
        lemma_div_is_ordered(num as int, d * span, d);
        lemma_div_multiples_vanish(span as int, d);
        assert(0int / d == 0);
        lemma_hoist_over_denominator(num as int, lo as int, d as nat);
        assert(num + lo * d == w.w1 * v1 + w.w2 * v2 + w.w3 * v3) by (nonlinear_arith)
            requires
                d1 == v1 - lo,
                d2 == v2 - lo,
                d3 == v3 - lo,
                num == w.w1 * d1 + w.w2 * d2 + w.w3 * d3,
                d == w.w1 + w.w2 + w.w3,
        ;
    }
    (lo as i128 + q) as i32
}

} // verus!
