use vstd::prelude::*;
use crate::fragment::Fragment;
use crate::framebuffer::{cell_index, lemma_cell_in_grid, Framebuffer, DEPTH_INFINITY};
use crate::shaders::{fragment_shader, shade, Shader, Uniforms};
use crate::triangle::{lemma_depth_between, Triangle};
use crate::vertex::Vertex;

verus! {

/// The `k`-th triangle of a flat vertex array: vertices `3k`, `3k + 1`, `3k + 2`.
pub open spec fn triangle_at(vs: Seq<Vertex>, k: int) -> Triangle {
    Triangle { v1: vs[3 * k], v2: vs[3 * k + 1], v3: vs[3 * k + 2] }
}

/// `f` is emitted by one of the first `count` triangles of `vs`.
pub open spec fn emitted_by_mesh(
    vs: Seq<Vertex>,
    count: int,
    f: Fragment,
    fb: Framebuffer,
    base: crate::color::Color,
) -> bool {
    exists|k: int|
        0 <= k < count && #[trigger] triangle_at(vs, k).emits(
            f,
            fb.width as int,
            fb.height as int,
            base,
        )
}

/// The cell at `(px, py)` holds the depth of fragment `f` and its shaded color.
pub open spec fn cell_shows(
    fb: Framebuffer,
    px: int,
    py: int,
    f: Fragment,
    u: Uniforms,
    shader: Shader,
) -> bool {
    let i = cell_index(fb.width as int, px, py);
    &&& f.x == px
    &&& f.y == py
    &&& fb.zbuffer@[i] == f.depth
    &&& fb.buffer@[i] == shade(f, u, shader).hex()
}

/// The cell at `(px, py)` is untouched since the clear.
pub open spec fn cell_is_background(fb: Framebuffer, px: int, py: int) -> bool {
    let i = cell_index(fb.width as int, px, py);
    &&& fb.zbuffer@[i] == DEPTH_INFINITY
    &&& fb.buffer@[i] == fb.background_color.hex()
}

proof fn lemma_cell_injective(width: int, height: int, x1: int, y1: int, x2: int, y2: int)
    requires
        0 <= x1 < width,
        0 <= y1 < height,
        0 <= x2 < width,
        0 <= y2 < height,
        cell_index(width, x1, y1) == cell_index(width, x2, y2),
    ensures
        x1 == x2 && y1 == y2,
{
    if y1 < y2 {
        assert(y1 * width + width <= y2 * width) by (nonlinear_arith)
            requires
                y1 < y2,
                width > 0,
        ;
    } else if y2 < y1 {
        assert(y2 * width + width <= y1 * width) by (nonlinear_arith)
            requires
                y2 < y1,
                width > 0,
        ;
    }
}

/// Renders one frame: clears the framebuffer, rasterizes each full triple
/// of `vertex_array` (whose screen positions and normals are already set),
/// shades every fragment with `shader` and writes it through the depth test.
///
/// Afterwards every cell covered by a triangle holds a depth no farther than
/// that triangle's depth there, and every cell either is untouched (background
/// color, infinite depth) or shows a fragment of some triangle: its depth and
/// its shaded color.
#[verifier::rlimit(40)]
pub fn render(
    framebuffer: &mut Framebuffer,
    uniforms: &Uniforms,
    vertex_array: &Vec<Vertex>,
    shader: Shader,
)
    requires
        old(framebuffer).wf(),
    ensures
        final(framebuffer).wf(),
        final(framebuffer).width == old(framebuffer).width,
        final(framebuffer).height == old(framebuffer).height,
        final(framebuffer).background_color == old(framebuffer).background_color,
        forall|k: int, px: int, py: int|
            0 <= k < vertex_array@.len() / 3 && triangle_at(vertex_array@, k).in_clipped_box(
                old(framebuffer).width as int,
                old(framebuffer).height as int,
                px,
                py,
            ) && #[trigger] triangle_at(vertex_array@, k).covers(px, py)
                ==> final(framebuffer).zbuffer@[cell_index(old(framebuffer).width as int, px, py)]
                <= triangle_at(vertex_array@, k).depth_at(px, py),
        forall|px: int, py: int|
            0 <= px < old(framebuffer).width && 0 <= py < old(framebuffer).height ==> #[trigger]
            cell_is_background(*final(framebuffer), px, py) || exists|k: int|
                0 <= k < vertex_array@.len() / 3 && #[trigger] triangle_at(vertex_array@, k).covers(
                    px,
                    py,
                ) && cell_shows(
                    *final(framebuffer),
                    px,
                    py,
                    triangle_at(vertex_array@, k).fragment_at(px, py, old(framebuffer).current_color),
                    *uniforms,
                    shader,
                ),
{
    let ghost vs = vertex_array@;
    let ghost base = framebuffer.current_color;
    framebuffer.clear();
    let ghost cleared = *framebuffer;
    let count = vertex_array.len() / 3;
    let mut all: Vec<Fragment> = Vec::new();
    let mut k: usize = 0;
    while k < count
        invariant
            k <= count,
            count == vs.len() / 3,
            vs == vertex_array@,
            *framebuffer == cleared,
            cleared.current_color == base,
            forall|j: int|
                0 <= j < all@.len() ==> emitted_by_mesh(vs, k as int, #[trigger] all@[j], cleared, base),
            forall|t: int, px: int, py: int|
                0 <= t < k && triangle_at(vs, t).in_clipped_box(
                    cleared.width as int,
                    cleared.height as int,
                    px,
                    py,
                ) && #[trigger] triangle_at(vs, t).covers(px, py) ==> all@.contains(
                    triangle_at(vs, t).fragment_at(px, py, base),
                ),
        decreases count - k,
    {
        assert(3 * k + 2 < vertex_array.len()) by (nonlinear_arith)
            requires
                k < count,
                count == vertex_array.len() / 3,
        ;
        let tri = Triangle::new_from_vertices(
            vertex_array[3 * k],
            vertex_array[3 * k + 1],
            vertex_array[3 * k + 2],
        );
        assert(tri == triangle_at(vs, k as int));
        let mut frags = tri.draw(framebuffer);
        let ghost before = all@;
        let ghost drawn = frags@;
        all.append(&mut frags);
        proof {
            assert forall|j: int| 0 <= j < all@.len() implies emitted_by_mesh(
                vs,
                k + 1,
                #[trigger] all@[j],
                cleared,
                base,
            ) by {
                if j < before.len() {
                    assert(all@[j] == before[j]);
                    assert(emitted_by_mesh(vs, k as int, before[j], cleared, base));
                    let t = choose|t: int|
                        0 <= t < k && #[trigger] triangle_at(vs, t).emits(
                            before[j],
                            cleared.width as int,
                            cleared.height as int,
                            base,
                        );
                    assert(0 <= t < k + 1);
                } else {
                    assert(all@[j] == drawn[j - before.len()]);
                    assert(tri.emits(drawn[j - before.len()], cleared.width as int, cleared.height as int, base));
                }
            }
            assert forall|t: int, px: int, py: int|
                0 <= t < k + 1 && triangle_at(vs, t).in_clipped_box(
                    cleared.width as int,
                    cleared.height as int,
                    px,
                    py,
                ) && #[trigger] triangle_at(vs, t).covers(px, py) implies all@.contains(
                triangle_at(vs, t).fragment_at(px, py, base),
            ) by {
                let g = triangle_at(vs, t).fragment_at(px, py, base);
                if t < k {
                    let i = choose|i: int| 0 <= i < before.len() && before[i] == g;
                    assert(all@[i] == before[i]);
                } else {
                    assert(drawn.contains(g));
                    let i = choose|i: int| 0 <= i < drawn.len() && drawn[i] == g;
                    assert(all@[before.len() + i] == drawn[i]);
                }
            }
        }
        k = k + 1;
    }
    let mut j: usize = 0;
    proof {
        assert forall|px: int, py: int|
            0 <= px < cleared.width && 0 <= py < cleared.height implies #[trigger] cell_is_background(
            *framebuffer,
            px,
            py,
        ) by {
            lemma_cell_in_grid(cleared.width as int, cleared.height as int, px, py);
        }
    }
    while j < all.len()
        invariant
            j <= all@.len(),
            count == vs.len() / 3,
            vs == vertex_array@,
            framebuffer.wf(),
            framebuffer.width == cleared.width,
            framebuffer.height == cleared.height,
            framebuffer.background_color == cleared.background_color,
            cleared.wf(),
            forall|i: int|
                0 <= i < all@.len() ==> emitted_by_mesh(vs, count as int, #[trigger] all@[i], cleared, base),
            forall|t: int, px: int, py: int|
                0 <= t < count && triangle_at(vs, t).in_clipped_box(
                    cleared.width as int,
                    cleared.height as int,
                    px,
                    py,
                ) && #[trigger] triangle_at(vs, t).covers(px, py) ==> all@.contains(
                    triangle_at(vs, t).fragment_at(px, py, base),
                ),
            forall|i: int|
                0 <= i < j ==> framebuffer.zbuffer@[cell_index(
                    cleared.width as int,
                    (#[trigger] all@[i]).x as int,
                    all@[i].y as int,
                )] <= all@[i].depth,
            forall|px: int, py: int|
                0 <= px < cleared.width && 0 <= py < cleared.height ==> #[trigger]
                cell_is_background(*framebuffer, px, py) || exists|i: int|
                    0 <= i < j && cell_shows(
                        *framebuffer,
                        px,
                        py,
                        #[trigger] all@[i],
                        *uniforms,
                        shader,
                    ),
        decreases all@.len() - j,
    {
        let ghost pre = *framebuffer;
        let f = all[j];
        let color = fragment_shader(&f, uniforms, shader);
        framebuffer.set_current_color(color);
        let ghost mid = *framebuffer;
        proof {
            assert(emitted_by_mesh(vs, count as int, all@[j as int], cleared, base));
        }
        framebuffer.point(f.x as usize, f.y as usize, f.depth);
        proof {
            let w = cleared.width as int;
            let h = cleared.height as int;
            let c0 = cell_index(w, f.x as int, f.y as int);
            lemma_cell_in_grid(w, h, f.x as int, f.y as int);
            assert forall|i: int|
                0 <= i < j + 1 implies framebuffer.zbuffer@[cell_index(
                w,
                (#[trigger] all@[i]).x as int,
                all@[i].y as int,
            )] <= all@[i].depth by {
                assert(emitted_by_mesh(vs, count as int, all@[i], cleared, base));
                lemma_cell_in_grid(w, h, all@[i].x as int, all@[i].y as int);
            }
            assert forall|px: int, py: int|
                0 <= px < w && 0 <= py < h implies #[trigger] cell_is_background(
                *framebuffer,
                px,
                py,
            ) || exists|i: int|
                0 <= i < j + 1 && cell_shows(
                    *framebuffer,
                    px,
                    py,
                    #[trigger] all@[i],
                    *uniforms,
                    shader,
                ) by {
                lemma_cell_in_grid(w, h, px, py);
                let c = cell_index(w, px, py);
                if c == c0 {
                    lemma_cell_injective(w, h, px, py, f.x as int, f.y as int);
                    if (f.depth as i64) < mid.zbuffer@[c0] {
                        assert(cell_shows(*framebuffer, px, py, all@[j as int], *uniforms, shader));
                    } else {
                        assert(framebuffer.zbuffer@[c] == mid.zbuffer@[c]);
                        assert(framebuffer.buffer@[c] == mid.buffer@[c]);
                        if !cell_is_background(pre, px, py) {
                            let i = choose|i: int|
                                0 <= i < j && cell_shows(pre, px, py, #[trigger] all@[i], *uniforms, shader);
                            assert(cell_shows(*framebuffer, px, py, all@[i], *uniforms, shader));
                        }
                    }
                } else {
                    assert(framebuffer.zbuffer@[c] == mid.zbuffer@[c]);
                    assert(framebuffer.buffer@[c] == mid.buffer@[c]);
                    if !cell_is_background(pre, px, py) {
                        let i = choose|i: int|
                            0 <= i < j && cell_shows(pre, px, py, #[trigger] all@[i], *uniforms, shader);
                        assert(cell_shows(*framebuffer, px, py, all@[i], *uniforms, shader));
                    }
                }
            }
        }
        j = j + 1;
    }
    proof {
        let w = cleared.width as int;
        let h = cleared.height as int;
        assert forall|t: int, px: int, py: int|
            0 <= t < vs.len() / 3 && triangle_at(vs, t).in_clipped_box(w, h, px, py)
                && #[trigger] triangle_at(vs, t).covers(px, py) implies framebuffer.zbuffer@[cell_index(
            w,
            px,
            py,
        )] <= triangle_at(vs, t).depth_at(px, py) by {
            let g = triangle_at(vs, t).fragment_at(px, py, base);
            let i = choose|i: int| 0 <= i < all@.len() && all@[i] == g;
            lemma_depth_between(triangle_at(vs, t), px, py);
            assert(all@[i] == g);
        }
        assert forall|px: int, py: int|
            0 <= px < w && 0 <= py < h implies #[trigger] cell_is_background(*framebuffer, px, py)
            || exists|t: int|
                0 <= t < vs.len() / 3 && #[trigger] triangle_at(vs, t).covers(px, py) && cell_shows(
                    *framebuffer,
                    px,
                    py,
                    triangle_at(vs, t).fragment_at(px, py, base),
                    *uniforms,
                    shader,
                ) by {
            if !cell_is_background(*framebuffer, px, py) {
                let i = choose|i: int|
                    0 <= i < all@.len() && cell_shows(*framebuffer, px, py, #[trigger] all@[i], *uniforms, shader);
                assert(emitted_by_mesh(vs, count as int, all@[i], cleared, base));
                let t = choose|t: int|
                    0 <= t < count && #[trigger] triangle_at(vs, t).emits(
                        all@[i],
                        w,
                        h,
                        base,
                    );
                assert(triangle_at(vs, t).covers(px, py));
            }
        }
    }
}

} // verus!
