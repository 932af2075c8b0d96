use vstd::prelude::*;
use vstd::arithmetic::div_mod::{lemma_div_is_ordered, lemma_div_multiples_vanish};
use crate::geometry::{div_toward_zero, Fixed2, Fixed3, FIXED_ONE};
use crate::obj::{corner_spec, face_corners, fan_triangulate, is_fan_of, Corner};
use crate::vertex::{ScreenPoint, Vertex};

verus! {

/// A triangle mesh: consecutive triples of vertices form one triangle each.
pub struct Model {
    pub vertices: Vec<Vertex>,
}

/// The tables of a mesh being read, and the triangle vertices read so far.
pub struct MeshBuilder {
    pub positions: Vec<Fixed3>,
    pub normals: Vec<Fixed3>,
    pub tex_coords: Vec<Fixed2>,
    pub vertices: Vec<Vertex>,
}

/// The vertex that a corner names: a missing position is the origin, a
/// missing normal `(0, 1, 0)`, missing texture coordinates `(0, 0)`.
pub open spec fn corner_vertex(
    c: Corner,
    positions: Seq<Fixed3>,
    normals: Seq<Fixed3>,
    tex_coords: Seq<Fixed2>,
) -> Vertex {
    let position = match c.position {
        Some(i) => if i < positions.len() { positions[i as int] } else { Fixed3 { x: 0, y: 0, z: 0 } },
        None => Fixed3 { x: 0, y: 0, z: 0 },
    };
    let normal = match c.normal {
        Some(i) => if i < normals.len() { normals[i as int] } else { Fixed3 { x: 0, y: FIXED_ONE, z: 0 } },
        None => Fixed3 { x: 0, y: FIXED_ONE, z: 0 },
    };
    let tex = match c.tex_coords {
        Some(i) => if i < tex_coords.len() { tex_coords[i as int] } else { Fixed2 { u: 0, v: 0 } },
        None => Fixed2 { u: 0, v: 0 },
    };
    Vertex {
        position,
        normal,
        tex_coords: tex,
        transformed_position: ScreenPoint { x: 0, y: 0, depth: 0 },
        transformed_normal: normal,
    }
}

/// The vertices that the tokens of a face name, one per token.
pub open spec fn face_vertices(tokens: Seq<Vec<u8>>, b: MeshBuilder) -> Seq<Vertex> {
    Seq::new(
        tokens.len(),
        |i: int| corner_vertex(corner_spec(tokens[i]@), b.positions@, b.normals@, b.tex_coords@),
    )
}

fn lookup3(table: &Vec<Fixed3>, index: Option<usize>, default: Fixed3) -> (r: Fixed3)
    ensures
        r == (match index {
            Some(i) => if i < table@.len() { table@[i as int] } else { default },
            None => default,
        }),
{
    match index {
        Some(i) => if i < table.len() {
            table[i]
        } else {
            default
        },
        None => default,
    }
}

fn lookup2(table: &Vec<Fixed2>, index: Option<usize>) -> (r: Fixed2)
    ensures
        r == (match index {
            Some(i) => if i < table@.len() { table@[i as int] } else { Fixed2 { u: 0, v: 0 } },
            None => Fixed2 { u: 0, v: 0 },
        }),
{
    match index {
        Some(i) => if i < table.len() {
            table[i]
        } else {
            Fixed2 { u: 0, v: 0 }
        },
        None => Fixed2 { u: 0, v: 0 },
    }
}

pub open spec fn coord(p: Fixed3, axis: int) -> int {
    if axis == 0 {
        p.x as int
    } else if axis == 1 {
        p.y as int
    } else {
        p.z as int
    }
}

/// The least position coordinate on `axis` (0, 1, 2 for x, y, z); 0 when
/// there is no vertex.
pub open spec fn axis_min(vs: Seq<Vertex>, axis: int) -> int
    decreases vs.len(),
{
    if vs.len() == 0 {
        0
    } else if vs.len() == 1 {
        coord(vs[0].position, axis)
    } else {
        let m = axis_min(vs.drop_last(), axis);
        let c = coord(vs.last().position, axis);
        if c < m { c } else { m }
    }
}

/// The greatest position coordinate on `axis`; 0 when there is no vertex.
pub open spec fn axis_max(vs: Seq<Vertex>, axis: int) -> int
    decreases vs.len(),
{
    if vs.len() == 0 {
        0
    } else if vs.len() == 1 {
        coord(vs[0].position, axis)
    } else {
        let m = axis_max(vs.drop_last(), axis);
        let c = coord(vs.last().position, axis);
        if c > m { c } else { m }
    }
}

pub open spec fn bounds_min(vs: Seq<Vertex>) -> Fixed3 {
    Fixed3 { x: axis_min(vs, 0) as i32, y: axis_min(vs, 1) as i32, z: axis_min(vs, 2) as i32 }
}

pub open spec fn bounds_max(vs: Seq<Vertex>) -> Fixed3 {
    Fixed3 { x: axis_max(vs, 0) as i32, y: axis_max(vs, 1) as i32, z: axis_max(vs, 2) as i32 }
}

/// The largest extent of the bounding box over the three axes.
pub open spec fn max_extent(vs: Seq<Vertex>) -> int {
    let sx = axis_max(vs, 0) - axis_min(vs, 0);
    let sy = axis_max(vs, 1) - axis_min(vs, 1);
    let sz = axis_max(vs, 2) - axis_min(vs, 2);
    if sx >= sy && sx >= sz { sx } else if sy >= sz { sy } else { sz }
}

/// One coordinate moved so that the box centre is the origin and scaled so
/// that the largest extent becomes `size`.
pub open spec fn recentred(c: int, lo: int, hi: int, size: i32, extent: int) -> i32 {
    div_toward_zero((c - div_toward_zero(lo + hi, 2)) * size, extent) as i32
}

/// A vertex after `normalize_and_center`: only its position changes.
pub open spec fn recentred_vertex(v: Vertex, vs: Seq<Vertex>, size: i32) -> Vertex {
    let e = max_extent(vs);
    Vertex {
        position: Fixed3 {
            x: recentred(v.position.x as int, axis_min(vs, 0), axis_max(vs, 0), size, e),
            y: recentred(v.position.y as int, axis_min(vs, 1), axis_max(vs, 1), size, e),
            z: recentred(v.position.z as int, axis_min(vs, 2), axis_max(vs, 2), size, e),
        },
        ..v
    }
}

proof fn lemma_axis_range(vs: Seq<Vertex>, axis: int)
    ensures
        i32::MIN <= axis_min(vs, axis) <= i32::MAX,
        i32::MIN <= axis_max(vs, axis) <= i32::MAX,
    decreases vs.len(),
{
    if vs.len() > 1 {
        lemma_axis_range(vs.drop_last(), axis);
    }
}

proof fn lemma_axis_step(vs: Seq<Vertex>, i: int, axis: int)
    requires
        1 <= i < vs.len(),
    ensures
        axis_min(vs.take(i + 1), axis) == ({
            let m = axis_min(vs.take(i), axis);
            let c = coord(vs[i].position, axis);
            if c < m { c } else { m }
        }),
        axis_max(vs.take(i + 1), axis) == ({
            let m = axis_max(vs.take(i), axis);
            let c = coord(vs[i].position, axis);
            if c > m { c } else { m }
        }),
{
    assert(vs.take(i + 1).drop_last() =~= vs.take(i));
}

/// `(c - centre) * size / extent` rounded toward zero, for `c` within the
/// box; its magnitude is at most `|size|`.
fn recentre(c: i32, lo: i32, hi: i32, size: i32, extent: i64) -> (r: i32)
    requires
        lo <= c <= hi,
        0 <= hi - lo <= extent,
        0 < extent <= 0x1_0000_0000,
    ensures
        r == recentred(c as int, lo as int, hi as int, size, extent as int),
{
    let sum: i64 = lo as i64 + hi as i64;
    let centre: i64 = if sum >= 0 { sum / 2 } else { -((-sum) / 2) };
    let a: i64 = c as i64 - centre;
    assert(-(extent as int) <= a <= extent);
    assert(-0x1_0000_0000 * 0x8000_0000 <= a * size <= 0x1_0000_0000 * 0x8000_0000) by (nonlinear_arith)
        requires
            -0x1_0000_0000 <= a <= 0x1_0000_0000,
            -0x8000_0000 <= size <= 0x7fff_ffff,
    ;
    let n: i128 = a as i128 * size as i128;
    let m: i128 = if n >= 0 { n } else { -n };
    let mag: i128 = if size >= 0 { size as i128 } else { -(size as i128) };
    proof {
        assert(m <= extent * mag) by (nonlinear_arith)
            requires
                -(extent as int) <= a <= extent,
                n == a * size,
                m == if n >= 0 { n as int } else { -n },
                mag == if size >= 0 { size as int } else { -(size as int) },
        ;
        assert(0 <= m);
        lemma_div_is_ordered(m as int, extent * mag, extent as int);
        lemma_div_multiples_vanish(mag as int, extent as int);
        lemma_div_is_ordered(0, m as int, extent as int);
    }
    let q: i128 = m / extent as i128;
    assert(q <= mag);
    if n >= 0 {
        q as i32
    } else {
        (-q) as i32
    }
}

impl Model {
    /// The componentwise least and greatest vertex positions; the origin
    /// twice for an empty model.
    pub fn get_bounds(&self) -> (r: (Fixed3, Fixed3))
        ensures
            r.0 == bounds_min(self.vertices@),
            r.1 == bounds_max(self.vertices@),
            forall|i: int, axis: int|
                0 <= i < self.vertices@.len() && 0 <= axis < 3 ==> coord(r.0, axis) <= #[trigger] coord(
                    self.vertices@[i].position,
                    axis,
                ) <= coord(r.1, axis),
    {
        let n = self.vertices.len();
        if n == 0 {
            return (Fixed3 { x: 0, y: 0, z: 0 }, Fixed3 { x: 0, y: 0, z: 0 });
        }
        let ghost vs = self.vertices@;
        let first = self.vertices[0].position;
        let mut lo = first;
        let mut hi = first;
        let mut i: usize = 1;
        assert(vs.take(1).len() == 1);
        while i < n
            invariant
                1 <= i <= n == vs.len(),
                vs == self.vertices@,
                forall|axis: int| 0 <= axis < 3 ==> #[trigger] coord(lo, axis) == axis_min(vs.take(i as int), axis),
                forall|axis: int| 0 <= axis < 3 ==> #[trigger] coord(hi, axis) == axis_max(vs.take(i as int), axis),
                forall|k: int, axis: int|
                    0 <= k < i && 0 <= axis < 3 ==> coord(lo, axis) <= #[trigger] coord(vs[k].position, axis)
                        <= coord(hi, axis),
            decreases n - i,
        {
            let p = self.vertices[i].position;
            proof {
                lemma_axis_step(vs, i as int, 0);
                lemma_axis_step(vs, i as int, 1);
                lemma_axis_step(vs, i as int, 2);
            }
            lo = Fixed3 {
                x: if p.x < lo.x { p.x } else { lo.x },
                y: if p.y < lo.y { p.y } else { lo.y },
                z: if p.z < lo.z { p.z } else { lo.z },
            };
            hi = Fixed3 {
                x: if p.x > hi.x { p.x } else { hi.x },
                y: if p.y > hi.y { p.y } else { hi.y },
                z: if p.z > hi.z { p.z } else { hi.z },
            };
            proof {
                assert(coord(lo, 0) == axis_min(vs.take(i + 1), 0));
                assert(coord(lo, 1) == axis_min(vs.take(i + 1), 1));
                assert(coord(lo, 2) == axis_min(vs.take(i + 1), 2));
                assert(coord(hi, 0) == axis_max(vs.take(i + 1), 0));
                assert(coord(hi, 1) == axis_max(vs.take(i + 1), 1));
                assert(coord(hi, 2) == axis_max(vs.take(i + 1), 2));
            }
            i = i + 1;
        }
        assert(vs.take(n as int) =~= vs);
        assert(lo == bounds_min(vs));
        assert(hi == bounds_max(vs));
        (lo, hi)
    }

    /// Centres the mesh on the origin and scales it so that its largest
    /// extent becomes `size` (units of `1 / FIXED_ONE`); a mesh of zero
    /// extent is left as it is.
    pub fn normalize_and_center(&mut self, size: i32)
        ensures
            max_extent(old(self).vertices@) == 0 ==> final(self).vertices@ == old(self).vertices@,
            max_extent(old(self).vertices@) != 0 ==> final(self).vertices@.len() == old(self).vertices@.len(),
            max_extent(old(self).vertices@) != 0 ==> forall|i: int|
                0 <= i < old(self).vertices@.len() ==> #[trigger] final(self).vertices@[i]
                    == recentred_vertex(old(self).vertices@[i], old(self).vertices@, size),
    {
        let (lo, hi) = self.get_bounds();
        let sx: i64 = hi.x as i64 - lo.x as i64;
        let sy: i64 = hi.y as i64 - lo.y as i64;
        let sz: i64 = hi.z as i64 - lo.z as i64;
        let extent: i64 = if sx >= sy && sx >= sz { sx } else if sy >= sz { sy } else { sz };
        let ghost vs = self.vertices@;
        proof {
            lemma_axis_range(vs, 0);
            lemma_axis_range(vs, 1);
            lemma_axis_range(vs, 2);
            if vs.len() > 0 {
                assert(coord(lo, 0) <= coord(vs[0].position, 0) <= coord(hi, 0));
                assert(coord(lo, 1) <= coord(vs[0].position, 1) <= coord(hi, 1));
                assert(coord(lo, 2) <= coord(vs[0].position, 2) <= coord(hi, 2));
            }
        }
        assert(extent == max_extent(vs));
        if extent == 0 {
            return;
        }
        let n = self.vertices.len();
        let mut i: usize = 0;
        while i < n
            invariant
                0 <= i <= n == vs.len() == self.vertices@.len(),
                extent == max_extent(vs) > 0,
                extent <= 0x1_0000_0000,
                0 <= sx <= extent,
                0 <= sy <= extent,
                0 <= sz <= extent,
                sx == hi.x - lo.x,
                sy == hi.y - lo.y,
                sz == hi.z - lo.z,
                lo == bounds_min(vs),
                hi == bounds_max(vs),
                forall|k: int, axis: int|
                    0 <= k < vs.len() && 0 <= axis < 3 ==> coord(lo, axis) <= #[trigger] coord(vs[k].position, axis)
                        <= coord(hi, axis),
                forall|k: int| i <= k < n ==> #[trigger] self.vertices@[k] == vs[k],
                forall|k: int| 0 <= k < i ==> #[trigger] self.vertices@[k] == recentred_vertex(vs[k], vs, size),
            decreases n - i,
        {
            let v = self.vertices[i];
            proof {
                lemma_axis_range(vs, 0);
                lemma_axis_range(vs, 1);
                lemma_axis_range(vs, 2);
                assert(coord(lo, 0) <= coord(vs[i as int].position, 0) <= coord(hi, 0));
                assert(coord(lo, 1) <= coord(vs[i as int].position, 1) <= coord(hi, 1));
                assert(coord(lo, 2) <= coord(vs[i as int].position, 2) <= coord(hi, 2));
            }
            let p = Fixed3 {
                x: recentre(v.position.x, lo.x, hi.x, size, extent),
                y: recentre(v.position.y, lo.y, hi.y, size, extent),
                z: recentre(v.position.z, lo.z, hi.z, size, extent),
            };
            let ghost prev = self.vertices@;
            self.vertices.set(i, Vertex { position: p, ..v });
            proof {
                assert(self.vertices@[i as int] == recentred_vertex(vs[i as int], vs, size));
                assert forall|k: int| 0 <= k < i + 1 implies #[trigger] self.vertices@[k] == recentred_vertex(
                    vs[k],
                    vs,
                    size,
                ) by {
                    if k < i {
                        assert(self.vertices@[k] == prev[k]);
                    }
                }
            }
            i = i + 1;
        }
    }
}

impl MeshBuilder {
    pub fn new() -> (b: MeshBuilder)
        ensures
            b.positions@.len() == 0,
            b.normals@.len() == 0,
            b.tex_coords@.len() == 0,
            b.vertices@.len() == 0,
    {
        MeshBuilder { positions: Vec::new(), normals: Vec::new(), tex_coords: Vec::new(), vertices: Vec::new() }
    }

    /// Records a `v` line.
    pub fn add_position(&mut self, p: Fixed3)
        ensures
            final(self).positions@ == old(self).positions@.push(p),
            final(self).normals@ == old(self).normals@,
            final(self).tex_coords@ == old(self).tex_coords@,
            final(self).vertices@ == old(self).vertices@,
    {
        self.positions.push(p);
    }

    /// Records a `vn` line.
    pub fn add_normal(&mut self, n: Fixed3)
        ensures
            final(self).positions@ == old(self).positions@,
            final(self).normals@ == old(self).normals@.push(n),
            final(self).tex_coords@ == old(self).tex_coords@,
            final(self).vertices@ == old(self).vertices@,
    {
        self.normals.push(n);
    }

    /// Records a `vt` line.
    pub fn add_tex_coords(&mut self, t: Fixed2)
        ensures
            final(self).positions@ == old(self).positions@,
            final(self).normals@ == old(self).normals@,
            final(self).tex_coords@ == old(self).tex_coords@.push(t),
            final(self).vertices@ == old(self).vertices@,
    {
        self.tex_coords.push(t);
    }

    /// The vertex that a corner names, looked up in the tables read so far.
    pub fn resolve(&self, c: Corner) -> (v: Vertex)
        ensures
            v == corner_vertex(c, self.positions@, self.normals@, self.tex_coords@),
    {
        let position = lookup3(&self.positions, c.position, Fixed3 { x: 0, y: 0, z: 0 });
        let normal = lookup3(&self.normals, c.normal, Fixed3 { x: 0, y: FIXED_ONE, z: 0 });
        let tex = lookup2(&self.tex_coords, c.tex_coords);
        Vertex::new(position, normal, tex)
    }

    /// Records an `f` line from the tokens after its leader: the face is
    /// fan-triangulated and its triangles appended.
    pub fn add_face(&mut self, tokens: &Vec<Vec<u8>>)
        ensures
            final(self).positions@ == old(self).positions@,
            final(self).normals@ == old(self).normals@,
            final(self).tex_coords@ == old(self).tex_coords@,
            final(self).vertices@.subrange(0, old(self).vertices@.len() as int) == old(self).vertices@,
            is_fan_of(
                final(self).vertices@.subrange(
                    old(self).vertices@.len() as int,
                    final(self).vertices@.len() as int,
                ),
                face_vertices(tokens@, *old(self)),
            ),
    {
        let corners = face_corners(tokens);
        let mut resolved: Vec<Vertex> = Vec::new();
        let mut i: usize = 0;
        while i < corners.len()
            invariant
                i <= corners@.len(),
                corners@.len() == tokens@.len(),
                forall|k: int| 0 <= k < corners@.len() ==> #[trigger] corners@[k] == corner_spec(tokens@[k]@),
                resolved@.len() == i,
                forall|k: int|
                    0 <= k < i ==> #[trigger] resolved@[k] == face_vertices(tokens@, *self)[k],
            decreases corners@.len() - i,
        {
            let v = self.resolve(corners[i]);
            resolved.push(v);
            i = i + 1;
        }
        assert(resolved@ =~= face_vertices(tokens@, *self));
        let mut fan = fan_triangulate(&resolved);
        let ghost before = self.vertices@;
        let ghost added = fan@;
        self.vertices.append(&mut fan);
        assert(self.vertices@.subrange(0, before.len() as int) =~= before);
        assert(self.vertices@.subrange(before.len() as int, self.vertices@.len() as int) =~= added);
    }

    pub fn into_model(self) -> (m: Model)
        ensures
            m.vertices@ == self.vertices@,
    {
        Model { vertices: self.vertices }
    }
}

} // verus!
