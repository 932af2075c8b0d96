use vstd::prelude::*;
use crate::geometry::{Fixed2, Fixed3, FIXED_ONE};
use crate::vertex::Vertex;

verus! {

/// One corner of a face: zero-based indices into the position, texture
/// coordinate and normal tables. `None` names no entry, and so does an index
/// past the end of its table: the corner then takes the default value.
#[derive(Clone, Copy, Debug, PartialEq, Eq, Structural)]
pub struct Corner {
    pub position: Option<usize>,
    pub tex_coords: Option<usize>,
    pub normal: Option<usize>,
}

pub open spec fn is_digit(b: u8) -> bool {
    48 <= b <= 57
}

/// The number that a string of decimal digits spells.
pub open spec fn digits_value(s: Seq<u8>) -> nat
    decreases s.len(),
{
    if s.len() == 0 {
        0
    } else {
        digits_value(s.drop_last()) * 10 + (s.last() - 48) as nat
    }
}

/// The text with one leading `+` taken off.
pub open spec fn unsigned_part(s: Seq<u8>) -> Seq<u8> {
    if s.len() > 0 && s[0] == 43 {
        s.skip(1)
    } else {
        s
    }
}

/// An unsigned decimal index: an optional `+`, then one or more digits,
/// with a value that fits in `usize`.
pub open spec fn index_value(s: Seq<u8>) -> Option<nat> {
    let d = unsigned_part(s);
    if d.len() > 0 && (forall|i: int| 0 <= i < d.len() ==> is_digit(#[trigger] d[i]))
        && digits_value(d) <= usize::MAX {
        Some(digits_value(d))
    } else {
        None
    }
}

/// A one-based index field as a zero-based table index: a field that does not
/// parse stands for the first entry, and index 0 for no entry.
pub open spec fn table_index(field: Seq<u8>) -> Option<usize> {
    match index_value(field) {
        None => Some(0),
        Some(n) => if n == 0 { None } else { Some((n - 1) as usize) },
    }
}

/// Position of the first `/` of `s` at or after `i`, or `s.len()`.
pub open spec fn find_slash(s: Seq<u8>, i: int) -> int
    decreases s.len() - i,
{
    if i >= s.len() || i < 0 {
        s.len() as int
    } else if s[i] == 47 {
        i
    } else {
        find_slash(s, i + 1)
    }
}

/// The corner that a face token `pos[/tex[/norm]]` names.
pub open spec fn corner_spec(s: Seq<u8>) -> Corner {
    let p0 = find_slash(s, 0);
    let p1 = find_slash(s, p0 + 1);
    let p2 = find_slash(s, p1 + 1);
    Corner {
        position: table_index(s.subrange(0, p0)),
        tex_coords: if p0 < s.len() && p1 > p0 + 1 {
            table_index(s.subrange(p0 + 1, p1))
        } else {
            Some(0)
        },
        normal: if p1 < s.len() {
            table_index(s.subrange(p1 + 1, p2))
        } else {
            Some(0)
        },
    }
}

/// `c` fanned into triangles `(c0, c1, c2), (c0, c2, c3), ...`, flattened.
pub open spec fn is_fan_of<T>(r: Seq<T>, c: Seq<T>) -> bool {
    &&& c.len() < 3 ==> r.len() == 0
    &&& c.len() >= 3 ==> r.len() == 3 * (c.len() - 2)
    &&& forall|t: int| 0 <= t < c.len() - 2 ==> #[trigger] fan_triangle(r, c, t)
}

/// The `t`-th triangle of `r` is `(c0, c(t+1), c(t+2))`.
pub open spec fn fan_triangle<T>(r: Seq<T>, c: Seq<T>, t: int) -> bool {
    &&& r[3 * t] == c[0]
    &&& r[3 * t + 1] == c[t + 1]
    &&& r[3 * t + 2] == c[t + 2]
}

proof fn lemma_find_slash_step(s: Seq<u8>, i: int)
    requires
        0 <= i < s.len(),
        s[i] != 47,
    ensures
        find_slash(s, i) == find_slash(s, i + 1),
{
}

proof fn lemma_find_slash_bounds(s: Seq<u8>, i: int)
    ensures
        find_slash(s, i) <= s.len(),
        i >= 0 ==> i <= find_slash(s, i) || find_slash(s, i) == s.len(),
        0 <= i ==> find_slash(s, i) >= i || i > s.len(),
    decreases s.len() - i,
{
    if 0 <= i < s.len() && s[i] != 47 {
        lemma_find_slash_bounds(s, i + 1);
    }
}

/// Position of the first `/` of `s` at or after `from`, or `s.len()`.
fn slash_at_or_after(s: &[u8], from: usize) -> (p: usize)
    requires
        from <= s@.len(),
    ensures
        p == find_slash(s@, from as int),
        from <= p <= s@.len(),
{
    let mut i = from;
    while i < s.len()
        invariant
            from <= i <= s@.len(),
            find_slash(s@, from as int) == find_slash(s@, i as int),
        decreases s@.len() - i,
    {
        if s[i] == 47 {
            return i;
        }
        proof {
            lemma_find_slash_step(s@, i as int);
        }
        i = i + 1;
    }
    i
}

proof fn lemma_digits_prefix_grows(s: Seq<u8>, i: int, j: int)
    requires
        0 <= i <= j <= s.len(),
    ensures
        digits_value(s.subrange(0, i)) <= digits_value(s.subrange(0, j)),
    decreases j - i,
{
    if i < j {
        lemma_digits_prefix_grows(s, i, j - 1);
        assert(s.subrange(0, j).drop_last() =~= s.subrange(0, j - 1));
    }
}

/// Parses an unsigned decimal index from `s[start..end]`.
pub fn parse_index(s: &[u8], start: usize, end: usize) -> (r: Option<usize>)
    requires
        start <= end <= s@.len(),
    ensures
        r == (match index_value(s@.subrange(start as int, end as int)) {
            Some(n) => Some(n as usize),
            None => None::<usize>,
        }),
{
    let ghost field = s@.subrange(start as int, end as int);
    let mut i = start;
    if i < end && s[i] == 43 {
        i = i + 1;
    }
    let first = i;
    let ghost d = s@.subrange(first as int, end as int);
    assert(d =~= unsigned_part(field));
    if first == end {
        assert(d.len() == 0);
        assert(index_value(field) is None);
        return None;
    }
    let mut acc: usize = 0;
    while i < end
        invariant
            first <= i <= end <= s@.len(),
            d == s@.subrange(first as int, end as int),
            d == unsigned_part(field),
            field == s@.subrange(start as int, end as int),
            forall|k: int| 0 <= k < i - first ==> is_digit(#[trigger] d[k]),
            acc == digits_value(d.subrange(0, i - first)),
        decreases end - i,
    {
        let c = s[i];
        if c < 48 || c > 57 {
            assert(!is_digit(d[i - first]));
            assert(index_value(field) is None);
            return None;
        }
        let digit = (c - 48) as usize;
        proof {
            assert(d.subrange(0, i - first + 1).drop_last() =~= d.subrange(0, i - first));
        }
        if acc > (usize::MAX - digit) / 10 {
            proof {
                assert(acc * 10 + digit > usize::MAX) by (nonlinear_arith)
                    requires
                        acc > (usize::MAX - digit) / 10,
                        digit <= 9,
                ;
                lemma_digits_prefix_grows(d, i - first + 1, d.len() as int);
                assert(d.subrange(0, d.len() as int) =~= d);
                assert(index_value(field) is None);
            }
            return None;
        }
        acc = acc * 10 + digit;
        i = i + 1;
    }
    assert(d.subrange(0, d.len() as int) =~= d);
    assert(forall|k: int| 0 <= k < d.len() ==> is_digit(#[trigger] d[k]));
    assert(index_value(field) == Some(digits_value(d)));
    Some(acc)
}

fn table_index_of(s: &[u8], start: usize, end: usize) -> (r: Option<usize>)
    requires
        start <= end <= s@.len(),
    ensures
        r == table_index(s@.subrange(start as int, end as int)),
{
    match parse_index(s, start, end) {
        None => Some(0),
        Some(n) => if n == 0 {
            None
        } else {
            Some(n - 1)
        },
    }
}

/// The corner that a face token `pos[/tex[/norm]]` names; a missing or empty
/// texture field, or a missing normal field, stands for the first entry.
pub fn parse_corner(token: &[u8]) -> (c: Corner)
    ensures
        c == corner_spec(token@),
{
    let n = token.len();
    let p0 = slash_at_or_after(token, 0);
    let position = table_index_of(token, 0, p0);
    if p0 == n {
        proof {
            lemma_find_slash_bounds(token@, p0 + 1);
        }
        return Corner { position, tex_coords: Some(0), normal: Some(0) };
    }
    let p1 = slash_at_or_after(token, p0 + 1);
    let tex_coords = if p1 > p0 + 1 {
        table_index_of(token, p0 + 1, p1)
    } else {
        Some(0)
    };
    if p1 == n {
        return Corner { position, tex_coords, normal: Some(0) };
    }
    let p2 = slash_at_or_after(token, p1 + 1);
    let normal = table_index_of(token, p1 + 1, p2);
    Corner { position, tex_coords, normal }
}

/// The corners of a face, one per token.
pub fn face_corners(tokens: &Vec<Vec<u8>>) -> (r: Vec<Corner>)
    ensures
        r@.len() == tokens@.len(),
        forall|i: int| 0 <= i < r@.len() ==> #[trigger] r@[i] == corner_spec(tokens@[i]@),
{
    let mut r: Vec<Corner> = Vec::new();
    let mut i: usize = 0;
    while i < tokens.len()
        invariant
            i <= tokens@.len(),
            r@.len() == i,
            forall|k: int| 0 <= k < i ==> #[trigger] r@[k] == corner_spec(tokens@[k]@),
        decreases tokens@.len() - i,
    {
        r.push(parse_corner(tokens[i].as_slice()));
        i = i + 1;
    }
    r
}

/// Fan triangulation: `(c0, c1, c2), (c0, c2, c3), ...`, flattened; fewer
/// than three corners give no triangle.
pub fn fan_triangulate<T: Copy>(corners: &Vec<T>) -> (r: Vec<T>)
    ensures
        is_fan_of(r@, corners@),
{
    let mut r: Vec<T> = Vec::new();
    let n = corners.len();
    if n < 3 {
        assert(r@.len() == 0);
        return r;
    }
    let mut i: usize = 1;
    while i < n - 1
        invariant
            3 <= n == corners@.len(),
            1 <= i <= n - 1,
            r@.len() == 3 * (i - 1),
            forall|t: int|
                0 <= t < i - 1 ==> #[trigger] fan_triangle(r@, corners@, t),
        decreases n - i,
    {
        let ghost before = r@;
        r.push(corners[0]);
        r.push(corners[i]);
        r.push(corners[i + 1]);
        proof {
            assert forall|t: int| 0 <= t < i implies #[trigger] fan_triangle(r@, corners@, t) by {
                if t < i - 1 {
                    assert(fan_triangle(before, corners@, t));
                    assert(r@[3 * t] == before[3 * t]);
                    assert(r@[3 * t + 1] == before[3 * t + 1]);
                    assert(r@[3 * t + 2] == before[3 * t + 2]);
                } else {
                    assert(3 * t == before.len());
                }
            }
        }
        i = i + 1;
    }
    assert(i == n - 1);
    assert(r@.len() == 3 * (n - 2));
    assert forall|t: int| 0 <= t < corners@.len() - 2 implies #[trigger] fan_triangle(r@, corners@, t) by {
        assert(t < i - 1);
    }
    assert(is_fan_of(r@, corners@));
    r
}

} // verus!
