use vstd::prelude::*;

verus! {

/// The value that stands for 1.0 in a fixed-point coordinate or normal
/// component.
pub const FIXED_ONE: i32 = 65536;

/// A fixed-point 3-vector, each component in units of `1 / FIXED_ONE`.
#[derive(Clone, Copy, Debug, PartialEq, Eq, Structural)]
pub struct Fixed3 {
    pub x: i32,
    pub y: i32,
    pub z: i32,
}

/// A fixed-point 2-vector, each component in units of `1 / FIXED_ONE`.
#[derive(Clone, Copy, Debug, PartialEq, Eq, Structural)]
pub struct Fixed2 {
    pub u: i32,
    pub v: i32,
}

/// The integer square root: the largest `r` with `r * r <= n`.
pub open spec fn int_sqrt(n: nat) -> nat
    decreases n,
{
    if n == 0 {
        0
    } else {
        let r = int_sqrt((n - 1) as nat);
        if (r + 1) * (r + 1) <= n {
            r + 1
        } else {
            r
        }
    }
}

/// Integer division rounding toward zero.
pub open spec fn div_toward_zero(a: int, b: int) -> int {
    if a >= 0 {
        a / b
    } else {
        -((-a) / b)
    }
}

impl Fixed3 {
    pub open spec fn norm_sq(self) -> nat {
        (self.x * self.x + self.y * self.y + self.z * self.z) as nat
    }

    pub open spec fn dot_spec(self, o: Fixed3) -> int {
        self.x * o.x + self.y * o.y + self.z * o.z
    }

    /// The vector divided by the integer square root of its squared length
    /// and scaled by `FIXED_ONE`, each component rounded toward zero; the zero
    /// vector stays as it is. For vectors much longer than one unit step the
    /// result has length close to `FIXED_ONE`.
    pub open spec fn normalized(self) -> Fixed3 {
        let len = int_sqrt(self.norm_sq()) as int;
        if len == 0 {
            self
        } else {
            Fixed3 {
                x: div_toward_zero(self.x * FIXED_ONE, len) as i32,
                y: div_toward_zero(self.y * FIXED_ONE, len) as i32,
                z: div_toward_zero(self.z * FIXED_ONE, len) as i32,
            }
        }
    }

    pub fn new(x: i32, y: i32, z: i32) -> (v: Fixed3)
        ensures
            v.x == x && v.y == y && v.z == z,
    {
        Fixed3 { x, y, z }
    }

    /// `x² + y² + z²`.
    pub fn norm_squared(&self) -> (r: u64)
        ensures
            r == self.norm_sq(),
    {
        let x = self.x as i64;
        let y = self.y as i64;
        let z = self.z as i64;
        proof {
            lemma_square_bound(x as int);
            lemma_square_bound(y as int);
            lemma_square_bound(z as int);
        }
        (x * x) as u64 + (y * y) as u64 + (z * z) as u64
    }

    /// The dot product.
    pub fn dot(&self, o: &Fixed3) -> (r: i128)
        ensures
            r == self.dot_spec(*o),
    {
        proof {
            lemma_product_bound(self.x as int, o.x as int);
            lemma_product_bound(self.y as int, o.y as int);
            lemma_product_bound(self.z as int, o.z as int);
        }
        self.x as i128 * o.x as i128 + self.y as i128 * o.y as i128 + self.z as i128 * o.z as i128
    }

    /// The vector rescaled to length `FIXED_ONE` (see `normalized`).
    pub fn normalize(&self) -> (r: Fixed3)
        ensures
            r == self.normalized(),
            -(FIXED_ONE as int) <= r.x <= FIXED_ONE,
            -(FIXED_ONE as int) <= r.y <= FIXED_ONE,
            -(FIXED_ONE as int) <= r.z <= FIXED_ONE,
    {
        let len = isqrt(self.norm_squared());
        if len == 0 {
            proof {
                lemma_int_sqrt(self.norm_sq());
                lemma_square_bound(self.x as int);
                lemma_square_bound(self.y as int);
                lemma_square_bound(self.z as int);
                assert(self.x * self.x == 0 && self.y * self.y == 0 && self.z * self.z == 0);
                assert(self.x == 0 && self.y == 0 && self.z == 0) by (nonlinear_arith)
                    requires
                        self.x * self.x == 0,
                        self.y * self.y == 0,
                        self.z * self.z == 0,
                ;
            }
            *self
        } else {
            proof {
                lemma_square_bound(self.x as int);
                lemma_square_bound(self.y as int);
                lemma_square_bound(self.z as int);
                lemma_int_sqrt(self.norm_sq());
                lemma_component_within_length(self.x as int, self.norm_sq() as int, len as int);
                lemma_component_within_length(self.y as int, self.norm_sq() as int, len as int);
                lemma_component_within_length(self.z as int, self.norm_sq() as int, len as int);
            }
            Fixed3 {
                x: scale_to_unit(self.x, len),
                y: scale_to_unit(self.y, len),
                z: scale_to_unit(self.z, len),
            }
        }
    }
}

proof fn lemma_square_bound(a: int)
    requires
        -0x8000_0000 <= a < 0x8000_0000,
    ensures
        0 <= a * a <= 0x4000_0000_0000_0000,
{
    assert(0 <= a * a <= 0x4000_0000_0000_0000) by (nonlinear_arith)
        requires
            -0x8000_0000 <= a < 0x8000_0000,
    ;
}

proof fn lemma_product_bound(a: int, b: int)
    requires
        -0x8000_0000 <= a < 0x8000_0000,
        -0x8000_0000 <= b < 0x8000_0000,
    ensures
        -0x4000_0000_0000_0000 <= a * b <= 0x4000_0000_0000_0000,
{
    assert(-0x4000_0000_0000_0000 <= a * b <= 0x4000_0000_0000_0000) by (nonlinear_arith)
        requires
            -0x8000_0000 <= a < 0x8000_0000,
            -0x8000_0000 <= b < 0x8000_0000,
    ;
}

/// `int_sqrt(n)` is the root: `r² <= n < (r + 1)²`.
pub proof fn lemma_int_sqrt(n: nat)
    ensures
        int_sqrt(n) * int_sqrt(n) <= n < (int_sqrt(n) + 1) * (int_sqrt(n) + 1),
    decreases n,
{
    if n == 0 {
        assert(int_sqrt(n) == 0);
    } else {
        lemma_int_sqrt((n - 1) as nat);
        let r = int_sqrt((n - 1) as nat) as int;
        let nn = n as int;
        assert(r * r <= nn - 1 < (r + 1) * (r + 1));
        if (r + 1) * (r + 1) <= nn {
            let s = int_sqrt(n) as int;
            assert(s == r + 1);
            assert(nn < (s + 1) * (s + 1)) by (nonlinear_arith)
                requires
                    r >= 0,
                    s == r + 1,
                    nn - 1 < (r + 1) * (r + 1),
            ;
        } else {
            assert(int_sqrt(n) == r);
        }
    }
}

/// At most one `r >= 0` has `r² <= n < (r + 1)²`.
pub proof fn lemma_sqrt_unique(n: int, r: int, s: int)
    requires
        0 <= r,
        0 <= s,
        r * r <= n < (r + 1) * (r + 1),
        s * s <= n < (s + 1) * (s + 1),
    ensures
        r == s,
{
    if r < s {
        assert((r + 1) * (r + 1) <= s * s) by (nonlinear_arith)
            requires
                0 <= r < s,
        ;
    } else if s < r {
        assert((s + 1) * (s + 1) <= r * r) by (nonlinear_arith)
            requires
                0 <= s < r,
        ;
    }
}

/// A component of a vector whose squared length is `n` is at most the
/// integer square root of `n` in magnitude.
proof fn lemma_component_within_length(c: int, n: int, len: int)
    requires
        0 <= c * c <= n,
        0 <= len,
        n < (len + 1) * (len + 1),
    ensures
        -len <= c <= len,
{
    if c > len {
        assert((len + 1) * (len + 1) <= c * c) by (nonlinear_arith)
            requires
                0 <= len < c,
        ;
    } else if c < -len {
        assert((len + 1) * (len + 1) <= c * c) by (nonlinear_arith)
            requires
                0 <= len,
                c < -len,
        ;
    }
}

/// The integer square root of `n`.
pub fn isqrt(n: u64) -> (r: u64)
    ensures
        r == int_sqrt(n as nat),
{
    let mut lo: u64 = 0;
    let mut hi: u64 = 0x1_0000_0000;
    assert(hi * hi > n) by (nonlinear_arith)
        requires
            hi == 0x1_0000_0000,
            n <= 0xffff_ffff_ffff_ffff,
    ;
    while hi - lo > 1
        invariant
            lo < hi <= 0x1_0000_0000,
            lo * lo <= n,
            n < hi * hi,
        decreases hi - lo,
    {
        let mid: u64 = lo + (hi - lo) / 2;
        assert(mid * mid < 0x1_0000_0000_0000_0000) by (nonlinear_arith)
            requires
                mid < 0x1_0000_0000,
        ;
        let sq: u128 = mid as u128 * mid as u128;
        if sq <= n as u128 {
            lo = mid;
        } else {
            hi = mid;
        }
    }
    proof {
        lemma_int_sqrt(n as nat);
        lemma_sqrt_unique(n as int, lo as int, int_sqrt(n as nat) as int);
    }
    lo
}

/// `c * FIXED_ONE / len`, rounded toward zero, for `|c| <= len`.
fn scale_to_unit(c: i32, len: u64) -> (r: i32)
    requires
        len > 0,
        -(len as int) <= c <= len,
    ensures
        r == div_toward_zero(c * FIXED_ONE, len as int),
        -(FIXED_ONE as int) <= r <= FIXED_ONE,
{
    let magnitude: u64 = if c >= 0 { c as u64 } else { (-(c as i64)) as u64 };
    let q: u64 = magnitude * (FIXED_ONE as u64) / len;
    assert(q <= FIXED_ONE) by (nonlinear_arith)
        requires
            magnitude <= len,
            len > 0,
            q as int == magnitude as int * 65536 / len as int,
    ;
    if c >= 0 {
        q as i32
    } else {
        -(q as i32)
    }
}

} // verus!
