//! Saturating fixed-point scalars.
//!
//! A `Fix` carries a real quantity as `raw / 2^30`.  Every operation is total:
//! intermediate products are taken in 128-bit integers, divisions truncate
//! toward zero, and results are clamped into the symmetric range
//! `[-i64::MAX, i64::MAX]`.  The contracts state the exact integer value of
//! every result, so saturation is part of the specified semantics rather than
//! an escape hatch.

use vstd::prelude::*;

verus! {

/// Number of raw units per unit value: the fixed-point scale, 2^30.
pub const FIX_ONE: i64 = 1073741824;

/// Largest raw magnitude a `Fix` may hold; the range is kept symmetric so
/// that negation is always exact.
pub const FIX_MAX_RAW: i64 = 9223372036854775807;

/// Clamp a mathematical integer into the symmetric raw range.
pub open spec fn sat64(x: int) -> int {
    if x > FIX_MAX_RAW as int {
        FIX_MAX_RAW as int
    } else if x < -(FIX_MAX_RAW as int) {
        -(FIX_MAX_RAW as int)
    } else {
        x
    }
}

/// Division truncated toward zero (the semantics of `/` on machine integers),
/// expressed over mathematical integers.
pub open spec fn tdiv(a: int, b: int) -> int {
    let q = abs_int(a) / abs_int(b);
    if (a >= 0) == (b >= 0) {
        q
    } else {
        -q
    }
}

pub open spec fn abs_int(a: int) -> int {
    if a >= 0 {
        a
    } else {
        -a
    }
}

/// Raw value of the product of two fixed-point numbers.
pub open spec fn fix_mul_spec(a: int, b: int) -> int {
    sat64(tdiv(a * b, FIX_ONE as int))
}

/// Raw value of the quotient of two fixed-point numbers.
pub open spec fn fix_div_spec(a: int, b: int) -> int {
    sat64(tdiv(a * (FIX_ONE as int), b))
}

/// Truncated division is odd in its first argument.
pub proof fn lemma_tdiv_neg(a: int, b: int)
    requires
        b != 0,
    ensures
        tdiv(-a, b) == -tdiv(a, b),
{
}

/// Negating dividend and divisor together leaves the quotient unchanged.
pub proof fn lemma_tdiv_neg_both(a: int, b: int)
    requires
        b != 0,
    ensures
        tdiv(-a, -b) == tdiv(a, b),
{
}

/// For non-negative operands truncated and Euclidean division agree.
pub proof fn lemma_tdiv_nonneg(a: int, b: int)
    requires
        a >= 0,
        b > 0,
    ensures
        tdiv(a, b) == a / b,
{
}

/// A quotient is no larger in magnitude than its dividend, for a positive
/// divisor.
pub proof fn lemma_tdiv_bound(a: int, b: int)
    requires
        b >= 1,
    ensures
        -abs_int(a) <= tdiv(a, b) <= abs_int(a),
        a >= 0 ==> 0 <= tdiv(a, b) <= a,
        a < 0 ==> a <= tdiv(a, b) <= 0,
{
    vstd::arithmetic::div_mod::lemma_div_pos_is_pos(abs_int(a), b);
    vstd::arithmetic::div_mod::lemma_div_nonincreasing(abs_int(a), b);
}

/// A fixed-point number: the carried value is `raw / FIX_ONE`.
#[derive(Clone, Copy, PartialEq, Eq, Structural, Debug)]
pub struct Fix {
    pub raw: i64,
}

/// Saturate a 128-bit intermediate back into the raw range.
fn sat_i128(x: i128) -> (r: i64)
    ensures
        r as int == sat64(x as int),
{
    if x > FIX_MAX_RAW as i128 {
        FIX_MAX_RAW
    } else if x < -(FIX_MAX_RAW as i128) {
        -FIX_MAX_RAW
    } else {
        x as i64
    }
}

/// Divide a 128-bit intermediate by a positive divisor, truncating toward
/// zero.  Both operands stay well inside the 128-bit range.
pub(crate) fn tdiv_i128(a: i128, b: i128) -> (r: i128)
    requires
        b > 0,
        -0x40000000000000000000000000000000 <= a as int,
    ensures
        r as int == tdiv(a as int, b as int),
{
    if a >= 0 {
        let q = (a as u128) / (b as u128);
        q as i128
    } else {
        let q = ((-a) as u128) / (b as u128);
        -(q as i128)
    }
}

impl Fix {
    pub fn zero() -> (r: Fix)
        ensures
            r.raw == 0,
    {
        Fix { raw: 0 }
    }

    pub fn new(raw: i64) -> (r: Fix)
        ensures
            r.raw == raw,
    {
        Fix { raw }
    }

    /// The fixed-point image of a small integer.
    pub fn from_units(u: i32) -> (r: Fix)
        ensures
            r.raw == u * FIX_ONE,
    {
        Fix { raw: (u as i64) * FIX_ONE }
    }

    pub fn add(self, o: Fix) -> (r: Fix)
        ensures
            r.raw as int == sat64(self.raw + o.raw),
    {
        let s: i128 = self.raw as i128 + o.raw as i128;
        Fix { raw: sat_i128(s) }
    }

    pub fn sub(self, o: Fix) -> (r: Fix)
        ensures
            r.raw as int == sat64(self.raw - o.raw),
    {
        let s: i128 = self.raw as i128 - o.raw as i128;
        Fix { raw: sat_i128(s) }
    }

    pub fn neg(self) -> (r: Fix)
        ensures
            r.raw as int == sat64(-self.raw),
    {
        let s: i128 = -(self.raw as i128);
        Fix { raw: sat_i128(s) }
    }

    pub fn mul(self, o: Fix) -> (r: Fix)
        ensures
            r.raw as int == fix_mul_spec(self.raw as int, o.raw as int),
    {
        proof {
            assert(-0x40000000000000000000000000000000 <= (self.raw as int) * (o.raw as int)
                <= 0x40000000000000000000000000000000) by (nonlinear_arith);
        }
        let p: i128 = (self.raw as i128) * (o.raw as i128);
        let q = tdiv_i128(p, FIX_ONE as i128);
        Fix { raw: sat_i128(q) }
    }

    /// Fixed-point division; the divisor must be non-zero.
    pub fn div(self, o: Fix) -> (r: Fix)
        requires
            o.raw != 0,
        ensures
            r.raw as int == fix_div_spec(self.raw as int, o.raw as int),
    {
        proof {
            assert(-0x40000000000000000000000000000000 <= (self.raw as int) * (FIX_ONE as int)
                < 0x40000000000000000000000000000000) by (nonlinear_arith);
        }
        let p: i128 = (self.raw as i128) * (FIX_ONE as i128);
        let q = if o.raw > 0 {
            tdiv_i128(p, o.raw as i128)
        } else {
            let q0 = tdiv_i128(-p, -(o.raw as i128));
            proof {
                lemma_tdiv_neg_both(p as int, o.raw as int);
            }
            q0
        };
        Fix { raw: sat_i128(q) }
    }

    pub fn abs(self) -> (r: Fix)
        ensures
            r.raw as int == sat64(abs_int(self.raw as int)),
    {
        if self.raw >= 0 {
            Fix { raw: self.raw }
        } else {
            self.neg()
        }
    }

    pub fn min(self, o: Fix) -> (r: Fix)
        ensures
            r.raw == if self.raw <= o.raw { self.raw } else { o.raw },
    {
        if self.raw <= o.raw { self } else { o }
    }

    pub fn max(self, o: Fix) -> (r: Fix)
        ensures
            r.raw == if self.raw >= o.raw { self.raw } else { o.raw },
    {
        if self.raw >= o.raw { self } else { o }
    }
}

/// The integer square root, written as a relation: `r` is the floor of the
/// square root of `n`.
pub open spec fn is_sqrt_floor(n: int, r: int) -> bool {
    0 <= r && r * r <= n && n < (r + 1) * (r + 1)
}

/// The floor of the square root of a non-negative integer.
pub open spec fn sqrt_floor(n: int) -> int {
    choose|r: int| is_sqrt_floor(n, r)
}

/// A floor square root exists for every non-negative integer.
pub proof fn lemma_sqrt_floor_exists(n: int)
    requires
        n >= 0,
    ensures
        is_sqrt_floor(n, sqrt_floor(n)),
    decreases n,
{
    if n == 0 {
        assert(is_sqrt_floor(0, 0));
    } else {
        lemma_sqrt_floor_exists(n - 1);
        let r = sqrt_floor(n - 1);
        if n < (r + 1) * (r + 1) {
            assert(is_sqrt_floor(n, r));
        } else {
            assert((r + 1) * (r + 1) == n) by {
                assert(n - 1 < (r + 1) * (r + 1));
            }
            assert(is_sqrt_floor(n, r + 1)) by (nonlinear_arith)
                requires
                    (r + 1) * (r + 1) == n,
                    r >= 0,
            ;
        }
    }
}

/// The floor square root is unique.
pub proof fn lemma_sqrt_floor_unique(n: int, r: int)
    requires
        is_sqrt_floor(n, r),
    ensures
        r == sqrt_floor(n),
{
    assert(n >= 0) by (nonlinear_arith)
        requires
            0 <= r && r * r <= n,
    ;
    lemma_sqrt_floor_exists(n);
    let s = sqrt_floor(n);
    assert(r == s) by (nonlinear_arith)
        requires
            0 <= r && r * r <= n && n < (r + 1) * (r + 1),
            0 <= s && s * s <= n && n < (s + 1) * (s + 1),
    ;
}

/// Integer square root of a 128-bit value by bisection.
pub fn isqrt_u128(x: u128) -> (r: u64)
    ensures
        is_sqrt_floor(x as int, r as int),
{
    let mut lo: u64 = 0;
    let mut hi: u64 = 0xffffffffffffffff;
    while lo < hi
        invariant
            lo <= hi,
            (lo as int) * (lo as int) <= x as int,
            (x as int) < ((hi as int) + 1) * ((hi as int) + 1),
        decreases hi - lo,
    {
        let mid: u64 = lo + (hi - lo) / 2 + 1;
        proof {
            assert((mid as int) * (mid as int) < 0x100000000000000000000000000000000) by (nonlinear_arith);
        }
        let m2: u128 = (mid as u128) * (mid as u128);
        if m2 <= x {
            lo = mid;
        } else {
            hi = mid - 1;
        }
    }
    lo
}

} // verus!
