//! Complex numbers over the saturating fixed-point scalars.
//!
//! A product takes each of its four partial products through one fixed-point
//! multiplication and then combines them with saturating addition, so every
//! component stays inside the symmetric raw range and conjugation commutes
//! exactly with every operation.

use vstd::prelude::*;
use crate::fix::{Fix, sat64, fix_mul_spec, lemma_tdiv_neg, FIX_ONE};

verus! {

#[derive(Clone, Copy, PartialEq, Eq, Structural, Debug)]
pub struct Cpx {
    pub re: Fix,
    pub im: Fix,
}

/// Every component strictly above `i64::MIN`; all operations keep this, and
/// it makes negation exact.
pub open spec fn cpx_ranged(a: Cpx) -> bool {
    a.re.raw > i64::MIN && a.im.raw > i64::MIN
}

pub open spec fn spec_fadd(a: Fix, b: Fix) -> Fix {
    Fix { raw: sat64(a.raw + b.raw) as i64 }
}

pub open spec fn spec_fsub(a: Fix, b: Fix) -> Fix {
    Fix { raw: sat64(a.raw - b.raw) as i64 }
}

pub open spec fn spec_fneg(a: Fix) -> Fix {
    Fix { raw: sat64(-a.raw) as i64 }
}

pub open spec fn spec_fmul(a: Fix, b: Fix) -> Fix {
    Fix { raw: fix_mul_spec(a.raw as int, b.raw as int) as i64 }
}

pub open spec fn spec_cadd(a: Cpx, b: Cpx) -> Cpx {
    Cpx { re: spec_fadd(a.re, b.re), im: spec_fadd(a.im, b.im) }
}

pub open spec fn spec_csub(a: Cpx, b: Cpx) -> Cpx {
    Cpx { re: spec_fsub(a.re, b.re), im: spec_fsub(a.im, b.im) }
}

pub open spec fn spec_cneg(a: Cpx) -> Cpx {
    Cpx { re: spec_fneg(a.re), im: spec_fneg(a.im) }
}

pub open spec fn spec_cconj(a: Cpx) -> Cpx {
    Cpx { re: a.re, im: spec_fneg(a.im) }
}

/// Complex product: `(a.re b.re - a.im b.im) + i (a.re b.im + a.im b.re)`,
/// each partial product individually truncated and saturated.
pub open spec fn spec_cmul(a: Cpx, b: Cpx) -> Cpx {
    Cpx {
        re: spec_fsub(spec_fmul(a.re, b.re), spec_fmul(a.im, b.im)),
        im: spec_fadd(spec_fmul(a.re, b.im), spec_fmul(a.im, b.re)),
    }
}

impl Cpx {
    pub fn new(re: Fix, im: Fix) -> (r: Cpx)
        ensures
            r == (Cpx { re, im }),
    {
        Cpx { re, im }
    }

    pub fn zero() -> (r: Cpx)
        ensures
            r.re.raw == 0 && r.im.raw == 0,
    {
        Cpx { re: Fix { raw: 0 }, im: Fix { raw: 0 } }
    }

    /// The complex image of a real scalar.
    pub fn from_real(re: Fix) -> (r: Cpx)
        ensures
            r.re == re && r.im.raw == 0,
    {
        Cpx { re, im: Fix { raw: 0 } }
    }

    pub fn add(self, o: Cpx) -> (r: Cpx)
        ensures
            r == spec_cadd(self, o),
    {
        Cpx { re: self.re.add(o.re), im: self.im.add(o.im) }
    }

    pub fn sub(self, o: Cpx) -> (r: Cpx)
        ensures
            r == spec_csub(self, o),
    {
        Cpx { re: self.re.sub(o.re), im: self.im.sub(o.im) }
    }

    pub fn neg(self) -> (r: Cpx)
        ensures
            r == spec_cneg(self),
    {
        Cpx { re: self.re.neg(), im: self.im.neg() }
    }

    pub fn conj(self) -> (r: Cpx)
        ensures
            r == spec_cconj(self),
    {
        Cpx { re: self.re, im: self.im.neg() }
    }

    pub fn mul(self, o: Cpx) -> (r: Cpx)
        ensures
            r == spec_cmul(self, o),
    {
        let re = self.re.mul(o.re).sub(self.im.mul(o.im));
        let im = self.re.mul(o.im).add(self.im.mul(o.re));
        Cpx { re, im }
    }

    /// Scale by a real factor.
    pub fn scale(self, f: Fix) -> (r: Cpx)
        ensures
            r == (Cpx { re: spec_fmul(self.re, f), im: spec_fmul(self.im, f) }),
    {
        Cpx { re: self.re.mul(f), im: self.im.mul(f) }
    }
}

pub open spec fn spec_cscale(a: Cpx, f: Fix) -> Cpx {
    Cpx { re: spec_fmul(a.re, f), im: spec_fmul(a.im, f) }
}

pub open spec fn spec_czero() -> Cpx {
    Cpx { re: Fix { raw: 0 }, im: Fix { raw: 0 } }
}

/// Conjugating twice gives the number back.
pub proof fn lemma_cconj_involutive(a: Cpx)
    requires
        cpx_ranged(a),
    ensures
        spec_cconj(spec_cconj(a)) == a,
{
}

/// Negating twice gives the number back.
pub proof fn lemma_cneg_involutive(a: Cpx)
    requires
        cpx_ranged(a),
    ensures
        spec_cneg(spec_cneg(a)) == a,
{
}

/// Conjugation and negation commute.
pub proof fn lemma_cconj_cneg(a: Cpx)
    requires
        cpx_ranged(a),
    ensures
        spec_cconj(spec_cneg(a)) == spec_cneg(spec_cconj(a)),
{
}

/// Conjugation distributes over addition.
pub proof fn lemma_cadd_conj(a: Cpx, b: Cpx)
    requires
        cpx_ranged(a),
        cpx_ranged(b),
    ensures
        spec_cconj(spec_cadd(a, b)) == spec_cadd(spec_cconj(a), spec_cconj(b)),
{
}

/// Conjugation passes through scaling by a real factor.
pub proof fn lemma_cscale_conj(a: Cpx, f: Fix)
    requires
        cpx_ranged(a),
    ensures
        spec_cconj(spec_cscale(a, f)) == spec_cscale(spec_cconj(a), f),
{
    lemma_fmul_neg(a.im, f);
}

/// Scaling a negated number negates the scaled number.
pub proof fn lemma_cscale_neg(a: Cpx, f: Fix)
    requires
        cpx_ranged(a),
    ensures
        spec_cscale(spec_cneg(a), f) == spec_cneg(spec_cscale(a, f)),
{
    lemma_fmul_neg(a.re, f);
    lemma_fmul_neg(a.im, f);
}

/// Results of the saturating operations stay strictly above `i64::MIN`.
pub proof fn lemma_ops_ranged(a: Cpx, b: Cpx)
    ensures
        cpx_ranged(spec_cadd(a, b)),
        cpx_ranged(spec_csub(a, b)),
        cpx_ranged(spec_cneg(a)),
        cpx_ranged(spec_cmul(a, b)),
{
}

/// Negating one fixed-point factor negates the truncated product exactly.
pub proof fn lemma_fmul_neg(a: Fix, b: Fix)
    requires
        a.raw > i64::MIN,
    ensures
        spec_fmul(spec_fneg(a), b) == spec_fneg(spec_fmul(a, b)),
{
    assert((-(a.raw as int)) * (b.raw as int) == -((a.raw as int) * (b.raw as int)))
        by (nonlinear_arith);
    lemma_tdiv_neg((a.raw as int) * (b.raw as int), FIX_ONE as int);
}

/// Conjugation distributes exactly over the fixed-point complex product.
pub proof fn lemma_cmul_conj(a: Cpx, b: Cpx)
    requires
        cpx_ranged(a),
        cpx_ranged(b),
    ensures
        spec_cmul(spec_cconj(a), spec_cconj(b)) == spec_cconj(spec_cmul(a, b)),
{
    lemma_fmul_neg(a.im, spec_fneg(b.im));
    assert(spec_fmul(a.im, spec_fneg(b.im)) == spec_fneg(spec_fmul(a.im, b.im))) by {
        assert((a.im.raw as int) * (-(b.im.raw as int)) == -((a.im.raw as int) * (b.im.raw as int)))
            by (nonlinear_arith);
        lemma_tdiv_neg((a.im.raw as int) * (b.im.raw as int), FIX_ONE as int);
    }
    lemma_fmul_neg(b.im, a.re);
    assert(spec_fmul(a.re, spec_fneg(b.im)) == spec_fneg(spec_fmul(a.re, b.im))) by {
        assert((a.re.raw as int) * (-(b.im.raw as int)) == -((a.re.raw as int) * (b.im.raw as int)))
            by (nonlinear_arith);
        lemma_tdiv_neg((a.re.raw as int) * (b.im.raw as int), FIX_ONE as int);
    }
    lemma_fmul_neg(a.im, b.re);
}

} // verus!
