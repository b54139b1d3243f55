//! Spin-model configurations: which lattice (2- or 6-orbital block), which
//! per-sublattice magnetic sign pattern, which structural coefficient, and
//! the two scalar couplings.

use vstd::prelude::*;
use crate::fix::{Fix, FIX_ONE};
use crate::cpx::{Cpx, spec_fmul};
use crate::matrix::CMatrix;

verus! {

/// The two scalar couplings: intrinsic coupling strength and exchange
/// coupling, as fixed-point values.
#[derive(Clone, Copy, PartialEq, Eq, Structural, Debug)]
pub struct Param {
    pub lambda: Fix,
    pub jj: Fix,
}

/// Fixed-point image of `0.3`, the intrinsic coupling of the standard
/// parameter set.
pub const LAMBDA_STD: i64 = 322122547;

/// Fixed-point image of `0.25`.
pub const QUARTER: i64 = 268435456;

impl Param {
    pub fn new(lambda: Fix, jj: Fix) -> (r: Param)
        ensures
            r == (Param { lambda, jj }),
    {
        Param { lambda, jj }
    }

    /// The parameter set the standard runs use: intrinsic coupling `0.3`
    /// in hopping units and exchange coupling `0.25`.
    pub fn interesting() -> (r: Param)
        ensures
            r.lambda.raw == LAMBDA_STD,
            r.jj.raw == QUARTER,
    {
        Param { lambda: Fix { raw: LAMBDA_STD }, jj: Fix { raw: QUARTER } }
    }
}

/// Per-sublattice Zeeman-like sign coefficients for the six sites of the
/// magnetic unit cell.
#[derive(Clone, Copy, PartialEq, Eq, Structural, Debug)]
pub struct SpinSeq6 {
    pub a: Fix,
    pub b: Fix,
    pub c: Fix,
    pub d: Fix,
    pub e: Fix,
    pub f: Fix,
}

impl SpinSeq6 {
    pub fn new(a: Fix, b: Fix, c: Fix, d: Fix, e: Fix, f: Fix) -> (r: SpinSeq6)
        ensures
            r == (SpinSeq6 { a, b, c, d, e, f }),
    {
        SpinSeq6 { a, b, c, d, e, f }
    }

    /// The coefficient for site `t` of the unit cell.
    pub open spec fn spec_site(self, t: int) -> Fix {
        if t == 0 {
            self.a
        } else if t == 1 {
            self.b
        } else if t == 2 {
            self.c
        } else if t == 3 {
            self.d
        } else if t == 4 {
            self.e
        } else {
            self.f
        }
    }

    pub fn site(&self, t: usize) -> (r: Fix)
        requires
            t < 6,
        ensures
            r == self.spec_site(t as int),
    {
        if t == 0 {
            self.a
        } else if t == 1 {
            self.b
        } else if t == 2 {
            self.c
        } else if t == 3 {
            self.d
        } else if t == 4 {
            self.e
        } else {
            self.f
        }
    }

    /// The exchange diagonal of the 2-orbital block: the first two site
    /// coefficients times the coupling.
    pub fn diag_matrix2(&self, j: Fix) -> (m: CMatrix)
        ensures
            m.wf(),
            m.n == 2,
            m.at(0, 0) == (Cpx { re: spec_fmul(self.a, j), im: Fix { raw: 0 } }),
            m.at(1, 1) == (Cpx { re: spec_fmul(self.b, j), im: Fix { raw: 0 } }),
            m.at(0, 1).re.raw == 0 && m.at(0, 1).im.raw == 0,
            m.at(1, 0).re.raw == 0 && m.at(1, 0).im.raw == 0,
    {
        let mut m = CMatrix::zeros(2);
        m.set(0, 0, Cpx::from_real(self.a.mul(j)));
        m.set(1, 1, Cpx::from_real(self.b.mul(j)));
        m
    }

    /// The exchange diagonal of the 6-orbital block: every site coefficient
    /// times the coupling.
    pub fn diag_matrix6(&self, j: Fix) -> (m: CMatrix)
        ensures
            m.wf(),
            m.n == 6,
            forall|t: int|
                0 <= t < 6 ==> #[trigger] m.at(t, t) == (Cpx {
                    re: spec_fmul(self.spec_site(t), j),
                    im: Fix { raw: 0 },
                }),
            forall|r: int, c: int|
                0 <= r < 6 && 0 <= c < 6 && r != c ==> (#[trigger] m.at(r, c)).re.raw == 0 && m.at(
                    r,
                    c,
                ).im.raw == 0,
    {
        let mut m = CMatrix::zeros(6);
        let mut t: usize = 0;
        while t < 6
            invariant
                m.wf(),
                m.n == 6,
                t <= 6,
                forall|q: int|
                    0 <= q < t ==> #[trigger] m.at(q, q) == (Cpx {
                        re: spec_fmul(self.spec_site(q), j),
                        im: Fix { raw: 0 },
                    }),
                forall|r: int, c: int|
                    0 <= r < 6 && 0 <= c < 6 && r != c ==> (#[trigger] m.at(r, c)).re.raw == 0
                        && m.at(r, c).im.raw == 0,
                forall|q: int|
                    t <= q < 6 ==> (#[trigger] m.at(q, q)).re.raw == 0 && m.at(q, q).im.raw == 0,
            decreases 6 - t,
        {
            m.set(t, t, Cpx::from_real(self.site(t).mul(j)));
            t = t + 1;
        }
        m
    }

    pub fn fm() -> (r: SpinSeq6)
        ensures
            r == spec_seq_signs(1, 1, 1, 1, 1, 1),
    {
        SpinSeq6::new(
            Fix::from_units(1),
            Fix::from_units(1),
            Fix::from_units(1),
            Fix::from_units(1),
            Fix::from_units(1),
            Fix::from_units(1),
        )
    }

    pub fn afm() -> (r: SpinSeq6)
        ensures
            r == spec_seq_signs(1, -1, 1, -1, 1, -1),
    {
        SpinSeq6::new(
            Fix::from_units(1),
            Fix::from_units(-1),
            Fix::from_units(1),
            Fix::from_units(-1),
            Fix::from_units(1),
            Fix::from_units(-1),
        )
    }

    pub fn uuuddd() -> (r: SpinSeq6)
        ensures
            r == spec_seq_signs(1, 1, 1, -1, -1, -1),
    {
        SpinSeq6::new(
            Fix::from_units(1),
            Fix::from_units(1),
            Fix::from_units(1),
            Fix::from_units(-1),
            Fix::from_units(-1),
            Fix::from_units(-1),
        )
    }

    pub fn one1() -> (r: SpinSeq6)
        ensures
            r == spec_seq_signs(1, 1, 1, 1, 1, -1),
    {
        SpinSeq6::new(
            Fix::from_units(1),
            Fix::from_units(1),
            Fix::from_units(1),
            Fix::from_units(1),
            Fix::from_units(1),
            Fix::from_units(-1),
        )
    }

    pub fn one2() -> (r: SpinSeq6)
        ensures
            r == spec_seq_signs(1, 1, 1, 1, -1, 1),
    {
        SpinSeq6::new(
            Fix::from_units(1),
            Fix::from_units(1),
            Fix::from_units(1),
            Fix::from_units(1),
            Fix::from_units(-1),
            Fix::from_units(1),
        )
    }

    pub fn twin() -> (r: SpinSeq6)
        ensures
            r == spec_seq_signs(1, 1, 1, 1, -1, -1),
    {
        SpinSeq6::new(
            Fix::from_units(1),
            Fix::from_units(1),
            Fix::from_units(1),
            Fix::from_units(1),
            Fix::from_units(-1),
            Fix::from_units(-1),
        )
    }

    pub fn tri1() -> (r: SpinSeq6)
        ensures
            r == spec_seq_signs(1, 1, 1, -1, 1, -1),
    {
        SpinSeq6::new(
            Fix::from_units(1),
            Fix::from_units(1),
            Fix::from_units(1),
            Fix::from_units(-1),
            Fix::from_units(1),
            Fix::from_units(-1),
        )
    }

    pub fn tri2() -> (r: SpinSeq6)
        ensures
            r == spec_seq_signs(1, 1, -1, 1, -1, 1),
    {
        SpinSeq6::new(
            Fix::from_units(1),
            Fix::from_units(1),
            Fix::from_units(-1),
            Fix::from_units(1),
            Fix::from_units(-1),
            Fix::from_units(1),
        )
    }

    pub fn para() -> (r: SpinSeq6)
        ensures
            r == spec_seq_signs(0, 0, 0, 0, 0, 0),
    {
        SpinSeq6::new(
            Fix::from_units(0),
            Fix::from_units(0),
            Fix::from_units(0),
            Fix::from_units(0),
            Fix::from_units(0),
            Fix::from_units(0),
        )
    }
}

/// A sign pattern as fixed-point values.
pub open spec fn spec_seq_signs(a: int, b: int, c: int, d: int, e: int, f: int) -> SpinSeq6 {
    SpinSeq6 {
        a: Fix { raw: (a * FIX_ONE) as i64 },
        b: Fix { raw: (b * FIX_ONE) as i64 },
        c: Fix { raw: (c * FIX_ONE) as i64 },
        d: Fix { raw: (d * FIX_ONE) as i64 },
        e: Fix { raw: (e * FIX_ONE) as i64 },
        f: Fix { raw: (f * FIX_ONE) as i64 },
    }
}

/// The named spin-model configurations.  `Stable` tags the envelope series
/// assembled by the comparator and has neither a size nor a spin sequence.
#[derive(Clone, Copy, PartialEq, Eq, Structural, Debug)]
pub enum System {
    Uuuddd(Param),
    Sato(Param),
    Tmd(Param),
    FmTmd(Param),
    One1Tmd(Param),
    One2Tmd(Param),
    TwinTmd(Param),
    Tri1Tmd(Param),
    UuudddTmd(Param),
    Tri2Tmd(Param),
    SatoTmd(Param),
    Stable(Param),
    FmKanemele(Param),
    One1Kanemele(Param),
    One2Kanemele(Param),
    TwinKanemele(Param),
    Tri1Kanemele(Param),
    Tri2Kanemele(Param),
    UuudddKanemele(Param),
    AfmKanemele(Param),
}

impl System {
    /// `Stable` is a bookkeeping tag only: no Hamiltonian belongs to it.
    pub open spec fn has_size(self) -> bool {
        !(self is Stable)
    }

    /// Whether this configuration owns a Hamiltonian.
    pub fn has_size_exec(&self) -> (r: bool)
        ensures
            r == self.has_size(),
    {
        !matches!(self, System::Stable(_))
    }

    pub open spec fn spec_size(self) -> int {
        match self {
            System::Uuuddd(_) => 6,
            System::Sato(_) => 2,
            System::Tmd(_) => 2,
            System::FmTmd(_) => 2,
            System::One1Tmd(_) => 6,
            System::One2Tmd(_) => 6,
            System::TwinTmd(_) => 6,
            System::Tri1Tmd(_) => 6,
            System::UuudddTmd(_) => 6,
            System::Tri2Tmd(_) => 6,
            System::SatoTmd(_) => 2,
            System::Stable(_) => 0,
            System::FmKanemele(_) => 2,
            System::One1Kanemele(_) => 6,
            System::One2Kanemele(_) => 6,
            System::TwinKanemele(_) => 6,
            System::Tri1Kanemele(_) => 6,
            System::Tri2Kanemele(_) => 6,
            System::UuudddKanemele(_) => 6,
            System::AfmKanemele(_) => 2,
        }
    }

    /// Number of orbitals per spin block: 2 or 6.
    pub fn size(&self) -> (r: usize)
        requires
            self.has_size(),
        ensures
            r == self.spec_size(),
            r == 2 || r == 6,
    {
        match self {
            System::Uuuddd(_) => 6,
            System::Sato(_) => 2,
            System::Tmd(_) => 2,
            System::FmTmd(_) => 2,
            System::One1Tmd(_) => 6,
            System::One2Tmd(_) => 6,
            System::TwinTmd(_) => 6,
            System::Tri1Tmd(_) => 6,
            System::UuudddTmd(_) => 6,
            System::Tri2Tmd(_) => 6,
            System::SatoTmd(_) => 2,
            System::Stable(_) => 2,
            System::FmKanemele(_) => 2,
            System::One1Kanemele(_) => 6,
            System::One2Kanemele(_) => 6,
            System::TwinKanemele(_) => 6,
            System::Tri1Kanemele(_) => 6,
            System::Tri2Kanemele(_) => 6,
            System::UuudddKanemele(_) => 6,
            System::AfmKanemele(_) => 2,
        }
    }

    pub open spec fn spec_param(self) -> Param {
        match self {
            System::Uuuddd(p) => p,
            System::Sato(p) => p,
            System::Tmd(p) => p,
            System::FmTmd(p) => p,
            System::One1Tmd(p) => p,
            System::One2Tmd(p) => p,
            System::TwinTmd(p) => p,
            System::Tri1Tmd(p) => p,
            System::UuudddTmd(p) => p,
            System::Tri2Tmd(p) => p,
            System::SatoTmd(p) => p,
            System::Stable(p) => p,
            System::FmKanemele(p) => p,
            System::One1Kanemele(p) => p,
            System::One2Kanemele(p) => p,
            System::TwinKanemele(p) => p,
            System::Tri1Kanemele(p) => p,
            System::Tri2Kanemele(p) => p,
            System::UuudddKanemele(p) => p,
            System::AfmKanemele(p) => p,
        }
    }

    pub fn param(&self) -> (r: &Param)
        ensures
            *r == self.spec_param(),
    {
        match self {
            System::Uuuddd(p) => p,
            System::Sato(p) => p,
            System::Tmd(p) => p,
            System::FmTmd(p) => p,
            System::One1Tmd(p) => p,
            System::One2Tmd(p) => p,
            System::TwinTmd(p) => p,
            System::Tri1Tmd(p) => p,
            System::UuudddTmd(p) => p,
            System::Tri2Tmd(p) => p,
            System::SatoTmd(p) => p,
            System::Stable(p) => p,
            System::FmKanemele(p) => p,
            System::One1Kanemele(p) => p,
            System::One2Kanemele(p) => p,
            System::TwinKanemele(p) => p,
            System::Tri1Kanemele(p) => p,
            System::Tri2Kanemele(p) => p,
            System::UuudddKanemele(p) => p,
            System::AfmKanemele(p) => p,
        }
    }

    /// The structural coefficient: 1 for the plain honeycomb models, 0 for
    /// the TMD family, -1 for the Kanemele family.
    pub open spec fn spec_tmd(self) -> int {
        match self {
            System::Uuuddd(_) => 1,
            System::Sato(_) => 1,
            System::Tmd(_) => 0,
            System::FmTmd(_) => 0,
            System::One1Tmd(_) => 0,
            System::One2Tmd(_) => 0,
            System::TwinTmd(_) => 0,
            System::Tri1Tmd(_) => 0,
            System::UuudddTmd(_) => 0,
            System::Tri2Tmd(_) => 0,
            System::SatoTmd(_) => 0,
            System::Stable(_) => 1,
            System::FmKanemele(_) => -1,
            System::One1Kanemele(_) => -1,
            System::One2Kanemele(_) => -1,
            System::TwinKanemele(_) => -1,
            System::Tri1Kanemele(_) => -1,
            System::Tri2Kanemele(_) => -1,
            System::UuudddKanemele(_) => -1,
            System::AfmKanemele(_) => -1,
        }
    }

    pub fn tmd(&self) -> (r: Fix)
        ensures
            r.raw == self.spec_tmd() * FIX_ONE,
    {
        match self {
            System::Uuuddd(_) => Fix::from_units(1),
            System::Sato(_) => Fix::from_units(1),
            System::Tmd(_) => Fix::from_units(0),
            System::FmTmd(_) => Fix::from_units(0),
            System::One1Tmd(_) => Fix::from_units(0),
            System::One2Tmd(_) => Fix::from_units(0),
            System::TwinTmd(_) => Fix::from_units(0),
            System::Tri1Tmd(_) => Fix::from_units(0),
            System::UuudddTmd(_) => Fix::from_units(0),
            System::Tri2Tmd(_) => Fix::from_units(0),
            System::SatoTmd(_) => Fix::from_units(0),
            System::Stable(_) => Fix::from_units(1),
            System::FmKanemele(_) => Fix::from_units(-1),
            System::One1Kanemele(_) => Fix::from_units(-1),
            System::One2Kanemele(_) => Fix::from_units(-1),
            System::TwinKanemele(_) => Fix::from_units(-1),
            System::Tri1Kanemele(_) => Fix::from_units(-1),
            System::Tri2Kanemele(_) => Fix::from_units(-1),
            System::UuudddKanemele(_) => Fix::from_units(-1),
            System::AfmKanemele(_) => Fix::from_units(-1),
        }
    }

    pub open spec fn spec_spinseq(self) -> SpinSeq6 {
        match self {
            System::UuudddTmd(_) => spec_seq_signs(1, 1, 1, -1, -1, -1),
            System::Uuuddd(_) => spec_seq_signs(1, 1, 1, -1, -1, -1),
            System::UuudddKanemele(_) => spec_seq_signs(1, 1, 1, -1, -1, -1),
            System::One1Tmd(_) => spec_seq_signs(1, 1, 1, 1, 1, -1),
            System::One1Kanemele(_) => spec_seq_signs(1, 1, 1, 1, 1, -1),
            System::One2Tmd(_) => spec_seq_signs(1, 1, 1, 1, -1, 1),
            System::One2Kanemele(_) => spec_seq_signs(1, 1, 1, 1, -1, 1),
            System::TwinTmd(_) => spec_seq_signs(1, 1, 1, 1, -1, -1),
            System::TwinKanemele(_) => spec_seq_signs(1, 1, 1, 1, -1, -1),
            System::Tri1Tmd(_) => spec_seq_signs(1, 1, 1, -1, 1, -1),
            System::Tri1Kanemele(_) => spec_seq_signs(1, 1, 1, -1, 1, -1),
            System::Tri2Tmd(_) => spec_seq_signs(1, 1, -1, 1, -1, 1),
            System::Tri2Kanemele(_) => spec_seq_signs(1, 1, -1, 1, -1, 1),
            System::SatoTmd(_) => spec_seq_signs(1, -1, 1, -1, 1, -1),
            System::Sato(_) => spec_seq_signs(1, -1, 1, -1, 1, -1),
            System::AfmKanemele(_) => spec_seq_signs(1, -1, 1, -1, 1, -1),
            System::FmTmd(_) => spec_seq_signs(1, 1, 1, 1, 1, 1),
            System::FmKanemele(_) => spec_seq_signs(1, 1, 1, 1, 1, 1),
            System::Tmd(_) => spec_seq_signs(0, 0, 0, 0, 0, 0),
            System::Stable(_) => spec_seq_signs(0, 0, 0, 0, 0, 0),
        }
    }

    /// The sign pattern this configuration assigns to the six sublattice
    /// sites; `Stable` has none.
    pub fn spinseq(&self) -> (r: SpinSeq6)
        requires
            self.has_size(),
        ensures
            r == self.spec_spinseq(),
    {
        match self {
            System::UuudddTmd(_) => SpinSeq6::uuuddd(),
            System::Uuuddd(_) => SpinSeq6::uuuddd(),
            System::UuudddKanemele(_) => SpinSeq6::uuuddd(),
            System::One1Tmd(_) => SpinSeq6::one1(),
            System::One1Kanemele(_) => SpinSeq6::one1(),
            System::One2Tmd(_) => SpinSeq6::one2(),
            System::One2Kanemele(_) => SpinSeq6::one2(),
            System::TwinTmd(_) => SpinSeq6::twin(),
            System::TwinKanemele(_) => SpinSeq6::twin(),
            System::Tri1Tmd(_) => SpinSeq6::tri1(),
            System::Tri1Kanemele(_) => SpinSeq6::tri1(),
            System::Tri2Tmd(_) => SpinSeq6::tri2(),
            System::Tri2Kanemele(_) => SpinSeq6::tri2(),
            System::SatoTmd(_) => SpinSeq6::afm(),
            System::Sato(_) => SpinSeq6::afm(),
            System::AfmKanemele(_) => SpinSeq6::afm(),
            System::FmTmd(_) => SpinSeq6::fm(),
            System::FmKanemele(_) => SpinSeq6::fm(),
            System::Tmd(_) => SpinSeq6::para(),
            System::Stable(_) => SpinSeq6::para(),
        }
    }

    /// A short name for output files and diagnostics.
    pub fn name(&self) -> (r: &'static str) {
        match self {
            System::Uuuddd(_) => "Uuuddd",
            System::Sato(_) => "Sato",
            System::Tmd(_) => "Tmd",
            System::FmTmd(_) => "FmTmd",
            System::One1Tmd(_) => "One1Tmd",
            System::One2Tmd(_) => "One2Tmd",
            System::TwinTmd(_) => "TwinTmd",
            System::Tri1Tmd(_) => "Tri1Tmd",
            System::UuudddTmd(_) => "UuudddTmd",
            System::Tri2Tmd(_) => "Tri2Tmd",
            System::SatoTmd(_) => "SatoTmd",
            System::Stable(_) => "Stable",
            System::FmKanemele(_) => "FmKanemele",
            System::One1Kanemele(_) => "One1Kanemele",
            System::One2Kanemele(_) => "One2Kanemele",
            System::TwinKanemele(_) => "TwinKanemele",
            System::Tri1Kanemele(_) => "Tri1Kanemele",
            System::Tri2Kanemele(_) => "Tri2Kanemele",
            System::UuudddKanemele(_) => "UuudddKanemele",
            System::AfmKanemele(_) => "AfmKanemele",
        }
    }
}

} // verus!
