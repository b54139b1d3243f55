//! Assembly of the Hermitian Bloch Hamiltonians and of their momentum
//! derivatives from precomputed phase factors.
//!
//! The closed-form phase factors (complex exponentials of lattice dot
//! products) are transcendental and are handed in from outside as
//! fixed-point complex numbers; this module owns the matrix structure and
//! proves that every assembled matrix is exactly Hermitian.

use vstd::prelude::*;
use crate::fix::Fix;
use crate::cpx::{
    Cpx, cpx_ranged, spec_cconj, spec_cneg, spec_cscale, spec_czero, spec_fadd, spec_fmul,
    spec_fneg, spec_fsub, lemma_cconj_involutive, lemma_cneg_involutive, lemma_cconj_cneg,
    lemma_cscale_conj, lemma_cscale_neg,
};
use crate::matrix::CMatrix;
use crate::model::System;

verus! {

/// One Hamiltonian per spin channel.
#[derive(Clone, Debug)]
pub struct Hamiltonian {
    pub u: CMatrix,
    pub d: CMatrix,
}

impl Hamiltonian {
    pub open spec fn wf(self) -> bool {
        self.u.wf() && self.d.wf() && self.u.n == self.d.n
    }

    /// Spin channel by index: 0 is up, 1 is down.
    pub fn index(&self, index: usize) -> (m: &CMatrix)
        requires
            index < 2,
        ensures
            *m == if index == 0 {
                self.u
            } else {
                self.d
            },
    {
        if index == 0 {
            &self.u
        } else {
            &self.d
        }
    }
}

/// Row-major entries of one 6-orbital spin block: nearest-neighbour phases
/// on the off-diagonal hopping pattern, next-nearest-neighbour coupling
/// `plu`/`mnu` scaled by the structural coefficient on the remaining
/// entries, and a real diagonal.
pub open spec fn spec_h6_entries(
    ed1p: Cpx,
    ed2p: Cpx,
    ed3p: Cpx,
    ed1m: Cpx,
    ed2m: Cpx,
    ed3m: Cpx,
    plu: Cpx,
    mnu: Cpx,
    tmd: Fix,
    diag: Seq<Cpx>,
) -> Seq<Cpx> {
    let pt = spec_cscale(plu, tmd);
    let npt = spec_cneg(pt);
    let mt = spec_cscale(mnu, tmd);
    let nplu = spec_cneg(plu);
    seq![
        diag[0], ed1p, npt, ed3p, mt, ed2p,
        ed1m, diag[1], ed2m, nplu, ed3m, mnu,
        mt, ed2p, diag[2], ed1p, npt, ed3p,
        ed3m, mnu, ed1m, diag[3], ed2m, nplu,
        npt, ed3p, mt, ed2p, diag[4], ed1p,
        ed2m, nplu, ed3m, mnu, ed1m, diag[5],
    ]
}

/// Assemble one 6-orbital spin block.  The minus phases must be the exact
/// conjugates of the plus phases and `mnu` the negated conjugate of `plu`;
/// the result is then exactly Hermitian.
pub fn hamiltonian_6_box(
    ed1p: Cpx,
    ed2p: Cpx,
    ed3p: Cpx,
    ed1m: Cpx,
    ed2m: Cpx,
    ed3m: Cpx,
    plu: Cpx,
    mnu: Cpx,
    tmd: Fix,
    diag: &Vec<Cpx>,
) -> (m: CMatrix)
    requires
        cpx_ranged(ed1p),
        cpx_ranged(ed2p),
        cpx_ranged(ed3p),
        cpx_ranged(plu),
        ed1m == spec_cconj(ed1p),
        ed2m == spec_cconj(ed2p),
        ed3m == spec_cconj(ed3p),
        mnu == spec_cneg(spec_cconj(plu)),
        diag.len() == 6,
        forall|t: int| 0 <= t < 6 ==> (#[trigger] diag@[t]).im.raw == 0,
    ensures
        m.wf(),
        m.n == 6,
        m.a@ == spec_h6_entries(ed1p, ed2p, ed3p, ed1m, ed2m, ed3m, plu, mnu, tmd, diag@),
        m.hermitian(),
{
    let pt = plu.scale(tmd);
    let npt = pt.neg();
    let mt = mnu.scale(tmd);
    let nplu = plu.neg();
    let a: Vec<Cpx> = vec![
        diag[0], ed1p, npt, ed3p, mt, ed2p,
        ed1m, diag[1], ed2m, nplu, ed3m, mnu,
        mt, ed2p, diag[2], ed1p, npt, ed3p,
        ed3m, mnu, ed1m, diag[3], ed2m, nplu,
        npt, ed3p, mt, ed2p, diag[4], ed1p,
        ed2m, nplu, ed3m, mnu, ed1m, diag[5],
    ];
    let m = CMatrix::new(6, a);
    proof {
        assert(m.a@ =~= spec_h6_entries(
            ed1p, ed2p, ed3p, ed1m, ed2m, ed3m, plu, mnu, tmd, diag@));
        lemma_cconj_involutive(ed1p);
        lemma_cconj_involutive(ed2p);
        lemma_cconj_involutive(ed3p);
        // conj(mnu) == -plu and conj(-plu) == mnu
        lemma_cconj_cneg(spec_cconj(plu));
        lemma_cconj_involutive(plu);
        assert(spec_cconj(mnu) == spec_cneg(plu));
        lemma_cconj_cneg(plu);
        assert(spec_cconj(spec_cneg(plu)) == mnu);
        // conj(mt) == npt and conj(npt) == mt
        lemma_cscale_conj(mnu, tmd);
        lemma_cscale_neg(plu, tmd);
        assert(spec_cconj(mt) == npt);
        lemma_cscale_conj(plu, tmd);
        lemma_cconj_cneg(spec_cscale(plu, tmd));
        lemma_cscale_neg(spec_cconj(plu), tmd);
        assert(spec_cconj(npt) == mt);
        // the diagonal is real
        assert(forall|t: int| 0 <= t < 6 ==> spec_cconj(#[trigger] diag@[t]) == diag@[t]);
        assert forall|r: int, c: int| 0 <= r < 6 && 0 <= c < 6 implies m.at(r, c) == spec_cconj(
            #[trigger] m.at(c, r),
        ) by {
            assert(m.at(r, c) == m.a@[r * 6 + c]);
            assert(m.at(c, r) == m.a@[c * 6 + r]);
        }
    }
    m
}

/// Row-major entries of one 2-orbital spin block.
pub open spec fn spec_h2_entries(d0: Fix, off: Cpx, d1: Fix) -> Seq<Cpx> {
    seq![
        Cpx { re: d0, im: Fix { raw: 0 } },
        off,
        spec_cconj(off),
        Cpx { re: d1, im: Fix { raw: 0 } },
    ]
}

/// Assemble one 2-orbital spin block from a real diagonal pair and the
/// hopping phase sum; exactly Hermitian by construction.
pub fn h2_block(d0: Fix, off: Cpx, d1: Fix) -> (m: CMatrix)
    requires
        cpx_ranged(off),
    ensures
        m.wf(),
        m.n == 2,
        m.a@ == spec_h2_entries(d0, off, d1),
        m.hermitian(),
{
    let a: Vec<Cpx> = vec![Cpx::from_real(d0), off, off.conj(), Cpx::from_real(d1)];
    let m = CMatrix::new(2, a);
    proof {
        assert(m.a@ =~= spec_h2_entries(d0, off, d1));
        lemma_cconj_involutive(off);
        assert forall|r: int, c: int| 0 <= r < 2 && 0 <= c < 2 implies m.at(r, c) == spec_cconj(
            #[trigger] m.at(c, r),
        ) by {
            assert(m.at(r, c) == m.a@[r * 2 + c]);
            assert(m.at(c, r) == m.a@[c * 2 + r]);
        }
    }
    m
}

/// The 2-orbital Hamiltonian pair for one momentum.  `diag` is the real
/// intrinsic-coupling diagonal term and `off` the summed nearest-neighbour
/// hopping phase at that momentum; the exchange diagonal and the structural
/// coefficient come from the configuration.
pub fn hamiltonian_2(system: &System, diag: Fix, off: Cpx) -> (h: Hamiltonian)
    requires
        system.has_size(),
        cpx_ranged(off),
    ensures
        h.wf(),
        h.u.n == 2 && h.d.n == 2,
        h.u.hermitian(),
        h.d.hermitian(),
        ({
            let sq = system.spec_spinseq();
            let jj = system.spec_param().jj;
            let tmd = Fix { raw: (system.spec_tmd() * crate::fix::FIX_ONE) as i64 };
            h.u.a@ == spec_h2_entries(
                spec_fadd(diag, spec_fmul(sq.a, jj)),
                off,
                spec_fadd(spec_fmul(diag, tmd), spec_fmul(sq.b, jj)),
            ) && h.d.a@ == spec_h2_entries(
                spec_fsub(spec_fneg(diag), spec_fmul(sq.a, jj)),
                off,
                spec_fsub(spec_fneg(spec_fmul(diag, tmd)), spec_fmul(sq.b, jj)),
            )
        }),
{
    let sq = system.spinseq();
    let jj = system.param().jj;
    let tmd = system.tmd();
    let u = h2_block(diag.add(sq.a.mul(jj)), off, diag.mul(tmd).add(sq.b.mul(jj)));
    let d = h2_block(
        diag.neg().sub(sq.a.mul(jj)),
        off,
        diag.mul(tmd).neg().sub(sq.b.mul(jj)),
    );
    Hamiltonian { u, d }
}

/// The 2-orbital momentum-derivative pair: like `hamiltonian_2` but without
/// the exchange diagonal, whose derivative vanishes.
pub fn hamiltonian_2_dxi(system: &System, ddiag: Fix, doff: Cpx) -> (h: Hamiltonian)
    requires
        system.has_size(),
        cpx_ranged(doff),
    ensures
        h.wf(),
        h.u.n == 2 && h.d.n == 2,
        h.u.hermitian(),
        h.d.hermitian(),
        ({
            let tmd = Fix { raw: (system.spec_tmd() * crate::fix::FIX_ONE) as i64 };
            h.u.a@ == spec_h2_entries(ddiag, doff, spec_fmul(ddiag, tmd)) && h.d.a@
                == spec_h2_entries(spec_fneg(ddiag), doff, spec_fneg(spec_fmul(ddiag, tmd)))
        }),
{
    let tmd = system.tmd();
    let u = h2_block(ddiag, doff, ddiag.mul(tmd));
    let d = h2_block(ddiag.neg(), doff, ddiag.mul(tmd).neg());
    Hamiltonian { u, d }
}

/// A real diagonal from the exchange coupling and the sign pattern, site by
/// site; `flip` negates it for the down-spin block.
fn exchange_diag(system: &System, flip: bool) -> (v: Vec<Cpx>)
    requires
        system.has_size(),
    ensures
        v.len() == 6,
        forall|t: int| 0 <= t < 6 ==> (#[trigger] v@[t]).im.raw == 0,
        forall|t: int|
            0 <= t < 6 ==> (#[trigger] v@[t]).re == if flip {
                spec_fneg(
                    spec_fmul(
                        system.spec_spinseq().spec_site(t),
                        system.spec_param().jj,
                    ),
                )
            } else {
                spec_fmul(system.spec_spinseq().spec_site(t), system.spec_param().jj)
            },
{
    let sq = system.spinseq();
    let jj = system.param().jj;
    let mut v: Vec<Cpx> = Vec::new();
    let mut t: usize = 0;
    while t < 6
        invariant
            t <= 6,
            v.len() == t,
            sq == system.spec_spinseq(),
            jj == system.spec_param().jj,
            forall|s: int| 0 <= s < t ==> (#[trigger] v@[s]).im.raw == 0,
            forall|s: int|
                0 <= s < t ==> (#[trigger] v@[s]).re == if flip {
                    spec_fneg(spec_fmul(system.spec_spinseq().spec_site(s), system.spec_param().jj))
                } else {
                    spec_fmul(system.spec_spinseq().spec_site(s), system.spec_param().jj)
                },
        decreases 6 - t,
    {
        let e = sq.site(t).mul(jj);
        let e = if flip {
            e.neg()
        } else {
            e
        };
        v.push(Cpx::from_real(e));
        t = t + 1;
    }
    v
}

/// The 6-orbital Hamiltonian pair for one momentum.  The three plus-phase
/// hopping factors and the next-nearest-neighbour sum `plu` are handed in;
/// their conjugate partners are derived exactly, so both blocks are exactly
/// Hermitian.
pub fn hamiltonian_6(system: &System, ed1p: Cpx, ed2p: Cpx, ed3p: Cpx, plu: Cpx) -> (h: Hamiltonian)
    requires
        system.has_size(),
        cpx_ranged(ed1p),
        cpx_ranged(ed2p),
        cpx_ranged(ed3p),
        cpx_ranged(plu),
    ensures
        h.wf(),
        h.u.n == 6 && h.d.n == 6,
        h.u.hermitian(),
        h.d.hermitian(),
        ({
            let mnu = spec_cneg(spec_cconj(plu));
            let tmd = Fix { raw: (system.spec_tmd() * crate::fix::FIX_ONE) as i64 };
            let up_diag = Seq::new(
                6,
                |t: int|
                    Cpx {
                        re: spec_fmul(system.spec_spinseq().spec_site(t), system.spec_param().jj),
                        im: Fix { raw: 0 },
                    },
            );
            let dn_diag = Seq::new(
                6,
                |t: int|
                    Cpx {
                        re: spec_fneg(
                            spec_fmul(system.spec_spinseq().spec_site(t), system.spec_param().jj),
                        ),
                        im: Fix { raw: 0 },
                    },
            );
            h.u.a@ == spec_h6_entries(
                ed1p,
                ed2p,
                ed3p,
                spec_cconj(ed1p),
                spec_cconj(ed2p),
                spec_cconj(ed3p),
                plu,
                mnu,
                tmd,
                up_diag,
            ) && h.d.a@ == spec_h6_entries(
                ed1p,
                ed2p,
                ed3p,
                spec_cconj(ed1p),
                spec_cconj(ed2p),
                spec_cconj(ed3p),
                spec_cneg(plu),
                spec_cneg(mnu),
                tmd,
                dn_diag,
            )
        }),
{
    let ed1m = ed1p.conj();
    let ed2m = ed2p.conj();
    let ed3m = ed3p.conj();
    let mnu = plu.conj().neg();
    let tmd = system.tmd();
    let up_diag = exchange_diag(system, false);
    let dn_diag = exchange_diag(system, true);
    let u = hamiltonian_6_box(ed1p, ed2p, ed3p, ed1m, ed2m, ed3m, plu, mnu, tmd, &up_diag);
    let nplu = plu.neg();
    let nmnu = mnu.neg();
    proof {
        lemma_cconj_cneg(plu);
        lemma_cneg_involutive(spec_cconj(plu));
        assert(nmnu == spec_cneg(spec_cconj(nplu)));
        assert(up_diag@ =~= Seq::new(
            6,
            |t: int|
                Cpx {
                    re: spec_fmul(system.spec_spinseq().spec_site(t), system.spec_param().jj),
                    im: Fix { raw: 0 },
                },
        ));
        assert(dn_diag@ =~= Seq::new(
            6,
            |t: int|
                Cpx {
                    re: spec_fneg(
                        spec_fmul(system.spec_spinseq().spec_site(t), system.spec_param().jj),
                    ),
                    im: Fix { raw: 0 },
                },
        ));
    }
    let d = hamiltonian_6_box(ed1p, ed2p, ed3p, ed1m, ed2m, ed3m, nplu, nmnu, tmd, &dn_diag);
    Hamiltonian { u, d }
}

/// The 6-orbital momentum-derivative pair: the same hopping pattern built
/// from derivative phase factors, with no exchange diagonal.
pub fn hamiltonian_6_dxi(
    system: &System,
    ed1p: Cpx,
    ed2p: Cpx,
    ed3p: Cpx,
    plu: Cpx,
) -> (h: Hamiltonian)
    requires
        system.has_size(),
        cpx_ranged(ed1p),
        cpx_ranged(ed2p),
        cpx_ranged(ed3p),
        cpx_ranged(plu),
    ensures
        h.wf(),
        h.u.n == 6 && h.d.n == 6,
        h.u.hermitian(),
        h.d.hermitian(),
        ({
            let mnu = spec_cneg(spec_cconj(plu));
            let tmd = Fix { raw: (system.spec_tmd() * crate::fix::FIX_ONE) as i64 };
            let zero_diag = Seq::new(6, |t: int| spec_czero());
            h.u.a@ == spec_h6_entries(
                ed1p,
                ed2p,
                ed3p,
                spec_cconj(ed1p),
                spec_cconj(ed2p),
                spec_cconj(ed3p),
                plu,
                mnu,
                tmd,
                zero_diag,
            ) && h.d.a@ == spec_h6_entries(
                ed1p,
                ed2p,
                ed3p,
                spec_cconj(ed1p),
                spec_cconj(ed2p),
                spec_cconj(ed3p),
                spec_cneg(plu),
                spec_cneg(mnu),
                tmd,
                zero_diag,
            )
        }),
{
    let ed1m = ed1p.conj();
    let ed2m = ed2p.conj();
    let ed3m = ed3p.conj();
    let mnu = plu.conj().neg();
    let tmd = system.tmd();
    let mut zero_diag: Vec<Cpx> = Vec::new();
    let mut t: usize = 0;
    while t < 6
        invariant
            t <= 6,
            zero_diag.len() == t,
            forall|s: int| 0 <= s < t ==> #[trigger] zero_diag@[s] == spec_czero(),
        decreases 6 - t,
    {
        zero_diag.push(Cpx::zero());
        t = t + 1;
    }
    proof {
        assert(forall|s: int| 0 <= s < 6 ==> (#[trigger] zero_diag@[s]).im.raw == 0);
        assert(zero_diag@ =~= Seq::new(6, |t: int| spec_czero()));
    }
    let u = hamiltonian_6_box(ed1p, ed2p, ed3p, ed1m, ed2m, ed3m, plu, mnu, tmd, &zero_diag);
    let nplu = plu.neg();
    let nmnu = mnu.neg();
    proof {
        lemma_cconj_cneg(plu);
        lemma_cneg_involutive(spec_cconj(plu));
        assert(nmnu == spec_cneg(spec_cconj(nplu)));
    }
    let d = hamiltonian_6_box(ed1p, ed2p, ed3p, ed1m, ed2m, ed3m, nplu, nmnu, tmd, &zero_diag);
    Hamiltonian { u, d }
}

} // verus!
