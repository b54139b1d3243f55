//! Berry curvature, quantum-metric tensor components, and group ("anomaly")
//! velocity at one momentum, by the Kubo sum-over-states formula.
//!
//! For bands `i != j`, with `O1`, `O2` drawn from the two Hamiltonian
//! momentum-derivatives, the inter-band weight is
//! `braket = <u_i|O1|u_j><u_j|O2|u_i>` divided by `(eps_i - eps_j)^2`;
//! a term whose denominator does not exceed the configured threshold is
//! dropped entirely.  Every result is already multiplied by the mesh cell
//! area, so grid sums are directly comparable.

use vstd::prelude::*;
use crate::fix::{Fix, fix_div_spec, lemma_tdiv_neg, FIX_ONE};
use crate::cpx::{
    Cpx, cpx_ranged, spec_cadd, spec_cconj, spec_cmul, spec_czero, spec_fadd, spec_fneg,
    spec_fsub, spec_fmul, lemma_cmul_conj, lemma_cadd_conj, lemma_cconj_involutive,
    lemma_ops_ranged, lemma_fmul_neg,
};
use crate::matrix::CMatrix;
use crate::diag::{EigenPair, SpinEigen, SEud};
use crate::hamiltonian::Hamiltonian;
use crate::setting::CalcSetting;
use crate::vec2::Vec2F;

verus! {

/// Which pair of momentum-derivatives enters the quantum-geometric tensor.
#[derive(Clone, Copy, PartialEq, Eq, Structural, Debug)]
pub enum Tensor {
    XX,
    XY,
    YY,
}

/// The derivative pair selected by a tensor component.
pub open spec fn spec_tensor_ops(t: Tensor, dhx: CMatrix, dhy: CMatrix) -> (CMatrix, CMatrix) {
    match t {
        Tensor::XX => (dhx, dhx),
        Tensor::XY => (dhx, dhy),
        Tensor::YY => (dhy, dhy),
    }
}

/// Partial dot product of row `r` of `a` with `v`, over columns below `c`.
pub open spec fn spec_row_dot(a: CMatrix, r: int, v: Seq<Cpx>, c: int) -> Cpx
    decreases c,
{
    if c <= 0 {
        spec_czero()
    } else {
        spec_cadd(spec_row_dot(a, r, v, c - 1), spec_cmul(a.at(r, c - 1), v[c - 1]))
    }
}

/// Partial matrix element `<u|a|v>`, over rows below `r`.
pub open spec fn spec_sandwich(u: Seq<Cpx>, a: CMatrix, v: Seq<Cpx>, r: int) -> Cpx
    decreases r,
{
    if r <= 0 {
        spec_czero()
    } else {
        spec_cadd(
            spec_sandwich(u, a, v, r - 1),
            spec_cmul(spec_cconj(u[r - 1]), spec_row_dot(a, r - 1, v, a.n as int)),
        )
    }
}

/// One inter-band Kubo term, already scaled by the cell area; zero when the
/// squared energy difference does not exceed the threshold.
pub open spec fn spec_kubo_term(
    pairs: Seq<EigenPair>,
    dhx: CMatrix,
    dhy: CMatrix,
    ei: int,
    ej: int,
    is_berry: bool,
    tensor: Tensor,
    th: Fix,
    area: Fix,
) -> Fix {
    let o = spec_tensor_ops(tensor, dhx, dhy);
    let n = dhx.n as int;
    let b1 = spec_sandwich(pairs[ei].vector@, o.0, pairs[ej].vector@, n);
    let b2 = spec_sandwich(pairs[ej].vector@, o.1, pairs[ei].vector@, n);
    let braket = spec_cmul(b1, b2);
    let bunshi = if is_berry {
        spec_fneg(spec_fadd(braket.im, braket.im))
    } else {
        braket.re
    };
    let di = spec_fsub(pairs[ei].value, pairs[ej].value);
    let bunbo = spec_fmul(di, di);
    if bunbo.raw > th.raw {
        spec_fmul(Fix { raw: fix_div_spec(bunshi.raw as int, bunbo.raw as int) as i64 }, area)
    } else {
        Fix { raw: 0 }
    }
}

/// Kubo sum for band `ei` over the other bands below `j`.
pub open spec fn spec_kubo_band(
    pairs: Seq<EigenPair>,
    dhx: CMatrix,
    dhy: CMatrix,
    ei: int,
    j: int,
    is_berry: bool,
    tensor: Tensor,
    th: Fix,
    area: Fix,
) -> Fix
    decreases j,
{
    if j <= 0 {
        Fix { raw: 0 }
    } else if j - 1 == ei {
        spec_kubo_band(pairs, dhx, dhy, ei, j - 1, is_berry, tensor, th, area)
    } else {
        spec_fadd(
            spec_kubo_band(pairs, dhx, dhy, ei, j - 1, is_berry, tensor, th, area),
            spec_kubo_term(pairs, dhx, dhy, ei, j - 1, is_berry, tensor, th, area),
        )
    }
}

/// Matrix element `<u|a|v>`.
fn sandwich(u: &Vec<Cpx>, a: &CMatrix, v: &Vec<Cpx>) -> (res: Cpx)
    requires
        a.wf(),
        u.len() == a.n,
        v.len() == a.n,
    ensures
        res == spec_sandwich(u@, *a, v@, a.n as int),
{
    let n = a.n;
    let mut acc = Cpx::zero();
    proof {
        assert(acc == spec_sandwich(u@, *a, v@, 0));
    }
    let mut r: usize = 0;
    while r < n
        invariant
            n == a.n,
            a.wf(),
            u.len() == n,
            v.len() == n,
            r <= n,
            acc == spec_sandwich(u@, *a, v@, r as int),
        decreases n - r,
    {
        let mut rd = Cpx::zero();
        let mut c: usize = 0;
        while c < n
            invariant
                n == a.n,
                a.wf(),
                u.len() == n,
                v.len() == n,
                r < n,
                c <= n,
                rd == spec_row_dot(*a, r as int, v@, c as int),
            decreases n - c,
        {
            rd = rd.add(a.get(r, c).mul(v[c]));
            c = c + 1;
        }
        acc = acc.add(u[r].conj().mul(rd));
        r = r + 1;
    }
    acc
}

/// Kubo sums for every band of one spin channel.
fn kubo_channel(
    eig: &SpinEigen,
    dhx: &CMatrix,
    dhy: &CMatrix,
    is_berry: bool,
    tensor: Tensor,
    th: Fix,
    area: Fix,
) -> (r: Vec<Fix>)
    requires
        eig.wf(),
        dhx.wf(),
        dhy.wf(),
        dhx.n == eig.n,
        dhy.n == eig.n,
        th.raw >= 0,
    ensures
        r.len() == eig.n,
        forall|b: int|
            0 <= b < eig.n ==> #[trigger] r@[b] == spec_kubo_band(
                eig.pairs@,
                *dhx,
                *dhy,
                b,
                eig.n as int,
                is_berry,
                tensor,
                th,
                area,
            ),
{
    let n = eig.n;
    let mut out: Vec<Fix> = Vec::new();
    let mut ei: usize = 0;
    while ei < n
        invariant
            n == eig.n,
            eig.wf(),
            dhx.wf(),
            dhy.wf(),
            dhx.n == n,
            dhy.n == n,
            th.raw >= 0,
            ei <= n,
            out.len() == ei,
            forall|b: int|
                0 <= b < ei ==> #[trigger] out@[b] == spec_kubo_band(
                    eig.pairs@,
                    *dhx,
                    *dhy,
                    b,
                    n as int,
                    is_berry,
                    tensor,
                    th,
                    area,
                ),
        decreases n - ei,
    {
        let mut acc = Fix::zero();
        let mut ej: usize = 0;
        while ej < n
            invariant
                n == eig.n,
                eig.wf(),
                dhx.wf(),
                dhy.wf(),
                dhx.n == n,
                dhy.n == n,
                th.raw >= 0,
                ei < n,
                ej <= n,
                acc == spec_kubo_band(
                    eig.pairs@,
                    *dhx,
                    *dhy,
                    ei as int,
                    ej as int,
                    is_berry,
                    tensor,
                    th,
                    area,
                ),
            decreases n - ej,
        {
            if ej != ei {
                let o1: &CMatrix = match tensor {
                    Tensor::XX => dhx,
                    Tensor::XY => dhx,
                    Tensor::YY => dhy,
                };
                let o2: &CMatrix = match tensor {
                    Tensor::XX => dhx,
                    Tensor::XY => dhy,
                    Tensor::YY => dhy,
                };
                let b1 = sandwich(eig.vector(ei), o1, eig.vector(ej));
                let b2 = sandwich(eig.vector(ej), o2, eig.vector(ei));
                let braket = b1.mul(b2);
                let bunshi = if is_berry {
                    braket.im.add(braket.im).neg()
                } else {
                    braket.re
                };
                let di = eig.value(ei).sub(eig.value(ej));
                let bunbo = di.mul(di);
                let term = if bunbo.raw > th.raw {
                    bunshi.div(bunbo).mul(area)
                } else {
                    Fix::zero()
                };
                acc = acc.add(term);
                proof {
                    assert(acc == spec_kubo_band(
                        eig.pairs@,
                        *dhx,
                        *dhy,
                        ei as int,
                        ej + 1,
                        is_berry,
                        tensor,
                        th,
                        area,
                    ));
                }
            }
            ej = ej + 1;
        }
        out.push(acc);
        ei = ei + 1;
    }
    out
}

/// Per (spin, band) quantum-geometric quantity at one momentum, from one
/// diagonalization and the two derivative pairs evaluated once and shared
/// by all bands.  `is_berry_curvature` selects `-2 Im` over `Re` of the
/// inter-band weight.
pub fn calculate_quantum_metric_from_seud(
    seud: &SEud,
    dhx: &Hamiltonian,
    dhy: &Hamiltonian,
    cell_area: Fix,
    is_berry_curvature: bool,
    tensor: Tensor,
    setting: &CalcSetting,
) -> (r: Vec<Vec<Fix>>)
    requires
        seud.wf(),
        dhx.wf(),
        dhy.wf(),
        dhx.u.n == seud.u.n,
        dhy.u.n == seud.u.n,
        setting.threshold_berry.raw >= 0,
    ensures
        r.len() == 2,
        r@[0].len() == seud.u.n,
        r@[1].len() == seud.u.n,
        forall|b: int|
            0 <= b < seud.u.n ==> #[trigger] r@[0]@[b] == spec_kubo_band(
                seud.u.pairs@,
                dhx.u,
                dhy.u,
                b,
                seud.u.n as int,
                is_berry_curvature,
                tensor,
                setting.threshold_berry,
                cell_area,
            ),
        forall|b: int|
            0 <= b < seud.u.n ==> #[trigger] r@[1]@[b] == spec_kubo_band(
                seud.d.pairs@,
                dhx.d,
                dhy.d,
                b,
                seud.u.n as int,
                is_berry_curvature,
                tensor,
                setting.threshold_berry,
                cell_area,
            ),
{
    let up = kubo_channel(
        &seud.u,
        &dhx.u,
        &dhy.u,
        is_berry_curvature,
        tensor,
        setting.threshold_berry,
        cell_area,
    );
    let dn = kubo_channel(
        &seud.d,
        &dhx.d,
        &dhy.d,
        is_berry_curvature,
        tensor,
        setting.threshold_berry,
        cell_area,
    );
    let mut r: Vec<Vec<Fix>> = Vec::new();
    r.push(up);
    r.push(dn);
    r
}

/// Per (spin, band) Berry curvature at one momentum: the `-2 Im` Kubo sum
/// with the `XY` derivative pair.
pub fn calculate_berry_curvature_from_seud(
    seud: &SEud,
    dhx: &Hamiltonian,
    dhy: &Hamiltonian,
    cell_area: Fix,
    setting: &CalcSetting,
) -> (r: Vec<Vec<Fix>>)
    requires
        seud.wf(),
        dhx.wf(),
        dhy.wf(),
        dhx.u.n == seud.u.n,
        dhy.u.n == seud.u.n,
        setting.threshold_berry.raw >= 0,
    ensures
        r.len() == 2,
        r@[0].len() == seud.u.n,
        r@[1].len() == seud.u.n,
        forall|b: int|
            0 <= b < seud.u.n ==> #[trigger] r@[0]@[b] == spec_kubo_band(
                seud.u.pairs@,
                dhx.u,
                dhy.u,
                b,
                seud.u.n as int,
                true,
                Tensor::XY,
                setting.threshold_berry,
                cell_area,
            ),
        forall|b: int|
            0 <= b < seud.u.n ==> #[trigger] r@[1]@[b] == spec_kubo_band(
                seud.d.pairs@,
                dhx.d,
                dhy.d,
                b,
                seud.u.n as int,
                true,
                Tensor::XY,
                setting.threshold_berry,
                cell_area,
            ),
{
    calculate_quantum_metric_from_seud(seud, dhx, dhy, cell_area, true, Tensor::XY, setting)
}

/// The spin channel of a Hamiltonian pair, as a spec value.
pub open spec fn spec_channel(h: Hamiltonian, spin: int) -> CMatrix {
    if spin == 0 {
        h.u
    } else {
        h.d
    }
}

/// Group velocity of one band at one momentum: the real parts of the two
/// diagonal derivative matrix elements.
pub fn cal_anomaly_velocity(
    seud: &SEud,
    dhx: &Hamiltonian,
    dhy: &Hamiltonian,
    spin: usize,
    band_num: usize,
) -> (v: Vec2F)
    requires
        seud.wf(),
        dhx.wf(),
        dhy.wf(),
        dhx.u.n == seud.u.n,
        dhy.u.n == seud.u.n,
        spin < 2,
        band_num < seud.u.n,
    ensures
        ({
            let eig = if spin == 0 {
                seud.u
            } else {
                seud.d
            };
            let ub = eig.pairs@[band_num as int].vector@;
            v.x == spec_sandwich(ub, spec_channel(*dhx, spin as int), ub, seud.u.n as int).re
                && v.y == spec_sandwich(ub, spec_channel(*dhy, spin as int), ub, seud.u.n as int).re
                && v.x.raw > i64::MIN && v.y.raw > i64::MIN
        }),
{
    let eig = seud.index(spin);
    let mx = dhx.index(spin);
    let my = dhy.index(spin);
    let ub = eig.vector(band_num);
    let sx = sandwich(ub, mx, ub);
    let sy = sandwich(ub, my, ub);
    proof {
        lemma_sandwich_ranged(ub@, *mx, ub@, mx.n as int);
        lemma_sandwich_ranged(ub@, *my, ub@, my.n as int);
    }
    Vec2F { x: sx.re, y: sy.re }
}

/// `w` is the componentwise conjugate of `v`.
pub open spec fn conj_seq(v: Seq<Cpx>, w: Seq<Cpx>) -> bool {
    w.len() == v.len() && forall|i: int| 0 <= i < v.len() ==> w[i] == spec_cconj(#[trigger] v[i])
}

pub open spec fn ranged_seq(v: Seq<Cpx>) -> bool {
    forall|i: int| 0 <= i < v.len() ==> cpx_ranged(#[trigger] v[i])
}

/// `b` is the entrywise conjugate of `a`.
pub open spec fn conj_entries(a: CMatrix, b: CMatrix) -> bool {
    b.n == a.n && forall|r: int, c: int|
        0 <= r < a.n && 0 <= c < a.n ==> #[trigger] b.at(r, c) == spec_cconj(a.at(r, c))
}

pub open spec fn ranged_entries(a: CMatrix) -> bool {
    forall|r: int, c: int| 0 <= r < a.n && 0 <= c < a.n ==> cpx_ranged(#[trigger] a.at(r, c))
}

/// `pairs2` carries the same eigenvalues as `pairs` with conjugated
/// eigenvectors.
pub open spec fn conj_related_pairs(pairs: Seq<EigenPair>, pairs2: Seq<EigenPair>) -> bool {
    pairs2.len() == pairs.len() && forall|k: int|
        0 <= k < pairs.len() ==> (#[trigger] pairs2[k]).value == pairs[k].value && conj_seq(
            pairs[k].vector@,
            pairs2[k].vector@,
        ) && ranged_seq(pairs[k].vector@)
}

/// All relations between one Kubo input set and its conjugated image.
pub open spec fn kubo_inputs_conj_related(
    pairs: Seq<EigenPair>,
    pairs2: Seq<EigenPair>,
    dhx: CMatrix,
    dhx2: CMatrix,
    dhy: CMatrix,
    dhy2: CMatrix,
) -> bool {
    &&& conj_related_pairs(pairs, pairs2)
&&& conj_entries(dhx, dhx2)
&&& conj_entries(dhy, dhy2)
&&& ranged_entries(dhx)
&&& ranged_entries(dhy)
&&& dhy.n == dhx.n
&&& forall|k: int| 0 <= k < pairs.len() ==> (#[trigger] pairs[k]).vector.len() == dhx.n
}

proof fn lemma_row_dot_conj(a: CMatrix, a2: CMatrix, r: int, v: Seq<Cpx>, v2: Seq<Cpx>, c: int)
    requires
        conj_entries(a, a2),
        ranged_entries(a),
        conj_seq(v, v2),
        ranged_seq(v),
        0 <= r < a.n,
        c <= a.n,
        v.len() == a.n,
    ensures
        spec_row_dot(a2, r, v2, c) == spec_cconj(spec_row_dot(a, r, v, c)),
    decreases c,
{
    if c <= 0 {
    } else {
        lemma_row_dot_conj(a, a2, r, v, v2, c - 1);
        lemma_row_dot_ranged(a, r, v, c - 1);
        lemma_cmul_conj(a.at(r, c - 1), v[c - 1]);
        lemma_ops_ranged(a.at(r, c - 1), v[c - 1]);
        lemma_cadd_conj(spec_row_dot(a, r, v, c - 1), spec_cmul(a.at(r, c - 1), v[c - 1]));
        assert(a2.n == a.n);
        assert(spec_row_dot(a2, r, v2, c) == spec_cadd(
            spec_row_dot(a2, r, v2, c - 1),
            spec_cmul(a2.at(r, c - 1), v2[c - 1]),
        ));
    }
}

proof fn lemma_sandwich_conj(
    u: Seq<Cpx>,
    u2: Seq<Cpx>,
    a: CMatrix,
    a2: CMatrix,
    v: Seq<Cpx>,
    v2: Seq<Cpx>,
    r: int,
)
    requires
        conj_entries(a, a2),
        ranged_entries(a),
        conj_seq(u, u2),
        ranged_seq(u),
        conj_seq(v, v2),
        ranged_seq(v),
        u.len() == a.n,
        v.len() == a.n,
        r <= a.n,
    ensures
        spec_sandwich(u2, a2, v2, r) == spec_cconj(spec_sandwich(u, a, v, r)),
    decreases r,
{
    if r <= 0 {
    } else {
        lemma_sandwich_conj(u, u2, a, a2, v, v2, r - 1);
        lemma_row_dot_conj(a, a2, r - 1, v, v2, a.n as int);
        lemma_row_dot_ranged(a, r - 1, v, a.n as int);
        lemma_cconj_involutive(u[r - 1]);
        lemma_cmul_conj(spec_cconj(u[r - 1]), spec_row_dot(a, r - 1, v, a.n as int));
        lemma_sandwich_ranged(u, a, v, r - 1);
        lemma_ops_ranged(spec_cconj(u[r - 1]), spec_row_dot(a, r - 1, v, a.n as int));
        lemma_cadd_conj(
            spec_sandwich(u, a, v, r - 1),
            spec_cmul(spec_cconj(u[r - 1]), spec_row_dot(a, r - 1, v, a.n as int)),
        );
        assert(spec_sandwich(u2, a2, v2, r) == spec_cadd(
            spec_sandwich(u2, a2, v2, r - 1),
            spec_cmul(spec_cconj(u2[r - 1]), spec_row_dot(a2, r - 1, v2, a2.n as int)),
        ));
    }
}

proof fn lemma_kubo_term_conj(
    pairs: Seq<EigenPair>,
    pairs2: Seq<EigenPair>,
    dhx: CMatrix,
    dhx2: CMatrix,
    dhy: CMatrix,
    dhy2: CMatrix,
    ei: int,
    ej: int,
    is_berry: bool,
    tensor: Tensor,
    th: Fix,
    area: Fix,
)
    requires
        kubo_inputs_conj_related(pairs, pairs2, dhx, dhx2, dhy, dhy2),
        th.raw >= 0,
        0 <= ei < pairs.len(),
        0 <= ej < pairs.len(),
    ensures
        is_berry ==> spec_kubo_term(pairs2, dhx2, dhy2, ei, ej, is_berry, tensor, th, area)
            == spec_fneg(spec_kubo_term(pairs, dhx, dhy, ei, ej, is_berry, tensor, th, area)),
        !is_berry ==> spec_kubo_term(pairs2, dhx2, dhy2, ei, ej, is_berry, tensor, th, area)
            == spec_kubo_term(pairs, dhx, dhy, ei, ej, is_berry, tensor, th, area),
{
    let o = spec_tensor_ops(tensor, dhx, dhy);
    let o2 = spec_tensor_ops(tensor, dhx2, dhy2);
    let n = dhx.n as int;
    let vi = pairs[ei].vector@;
    let vj = pairs[ej].vector@;
    let wi = pairs2[ei].vector@;
    let wj = pairs2[ej].vector@;
    lemma_sandwich_conj(vi, wi, o.0, o2.0, vj, wj, n);
    lemma_sandwich_conj(vj, wj, o.1, o2.1, vi, wi, n);
    let b1 = spec_sandwich(vi, o.0, vj, n);
    let b2 = spec_sandwich(vj, o.1, vi, n);
    lemma_sandwich_ranged(vi, o.0, vj, n);
    lemma_sandwich_ranged(vj, o.1, vi, n);
    lemma_cmul_conj(b1, b2);
    lemma_ops_ranged(b1, b2);
    let braket = spec_cmul(b1, b2);
    let bunshi = if is_berry {
        spec_fneg(spec_fadd(braket.im, braket.im))
    } else {
        braket.re
    };
    let di = spec_fsub(pairs[ei].value, pairs[ej].value);
    let bunbo = spec_fmul(di, di);
    if bunbo.raw > th.raw && is_berry {
        let bunshi2 = spec_fneg(spec_fadd(spec_fneg(braket.im), spec_fneg(braket.im)));
        assert(bunshi2.raw == -bunshi.raw);
        assert((bunshi2.raw as int) * (FIX_ONE as int) == -((bunshi.raw as int) * (
        FIX_ONE as int)));
        lemma_tdiv_neg((bunshi.raw as int) * (FIX_ONE as int), bunbo.raw as int);
        let q = Fix { raw: fix_div_spec(bunshi.raw as int, bunbo.raw as int) as i64 };
        let q2 = Fix { raw: fix_div_spec(bunshi2.raw as int, bunbo.raw as int) as i64 };
        assert(q2 == spec_fneg(q));
        lemma_fmul_neg(q, area);
    }
}

/// Every Kubo band sum lies in the symmetric raw range.
proof fn lemma_kubo_band_bounds(
    pairs: Seq<EigenPair>,
    dhx: CMatrix,
    dhy: CMatrix,
    ei: int,
    j: int,
    is_berry: bool,
    tensor: Tensor,
    th: Fix,
    area: Fix,
)
    ensures
        -crate::fix::FIX_MAX_RAW <= spec_kubo_band(
            pairs,
            dhx,
            dhy,
            ei,
            j,
            is_berry,
            tensor,
            th,
            area,
        ).raw <= crate::fix::FIX_MAX_RAW,
    decreases j,
{
    if j <= 0 {
    } else {
        lemma_kubo_band_bounds(pairs, dhx, dhy, ei, j - 1, is_berry, tensor, th, area);
    }
}

#[verifier::rlimit(60)]
proof fn lemma_kubo_band_conj(
    pairs: Seq<EigenPair>,
    pairs2: Seq<EigenPair>,
    dhx: CMatrix,
    dhx2: CMatrix,
    dhy: CMatrix,
    dhy2: CMatrix,
    ei: int,
    j: int,
    is_berry: bool,
    tensor: Tensor,
    th: Fix,
    area: Fix,
)
    requires
        kubo_inputs_conj_related(pairs, pairs2, dhx, dhx2, dhy, dhy2),
        th.raw >= 0,
        0 <= ei < pairs.len(),
        j <= pairs.len(),
    ensures
        is_berry ==> spec_kubo_band(pairs2, dhx2, dhy2, ei, j, is_berry, tensor, th, area)
            == spec_fneg(spec_kubo_band(pairs, dhx, dhy, ei, j, is_berry, tensor, th, area)),
        !is_berry ==> spec_kubo_band(pairs2, dhx2, dhy2, ei, j, is_berry, tensor, th, area)
            == spec_kubo_band(pairs, dhx, dhy, ei, j, is_berry, tensor, th, area),
    decreases j,
{
    if j <= 0 {
    } else {
        lemma_kubo_band_conj(
            pairs,
            pairs2,
            dhx,
            dhx2,
            dhy,
            dhy2,
            ei,
            j - 1,
            is_berry,
            tensor,
            th,
            area,
        );
        if j - 1 != ei {
            lemma_kubo_term_conj(
                pairs,
                pairs2,
                dhx,
                dhx2,
                dhy,
                dhy2,
                ei,
                j - 1,
                is_berry,
                tensor,
                th,
                area,
            );
            lemma_kubo_band_bounds(pairs, dhx, dhy, ei, j - 1, is_berry, tensor, th, area);
        }
    }
}

/// Complex-conjugating the eigenvectors and both derivative matrices — the
/// image of a time-reversal-like negation of the intrinsic coupling, which
/// maps one spin channel of the ferromagnetic configuration onto the other —
/// exactly negates every Berry-curvature sum and leaves every quantum-metric
/// sum unchanged, eigenvalues and cutoff behaviour included.
pub proof fn lemma_kubo_conjugation_antisymmetry(
    pairs: Seq<EigenPair>,
    pairs2: Seq<EigenPair>,
    dhx: CMatrix,
    dhx2: CMatrix,
    dhy: CMatrix,
    dhy2: CMatrix,
    ei: int,
    tensor: Tensor,
    th: Fix,
    area: Fix,
)
    requires
        kubo_inputs_conj_related(pairs, pairs2, dhx, dhx2, dhy, dhy2),
        th.raw >= 0,
        0 <= ei < pairs.len(),
    ensures
        spec_kubo_band(
            pairs2,
            dhx2,
            dhy2,
            ei,
            pairs.len() as int,
            true,
            Tensor::XY,
            th,
            area,
        ) == spec_fneg(
            spec_kubo_band(pairs, dhx, dhy, ei, pairs.len() as int, true, Tensor::XY, th, area),
        ),
        spec_kubo_band(pairs2, dhx2, dhy2, ei, pairs.len() as int, false, tensor, th, area)
            == spec_kubo_band(pairs, dhx, dhy, ei, pairs.len() as int, false, tensor, th, area),
{
    lemma_kubo_band_conj(
        pairs,
        pairs2,
        dhx,
        dhx2,
        dhy,
        dhy2,
        ei,
        pairs.len() as int,
        true,
        Tensor::XY,
        th,
        area,
    );
    lemma_kubo_band_conj(
        pairs,
        pairs2,
        dhx,
        dhx2,
        dhy,
        dhy2,
        ei,
        pairs.len() as int,
        false,
        tensor,
        th,
        area,
    );
}

/// Partial sums of the Kubo sandwich stay strictly above `i64::MIN`.
pub proof fn lemma_row_dot_ranged(a: CMatrix, r: int, v: Seq<Cpx>, c: int)
    ensures
        cpx_ranged(spec_row_dot(a, r, v, c)),
    decreases c,
{
    if c <= 0 {
    } else {
        lemma_row_dot_ranged(a, r, v, c - 1);
        lemma_ops_ranged(spec_row_dot(a, r, v, c - 1), spec_cmul(a.at(r, c - 1), v[c - 1]));
    }
}

pub proof fn lemma_sandwich_ranged(u: Seq<Cpx>, a: CMatrix, v: Seq<Cpx>, r: int)
    ensures
        cpx_ranged(spec_sandwich(u, a, v, r)),
    decreases r,
{
    if r <= 0 {
    } else {
        lemma_sandwich_ranged(u, a, v, r - 1);
        lemma_ops_ranged(
            spec_sandwich(u, a, v, r - 1),
            spec_cmul(spec_cconj(u[r - 1]), spec_row_dot(a, r - 1, v, a.n as int)),
        );
    }
}

} // verus!
