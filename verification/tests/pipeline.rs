//! End-to-end scenarios through the real eigensolver: sorted
//! diagonalizations, Hermitian assembly, Berry-curvature sign structure,
//! the vanishing curvature of the uncoupled model, and tile-reduction
//! invariance.

use nalgebra::{Complex, Matrix2, SymmetricEigen};
use uuuddd4::fix::{Fix, FIX_ONE};
use uuuddd4::cpx::Cpx;
use uuuddd4::matrix::CMatrix;
use uuuddd4::model::{Param, System};
use uuuddd4::setting::CalcSetting;
use uuuddd4::util::{i_j_to_kk, cal_cell_area, GridInfo};
use uuuddd4::diag::{EigenPair, SpinEigen, SEud, sort_symmetric_eigen_ascending};
use uuuddd4::hamiltonian::{hamiltonian_2, hamiltonian_2_dxi, Hamiltonian};
use uuuddd4::cal_berry::{
    calculate_berry_curvature_from_seud, calculate_quantum_metric_from_seud, Tensor,
};
use uuuddd4::honeycomb_grids::{Grids, PointData};
use uuuddd4::tanzaku::Tanzakus;

const SQRT_3: f64 = 1.7320508075688772;
const T: f64 = 1.0;
const A1: (f64, f64) = (-0.5 * SQRT_3, SQRT_3 / 2.0 * SQRT_3);
const A2: (f64, f64) = (-0.5 * SQRT_3, -SQRT_3 / 2.0 * SQRT_3);
const A3: (f64, f64) = (SQRT_3, 0.0);
const D1: (f64, f64) = (SQRT_3 / 2.0, 0.5);
const D2: (f64, f64) = (-SQRT_3 / 2.0, 0.5);
const D3: (f64, f64) = (0.0, -1.0);

fn fx(x: f64) -> Fix {
    Fix::new((x * FIX_ONE as f64).round() as i64)
}

fn tof(f: Fix) -> f64 {
    f.raw as f64 / FIX_ONE as f64
}

fn cx(z: Complex<f64>) -> Cpx {
    Cpx::new(fx(z.re), fx(z.im))
}

fn dot(a: (f64, f64), b: (f64, f64)) -> f64 {
    a.0 * b.0 + a.1 * b.1
}

fn expi(theta: f64) -> Complex<f64> {
    Complex::new(theta.cos(), theta.sin())
}

/// The transcendental inputs of the two-orbital Hamiltonian at one momentum.
fn phases2(lambda: f64, kk: (f64, f64)) -> (f64, Complex<f64>) {
    let diag = 2.0 * lambda * (dot(kk, A1).sin() + dot(kk, A2).sin() + dot(kk, A3).sin());
    let off = (expi(dot(kk, D1)) + expi(dot(kk, D2)) + expi(dot(kk, D3))) * Complex::new(-T, 0.0);
    (diag, off)
}

/// The transcendental inputs of its momentum derivative along one axis.
fn dphases2(lambda: f64, kk: (f64, f64), axis: usize) -> (f64, Complex<f64>) {
    let pick = |v: (f64, f64)| if axis == 0 { v.0 } else { v.1 };
    let ddiag = 2.0 * lambda
        * (dot(kk, A1).cos() * pick(A1) + dot(kk, A2).cos() * pick(A2)
            + dot(kk, A3).cos() * pick(A3));
    let i = Complex::new(0.0, 1.0);
    let doff = (expi(dot(kk, D1)) * i * pick(D1) + expi(dot(kk, D2)) * i * pick(D2)
        + expi(dot(kk, D3)) * i * pick(D3)) * Complex::new(-T, 0.0);
    (ddiag, doff)
}

fn ham2_at(system: &System, kk: (f64, f64)) -> Hamiltonian {
    let lambda = tof(system.param().lambda);
    let (diag, off) = phases2(lambda, kk);
    hamiltonian_2(system, fx(diag), cx(off))
}

fn dham2_at(system: &System, kk: (f64, f64), axis: usize) -> Hamiltonian {
    let lambda = tof(system.param().lambda);
    let (ddiag, doff) = dphases2(lambda, kk, axis);
    hamiltonian_2_dxi(system, fx(ddiag), cx(doff))
}

fn to_na(m: &CMatrix) -> Matrix2<Complex<f64>> {
    let g = |r: usize, c: usize| {
        let e = m.get(r, c);
        Complex::new(tof(e.re), tof(e.im))
    };
    Matrix2::new(g(0, 0), g(0, 1), g(1, 0), g(1, 1))
}

/// Diagonalize one spin block with the dense Hermitian eigensolver and hand
/// the result back as sorted fixed-point eigenpairs.
fn eig2(m: &CMatrix) -> SpinEigen {
    let se = SymmetricEigen::new(to_na(m));
    let mut pairs: Vec<EigenPair> = Vec::new();
    for b in 0..2 {
        let value = fx(se.eigenvalues[b]);
        let col = se.eigenvectors.column(b);
        let vector = vec![cx(col[0]), cx(col[1])];
        pairs.push(EigenPair { value, vector });
    }
    sort_symmetric_eigen_ascending(SpinEigen::new(2, pairs))
}

fn point_at(system: &System, kk: (f64, f64)) -> PointData {
    let h = ham2_at(system, kk);
    let seud = SEud::new(eig2(&h.u), eig2(&h.d));
    PointData { seud, dhx: dham2_at(system, kk, 0), dhy: dham2_at(system, kk, 1) }
}

fn setting(mesh: usize, div: usize, main_mesh: usize) -> CalcSetting {
    CalcSetting {
        mesh_kx: mesh,
        mesh_ky: mesh,
        height_map_div: div,
        threshold_berry: Fix::new(1024),
        main_mesh,
    }
}

fn points_for_tile(system: &System, setting: &CalcSetting, gi: GridInfo) -> Vec<PointData> {
    let mut points = Vec::new();
    for i in 0..setting.mesh_kx {
        for j in 0..setting.mesh_ky {
            let kk = i_j_to_kk(i, j, setting.mesh_kx, setting.mesh_ky, false, 2, gi);
            points.push(point_at(system, (tof(kk.x), tof(kk.y))));
        }
    }
    points
}

#[test]
fn diagonalization_comes_out_ascending() {
    let system = System::FmTmd(Param::new(fx(0.3), fx(0.25)));
    for t in 0..7 {
        let kk = (0.3 * t as f64 - 1.0, 0.17 * t as f64);
        let p = point_at(&system, kk);
        for ch in [&p.seud.u, &p.seud.d] {
            assert!(ch.pairs[0].value.raw <= ch.pairs[1].value.raw);
        }
    }
}

#[test]
fn assembled_hamiltonians_are_hermitian() {
    let system = System::FmKanemele(Param::new(fx(0.3), fx(0.25)));
    for t in 0..5 {
        let kk = (0.41 * t as f64, -0.23 * t as f64 + 0.1);
        let h = ham2_at(&system, kk);
        for m in [&h.u, &h.d] {
            for r in 0..2 {
                for c in 0..2 {
                    let e = m.get(r, c);
                    let f = m.get(c, r);
                    assert_eq!(e.re.raw, f.re.raw);
                    assert_eq!(e.im.raw, -f.im.raw);
                }
            }
        }
    }
}

/// The conjugated image of a spin block: same eigenvalues, conjugated
/// eigenvectors.
fn conj_eig(e: &SpinEigen) -> SpinEigen {
    let mut pairs = Vec::new();
    for b in 0..e.n {
        let src = &e.pairs[b];
        let vector: Vec<Cpx> = src.vector.iter().map(|z| z.conj()).collect();
        pairs.push(EigenPair { value: src.value, vector });
    }
    SpinEigen::new(e.n, pairs)
}

fn conj_matrix(m: &CMatrix) -> CMatrix {
    let mut a = Vec::new();
    for r in 0..m.n {
        for c in 0..m.n {
            a.push(m.get(r, c).conj());
        }
    }
    CMatrix::new(m.n, a)
}

#[test]
fn conjugated_inputs_negate_berry_and_keep_metric() {
    let system = System::FmTmd(Param::new(fx(0.3), fx(0.25)));
    let st = setting(4, 8, 1);
    let kk = (0.7, -0.4);
    let p = point_at(&system, kk);
    let area = cal_cell_area(4, 4, 2);
    let seud2 = SEud::new(conj_eig(&p.seud.u), conj_eig(&p.seud.d));
    let dhx2 = Hamiltonian { u: conj_matrix(&p.dhx.u), d: conj_matrix(&p.dhx.d) };
    let dhy2 = Hamiltonian { u: conj_matrix(&p.dhy.u), d: conj_matrix(&p.dhy.d) };
    let b1 = calculate_berry_curvature_from_seud(&p.seud, &p.dhx, &p.dhy, area, &st);
    let b2 = calculate_berry_curvature_from_seud(&seud2, &dhx2, &dhy2, area, &st);
    for s in 0..2 {
        for b in 0..2 {
            assert_eq!(b2[s][b].raw, -b1[s][b].raw);
        }
    }
    let m1 = calculate_quantum_metric_from_seud(&p.seud, &p.dhx, &p.dhy, area, false, Tensor::XX, &st);
    let m2 = calculate_quantum_metric_from_seud(&seud2, &dhx2, &dhy2, area, false, Tensor::XX, &st);
    for s in 0..2 {
        for b in 0..2 {
            assert_eq!(m2[s][b].raw, m1[s][b].raw);
        }
    }
}

#[test]
fn ferromagnet_berry_flips_between_spins_at_opposite_momenta() {
    let system = System::FmTmd(Param::new(fx(0.3), fx(0.25)));
    let st = setting(4, 8, 1);
    let area = cal_cell_area(4, 4, 2);
    let kk = (0.7, -0.4);
    let p = point_at(&system, kk);
    let q = point_at(&system, (-kk.0, -kk.1));
    let bp = calculate_berry_curvature_from_seud(&p.seud, &p.dhx, &p.dhy, area, &st);
    let bq = calculate_berry_curvature_from_seud(&q.seud, &q.dhx, &q.dhy, area, &st);
    for b in 0..2 {
        let up = tof(bp[0][b]);
        let down = tof(bq[1][b]);
        assert!((up + down).abs() < 1e-4, "band {b}: {up} vs {down}");
    }
}

#[test]
fn uncoupled_model_has_no_berry_curvature() {
    // the two-band model with no intrinsic and no exchange coupling keeps
    // time reversal: every curvature vanishes
    let system = System::Tmd(Param::new(Fix::new(0), Fix::new(0)));
    let st = setting(4, 8, 1);
    let gi = GridInfo::no_divide();
    let points = points_for_tile(&system, &st, gi);
    let grids = Grids::build(st, system, gi, &points);
    for spin in 0..2 {
        for band in 0..2 {
            let grid = &grids.index(spin)[band];
            for row in &grid.0 {
                for cell in row {
                    let berry = cell.berry.expect("the builder sets every curvature");
                    assert!(
                        tof(berry).abs() < 1e-5,
                        "curvature {} at spin {spin} band {band}",
                        tof(berry)
                    );
                }
            }
        }
    }
}

#[test]
fn tile_reduction_matches_single_tile_run() {
    let system = System::FmTmd(Param::new(fx(0.3), fx(0.25)));
    let div = 8;

    // single run over the full zone at resolution 8
    let st_single = setting(8, div, 1);
    let gi_single = GridInfo::no_divide();
    let points = points_for_tile(&system, &st_single, gi_single);
    let grids_single = Grids::build(st_single, system, gi_single, &points);
    let er = grids_single.energy_range();
    let mut single = Tanzakus::new(st_single, system);
    single.write_energy_n_bc_sum_to_tanzaku(&grids_single);

    // four tiles at resolution 4 each sample exactly the same momenta
    let st_tile = setting(4, div, 2);
    let mut merged = Tanzakus::new(st_tile, system);
    for ti in 0..2 {
        for tj in 0..2 {
            let gi = GridInfo::new_ijn(ti, tj, 2, 2, Some(er));
            let pts = points_for_tile(&system, &st_tile, gi);
            let grids = Grids::build(st_tile, system, gi, &pts);
            let mut part = Tanzakus::new(st_tile, system);
            part.write_energy_n_bc_sum_to_tanzaku(&grids);
            merged.merge(&part).expect("equal level counts");
        }
    }

    for lv in 0..div {
        let a = tof(single.data[lv].n);
        let b = tof(merged.data[lv].n);
        assert!((a - b).abs() < 1e-6, "level {lv}: {a} vs {b}");
        let ba = tof(single.data[lv].berry);
        let bb = tof(merged.data[lv].berry);
        assert!((ba - bb).abs() < 1e-4, "level {lv} berry: {ba} vs {bb}");
    }
}
