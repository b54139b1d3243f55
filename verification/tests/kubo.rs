//! Hand-computed Kubo sums on a two-level toy system, including the hard
//! degeneracy cutoff and the group velocity.

use uuuddd4::cal_berry::{
    cal_anomaly_velocity, calculate_berry_curvature_from_seud,
    calculate_quantum_metric_from_seud, Tensor,
};
use uuuddd4::cpx::Cpx;
use uuuddd4::diag::{EigenPair, SEud, SpinEigen};
use uuuddd4::fix::{Fix, FIX_ONE};
use uuuddd4::hamiltonian::Hamiltonian;
use uuuddd4::matrix::CMatrix;
use uuuddd4::setting::CalcSetting;

fn f(units: i64) -> Fix {
    Fix::new(units * FIX_ONE)
}

fn c(re: i64, im: i64) -> Cpx {
    Cpx::new(f(re), f(im))
}

/// Identity-basis eigenvectors with eigenvalues 0 and 1.
fn toy_seud() -> SEud {
    let mk = || {
        let pairs = vec![
            EigenPair { value: f(0), vector: vec![c(1, 0), c(0, 0)] },
            EigenPair { value: f(1), vector: vec![c(0, 0), c(1, 0)] },
        ];
        SpinEigen::new(2, pairs)
    };
    SEud::new(mk(), mk())
}

fn offdiag(a: Cpx) -> CMatrix {
    CMatrix::new(2, vec![c(0, 0), a, a.conj(), c(0, 0)])
}

fn both(m: CMatrix) -> Hamiltonian {
    let copy = CMatrix::new(2, m.a.clone());
    Hamiltonian { u: m, d: copy }
}

fn setting(threshold_raw: i64) -> CalcSetting {
    CalcSetting {
        mesh_kx: 4,
        mesh_ky: 4,
        height_map_div: 8,
        threshold_berry: Fix::new(threshold_raw),
        main_mesh: 1,
    }
}

#[test]
fn berry_of_two_level_system_is_plus_minus_two() {
    // dH/dkx has off-diagonal i, dH/dky has off-diagonal 1:
    // braket(band 0) = <0|dHx|1><1|dHy|0> = i, so the curvature is
    // -2 Im(i) / (0 - 1)^2 = -2, and +2 for the upper band
    let seud = toy_seud();
    let dhx = both(offdiag(c(0, 1)));
    let dhy = both(offdiag(c(1, 0)));
    let st = setting(1024);
    let r = calculate_berry_curvature_from_seud(&seud, &dhx, &dhy, f(1), &st);
    for spin in 0..2 {
        assert_eq!(r[spin][0].raw, -2 * FIX_ONE);
        assert_eq!(r[spin][1].raw, 2 * FIX_ONE);
    }
    // the cell area scales the result
    let r2 = calculate_berry_curvature_from_seud(&seud, &dhx, &dhy, f(3), &st);
    assert_eq!(r2[0][0].raw, -6 * FIX_ONE);
}

#[test]
fn cutoff_drops_the_term_entirely() {
    // the squared gap is 1; a threshold at or above it silences the sum
    let seud = toy_seud();
    let dhx = both(offdiag(c(0, 1)));
    let dhy = both(offdiag(c(1, 0)));
    let st = setting(FIX_ONE);
    let r = calculate_berry_curvature_from_seud(&seud, &dhx, &dhy, f(1), &st);
    assert_eq!(r[0][0].raw, 0);
    assert_eq!(r[0][1].raw, 0);
}

#[test]
fn quantum_metric_takes_the_real_part() {
    // braket(band 0, XX) = <0|dHx|1><1|dHx|0> = |i|^2 = 1: metric 1, and
    // the Berry combination of the same pair vanishes
    let seud = toy_seud();
    let dhx = both(offdiag(c(0, 1)));
    let dhy = both(offdiag(c(1, 0)));
    let st = setting(1024);
    let gxx = calculate_quantum_metric_from_seud(&seud, &dhx, &dhy, f(1), false, Tensor::XX, &st);
    assert_eq!(gxx[0][0].raw, FIX_ONE);
    assert_eq!(gxx[0][1].raw, FIX_ONE);
    let bxx = calculate_quantum_metric_from_seud(&seud, &dhx, &dhy, f(1), true, Tensor::XX, &st);
    assert_eq!(bxx[0][0].raw, 0);
}

#[test]
fn anomaly_velocity_reads_the_diagonal_expectation() {
    let seud = toy_seud();
    let dhx = both(CMatrix::new(2, vec![c(3, 0), c(0, 0), c(0, 0), c(-1, 0)]));
    let dhy = both(CMatrix::new(2, vec![c(-2, 0), c(0, 0), c(0, 0), c(5, 0)]));
    let v0 = cal_anomaly_velocity(&seud, &dhx, &dhy, 0, 0);
    assert_eq!(v0.x.raw, 3 * FIX_ONE);
    assert_eq!(v0.y.raw, -2 * FIX_ONE);
    let v1 = cal_anomaly_velocity(&seud, &dhx, &dhy, 1, 1);
    assert_eq!(v1.x.raw, -FIX_ONE);
    assert_eq!(v1.y.raw, 5 * FIX_ONE);
}
