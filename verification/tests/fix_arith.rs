//! Exact-value tests of the fixed-point layer and the geometry primitives.

use uuuddd4::fix::{Fix, isqrt_u128, FIX_ONE};
use uuuddd4::cpx::Cpx;
use uuuddd4::vec2::Vec2F;
use uuuddd4::util::{kp, kpp, k, m, gamma, point_in_triangle_simple, cal_cell_area, GridInfo};
use uuuddd4::dv2::DV2;
use uuuddd4::height_map::{energy_to_index, index_to_energy};

fn fx(x: f64) -> Fix {
    Fix::new((x * FIX_ONE as f64).round() as i64)
}

fn tof(f: Fix) -> f64 {
    f.raw as f64 / FIX_ONE as f64
}

fn v(x: f64, y: f64) -> Vec2F {
    Vec2F::new(fx(x), fx(y))
}

#[test]
fn add_sub_mul_div_exact() {
    let a = fx(1.5);
    let b = fx(0.25);
    assert_eq!(a.add(b).raw, fx(1.75).raw);
    assert_eq!(a.sub(b).raw, fx(1.25).raw);
    assert_eq!(a.mul(b).raw, fx(0.375).raw);
    assert_eq!(a.div(b).raw, fx(6.0).raw);
    assert_eq!(a.neg().raw, -a.raw);
    assert_eq!(fx(-2.0).abs().raw, fx(2.0).raw);
}

#[test]
fn saturation_is_symmetric() {
    let big = Fix::new(i64::MAX);
    let sum = big.add(big);
    assert_eq!(sum.raw, i64::MAX);
    let nsum = big.neg().add(big.neg());
    assert_eq!(nsum.raw, -i64::MAX);
}

#[test]
fn truncating_division_is_odd() {
    let a = fx(1.0);
    let b = fx(3.0);
    let q = a.div(b);
    let nq = a.neg().div(b);
    assert_eq!(nq.raw, -q.raw);
}

#[test]
fn integer_square_roots() {
    assert_eq!(isqrt_u128(0), 0);
    assert_eq!(isqrt_u128(1), 1);
    assert_eq!(isqrt_u128(15), 3);
    assert_eq!(isqrt_u128(16), 4);
    assert_eq!(isqrt_u128(u64::MAX as u128 * u64::MAX as u128), u64::MAX);
}

#[test]
fn distance_three_four_five() {
    let a = v(0.0, 0.0);
    let b = v(3.0, 4.0);
    assert_eq!(a.dist(b).raw, 5 * FIX_ONE);
    assert_eq!(b.dist(a).raw, 5 * FIX_ONE);
}

#[test]
fn midpoint_halves() {
    let a = v(1.0, -1.0);
    let b = v(3.0, 5.0);
    let mid = a.midpoint(b);
    assert_eq!(mid.x.raw, 2 * FIX_ONE);
    assert_eq!(mid.y.raw, 2 * FIX_ONE);
}

#[test]
fn complex_product_and_conjugation() {
    let a = Cpx::new(fx(1.0), fx(2.0));
    let b = Cpx::new(fx(3.0), fx(-1.0));
    let p = a.mul(b);
    // (1 + 2i)(3 - i) = 5 + 5i
    assert_eq!(p.re.raw, 5 * FIX_ONE);
    assert_eq!(p.im.raw, 5 * FIX_ONE);
    let q = a.conj().mul(b.conj());
    assert_eq!(q.re.raw, p.re.raw);
    assert_eq!(q.im.raw, -p.im.raw);
}

#[test]
fn oblique_round_trip_size_two() {
    let p = v(0.7, -0.4);
    let back = DV2::from_car(p, 2).to_car(2);
    assert!((tof(back.x) - 0.7).abs() < 1e-6);
    assert!((tof(back.y) + 0.4).abs() < 1e-6);
}

#[test]
fn oblique_round_trip_size_six() {
    let p = v(-0.3, 0.9);
    let back = DV2::from_car(p, 6).to_car(6);
    assert!((tof(back.x) + 0.3).abs() < 1e-6);
    assert!((tof(back.y) - 0.9).abs() < 1e-6);
}

#[test]
fn characteristic_points_match_closed_forms() {
    let s3 = 3.0_f64.sqrt();
    let pi = std::f64::consts::PI;
    let tri = 4.0 * pi / 9.0;
    let k6 = k(6);
    assert!((tof(k6.x) - tri * s3 / 2.0).abs() < 1e-6);
    assert!((tof(k6.y) + tri * 0.5).abs() < 1e-6);
    let kp6 = kp(6);
    assert!((tof(kp6.y) - tri * 0.5).abs() < 1e-6);
    let kpp6 = kpp(6);
    assert!((tof(kpp6.y) + tri).abs() < 1e-6);
    let m2 = m(2);
    assert!((tof(m2.x) - s3 * pi / 3.0).abs() < 1e-6);
    assert!((tof(m2.y) - pi / 3.0).abs() < 1e-6);
    let g = gamma(2);
    assert_eq!(g.x.raw, 0);
    assert_eq!(g.y.raw, 0);
}

#[test]
fn triangle_membership() {
    let a = v(0.0, 0.0);
    let b = v(1.0, 0.0);
    let c = v(0.0, 1.0);
    assert!(point_in_triangle_simple(v(0.2, 0.2), a, b, c));
    assert!(!point_in_triangle_simple(v(1.0, 1.0), a, b, c));
    // a vertex lies on the border and counts as inside
    assert!(point_in_triangle_simple(a, a, b, c));
}

#[test]
fn cell_area_positive_and_scales() {
    let a1 = cal_cell_area(10, 10, 6);
    let a2 = cal_cell_area(20, 20, 6);
    assert!(a1.raw > 0);
    // a mesh twice as fine has cells a quarter the size
    assert!((tof(a1) / tof(a2) - 4.0).abs() < 1e-3);
}

#[test]
fn grid_info_tiles() {
    let gi = GridInfo::no_divide();
    assert_eq!(gi.ini.x.raw, 0);
    assert_eq!(gi.dxy.x.raw, FIX_ONE);
    assert!(gi.energy_range.is_none());
    let t = GridInfo::new_ijn(1, 0, 2, 2, None);
    assert_eq!(t.ini.x.raw, FIX_ONE / 2);
    assert_eq!(t.dxy.y.raw, FIX_ONE / 2);
}

#[test]
fn energy_index_round_trip_within_one_bucket() {
    let ground = fx(-3.2);
    let highest = fx(5.7);
    let div: usize = 39;
    let bucket = (highest.raw - ground.raw) / div as i64;
    for t in 0..=100 {
        let e = Fix::new(ground.raw + ((highest.raw - ground.raw) as i128 * t as i128 / 100) as i64);
        let idx = energy_to_index(ground, highest, div, e);
        assert!(idx < div);
        let back = index_to_energy(ground, highest, div, idx);
        let err = e.raw - back.raw;
        assert!(err >= 0);
        assert!(err <= bucket + 1);
    }
}

#[test]
fn energy_index_clamps_out_of_range() {
    let ground = fx(0.0);
    let highest = fx(1.0);
    assert_eq!(energy_to_index(ground, highest, 10, fx(-5.0)), 0);
    assert_eq!(energy_to_index(ground, highest, 10, fx(5.0)), 9);
    // a degenerate range maps everything to level zero
    assert_eq!(energy_to_index(ground, ground, 10, fx(0.5)), 0);
}
