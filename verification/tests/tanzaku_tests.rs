//! Aggregation laws on concrete values: merge doubling, the zero identity,
//! interpolation idempotence, the comparator, and the coarse energy curve.

use uuuddd4::fix::{Fix, FIX_ONE};
use uuuddd4::vec2::Vec2F;
use uuuddd4::model::{Param, System};
use uuuddd4::setting::CalcSetting;
use uuuddd4::tanzaku::{Tanzaku, Tanzakus, TanzakuError};
use uuuddd4::compare::{cal_e_vs_n, select_most_stable};

fn fx(x: f64) -> Fix {
    Fix::new((x * FIX_ONE as f64).round() as i64)
}

fn v(x: f64, y: f64) -> Vec2F {
    Vec2F::new(fx(x), fx(y))
}

fn setting(div: usize) -> CalcSetting {
    CalcSetting {
        mesh_kx: 4,
        mesh_ky: 4,
        height_map_div: div,
        threshold_berry: Fix::new(1),
        main_mesh: 1,
    }
}

fn sample(n: f64, energy: f64, berry: f64) -> Tanzaku {
    Tanzaku::new(fx(n), fx(energy), fx(berry), v(berry, -berry), v(n, energy))
}

fn series(div: usize) -> Tanzakus {
    let sys = System::Tmd(Param::new(Fix::new(0), Fix::new(0)));
    let mut t = Tanzakus::new(setting(div), sys);
    for i in 0..div {
        let x = i as f64;
        t.data[i] = sample(0.25 * x, -1.0 + 0.5 * x, 0.125 * x - 0.3);
    }
    t
}

#[test]
fn merge_with_itself_doubles_every_field() {
    let mut a = series(5);
    let b = series(5);
    a.merge(&b).expect("equal lengths merge");
    for i in 0..5 {
        assert_eq!(a.data[i].n.raw, 2 * b.data[i].n.raw);
        assert_eq!(a.data[i].energy.raw, 2 * b.data[i].energy.raw);
        assert_eq!(a.data[i].berry.raw, 2 * b.data[i].berry.raw);
        assert_eq!(a.data[i].bcd.x.raw, 2 * b.data[i].bcd.x.raw);
        assert_eq!(a.data[i].bcd.y.raw, 2 * b.data[i].bcd.y.raw);
        assert_eq!(a.data[i].qmd.x.raw, 2 * b.data[i].qmd.x.raw);
        assert_eq!(a.data[i].qmd.y.raw, 2 * b.data[i].qmd.y.raw);
    }
}

#[test]
fn merge_with_zero_is_identity() {
    let mut z = Tanzakus::new(setting(5), System::Tmd(Param::new(Fix::new(0), Fix::new(0))));
    let b = series(5);
    z.merge(&b).expect("equal lengths merge");
    for i in 0..5 {
        assert_eq!(z.data[i], b.data[i]);
    }
}

#[test]
fn merge_length_mismatch_reports_error() {
    let mut a = series(5);
    let before: Vec<Tanzaku> = a.data.clone();
    let b = series(6);
    let r = a.merge(&b);
    assert_eq!(r, Err(TanzakuError::LengthMismatch));
    assert_eq!(a.data, before);
}

#[test]
fn interpolate_identity_on_uniform_grid() {
    let div: usize = 8;
    let sys = System::Tmd(Param::new(Fix::new(0), Fix::new(0)));
    let mut t = Tanzakus::new(setting(div), sys);
    for i in 0..div {
        let n = Fix::new(2 * FIX_ONE * i as i64 / div as i64);
        t.data[i] = Tanzaku::new(
            n,
            fx(-2.0 + i as f64),
            fx(0.5 * i as f64),
            v(i as f64, -(i as f64)),
            v(0.25 * i as f64, 1.0),
        );
    }
    let r = t.interpolate_by_n(div);
    assert_eq!(r.data.len(), div);
    for i in 0..div {
        assert_eq!(r.data[i], t.data[i]);
    }
}

#[test]
fn interpolate_clamps_outside_observed_range() {
    let div: usize = 4;
    let sys = System::Tmd(Param::new(Fix::new(0), Fix::new(0)));
    let mut t = Tanzakus::new(setting(div), sys);
    // every sample sits at filling 1.0 or above, so target 0 clamps down
    for i in 0..div {
        t.data[i] = sample(1.0 + 0.1 * i as f64, i as f64, 0.0);
    }
    let r = t.interpolate_by_n(4);
    assert_eq!(r.data[0], t.data[0]);
}

#[test]
fn interpolate_midpoint_blends_linearly() {
    let div: usize = 2;
    let sys = System::Tmd(Param::new(Fix::new(0), Fix::new(0)));
    let mut t = Tanzakus::new(setting(div), sys);
    t.data[0] = sample(0.0, 0.0, 0.0);
    t.data[1] = sample(2.0, 4.0, 1.0);
    // four targets: 0, 0.5, 1.0, 1.5; at filling 1.0 the blend is halfway
    let r = t.interpolate_by_n(4);
    assert_eq!(r.data.len(), 4);
    let half = &r.data[2];
    assert!((half.n.raw - fx(1.0).raw).abs() <= 2);
    assert!((half.energy.raw - fx(2.0).raw).abs() <= 2);
    assert!((half.berry.raw - fx(0.5).raw).abs() <= 2);
}

#[test]
fn coarse_energy_curve_on_four_states() {
    // four states at energies 1, 2, 3, 4 on a single k-point
    let eigens = vec![fx(3.0), fx(1.0), fx(4.0), fx(2.0)];
    let r = cal_e_vs_n(eigens, 1, 2);
    assert_eq!(r.len(), 3);
    // step 0 occupies nothing, step 1 the two lowest, step 2 all four
    assert_eq!(r[0].raw, 0);
    assert_eq!(r[1].raw, fx(3.0).raw);
    assert_eq!(r[2].raw, fx(10.0).raw);
}

#[test]
fn most_stable_envelope_picks_lowest_energy() {
    let sys_a = System::FmTmd(Param::new(Fix::new(0), Fix::new(0)));
    let sys_b = System::SatoTmd(Param::new(Fix::new(0), Fix::new(0)));
    let mut ta = Tanzakus::new(setting(3), sys_a);
    let mut tb = Tanzakus::new(setting(3), sys_b);
    for i in 0..3 {
        ta.data[i] = sample(i as f64, 10.0, 1.0);
        tb.data[i] = sample(i as f64, 20.0, 2.0);
    }
    // configuration a is lower at steps 0 and 2; b is lower at step 1
    let evs = vec![
        vec![fx(0.0), fx(5.0), fx(-1.0)],
        vec![fx(1.0), fx(-3.0), fx(0.0)],
    ];
    let param = Param::new(Fix::new(0), Fix::new(0));
    let r = select_most_stable(&vec![ta, tb], &evs, 3, setting(3), param);
    assert_eq!(r.system, System::Stable(param));
    assert_eq!(r.data[0].berry.raw, fx(1.0).raw);
    assert_eq!(r.data[1].berry.raw, fx(2.0).raw);
    assert_eq!(r.data[2].berry.raw, fx(1.0).raw);
}
