//! Configuration accessors and the 6-orbital assembly: sizes, sign
//! patterns, structural coefficients, and exact Hermiticity.

use uuuddd4::cpx::Cpx;
use uuuddd4::fix::{Fix, FIX_ONE};
use uuuddd4::hamiltonian::hamiltonian_6;
use uuuddd4::model::{Param, SpinSeq6, System};

fn f(units: i64) -> Fix {
    Fix::new(units * FIX_ONE)
}

fn c(re: i64, im: i64) -> Cpx {
    Cpx::new(f(re), f(im))
}

#[test]
fn sizes_follow_the_configuration() {
    let p = Param::new(f(0), f(0));
    assert_eq!(System::Tmd(p).size(), 2);
    assert_eq!(System::FmTmd(p).size(), 2);
    assert_eq!(System::SatoTmd(p).size(), 2);
    assert_eq!(System::AfmKanemele(p).size(), 2);
    assert_eq!(System::Uuuddd(p).size(), 6);
    assert_eq!(System::UuudddTmd(p).size(), 6);
    assert_eq!(System::Tri2Kanemele(p).size(), 6);
}

#[test]
fn structural_coefficients_by_family() {
    let p = Param::new(f(0), f(0));
    assert_eq!(System::Uuuddd(p).tmd().raw, FIX_ONE);
    assert_eq!(System::UuudddTmd(p).tmd().raw, 0);
    assert_eq!(System::UuudddKanemele(p).tmd().raw, -FIX_ONE);
}

#[test]
fn spin_sequences_carry_the_sign_patterns() {
    let p = Param::new(f(0), f(0));
    let sq = System::UuudddTmd(p).spinseq();
    let expected: [i64; 6] = [1, 1, 1, -1, -1, -1];
    for (t, sign) in expected.iter().enumerate() {
        assert_eq!(sq.site(t).raw, sign * FIX_ONE);
    }
    let afm = System::SatoTmd(p).spinseq();
    assert_eq!(afm.site(0).raw, FIX_ONE);
    assert_eq!(afm.site(1).raw, -FIX_ONE);
    let para = System::Tmd(p).spinseq();
    assert_eq!(para.site(3).raw, 0);
}

#[test]
fn interesting_parameters() {
    let p = Param::interesting();
    assert!((p.lambda.raw as f64 / FIX_ONE as f64 - 0.3).abs() < 1e-8);
    assert_eq!(p.jj.raw * 4, FIX_ONE);
}

#[test]
fn exchange_diagonal_matrices() {
    let sq = SpinSeq6::uuuddd();
    let m6 = sq.diag_matrix6(f(2));
    for t in 0..6 {
        let e = m6.get(t, t);
        let expected = if t < 3 { 2 * FIX_ONE } else { -2 * FIX_ONE };
        assert_eq!(e.re.raw, expected);
        assert_eq!(e.im.raw, 0);
    }
    assert_eq!(m6.get(0, 1).re.raw, 0);
    let m2 = sq.diag_matrix2(f(3));
    assert_eq!(m2.get(0, 0).re.raw, 3 * FIX_ONE);
    assert_eq!(m2.get(1, 1).re.raw, 3 * FIX_ONE);
}

#[test]
fn six_orbital_assembly_is_hermitian_with_the_hopping_pattern() {
    let p = Param::new(f(1), f(1));
    let system = System::UuudddKanemele(p);
    let ed1p = c(1, 2);
    let ed2p = c(-3, 1);
    let ed3p = c(0, -2);
    let plu = c(2, 5);
    let h = hamiltonian_6(&system, ed1p, ed2p, ed3p, plu);
    for m in [&h.u, &h.d] {
        assert_eq!(m.n, 6);
        for r in 0..6 {
            for cc in 0..6 {
                let e = m.get(r, cc);
                let t = m.get(cc, r);
                assert_eq!(e.re.raw, t.re.raw);
                assert_eq!(e.im.raw, -t.im.raw);
            }
        }
    }
    // nearest-neighbour phases sit on the hopping pattern
    let e01 = h.u.get(0, 1);
    assert_eq!(e01.re.raw, ed1p.re.raw);
    assert_eq!(e01.im.raw, ed1p.im.raw);
    let e10 = h.u.get(1, 0);
    assert_eq!(e10.im.raw, -ed1p.im.raw);
    // the exchange diagonal follows the sign pattern, with the opposite
    // sign on the down block
    assert_eq!(h.u.get(0, 0).re.raw, FIX_ONE);
    assert_eq!(h.u.get(5, 5).re.raw, -FIX_ONE);
    assert_eq!(h.d.get(0, 0).re.raw, -FIX_ONE);
    assert_eq!(h.d.get(5, 5).re.raw, FIX_ONE);
}
