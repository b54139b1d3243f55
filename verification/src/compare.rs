//! Comparison of competing spin configurations: the coarse grand-canonical
//! energy-versus-filling curve, and the envelope that keeps, at every
//! filling step, the sample of the configuration with the lowest energy.

use vstd::prelude::*;
use crate::fix::{Fix, tdiv, fix_div_spec, lemma_tdiv_bound, FIX_ONE};
use crate::cpx::spec_fadd;
use crate::setting::CalcSetting;
use crate::model::{System, Param};
use crate::tanzaku::Tanzakus;

verus! {

broadcast use vstd::seq_lib::group_to_multiset_ensures;

pub open spec fn fix_sorted(s: Seq<Fix>) -> bool {
    forall|i: int, j: int| 0 <= i <= j < s.len() ==> s[i].raw <= s[j].raw
}

/// Index of a minimal value at or after `from`.
fn min_fix_index(v: &Vec<Fix>, from: usize) -> (k: usize)
    requires
        from < v.len(),
    ensures
        from <= k < v.len(),
        forall|i: int| from <= i < v.len() ==> v@[k as int].raw <= (#[trigger] v@[i]).raw,
{
    let mut k = from;
    let mut i = from + 1;
    while i < v.len()
        invariant
            from <= k < i <= v.len(),
            forall|q: int| from <= q < i ==> v@[k as int].raw <= (#[trigger] v@[q]).raw,
        decreases v.len() - i,
    {
        if v[i].raw < v[k].raw {
            k = i;
        }
        i = i + 1;
    }
    k
}

/// Sort values ascending, keeping exactly the values.
pub fn sort_fix_ascending(v: Vec<Fix>) -> (r: Vec<Fix>)
    ensures
        r.len() == v.len(),
        fix_sorted(r@),
        r@.to_multiset() == v@.to_multiset(),
{
    let ghost total = v@.to_multiset();
    let mut rest = v;
    let mut out: Vec<Fix> = Vec::new();
    while rest.len() > 0
        invariant
            fix_sorted(out@),
            out@.to_multiset().add(rest@.to_multiset()) =~= total,
            out.len() + rest.len() == total.len(),
            forall|i: int, j: int|
                0 <= i < out.len() && 0 <= j < rest.len() ==> (#[trigger] out@[i]).raw <= (
                #[trigger] rest@[j]).raw,
        decreases rest.len(),
    {
        let k = min_fix_index(&rest, 0);
        let ghost rest0 = rest@;
        let e = rest.remove(k);
        out.push(e);
        proof {
            assert(rest@ == rest0.remove(k as int));
            assert(forall|q: int|
                0 <= q < rest@.len() ==> (#[trigger] rest@[q]) == if q < k {
                    rest0[q]
                } else {
                    rest0[q + 1]
                });
            assert(out@.to_multiset().add(rest@.to_multiset()) =~= total);
        }
    }
    out
}

/// Saturating sum of the first `k` eigenvalues.
pub open spec fn spec_energy_prefix(ss: Seq<Fix>, k: int) -> Fix
    decreases k,
{
    if k <= 0 {
        Fix { raw: 0 }
    } else {
        spec_fadd(spec_energy_prefix(ss, k - 1), ss[k - 1])
    }
}

/// How many states step `i` of an `n_div`-step filling sweep occupies:
/// the nearest integer to `i * total / n_div`, capped at the total.
pub open spec fn spec_occupied(step: int, total_states: int, n_div: int) -> int {
    let rounded = tdiv(2 * step * total_states + n_div, 2 * n_div);
    if rounded > total_states {
        total_states
    } else {
        rounded
    }
}

/// The coarse energy-versus-filling curve of one configuration, from its
/// ascending-sorted eigenvalue gathering over a square mesh: for each of
/// `n_div + 1` filling steps, the summed energy of the occupied states over
/// the k-point count.
pub fn cal_e_vs_n_from_sorted(sorted: &Vec<Fix>, graph_mesh: usize, n_div: usize) -> (r: Vec<Fix>)
    requires
        fix_sorted(sorted@),
        1 <= graph_mesh <= 0x10000,
        1 <= n_div <= 0x10000,
        sorted.len() <= 0x100000000,
    ensures
        r.len() == n_div + 1,
        forall|step: int|
            0 <= step <= n_div ==> {
                let occ = spec_occupied(step, sorted@.len() as int, n_div as int);
                let mesh = Fix { raw: (graph_mesh * FIX_ONE) as i64 };
                #[trigger] r@[step] == (Fix {
                    raw: fix_div_spec(
                        fix_div_spec(spec_energy_prefix(sorted@, occ).raw as int, mesh.raw as int),
                        mesh.raw as int,
                    ) as i64,
                })
            },
{
    proof {
        assert((graph_mesh as int) * (FIX_ONE as int) <= 0x400000000000) by (nonlinear_arith)
            requires
                graph_mesh <= 0x10000,
                FIX_ONE == 1073741824,
        ;
    }
    let mesh = Fix { raw: (graph_mesh as i64) * FIX_ONE };
    let total = sorted.len();
    let mut r: Vec<Fix> = Vec::new();
    let mut step: usize = 0;
    while step <= n_div
        invariant
            fix_sorted(sorted@),
            1 <= graph_mesh <= 0x10000,
            1 <= n_div <= 0x10000,
            total == sorted.len(),
            total <= 0x100000000,
            mesh.raw == graph_mesh * FIX_ONE,
            step <= n_div + 1,
            r.len() == step,
            forall|q: int|
                0 <= q < step ==> {
                    let occ = spec_occupied(q, sorted@.len() as int, n_div as int);
                    #[trigger] r@[q] == (Fix {
                        raw: fix_div_spec(
                            fix_div_spec(
                                spec_energy_prefix(sorted@, occ).raw as int,
                                mesh.raw as int,
                            ),
                            mesh.raw as int,
                        ) as i64,
                    })
                },
        decreases n_div + 1 - step,
    {
        proof {
            assert(0 <= 2 * (step as int) * (total as int) + (n_div as int)
                <= 0x80000000000000000000) by (nonlinear_arith)
                requires
                    step <= 0x10001,
                    total <= 0x100000000,
                    n_div <= 0x10000,
            ;
            lemma_tdiv_bound(
                2 * (step as int) * (total as int) + (n_div as int),
                2 * (n_div as int),
            );
            // the rounded count never exceeds the total
            assert(tdiv(
                2 * (step as int) * (total as int) + (n_div as int),
                2 * (n_div as int),
            ) == (2 * (step as int) * (total as int) + (n_div as int)) / (2 * (n_div as int)));
            if step <= n_div {
                assert(2 * (step as int) * (total as int) + (n_div as int) <= 2 * (n_div as int)
                    * (total as int) + (n_div as int)) by (nonlinear_arith)
                    requires
                        step <= n_div,
                        total >= 0,
                ;
                vstd::arithmetic::div_mod::lemma_div_is_ordered(
                    2 * (step as int) * (total as int) + (n_div as int),
                    2 * (n_div as int) * (total as int) + (n_div as int),
                    2 * (n_div as int),
                );
                assert((2 * (n_div as int) * (total as int) + (n_div as int)) / (2 * (
                n_div as int)) == total as int) by {
                    vstd::arithmetic::div_mod::lemma_div_multiples_vanish_fancy(
                        total as int,
                        n_div as int,
                        2 * (n_div as int),
                    );
                    assert(2 * (n_div as int) * (total as int) == (2 * (n_div as int)) * (
                    total as int)) by (nonlinear_arith);
                }
            }
        }
        let num: u128 = 2 * (step as u128) * (total as u128) + (n_div as u128);
        let den: u128 = 2 * (n_div as u128);
        let occ128: u128 = num / den;
        let occ: usize = if occ128 > total as u128 {
            total
        } else {
            occ128 as usize
        };
        let mut sum = Fix::zero();
        let mut k: usize = 0;
        while k < occ
            invariant
                occ <= sorted.len(),
                k <= occ,
                sum == spec_energy_prefix(sorted@, k as int),
            decreases occ - k,
        {
            sum = sum.add(sorted[k]);
            k = k + 1;
        }
        r.push(sum.div(mesh).div(mesh));
        step = step + 1;
    }
    r
}

/// Gather, sort, and compute the coarse energy-versus-filling curve.
pub fn cal_e_vs_n(all_eigens: Vec<Fix>, graph_mesh: usize, n_div: usize) -> (r: Vec<Fix>)
    requires
        1 <= graph_mesh <= 0x10000,
        1 <= n_div <= 0x10000,
        all_eigens.len() <= 0x100000000,
    ensures
        r.len() == n_div + 1,
        exists|ss: Seq<Fix>|
            #[trigger] fix_sorted(ss) && ss.to_multiset() == all_eigens@.to_multiset() && ss.len()
                == all_eigens@.len() && forall|step: int|
                0 <= step <= n_div ==> {
                    let occ = spec_occupied(step, ss.len() as int, n_div as int);
                    let mesh = Fix { raw: (graph_mesh * FIX_ONE) as i64 };
                    #[trigger] r@[step] == (Fix {
                        raw: fix_div_spec(
                            fix_div_spec(spec_energy_prefix(ss, occ).raw as int, mesh.raw as int),
                            mesh.raw as int,
                        ) as i64,
                    })
                },
{
    let ghost orig = all_eigens@;
    let sorted = sort_fix_ascending(all_eigens);
    let r = cal_e_vs_n_from_sorted(&sorted, graph_mesh, n_div);
    proof {
        assert(fix_sorted(sorted@));
    }
    r
}

/// The configuration of lowest coarse energy at one filling step, taking
/// the earliest among ties, over the first `j` configurations.
pub open spec fn spec_best(evs: Seq<Vec<Fix>>, i: int, j: int) -> int
    decreases j,
{
    if j <= 1 {
        0
    } else {
        let p = spec_best(evs, i, j - 1);
        if evs[j - 1]@[i].raw < evs[p]@[i].raw {
            j - 1
        } else {
            p
        }
    }
}

/// The most-stable envelope: at every filling step, the sample of the
/// configuration whose coarse energy curve is lowest there.
pub fn select_most_stable(
    tanzakuss: &Vec<Tanzakus>,
    cal_e_vs_ns: &Vec<Vec<Fix>>,
    n_div: usize,
    setting: CalcSetting,
    param: Param,
) -> (r: Tanzakus)
    requires
        1 <= tanzakuss.len(),
        cal_e_vs_ns.len() == tanzakuss.len(),
        forall|j: int|
            0 <= j < tanzakuss.len() ==> (#[trigger] tanzakuss@[j]).data.len() >= n_div,
        forall|j: int| 0 <= j < cal_e_vs_ns.len() ==> (#[trigger] cal_e_vs_ns@[j]).len() >= n_div,
    ensures
        r.setting == setting,
        r.system == System::Stable(param),
        r.data.len() == n_div,
        forall|i: int|
            0 <= i < n_div ==> #[trigger] r.data@[i] == tanzakuss@[spec_best(
                cal_e_vs_ns@,
                i,
                cal_e_vs_ns@.len() as int,
            )].data@[i],
{
    let count = tanzakuss.len();
    let mut data: Vec<crate::tanzaku::Tanzaku> = Vec::new();
    let mut i: usize = 0;
    while i < n_div
        invariant
            1 <= count == tanzakuss.len(),
            cal_e_vs_ns.len() == count,
            forall|j: int|
                0 <= j < tanzakuss.len() ==> (#[trigger] tanzakuss@[j]).data.len() >= n_div,
            forall|j: int|
                0 <= j < cal_e_vs_ns.len() ==> (#[trigger] cal_e_vs_ns@[j]).len() >= n_div,
            i <= n_div,
            data.len() == i,
            forall|q: int|
                0 <= q < i ==> #[trigger] data@[q] == tanzakuss@[spec_best(
                    cal_e_vs_ns@,
                    q,
                    count as int,
                )].data@[q],
        decreases n_div - i,
    {
        let mut best: usize = 0;
        let mut j: usize = 1;
        while j < count
            invariant
                1 <= count == tanzakuss.len(),
                cal_e_vs_ns.len() == count,
                forall|q: int|
                    0 <= q < cal_e_vs_ns.len() ==> (#[trigger] cal_e_vs_ns@[q]).len() >= n_div,
                i < n_div,
                best < j <= count,
                best as int == spec_best(cal_e_vs_ns@, i as int, j as int),
            decreases count - j,
        {
            if cal_e_vs_ns[j][i].raw < cal_e_vs_ns[best][i].raw {
                best = j;
            }
            j = j + 1;
        }
        data.push(tanzakuss[best].data[i]);
        i = i + 1;
    }
    Tanzakus { data, setting, system: System::Stable(param) }
}

} // verus!
