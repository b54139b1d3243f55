//! Filling-resolved aggregation: one "Tanzaku" strip per discretized energy
//! level, carrying the filling fraction, the summed Berry curvature of the
//! occupied states, and the contour-weighted dipole moments.

use vstd::prelude::*;
use crate::fix::{
    Fix, sat64, tdiv, tdiv_i128, fix_mul_spec, fix_div_spec, lemma_tdiv_bound, FIX_ONE,
    FIX_MAX_RAW,
};
use crate::cpx::{spec_fadd, spec_fsub, spec_fmul};
use crate::vec2::{Vec2F, spec_vadd, spec_dist};
use crate::setting::CalcSetting;
use crate::model::System;
use crate::honeycomb_grids::Grids;
use crate::height_map::{
    AllHeightMaps, HeightMaps, Line, line_evaluated, spec_index_2_energy, index_to_energy,
};

verus! {

broadcast use vstd::seq_lib::group_to_multiset_ensures;

/// One discretized-filling sample.
#[derive(Clone, Copy, PartialEq, Eq, Structural, Debug)]
pub struct Tanzaku {
    pub n: Fix,
    pub energy: Fix,
    pub berry: Fix,
    pub bcd: Vec2F,
    pub qmd: Vec2F,
}

impl Tanzaku {
    pub fn new(n: Fix, energy: Fix, berry: Fix, bcd: Vec2F, qmd: Vec2F) -> (r: Tanzaku)
        ensures
            r == (Tanzaku { n, energy, berry, bcd, qmd }),
    {
        Tanzaku { n, energy, berry, bcd, qmd }
    }

    /// The additive identity sample.
    pub fn zero() -> (r: Tanzaku)
        ensures
            r == spec_zero_tanzaku(),
    {
        Tanzaku {
            n: Fix { raw: 0 },
            energy: Fix { raw: 0 },
            berry: Fix { raw: 0 },
            bcd: Vec2F { x: Fix { raw: 0 }, y: Fix { raw: 0 } },
            qmd: Vec2F { x: Fix { raw: 0 }, y: Fix { raw: 0 } },
        }
    }
}

pub open spec fn spec_zero_tanzaku() -> Tanzaku {
    Tanzaku {
        n: Fix { raw: 0 },
        energy: Fix { raw: 0 },
        berry: Fix { raw: 0 },
        bcd: Vec2F { x: Fix { raw: 0 }, y: Fix { raw: 0 } },
        qmd: Vec2F { x: Fix { raw: 0 }, y: Fix { raw: 0 } },
    }
}

/// Pointwise sum of two samples.
pub open spec fn spec_tanzaku_add(a: Tanzaku, b: Tanzaku) -> Tanzaku {
    Tanzaku {
        n: spec_fadd(a.n, b.n),
        energy: spec_fadd(a.energy, b.energy),
        berry: spec_fadd(a.berry, b.berry),
        bcd: spec_vadd(a.bcd, b.bcd),
        qmd: spec_vadd(a.qmd, b.qmd),
    }
}

/// The error a merge of mismatched series reports.
#[derive(Clone, Copy, PartialEq, Eq, Structural, Debug)]
pub enum TanzakuError {
    LengthMismatch,
}

/// The full series over all discretized levels, with the configuration it
/// came from.
#[derive(Debug)]
pub struct Tanzakus {
    pub data: Vec<Tanzaku>,
    pub setting: CalcSetting,
    pub system: System,
}

impl Tanzakus {
    /// The all-zero series: the additive identity of `merge`.
    pub fn new(setting: CalcSetting, system: System) -> (r: Tanzakus)
        ensures
            r.setting == setting,
            r.system == system,
            r.data.len() == setting.height_map_div,
            forall|i: int| 0 <= i < r.data.len() ==> #[trigger] r.data@[i] == spec_zero_tanzaku(),
    {
        let div = setting.height_map_div;
        let mut data: Vec<Tanzaku> = Vec::new();
        while data.len() < div
            invariant
                data.len() <= div,
                forall|i: int| 0 <= i < data.len() ==> #[trigger] data@[i] == spec_zero_tanzaku(),
            decreases div - data.len(),
        {
            data.push(Tanzaku::zero());
        }
        Tanzakus { data, setting, system }
    }

    /// Pointwise addition of another series of the same length; a length
    /// mismatch changes nothing and reports the error.
    pub fn merge(&mut self, other: &Tanzakus) -> (r: Result<(), TanzakuError>)
        ensures
            final(self).setting == old(self).setting,
            final(self).system == old(self).system,
            old(self).data.len() == other.data.len() ==> r is Ok && final(self).data.len() == old(
                self,
            ).data.len() && forall|i: int|
                0 <= i < old(self).data.len() ==> #[trigger] final(self).data@[i]
                    == spec_tanzaku_add(old(self).data@[i], other.data@[i]),
            old(self).data.len() != other.data.len() ==> r is Err && final(self).data == old(
                self,
            ).data,
    {
        if self.data.len() != other.data.len() {
            return Err(TanzakuError::LengthMismatch);
        }
        let len = self.data.len();
        let mut i: usize = 0;
        while i < len
            invariant
                len == self.data.len(),
                other.data.len() == len,
                i <= len,
                forall|k: int|
                    0 <= k < i ==> #[trigger] self.data@[k] == spec_tanzaku_add(
                        old(self).data@[k],
                        other.data@[k],
                    ),
                forall|k: int| i <= k < len ==> #[trigger] self.data@[k] == old(self).data@[k],
                self.setting == old(self).setting,
                self.system == old(self).system,
            decreases len - i,
        {
            let a = self.data[i];
            let b = other.data[i];
            let merged = Tanzaku {
                n: a.n.add(b.n),
                energy: a.energy.add(b.energy),
                berry: a.berry.add(b.berry),
                bcd: a.bcd.add(b.bcd),
                qmd: a.qmd.add(b.qmd),
            };
            self.data.set(i, merged);
            i = i + 1;
        }
        Ok(())
    }
}

/// Merging a sample with itself doubles every component, as long as no
/// component saturates; the raw bound of half the range leaves doubling
/// exact.
pub proof fn lemma_merge_self_doubles(a: Tanzaku)
    requires
        -(FIX_MAX_RAW / 2) <= a.n.raw <= FIX_MAX_RAW / 2,
        -(FIX_MAX_RAW / 2) <= a.energy.raw <= FIX_MAX_RAW / 2,
        -(FIX_MAX_RAW / 2) <= a.berry.raw <= FIX_MAX_RAW / 2,
        -(FIX_MAX_RAW / 2) <= a.bcd.x.raw <= FIX_MAX_RAW / 2,
        -(FIX_MAX_RAW / 2) <= a.bcd.y.raw <= FIX_MAX_RAW / 2,
        -(FIX_MAX_RAW / 2) <= a.qmd.x.raw <= FIX_MAX_RAW / 2,
        -(FIX_MAX_RAW / 2) <= a.qmd.y.raw <= FIX_MAX_RAW / 2,
    ensures
        spec_tanzaku_add(a, a).n.raw == 2 * a.n.raw,
        spec_tanzaku_add(a, a).energy.raw == 2 * a.energy.raw,
        spec_tanzaku_add(a, a).berry.raw == 2 * a.berry.raw,
        spec_tanzaku_add(a, a).bcd.x.raw == 2 * a.bcd.x.raw,
        spec_tanzaku_add(a, a).bcd.y.raw == 2 * a.bcd.y.raw,
        spec_tanzaku_add(a, a).qmd.x.raw == 2 * a.qmd.x.raw,
        spec_tanzaku_add(a, a).qmd.y.raw == 2 * a.qmd.y.raw,
{
}

/// The zero sample is the identity of the pointwise sum, for samples in
/// the symmetric raw range.
pub proof fn lemma_merge_zero_identity(a: Tanzaku)
    requires
        a.n.raw > i64::MIN,
        a.energy.raw > i64::MIN,
        a.berry.raw > i64::MIN,
        a.bcd.x.raw > i64::MIN,
        a.bcd.y.raw > i64::MIN,
        a.qmd.x.raw > i64::MIN,
        a.qmd.y.raw > i64::MIN,
    ensures
        spec_tanzaku_add(a, spec_zero_tanzaku()) == a,
{
}

/// One (eigenvalue, Berry curvature) pair gathered from the landscape.
#[derive(Clone, Copy, PartialEq, Eq, Structural, Debug)]
pub struct StateSample {
    pub eigen: Fix,
    pub berry: Fix,
}

/// The state gathered at flat position `t` of the `(i, j, spin, band)`
/// row-major enumeration.
pub open spec fn spec_state_at(g: Grids, t: int) -> StateSample {
    let size = g.u.len() as int;
    let band = t % size;
    let t1 = t / size;
    let spin = t1 % 2;
    let t2 = t1 / 2;
    let j = t2 % (g.calc_setting.mesh_ky as int);
    let i = t2 / (g.calc_setting.mesh_ky as int);
    let cell = g.spec_channel(spin)@[band].0@[i]@[j];
    StateSample { eigen: cell.eigen, berry: cell.berry->0 }
}

/// Ascending by eigenvalue.
pub open spec fn states_sorted(s: Seq<StateSample>) -> bool {
    forall|i: int, j: int| 0 <= i <= j < s.len() ==> s[i].eigen.raw <= s[j].eigen.raw
}

/// Gather every (eigenvalue, Berry curvature) pair of the landscape, in
/// `(i, j, spin, band)` row-major order.  The landscape must carry a Berry
/// value at every cell, as the grid builder guarantees.
pub fn collect_states(grids: &Grids) -> (r: Vec<StateSample>)
    requires
        grids.calc_setting.wf(),
        1 <= grids.u.len() <= 6,
        grids.dims_ok(),
        forall|s: int, b: int, i: int, j: int|
            0 <= s < 2 && 0 <= b < grids.u.len() && 0 <= i < grids.calc_setting.mesh_kx && 0 <= j
                < grids.calc_setting.mesh_ky ==> (#[trigger] grids.spec_channel(
                s,
            )@[b].0@[i]@[j]).berry is Some,
    ensures
        r.len() == grids.calc_setting.mesh_kx * grids.calc_setting.mesh_ky * 2 * grids.u.len(),
        forall|t: int| 0 <= t < r.len() ==> #[trigger] r@[t] == spec_state_at(*grids, t),
{
    let size = grids.u.len();
    let mesh_kx = grids.calc_setting.mesh_kx;
    let mesh_ky = grids.calc_setting.mesh_ky;
    let mut r: Vec<StateSample> = Vec::new();
    let mut i: usize = 0;
    while i < mesh_kx
        invariant
            grids.calc_setting.wf(),
            1 <= size <= 6,
            size == grids.u.len(),
            grids.dims_ok(),
            mesh_kx == grids.calc_setting.mesh_kx,
            mesh_ky == grids.calc_setting.mesh_ky,
            forall|s: int, b: int, ii: int, jj: int|
                0 <= s < 2 && 0 <= b < size && 0 <= ii < mesh_kx && 0 <= jj < mesh_ky ==> (
                #[trigger] grids.spec_channel(s)@[b].0@[ii]@[jj]).berry is Some,
            i <= mesh_kx,
            r.len() == i * (mesh_ky * 2 * size),
            forall|t: int| 0 <= t < r.len() ==> #[trigger] r@[t] == spec_state_at(*grids, t),
        decreases mesh_kx - i,
    {
        let mut j: usize = 0;
        while j < mesh_ky
            invariant
                grids.calc_setting.wf(),
                1 <= size <= 6,
                size == grids.u.len(),
                grids.dims_ok(),
                mesh_kx == grids.calc_setting.mesh_kx,
                mesh_ky == grids.calc_setting.mesh_ky,
                forall|s: int, b: int, ii: int, jj: int|
                    0 <= s < 2 && 0 <= b < size && 0 <= ii < mesh_kx && 0 <= jj < mesh_ky ==> (
                    #[trigger] grids.spec_channel(s)@[b].0@[ii]@[jj]).berry is Some,
                i < mesh_kx,
                j <= mesh_ky,
                r.len() == i * (mesh_ky * 2 * size) + j * (2 * size),
                forall|t: int| 0 <= t < r.len() ==> #[trigger] r@[t] == spec_state_at(*grids, t),
            decreases mesh_ky - j,
        {
            let mut spin: usize = 0;
            while spin < 2
                invariant
                    grids.calc_setting.wf(),
                    1 <= size <= 6,
                    size == grids.u.len(),
                    grids.dims_ok(),
                    mesh_kx == grids.calc_setting.mesh_kx,
                    mesh_ky == grids.calc_setting.mesh_ky,
                    forall|s: int, b: int, ii: int, jj: int|
                        0 <= s < 2 && 0 <= b < size && 0 <= ii < mesh_kx && 0 <= jj < mesh_ky ==> (
                        #[trigger] grids.spec_channel(s)@[b].0@[ii]@[jj]).berry is Some,
                    i < mesh_kx,
                    j < mesh_ky,
                    spin <= 2,
                    r.len() == i * (mesh_ky * 2 * size) + j * (2 * size) + spin * size,
                    forall|t: int|
                        0 <= t < r.len() ==> #[trigger] r@[t] == spec_state_at(*grids, t),
                decreases 2 - spin,
            {
                let channel = grids.index(spin);
                let mut band: usize = 0;
                while band < size
                    invariant
                        grids.calc_setting.wf(),
                        1 <= size <= 6,
                        size == grids.u.len(),
                        grids.dims_ok(),
                        mesh_kx == grids.calc_setting.mesh_kx,
                        mesh_ky == grids.calc_setting.mesh_ky,
                        forall|s: int, b: int, ii: int, jj: int|
                            0 <= s < 2 && 0 <= b < size && 0 <= ii < mesh_kx && 0 <= jj < mesh_ky
                                ==> (#[trigger] grids.spec_channel(s)@[b].0@[ii]@[jj]).berry
                                is Some,
                        i < mesh_kx,
                        j < mesh_ky,
                        spin < 2,
                        channel == &grids.spec_channel(spin as int),
                        band <= size,
                        r.len() == i * (mesh_ky * 2 * size) + j * (2 * size) + spin * size + band,
                        forall|t: int|
                            0 <= t < r.len() ==> #[trigger] r@[t] == spec_state_at(*grids, t),
                    decreases size - band,
                {
                    let cell = &channel[band].0[i][j];
                    let berry = match cell.berry {
                        Some(b) => b,
                        None => Fix::zero(),
                    };
                    let ghost t = r.len() as int;
                    r.push(StateSample { eigen: cell.eigen, berry });
                    proof {
                        let size_i = size as int;
                        let t1 = ((i * (mesh_ky as int) + j) * 2 + spin) as int;
                        assert(t == t1 * size_i + band) by (nonlinear_arith)
                            requires
                                t == i * ((mesh_ky as int) * 2 * size_i) + j * (2 * size_i) + spin
                                    * size_i + band,
                                t1 == (i * (mesh_ky as int) + j) * 2 + spin,
                        ;
                        vstd::arithmetic::div_mod::lemma_fundamental_div_mod_converse(
                            t,
                            size_i,
                            t1,
                            band as int,
                        );
                        vstd::arithmetic::div_mod::lemma_fundamental_div_mod_converse(
                            t1,
                            2,
                            i * (mesh_ky as int) + j,
                            spin as int,
                        );
                        vstd::arithmetic::div_mod::lemma_fundamental_div_mod_converse(
                            i * (mesh_ky as int) + j,
                            mesh_ky as int,
                            i as int,
                            j as int,
                        );
                        assert(r@[t] == spec_state_at(*grids, t));
                    }
                    band = band + 1;
                }
                proof {
                    assert((spin + 1) * size == spin * size + size) by (nonlinear_arith);
                }
                spin = spin + 1;
            }
            proof {
                assert((j + 1) * (2 * size) == j * (2 * size) + 2 * size) by (nonlinear_arith);
            }
            j = j + 1;
        }
        proof {
            assert((i + 1) * ((mesh_ky as int) * 2 * (size as int)) == i * ((mesh_ky as int) * 2 * (
            size as int)) + (mesh_ky as int) * 2 * (size as int)) by (nonlinear_arith);
            assert((mesh_ky as int) * (2 * (size as int)) == (mesh_ky as int) * 2 * (size as int))
                by (nonlinear_arith);
        }
        i = i + 1;
    }
    proof {
        assert((mesh_kx as int) * ((mesh_ky as int) * 2 * (size as int)) == (mesh_kx as int) * (
        mesh_ky as int) * 2 * (size as int)) by (nonlinear_arith);
    }
    r
}

/// Index of a sample with minimal eigenvalue.
fn min_state_index(v: &Vec<StateSample>, from: usize) -> (k: usize)
    requires
        from < v.len(),
    ensures
        from <= k < v.len(),
        forall|i: int|
            from <= i < v.len() ==> v@[k as int].eigen.raw <= (#[trigger] v@[i]).eigen.raw,
{
    let mut k = from;
    let mut i = from + 1;
    while i < v.len()
        invariant
            from <= k < i <= v.len(),
            forall|q: int| from <= q < i ==> v@[k as int].eigen.raw <= (#[trigger] v@[q]).eigen.raw,
        decreases v.len() - i,
    {
        if v[i].eigen.raw < v[k].eigen.raw {
            k = i;
        }
        i = i + 1;
    }
    k
}

/// Sort state samples ascending by eigenvalue, keeping exactly the samples.
pub fn sort_states_ascending(v: Vec<StateSample>) -> (r: Vec<StateSample>)
    ensures
        r.len() == v.len(),
        states_sorted(r@),
        r@.to_multiset() == v@.to_multiset(),
{
    let ghost total = v@.to_multiset();
    let mut rest = v;
    let mut out: Vec<StateSample> = Vec::new();
    while rest.len() > 0
        invariant
            states_sorted(out@),
            out@.to_multiset().add(rest@.to_multiset()) =~= total,
            out.len() + rest.len() == total.len(),
            forall|i: int, j: int|
                0 <= i < out.len() && 0 <= j < rest.len() ==> (#[trigger] out@[i]).eigen.raw <= (
                #[trigger] rest@[j]).eigen.raw,
        decreases rest.len(),
    {
        let k = min_state_index(&rest, 0);
        let ghost rest0 = rest@;
        let e = rest.remove(k);
        out.push(e);
        proof {
            assert(rest@ == rest0.remove(k as int));
            assert(forall|q: int|
                0 <= q < rest@.len() ==> (#[trigger] rest@[q]) == if q < k {
                    rest0[q]
                } else {
                    rest0[q + 1]
                });
            assert(out@.to_multiset().add(rest@.to_multiset()) =~= total);
        }
    }
    out
}

/// How many leading samples of a sorted gathering lie at or below an
/// energy: the scan position where the first sample above it stands.
pub open spec fn spec_cut(ss: Seq<StateSample>, e: Fix, k: int) -> int
    decreases ss.len() - k,
{
    if k < 0 || k >= ss.len() {
        k
    } else if ss[k].eigen.raw > e.raw {
        k
    } else {
        spec_cut(ss, e, k + 1)
    }
}

/// Saturating sum of the Berry curvatures of the first `k` samples.
pub open spec fn spec_berry_prefix(ss: Seq<StateSample>, k: int) -> Fix
    decreases k,
{
    if k <= 0 {
        Fix { raw: 0 }
    } else {
        spec_fadd(spec_berry_prefix(ss, k - 1), ss[k - 1].berry)
    }
}

/// The filling fraction of `count` occupied states: the count over the
/// k-point total and the orbital count, scaled by the tile weight.
pub open spec fn spec_filling(count: int, total_k: int, size: int, weight: Fix) -> Fix {
    let per_k = sat64(tdiv(tdiv(count * FIX_ONE, total_k), size));
    Fix { raw: fix_mul_spec(per_k, weight.raw as int) as i64 }
}

/// The tile weight: one over the squared tiles-per-axis count.
pub open spec fn spec_tile_weight(main_mesh: int) -> Fix {
    Fix { raw: fix_div_spec(FIX_ONE as int, main_mesh * main_mesh * FIX_ONE) as i64 }
}

impl Tanzakus {
    /// Write the per-level filling and occupied-state Berry sum from a
    /// sorted gathering of the landscape's states.
    pub fn write_levels_from_sorted(
        &mut self,
        sorted: &Vec<StateSample>,
        ground: Fix,
        highest: Fix,
    )
        requires
            old(self).setting.wf(),
            old(self).data.len() == old(self).setting.height_map_div,
            states_sorted(sorted@),
            ground.raw <= highest.raw,
        ensures
            final(self).setting == old(self).setting,
            final(self).system == old(self).system,
            final(self).data.len() == old(self).data.len(),
            ({
                let div = old(self).setting.height_map_div as int;
                let total_k = old(self).setting.mesh_kx as int * old(self).setting.mesh_ky as int;
                let weight = spec_tile_weight(old(self).setting.main_mesh as int);
                forall|lv: int|
                    0 <= lv < div ==> {
                        let energy = spec_index_2_energy(ground, highest, div, lv);
                        let count = spec_cut(sorted@, energy, 0);
                        #[trigger] final(self).data@[lv] == (Tanzaku {
                            n: spec_filling(
                                count,
                                total_k,
                                old(self).orbital_count_spec(),
                                weight,
                            ),
                            energy,
                            berry: Fix {
                                raw: fix_mul_spec(
                                    spec_berry_prefix(sorted@, count).raw as int,
                                    weight.raw as int,
                                ) as i64,
                            },
                            bcd: old(self).data@[lv].bcd,
                            qmd: old(self).data@[lv].qmd,
                        })
                    }
            }),
    {
        let div = self.setting.height_map_div;
        let mesh_kx = self.setting.mesh_kx;
        let mesh_ky = self.setting.mesh_ky;
        let size = self.orbital_count();
        let mm = self.setting.main_mesh;
        proof {
            assert(1 <= (mm as int) * (mm as int) <= 0x100000000) by (nonlinear_arith)
                requires
                    1 <= mm <= 0x10000,
            ;
        }
        let mm2: i64 = (mm as i64) * (mm as i64);
        let weight = Fix { raw: FIX_ONE }.div(Fix { raw: mm2 * FIX_ONE });
        proof {
            assert(weight == spec_tile_weight(mm as int));
        }
        proof {
            assert(1 <= (mesh_kx as int) * (mesh_ky as int) <= 0x100000000) by (nonlinear_arith)
                requires
                    1 <= mesh_kx <= 0x10000,
                    1 <= mesh_ky <= 0x10000,
            ;
        }
        let total_k: i128 = (mesh_kx as i128) * (mesh_ky as i128);
        let mut lv: usize = 0;
        while lv < div
            invariant
                div == self.setting.height_map_div,
                self.setting == old(self).setting,
                self.system == old(self).system,
                self.setting.wf(),
                self.data.len() == div,
                states_sorted(sorted@),
                size == old(self).orbital_count_spec(),
                1 <= size,
                weight == spec_tile_weight(self.setting.main_mesh as int),
                total_k == (mesh_kx as int) * (mesh_ky as int),
                1 <= total_k <= 0x100000000,
                mesh_kx == self.setting.mesh_kx,
                mesh_ky == self.setting.mesh_ky,
                lv <= div,
                forall|k: int|
                    0 <= k < lv ==> {
                        let energy = spec_index_2_energy(ground, highest, div as int, k);
                        let count = spec_cut(sorted@, energy, 0);
                        #[trigger] self.data@[k] == (Tanzaku {
                            n: spec_filling(
                                count,
                                (mesh_kx as int) * (mesh_ky as int),
                                old(self).orbital_count_spec(),
                                weight,
                            ),
                            energy,
                            berry: Fix {
                                raw: fix_mul_spec(
                                    spec_berry_prefix(sorted@, count).raw as int,
                                    weight.raw as int,
                                ) as i64,
                            },
                            bcd: old(self).data@[k].bcd,
                            qmd: old(self).data@[k].qmd,
                        })
                    },
                forall|k: int| lv <= k < div ==> #[trigger] self.data@[k] == old(self).data@[k],
            decreases div - lv,
        {
            let energy = index_to_energy(ground, highest, div, lv);
            let mut count: usize = 0;
            let mut berry_sum = Fix::zero();
            while count < sorted.len() && sorted[count].eigen.raw <= energy.raw
                invariant
                    states_sorted(sorted@),
                    count <= sorted.len(),
                    forall|q: int| 0 <= q < count ==> (#[trigger] sorted@[q]).eigen.raw <= energy.raw,
                    spec_cut(sorted@, energy, 0) == spec_cut(sorted@, energy, count as int),
                    berry_sum == spec_berry_prefix(sorted@, count as int),
                decreases sorted.len() - count,
            {
                berry_sum = berry_sum.add(sorted[count].berry);
                count = count + 1;
            }
            proof {
                assert(spec_cut(sorted@, energy, count as int) == count);
            }
            let c1: i128 = (count as i128) * (FIX_ONE as i128);
            proof {
                assert(0 <= (count as int) * (FIX_ONE as int)
                    < 0x40000000000000000000000000000000) by (nonlinear_arith)
                    requires
                        0 <= count <= 0xffffffffffffffff,
                        FIX_ONE == 1073741824,
                ;
                lemma_tdiv_bound((count as int) * (FIX_ONE as int), total_k as int);
            }
            let c2 = tdiv_i128(c1, total_k);
            proof {
                lemma_tdiv_bound(c2 as int, size as int);
            }
            let c3 = tdiv_i128(c2, size as i128);
            let per_k = Fix { raw: sat_i128_raw(c3) };
            let n = per_k.mul(weight);
            let berry = berry_sum.mul(weight);
            let prev = self.data[lv];
            self.data.set(
                lv,
                Tanzaku { n, energy, berry, bcd: prev.bcd, qmd: prev.qmd },
            );
            lv = lv + 1;
        }
    }

    /// The orbital count of the configuration, or 1 for the envelope tag,
    /// which owns no Hamiltonian.
    pub fn orbital_count(&self) -> (r: usize)
        ensures
            r == self.orbital_count_spec(),
            1 <= r <= 6,
    {
        if self.system.has_size_exec() {
            self.system.size()
        } else {
            1
        }
    }

    pub open spec fn orbital_count_spec(&self) -> int {
        if self.system.has_size() {
            self.system.spec_size()
        } else {
            1
        }
    }
}

/// Saturate a 128-bit value into the raw range.
fn sat_i128_raw(x: i128) -> (r: i64)
    ensures
        r as int == sat64(x as int),
{
    if x > FIX_MAX_RAW as i128 {
        FIX_MAX_RAW
    } else if x < -(FIX_MAX_RAW as i128) {
        -FIX_MAX_RAW
    } else {
        x as i64
    }
}

/// Gather, sort, and write the per-level filling and Berry sums of a
/// landscape whose every cell carries a Berry value.
impl Tanzakus {
    pub fn write_energy_n_bc_sum_to_tanzaku(&mut self, grids: &Grids)
        requires
            old(self).setting.wf(),
            old(self).data.len() == old(self).setting.height_map_div,
            old(self).setting == grids.calc_setting,
            old(self).system == grids.system,
            grids.spec_energy_range().0.raw <= grids.spec_energy_range().1.raw,
            1 <= grids.u.len() <= 6,
            grids.d.len() == grids.u.len(),
            grids.dims_ok(),
            forall|s: int, b: int, i: int, j: int|
                0 <= s < 2 && 0 <= b < grids.u.len() && 0 <= i < grids.calc_setting.mesh_kx && 0
                    <= j < grids.calc_setting.mesh_ky ==> (#[trigger] grids.spec_channel(
                    s,
                )@[b].0@[i]@[j]).berry is Some,
        ensures
            final(self).setting == old(self).setting,
            final(self).system == old(self).system,
            final(self).data.len() == old(self).data.len(),
            exists|ss: Seq<StateSample>|
                {
                    let er = grids.spec_energy_range();
                    let div = old(self).setting.height_map_div as int;
                    let total = grids.calc_setting.mesh_kx * grids.calc_setting.mesh_ky * 2
                        * grids.u.len();
                    &&& #[trigger] states_sorted(ss)
                    &&& ss.to_multiset() == Seq::new(
                        total as nat,
                        |t: int| spec_state_at(*grids, t),
                    ).to_multiset()
                    &&& forall|lv: int|
                        0 <= lv < div ==> {
                            let energy = spec_index_2_energy(er.0, er.1, div, lv);
                            let count = spec_cut(ss, energy, 0);
                            let weight = spec_tile_weight(old(self).setting.main_mesh as int);
                            #[trigger] final(self).data@[lv] == (Tanzaku {
                                n: spec_filling(
                                    count,
                                    old(self).setting.mesh_kx as int * old(
                                        self,
                                    ).setting.mesh_ky as int,
                                    old(self).orbital_count_spec(),
                                    weight,
                                ),
                                energy,
                                berry: Fix {
                                    raw: fix_mul_spec(
                                        spec_berry_prefix(ss, count).raw as int,
                                        weight.raw as int,
                                    ) as i64,
                                },
                                bcd: old(self).data@[lv].bcd,
                                qmd: old(self).data@[lv].qmd,
                            })
                        }
                },
    {
        let states = collect_states(grids);
        let ghost collected = states@;
        let sorted = sort_states_ascending(states);
        let er = grids.energy_range();
        self.write_levels_from_sorted(&sorted, er.0, er.1);
        proof {
            let total = grids.calc_setting.mesh_kx * grids.calc_setting.mesh_ky * 2
                * grids.u.len();
            assert(collected =~= Seq::new(total as nat, |t: int| spec_state_at(*grids, t)));
            assert(states_sorted(sorted@));
        }
    }
}

/// The four dipole contributions of one evaluated segment, each already
/// weighted by the segment length.
pub open spec fn spec_line_contrib(l: Line) -> (Fix, Fix, Fix, Fix) {
    let len = Fix { raw: sat64(spec_dist(l.ini, l.end)) as i64 };
    let av = l.anomaly_velocity->0;
    let berry = l.berry->0;
    let gxx = l.gm_xx->0;
    let gxy = l.gm_xy->0;
    let gyy = l.gm_yy->0;
    (
        spec_fmul(spec_fmul(av.x, berry), len),
        spec_fmul(spec_fmul(av.y, berry), len),
        spec_fmul(spec_fsub(spec_fmul(av.y, gxx), spec_fmul(av.x, gxy)), len),
        spec_fmul(spec_fsub(spec_fmul(av.x, gyy), spec_fmul(av.y, gxy)), len),
    )
}

pub open spec fn spec_acc4_add(a: (Fix, Fix, Fix, Fix), b: (Fix, Fix, Fix, Fix)) -> (
    Fix,
    Fix,
    Fix,
    Fix,
) {
    (spec_fadd(a.0, b.0), spec_fadd(a.1, b.1), spec_fadd(a.2, b.2), spec_fadd(a.3, b.3))
}

/// Fold the contributions of the first `k` segments of one bucket,
/// skipping any segment that is not fully evaluated.
pub open spec fn spec_fold_lines(ls: Seq<Line>, k: int, acc: (Fix, Fix, Fix, Fix)) -> (
    Fix,
    Fix,
    Fix,
    Fix,
)
    decreases k,
{
    if k <= 0 {
        acc
    } else {
        let a = spec_fold_lines(ls, k - 1, acc);
        if line_evaluated(ls[k - 1]) {
            spec_acc4_add(a, spec_line_contrib(ls[k - 1]))
        } else {
            a
        }
    }
}

/// Fold one level's bucket of the first `b` bands of one spin channel.
pub open spec fn spec_fold_bands(
    hms: Seq<HeightMaps>,
    lv: int,
    b: int,
    acc: (Fix, Fix, Fix, Fix),
) -> (Fix, Fix, Fix, Fix)
    decreases b,
{
    if b <= 0 {
        acc
    } else {
        let a = spec_fold_bands(hms, lv, b - 1, acc);
        if lv < hms[b - 1].contents.len() {
            spec_fold_lines(hms[b - 1].contents@[lv].0@, hms[b - 1].contents@[lv].0.len() as int, a)
        } else {
            a
        }
    }
}

/// The summed dipole contributions of one level over both spin channels.
pub open spec fn spec_level_totals(u: Seq<HeightMaps>, d: Seq<HeightMaps>, lv: int) -> (
    Fix,
    Fix,
    Fix,
    Fix,
) {
    spec_fold_bands(
        d,
        lv,
        d.len() as int,
        spec_fold_bands(u, lv, u.len() as int, (Fix { raw: 0 }, Fix { raw: 0 }, Fix { raw: 0 }, Fix { raw: 0 })),
    )
}

/// Fold one spin channel's contribution to one level.
fn fold_channel_level(
    hms: &Vec<HeightMaps>,
    lv: usize,
    acc0: (Fix, Fix, Fix, Fix),
) -> (r: (Fix, Fix, Fix, Fix))
    ensures
        r == spec_fold_bands(hms@, lv as int, hms@.len() as int, acc0),
{
    let mut acc = acc0;
    let mut b: usize = 0;
    while b < hms.len()
        invariant
            b <= hms.len(),
            acc == spec_fold_bands(hms@, lv as int, b as int, acc0),
        decreases hms.len() - b,
    {
        let hm = &hms[b];
        if lv < hm.contents.len() {
            let ls = &hm.contents[lv].0;
            let mut k: usize = 0;
            let ghost acc_in = acc;
            while k < ls.len()
                invariant
                    k <= ls.len(),
                    ls == &hms@[b as int].contents@[lv as int].0,
                    b < hms.len(),
                    lv < hms@[b as int].contents.len(),
                    acc == spec_fold_lines(ls@, k as int, acc_in),
                decreases ls.len() - k,
            {
                let l = &ls[k];
                match (l.berry, l.anomaly_velocity, l.gm_xx, l.gm_xy, l.gm_yy) {
                    (Some(berry), Some(av), Some(gxx), Some(gxy), Some(gyy)) => {
                        let len = l.length();
                        let c0 = av.x.mul(berry).mul(len);
                        let c1 = av.y.mul(berry).mul(len);
                        let c2 = av.y.mul(gxx).sub(av.x.mul(gxy)).mul(len);
                        let c3 = av.x.mul(gyy).sub(av.y.mul(gxy)).mul(len);
                        acc = (acc.0.add(c0), acc.1.add(c1), acc.2.add(c2), acc.3.add(c3));
                    },
                    _ => {},
                }
                k = k + 1;
            }
        }
        b = b + 1;
    }
    acc
}

impl Tanzakus {
    /// Write the per-level Berry-curvature-dipole and quantum-metric-dipole
    /// totals from the extracted contours, summing every evaluated segment
    /// of every (spin, band) at that level.
    pub fn write_bcd_sum_to_tanzakus(&mut self, all_heights_maps: &AllHeightMaps)
        requires
            old(self).data.len() == all_heights_maps.calc_setting.height_map_div,
            all_heights_maps.calc_setting.wf(),
        ensures
            final(self).setting == old(self).setting,
            final(self).system == old(self).system,
            final(self).data.len() == old(self).data.len(),
            forall|lv: int|
                0 <= lv < old(self).data.len() ==> {
                    let totals = spec_level_totals(
                        all_heights_maps.u@,
                        all_heights_maps.d@,
                        lv,
                    );
                    #[trigger] final(self).data@[lv] == (Tanzaku {
                        n: old(self).data@[lv].n,
                        energy: old(self).data@[lv].energy,
                        berry: old(self).data@[lv].berry,
                        bcd: Vec2F { x: totals.0, y: totals.1 },
                        qmd: Vec2F { x: totals.2, y: totals.3 },
                    })
                },
    {
        let div = all_heights_maps.calc_setting.height_map_div;
        let mut lv: usize = 0;
        while lv < div
            invariant
                div == all_heights_maps.calc_setting.height_map_div,
                self.data.len() == div,
                self.setting == old(self).setting,
                self.system == old(self).system,
                lv <= div,
                forall|k: int|
                    0 <= k < lv ==> {
                        let totals = spec_level_totals(
                            all_heights_maps.u@,
                            all_heights_maps.d@,
                            k,
                        );
                        #[trigger] self.data@[k] == (Tanzaku {
                            n: old(self).data@[k].n,
                            energy: old(self).data@[k].energy,
                            berry: old(self).data@[k].berry,
                            bcd: Vec2F { x: totals.0, y: totals.1 },
                            qmd: Vec2F { x: totals.2, y: totals.3 },
                        })
                    },
                forall|k: int| lv <= k < div ==> #[trigger] self.data@[k] == old(self).data@[k],
            decreases div - lv,
        {
            let zero4 = (Fix::zero(), Fix::zero(), Fix::zero(), Fix::zero());
            let up = fold_channel_level(&all_heights_maps.u, lv, zero4);
            let totals = fold_channel_level(&all_heights_maps.d, lv, up);
            let prev = self.data[lv];
            self.data.set(
                lv,
                Tanzaku {
                    n: prev.n,
                    energy: prev.energy,
                    berry: prev.berry,
                    bcd: Vec2F { x: totals.0, y: totals.1 },
                    qmd: Vec2F { x: totals.2, y: totals.3 },
                },
            );
            lv = lv + 1;
        }
    }
}

/// Ascending by filling fraction.
pub open spec fn sorted_by_n(s: Seq<Tanzaku>) -> bool {
    forall|i: int, j: int| 0 <= i <= j < s.len() ==> s[i].n.raw <= s[j].n.raw
}

/// Index of the first sample with minimal filling, at or after `from`.
fn min_tanzaku_index(v: &Vec<Tanzaku>, from: usize) -> (k: usize)
    requires
        from < v.len(),
    ensures
        from <= k < v.len(),
        forall|i: int| from <= i < v.len() ==> v@[k as int].n.raw <= (#[trigger] v@[i]).n.raw,
        forall|i: int| from <= i < k ==> (#[trigger] v@[i]).n.raw > v@[k as int].n.raw,
{
    let mut k = from;
    let mut i = from + 1;
    while i < v.len()
        invariant
            from <= k < i <= v.len(),
            forall|q: int| from <= q < i ==> v@[k as int].n.raw <= (#[trigger] v@[q]).n.raw,
            forall|q: int| from <= q < k ==> (#[trigger] v@[q]).n.raw > v@[k as int].n.raw,
        decreases v.len() - i,
    {
        if v[i].n.raw < v[k].n.raw {
            k = i;
        }
        i = i + 1;
    }
    k
}

/// Sort samples ascending by filling, keeping exactly the samples; an
/// already-sorted sequence comes back unchanged.
pub fn sort_tanzakus_by_n(v: Vec<Tanzaku>) -> (r: Vec<Tanzaku>)
    ensures
        r.len() == v.len(),
        sorted_by_n(r@),
        r@.to_multiset() == v@.to_multiset(),
        sorted_by_n(v@) ==> r@ == v@,
{
    let ghost total = v@.to_multiset();
    let ghost orig = v@;
    let mut rest = v;
    let mut out: Vec<Tanzaku> = Vec::new();
    while rest.len() > 0
        invariant
            sorted_by_n(out@),
            out@.to_multiset().add(rest@.to_multiset()) =~= total,
            out.len() + rest.len() == total.len(),
            total.len() == orig.len(),
            forall|i: int, j: int|
                0 <= i < out.len() && 0 <= j < rest.len() ==> (#[trigger] out@[i]).n.raw <= (
                #[trigger] rest@[j]).n.raw,
            sorted_by_n(orig) ==> out@ =~= orig.take(out.len() as int) && rest@ =~= orig.skip(
                out.len() as int,
            ),
        decreases rest.len(),
    {
        let k = min_tanzaku_index(&rest, 0);
        let ghost rest0 = rest@;
        let ghost outlen0 = out.len() as int;
        proof {
            if sorted_by_n(orig) {
                assert(rest0 =~= orig.skip(outlen0));
                if k != 0 {
                    assert(rest0[0].n.raw > rest0[k as int].n.raw);
                    assert(orig[outlen0].n.raw <= orig[outlen0 + k].n.raw);
                }
                assert(k == 0);
            }
        }
        let e = rest.remove(k);
        out.push(e);
        proof {
            assert(rest@ == rest0.remove(k as int));
            assert(forall|q: int|
                0 <= q < rest@.len() ==> (#[trigger] rest@[q]) == if q < k {
                    rest0[q]
                } else {
                    rest0[q + 1]
                });
            assert(out@.to_multiset().add(rest@.to_multiset()) =~= total);
            if sorted_by_n(orig) {
                assert(out@ =~= orig.take(outlen0 + 1));
                assert(rest@ =~= orig.skip(outlen0 + 1));
            }
        }
    }
    proof {
        if sorted_by_n(orig) {
            assert(out@ =~= orig.take(orig.len() as int));
            assert(orig.take(orig.len() as int) =~= orig);
        }
    }
    out
}

/// The uniform filling grid: target `2 i / n_div` as a fixed-point value.
pub open spec fn spec_target_n(i: int, n_div: int) -> Fix {
    Fix { raw: tdiv(2 * FIX_ONE * i, n_div) as i64 }
}

/// Interpolation between two samples at a filling `t` between theirs: the
/// linear blend on every field, or the left sample's fields when the two
/// coincide.
pub open spec fn spec_interp_pair(t1: Tanzaku, t2: Tanzaku, t: Fix) -> Tanzaku {
    let diff = spec_fsub(t2.n, t1.n);
    if diff.raw == 0 {
        Tanzaku { n: t, energy: t1.energy, berry: t1.berry, bcd: t1.bcd, qmd: t1.qmd }
    } else {
        let w = Fix { raw: fix_div_spec(spec_fsub(t, t1.n).raw as int, diff.raw as int) as i64 };
        Tanzaku {
            n: t,
            energy: spec_fadd(t1.energy, spec_fmul(w, spec_fsub(t2.energy, t1.energy))),
            berry: spec_fadd(t1.berry, spec_fmul(w, spec_fsub(t2.berry, t1.berry))),
            bcd: Vec2F {
                x: spec_fadd(t1.bcd.x, spec_fmul(w, spec_fsub(t2.bcd.x, t1.bcd.x))),
                y: spec_fadd(t1.bcd.y, spec_fmul(w, spec_fsub(t2.bcd.y, t1.bcd.y))),
            },
            qmd: Vec2F {
                x: spec_fadd(t1.qmd.x, spec_fmul(w, spec_fsub(t2.qmd.x, t1.qmd.x))),
                y: spec_fadd(t1.qmd.y, spec_fmul(w, spec_fsub(t2.qmd.y, t1.qmd.y))),
            },
        }
    }
}

/// Scan a sorted series for the bracketing pair of a target filling.
pub open spec fn spec_interp_scan(ss: Seq<Tanzaku>, t: Fix, i: int) -> Tanzaku
    decreases ss.len() - i,
{
    if i < 0 || i >= ss.len() - 1 {
        ss[0]
    } else if ss[i].n.raw <= t.raw && t.raw <= ss[i + 1].n.raw {
        spec_interp_pair(ss[i], ss[i + 1], t)
    } else {
        spec_interp_scan(ss, t, i + 1)
    }
}

/// The sample a sorted series yields at a target filling: clamped to the
/// first or last sample outside the observed range, else the linear blend
/// of the bracketing pair.
pub open spec fn spec_interp_at(ss: Seq<Tanzaku>, t: Fix) -> Tanzaku {
    if t.raw <= ss[0].n.raw {
        ss[0]
    } else if t.raw >= ss[ss.len() - 1].n.raw {
        ss[ss.len() - 1]
    } else {
        spec_interp_scan(ss, t, 0)
    }
}

/// Interpolate a sorted series at one target filling.
fn interp_at(sorted: &Vec<Tanzaku>, t: Fix) -> (r: Tanzaku)
    requires
        sorted.len() >= 1,
    ensures
        r == spec_interp_at(sorted@, t),
{
    if t.raw <= sorted[0].n.raw {
        return sorted[0];
    }
    let last = sorted.len() - 1;
    if t.raw >= sorted[last].n.raw {
        return sorted[last];
    }
    let mut i: usize = 0;
    while i < last
        invariant
            last == sorted.len() - 1,
            sorted.len() >= 1,
            i <= last,
            spec_interp_scan(sorted@, t, 0) == spec_interp_scan(sorted@, t, i as int),
        decreases last - i,
    {
        let t1 = sorted[i];
        let t2 = sorted[i + 1];
        if t1.n.raw <= t.raw && t.raw <= t2.n.raw {
            let diff = t2.n.sub(t1.n);
            if diff.raw == 0 {
                return Tanzaku { n: t, energy: t1.energy, berry: t1.berry, bcd: t1.bcd, qmd: t1.qmd };
            }
            let w = t.sub(t1.n).div(diff);
            return Tanzaku {
                n: t,
                energy: t1.energy.add(w.mul(t2.energy.sub(t1.energy))),
                berry: t1.berry.add(w.mul(t2.berry.sub(t1.berry))),
                bcd: Vec2F {
                    x: t1.bcd.x.add(w.mul(t2.bcd.x.sub(t1.bcd.x))),
                    y: t1.bcd.y.add(w.mul(t2.bcd.y.sub(t1.bcd.y))),
                },
                qmd: Vec2F {
                    x: t1.qmd.x.add(w.mul(t2.qmd.x.sub(t1.qmd.x))),
                    y: t1.qmd.y.add(w.mul(t2.qmd.y.sub(t1.qmd.y))),
                },
            };
        }
        i = i + 1;
    }
    sorted[0]
}

/// The target filling of step `i` of an `n_div`-step grid.
fn target_n(i: usize, n_div: usize) -> (r: Fix)
    requires
        1 <= n_div <= 0x10000,
        i <= n_div,
    ensures
        r == spec_target_n(i as int, n_div as int),
{
    proof {
        assert(0 <= 2 * (FIX_ONE as int) * (i as int) <= 0x800000000000) by (nonlinear_arith)
            requires
                i <= 0x10000,
                FIX_ONE == 1073741824,
        ;
    }
    let num: i64 = 2 * FIX_ONE * (i as i64);
    let q: i64 = ((num as u64) / (n_div as u64)) as i64;
    Fix { raw: q }
}

impl Tanzakus {
    /// Resample the series onto `n_div` uniform filling targets in `[0, 2)`
    /// by piecewise-linear interpolation of the n-sorted samples; an empty
    /// series comes back empty.
    pub fn interpolate_by_n(&self, n_div: usize) -> (r: Tanzakus)
        requires
            1 <= n_div <= 0x10000,
        ensures
            r.setting == self.setting,
            r.system == self.system,
            self.data.len() == 0 ==> r.data.len() == 0,
            self.data.len() > 0 ==> r.data.len() == n_div && exists|ss: Seq<Tanzaku>|
                #[trigger] sorted_by_n(ss) && ss.to_multiset() == self.data@.to_multiset() && ss.len()
                    == self.data@.len() && forall|i: int|
                    0 <= i < n_div ==> #[trigger] r.data@[i] == spec_interp_at(
                        ss,
                        spec_target_n(i, n_div as int),
                    ),
            self.data.len() > 0 && sorted_by_n(self.data@) ==> forall|i: int|
                0 <= i < n_div ==> #[trigger] r.data@[i] == spec_interp_at(
                    self.data@,
                    spec_target_n(i, n_div as int),
                ),
    {
        let mut copy: Vec<Tanzaku> = Vec::new();
        let mut k: usize = 0;
        while k < self.data.len()
            invariant
                k <= self.data.len(),
                copy@ =~= self.data@.take(k as int),
            decreases self.data.len() - k,
        {
            copy.push(self.data[k]);
            k = k + 1;
        }
        proof {
            assert(copy@ =~= self.data@);
        }
        if copy.len() == 0 {
            return Tanzakus { data: copy, setting: self.setting, system: self.system };
        }
        let sorted = sort_tanzakus_by_n(copy);
        let mut new_data: Vec<Tanzaku> = Vec::new();
        let mut i: usize = 0;
        while i < n_div
            invariant
                1 <= n_div <= 0x10000,
                sorted.len() == self.data@.len(),
                sorted.len() >= 1,
                sorted_by_n(sorted@),
                sorted@.to_multiset() == self.data@.to_multiset(),
                sorted_by_n(self.data@) ==> sorted@ == self.data@,
                i <= n_div,
                new_data.len() == i,
                forall|q: int|
                    0 <= q < i ==> #[trigger] new_data@[q] == spec_interp_at(
                        sorted@,
                        spec_target_n(q, n_div as int),
                    ),
            decreases n_div - i,
        {
            let t = target_n(i, n_div);
            new_data.push(interp_at(&sorted, t));
            i = i + 1;
        }
        proof {
            assert(sorted_by_n(sorted@));
        }
        Tanzakus { data: new_data, setting: self.setting, system: self.system }
    }
}

/// The fixed-point image of one: multiplying by it is exact.
proof fn lemma_fmul_one(x: Fix)
    requires
        x.raw > i64::MIN,
    ensures
        spec_fmul(Fix { raw: FIX_ONE }, x) == x,
{
    if x.raw >= 0 {
        vstd::arithmetic::div_mod::lemma_div_multiples_vanish(x.raw as int, FIX_ONE as int);
        assert((FIX_ONE as int) * (x.raw as int) == (x.raw as int) * (FIX_ONE as int))
            by (nonlinear_arith);
    } else {
        vstd::arithmetic::div_mod::lemma_div_multiples_vanish(-(x.raw as int), FIX_ONE as int);
        assert((FIX_ONE as int) * (x.raw as int) == -((FIX_ONE as int) * (-(x.raw as int))))
            by (nonlinear_arith);
        assert((FIX_ONE as int) * (-(x.raw as int)) == (-(x.raw as int)) * (FIX_ONE as int))
            by (nonlinear_arith);
        crate::fix::lemma_tdiv_neg((FIX_ONE as int) * (-(x.raw as int)), FIX_ONE as int);
    }
}

/// All components of a sample lie within half the raw range, so linear
/// blending between neighbours cannot saturate.
pub open spec fn tanzaku_moderate(a: Tanzaku) -> bool {
    &&& -(FIX_MAX_RAW / 2) <= a.n.raw <= FIX_MAX_RAW / 2
&&& -(FIX_MAX_RAW / 2) <= a.energy.raw <= FIX_MAX_RAW / 2
&&& -(FIX_MAX_RAW / 2) <= a.berry.raw <= FIX_MAX_RAW / 2
&&& -(FIX_MAX_RAW / 2) <= a.bcd.x.raw <= FIX_MAX_RAW / 2
&&& -(FIX_MAX_RAW / 2) <= a.bcd.y.raw <= FIX_MAX_RAW / 2
&&& -(FIX_MAX_RAW / 2) <= a.qmd.x.raw <= FIX_MAX_RAW / 2
&&& -(FIX_MAX_RAW / 2) <= a.qmd.y.raw <= FIX_MAX_RAW / 2
}

/// Interpolating at exactly the right endpoint of a pair recovers the
/// right sample.
proof fn lemma_pair_recovers(t1: Tanzaku, t2: Tanzaku)
    requires
        t1.n.raw < t2.n.raw,
        tanzaku_moderate(t1),
        tanzaku_moderate(t2),
    ensures
        spec_interp_pair(t1, t2, t2.n) == t2,
{
    let diff = spec_fsub(t2.n, t1.n);
    assert(diff.raw == t2.n.raw - t1.n.raw);
    assert(spec_fsub(t2.n, t1.n).raw != 0);
    let d = diff.raw as int;
    vstd::arithmetic::div_mod::lemma_div_multiples_vanish(FIX_ONE as int, d);
    assert(d * (FIX_ONE as int) == (FIX_ONE as int) * d) by (nonlinear_arith);
    crate::fix::lemma_tdiv_nonneg(d * (FIX_ONE as int), d);
    let w = Fix { raw: fix_div_spec(d, d) as i64 };
    assert(w.raw == FIX_ONE);
    lemma_fmul_one(spec_fsub(t2.energy, t1.energy));
    lemma_fmul_one(spec_fsub(t2.berry, t1.berry));
    lemma_fmul_one(spec_fsub(t2.bcd.x, t1.bcd.x));
    lemma_fmul_one(spec_fsub(t2.bcd.y, t1.bcd.y));
    lemma_fmul_one(spec_fsub(t2.qmd.x, t1.qmd.x));
    lemma_fmul_one(spec_fsub(t2.qmd.y, t1.qmd.y));
}

/// The scan from `i` lands on the bracketing pair `(k - 1, k)` when the
/// target is sample `k`'s filling and fillings increase strictly.
proof fn lemma_scan_reaches(ss: Seq<Tanzaku>, k: int, i: int)
    requires
        forall|a: int, b: int| 0 <= a < b < ss.len() ==> ss[a].n.raw < ss[b].n.raw,
        0 <= i <= k - 1,
        k < ss.len(),
    ensures
        spec_interp_scan(ss, ss[k].n, i) == spec_interp_pair(ss[k - 1], ss[k], ss[k].n),
    decreases k - i,
{
    if i == k - 1 {
        assert(ss[i].n.raw <= ss[k].n.raw);
    } else {
        assert(ss[i + 1].n.raw < ss[k].n.raw);
        lemma_scan_reaches(ss, k, i + 1);
    }
}

/// Resampling an already-uniform series onto its own filling grid
/// reproduces it exactly: for every step, the interpolation at the step's
/// target filling is the series' own sample.
pub proof fn lemma_interpolate_identity(data: Seq<Tanzaku>, n_div: int)
    requires
        data.len() == n_div,
        1 <= n_div <= 0x10000,
        forall|i: int| 0 <= i < n_div ==> (#[trigger] data[i]).n == spec_target_n(i, n_div),
        forall|i: int| 0 <= i < n_div ==> tanzaku_moderate(#[trigger] data[i]),
    ensures
        forall|i: int|
            0 <= i < n_div ==> #[trigger] spec_interp_at(data, spec_target_n(i, n_div)) == data[i],
{
    assert forall|a: int, b: int| 0 <= a < b < data.len() implies data[a].n.raw
        < data[b].n.raw by {
        lemma_target_strictly_increasing(n_div, a, b);
    }
    assert forall|i: int| 0 <= i < n_div implies #[trigger] spec_interp_at(
        data,
        spec_target_n(i, n_div),
    ) == data[i] by {
        let t = spec_target_n(i, n_div);
        assert(t == data[i].n);
        if i == 0 {
            assert(spec_interp_at(data, t) == data[0]);
        } else {
            assert(data[0].n.raw < t.raw);
            if i == n_div - 1 {
                assert(spec_interp_at(data, t) == data[n_div - 1]);
            } else {
                assert(t.raw < data[n_div - 1].n.raw);
                lemma_scan_reaches(data, i, 0);
                lemma_pair_recovers(data[i - 1], data[i]);
            }
        }
    }
}

/// Uniform filling targets increase strictly along the grid.
proof fn lemma_target_strictly_increasing(n_div: int, a: int, b: int)
    requires
        1 <= n_div <= 0x10000,
        0 <= a < b <= n_div,
    ensures
        spec_target_n(a, n_div).raw < spec_target_n(b, n_div).raw,
        0 <= spec_target_n(a, n_div).raw,
        spec_target_n(b, n_div).raw <= 2 * FIX_ONE * n_div,
    decreases b - a,
{
    lemma_target_in_range(n_div, a);
    lemma_target_in_range(n_div, b);
    if b == a + 1 {
        let x = 2 * FIX_ONE * a;
        let y = 2 * FIX_ONE * b;
        assert(y == x + 2 * FIX_ONE) by (nonlinear_arith)
            requires
                x == 2 * FIX_ONE * a,
                y == 2 * FIX_ONE * b,
                b == a + 1,
        ;
        crate::fix::lemma_tdiv_nonneg(x, n_div);
        crate::fix::lemma_tdiv_nonneg(y, n_div);
        vstd::arithmetic::div_mod::lemma_div_plus_one(x, n_div);
        vstd::arithmetic::div_mod::lemma_div_is_ordered(x + n_div, y, n_div);
    } else {
        lemma_target_strictly_increasing(n_div, a, b - 1);
        lemma_target_strictly_increasing(n_div, b - 1, b);
    }
}

/// A uniform target's raw value is the plain truncated quotient, within
/// range.
proof fn lemma_target_in_range(n_div: int, i: int)
    requires
        1 <= n_div <= 0x10000,
        0 <= i <= n_div,
    ensures
        spec_target_n(i, n_div).raw == tdiv(2 * FIX_ONE * i, n_div),
        0 <= spec_target_n(i, n_div).raw <= 2 * FIX_ONE * n_div,
{
    assert(0 <= 2 * FIX_ONE * i <= 2 * FIX_ONE * n_div) by (nonlinear_arith)
        requires
            0 <= i <= n_div,
    ;
    lemma_tdiv_bound(2 * FIX_ONE * i, n_div);
}

} // verus!
