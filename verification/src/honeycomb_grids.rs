//! The per-band energy/curvature landscape over the sampled Brillouin zone.
//!
//! For every mesh point the diagonalization of both spin Hamiltonians and
//! the two shared derivative matrices are handed in; the builder fixes the
//! momentum of each grid index, evaluates the Berry curvature of every
//! (spin, band) once per point, and lays the results out per band.

use vstd::prelude::*;
use crate::fix::{Fix, FIX_MAX_RAW};
use crate::cpx::Cpx;
use crate::vec2::Vec2F;
use crate::setting::CalcSetting;
use crate::model::System;
use crate::diag::SEud;
use crate::hamiltonian::Hamiltonian;
use crate::util::{GridInfo, i_j_to_kk, spec_i_j_to_kk, cal_cell_area, spec_cal_cell_area};
use crate::cal_berry::{calculate_berry_curvature_from_seud, spec_kubo_band, Tensor};

verus! {

/// Everything known about one (spin, band) at one grid cell.
#[derive(Clone, Copy, Debug)]
pub struct BandInfo {
    pub kk: Vec2F,
    pub i: Option<usize>,
    pub j: Option<usize>,
    pub eigen: Fix,
    pub eigen_vector: [Cpx; 6],
    pub berry: Option<Fix>,
}

impl BandInfo {
    /// The empty placeholder cell.
    pub fn ini() -> (r: BandInfo)
        ensures
            r.kk.x.raw == 0 && r.kk.y.raw == 0,
            r.i is None,
            r.j is None,
            r.eigen.raw == 0,
            r.berry is None,
    {
        BandInfo {
            kk: Vec2F::zero(),
            i: None,
            j: None,
            eigen: Fix::zero(),
            eigen_vector: [Cpx::zero(), Cpx::zero(), Cpx::zero(), Cpx::zero(), Cpx::zero(), Cpx::zero()],
            berry: None,
        }
    }
}

impl BandInfo {
    pub fn new(kk: Vec2F, i: usize, j: usize, eigen: Fix, eigen_vector: [Cpx; 6]) -> (r: BandInfo)
        ensures
            r == (BandInfo { kk, i: Some(i), j: Some(j), eigen, eigen_vector, berry: None }),
    {
        BandInfo { kk, i: Some(i), j: Some(j), eigen, eigen_vector, berry: None }
    }
}

/// One band's 2D array of cells, indexed `[i][j]`.
#[derive(Clone, Debug)]
pub struct Grid(pub Vec<Vec<BandInfo>>);

/// The grid spans the full mesh.
pub open spec fn grid_dims_ok(g: Grid, mesh_kx: int, mesh_ky: int) -> bool {
    g.0.len() == mesh_kx && forall|i: int| 0 <= i < g.0.len() ==> (#[trigger] g.0@[i])@.len()
        == mesh_ky
}

/// Minimum eigenvalue raw over a row prefix, folded from `acc`.
pub open spec fn spec_row_min(row: Seq<BandInfo>, k: int, acc: int) -> int
    decreases k,
{
    if k <= 0 {
        acc
    } else {
        let a = spec_row_min(row, k - 1, acc);
        if row[k - 1].eigen.raw < a {
            row[k - 1].eigen.raw as int
        } else {
            a
        }
    }
}

/// Maximum eigenvalue raw over a row prefix, folded from `acc`.
pub open spec fn spec_row_max(row: Seq<BandInfo>, k: int, acc: int) -> int
    decreases k,
{
    if k <= 0 {
        acc
    } else {
        let a = spec_row_max(row, k - 1, acc);
        if row[k - 1].eigen.raw > a {
            row[k - 1].eigen.raw as int
        } else {
            a
        }
    }
}

pub open spec fn spec_grid_min(rows: Seq<Vec<BandInfo>>, k: int, acc: int) -> int
    decreases k,
{
    if k <= 0 {
        acc
    } else {
        let a = spec_grid_min(rows, k - 1, acc);
        spec_row_min(rows[k - 1]@, rows[k - 1]@.len() as int, a)
    }
}

pub open spec fn spec_grid_max(rows: Seq<Vec<BandInfo>>, k: int, acc: int) -> int
    decreases k,
{
    if k <= 0 {
        acc
    } else {
        let a = spec_grid_max(rows, k - 1, acc);
        spec_row_max(rows[k - 1]@, rows[k - 1]@.len() as int, a)
    }
}

impl Grid {
    /// The lowest and highest eigenvalue seen on this grid, folded from the
    /// sentinels at the two ends of the raw range, so any cell's eigenvalue
    /// displaces them.
    pub fn energy_range(&self) -> (r: (Fix, Fix))
        ensures
            r.0.raw as int == spec_grid_min(self.0@, self.0@.len() as int, FIX_MAX_RAW as int),
            r.1.raw as int == spec_grid_max(self.0@, self.0@.len() as int, -(FIX_MAX_RAW as int)),
    {
        let mut ground = Fix { raw: FIX_MAX_RAW };
        let mut heighest = Fix { raw: -FIX_MAX_RAW };
        let mut i: usize = 0;
        while i < self.0.len()
            invariant
                i <= self.0.len(),
                ground.raw as int == spec_grid_min(self.0@, i as int, FIX_MAX_RAW as int),
                heighest.raw as int == spec_grid_max(self.0@, i as int, -(FIX_MAX_RAW as int)),
            decreases self.0.len() - i,
        {
            let row = &self.0[i];
            let mut j: usize = 0;
            while j < row.len()
                invariant
                    j <= row.len(),
                    row == &self.0[i as int],
                    i < self.0.len(),
                    ground.raw as int == spec_row_min(
                        row@,
                        j as int,
                        spec_grid_min(self.0@, i as int, FIX_MAX_RAW as int),
                    ),
                    heighest.raw as int == spec_row_max(
                        row@,
                        j as int,
                        spec_grid_max(self.0@, i as int, -(FIX_MAX_RAW as int)),
                    ),
                decreases row.len() - j,
            {
                let energy = row[j].eigen;
                if energy.raw > heighest.raw {
                    heighest = energy;
                }
                if energy.raw < ground.raw {
                    ground = energy;
                }
                j = j + 1;
            }
            i = i + 1;
        }
        (ground, heighest)
    }
}

/// The externally produced inputs for one mesh point: the sorted
/// diagonalization of both spin channels and the two derivative pairs.
#[derive(Debug)]
pub struct PointData {
    pub seud: SEud,
    pub dhx: Hamiltonian,
    pub dhy: Hamiltonian,
}

impl PointData {
    pub open spec fn wf(self, n: int) -> bool {
        &&& self.seud.wf()
    &&& self.seud.sorted()
    &&& self.seud.u.n == n
    &&& self.dhx.wf()
    &&& self.dhx.u.n == n
    &&& self.dhy.wf()
    &&& self.dhy.u.n == n
    }
}

/// The spin channel of a point's diagonalization.
pub open spec fn spec_point_eig(p: PointData, spin: int) -> crate::diag::SpinEigen {
    if spin == 0 {
        p.seud.u
    } else {
        p.seud.d
    }
}

/// The Berry curvature this pipeline attaches to one (spin, band) of one
/// point.
pub open spec fn spec_point_berry(p: PointData, spin: int, band: int, n: int, setting: CalcSetting, area: Fix)
    -> Fix {
    let eig = spec_point_eig(p, spin);
    let dhxc = if spin == 0 {
        p.dhx.u
    } else {
        p.dhx.d
    };
    let dhyc = if spin == 0 {
        p.dhy.u
    } else {
        p.dhy.d
    };
    spec_kubo_band(eig.pairs@, dhxc, dhyc, band, n, true, Tensor::XY, setting.threshold_berry, area)
}

/// What one finished cell must hold.
pub open spec fn cell_ok(
    cell: BandInfo,
    spin: int,
    band: int,
    i: int,
    j: int,
    setting: CalcSetting,
    system: System,
    grid_info: GridInfo,
    points: Seq<PointData>,
) -> bool {
    let n = system.spec_size();
    let p = points[i * setting.mesh_ky + j];
    let area = spec_cal_cell_area(setting.mesh_kx as int, setting.mesh_ky as int, n);
    &&& cell.kk == spec_i_j_to_kk(
        i,
        j,
        setting.mesh_kx as int,
        setting.mesh_ky as int,
        false,
        n,
        grid_info,
    )
&&& cell.i == Some(i as usize)
&&& cell.j == Some(j as usize)
&&& cell.eigen == spec_point_eig(p, spin).pairs@[band].value
&&& cell.berry == Some(spec_point_berry(p, spin, band, n, setting, area))
&&& forall|t: int|
    0 <= t < n ==> cell.eigen_vector@[t] == spec_point_eig(p, spin).pairs@[band].vector@[t]
}

/// A finished per-band grid.
pub open spec fn grid_ok(
    g: Grid,
    spin: int,
    band: int,
    setting: CalcSetting,
    system: System,
    grid_info: GridInfo,
    points: Seq<PointData>,
) -> bool {
    &&& g.0.len() == setting.mesh_kx
&&& forall|i: int| 0 <= i < g.0.len() ==> (#[trigger] g.0@[i])@.len() == setting.mesh_ky
&&& forall|i: int, j: int|
    0 <= i < setting.mesh_kx && 0 <= j < setting.mesh_ky ==> cell_ok(
        #[trigger] g.0@[i]@[j],
        spin,
        band,
        i,
        j,
        setting,
        system,
        grid_info,
        points,
    )
}

/// The full landscape: one grid per (spin, band), with the configuration
/// that produced it.
#[derive(Debug)]
pub struct Grids {
    pub u: Vec<Grid>,
    pub d: Vec<Grid>,
    pub system: System,
    pub calc_setting: CalcSetting,
    pub grid_info: GridInfo,
}

impl Grids {
    pub open spec fn spec_channel(self, spin: int) -> Vec<Grid> {
        if spin == 0 {
            self.u
        } else {
            self.d
        }
    }

    /// Both channels hold one full-mesh grid per band.
    pub open spec fn dims_ok(self) -> bool {
        &&& self.d.len() == self.u.len()
    &&& forall|s: int, b: int|
        0 <= s < 2 && 0 <= b < self.u.len() ==> grid_dims_ok(
            #[trigger] self.spec_channel(s)@[b],
            self.calc_setting.mesh_kx as int,
            self.calc_setting.mesh_ky as int,
        )
    }

    /// The energy bounds every discretization of this landscape uses: the
    /// range shared across tiles when one was fixed up front, else the
    /// global minimum and maximum eigenvalue, taken over the lowest and
    /// highest band of both spin channels.
    pub open spec fn spec_energy_range(self) -> (Fix, Fix) {
        match self.grid_info.energy_range {
            Some(fixed) => fixed,
            None => {
                let last = self.u.len() - 1;
                let ug = spec_grid_min(self.u@[0].0@, self.u@[0].0@.len() as int, FIX_MAX_RAW as int);
                let dg = spec_grid_min(self.d@[0].0@, self.d@[0].0@.len() as int, FIX_MAX_RAW as int);
                let uh = spec_grid_max(
                    self.u@[last].0@,
                    self.u@[last].0@.len() as int,
                    -(FIX_MAX_RAW as int),
                );
                let dh = spec_grid_max(
                    self.d@[last].0@,
                    self.d@[last].0@.len() as int,
                    -(FIX_MAX_RAW as int),
                );
                (
                    Fix { raw: (if ug <= dg { ug } else { dg }) as i64 },
                    Fix { raw: (if uh >= dh { uh } else { dh }) as i64 },
                )
            },
        }
    }

    /// Every grid present and every cell as the builder promises.
    pub open spec fn wf_built(self, grid_info: GridInfo, points: Seq<PointData>) -> bool {
        &&& self.system.has_size()
    &&& self.calc_setting.wf()
    &&& self.u.len() == self.system.spec_size()
    &&& self.d.len() == self.system.spec_size()
    &&& forall|spin: int, band: int|
        0 <= spin < 2 && 0 <= band < self.system.spec_size() ==> grid_ok(
            #[trigger] self.spec_channel(spin)@[band],
            spin,
            band,
            self.calc_setting,
            self.system,
            grid_info,
            points,
        )
    }

    /// Spin channel by index: 0 is up, 1 is down.
    pub fn index(&self, index: usize) -> (r: &Vec<Grid>)
        requires
            index < 2,
        ensures
            *r == self.spec_channel(index as int),
    {
        if index == 0 {
            &self.u
        } else {
            &self.d
        }
    }

    /// The energy bounds every discretization of this landscape uses: the
    /// range shared across tiles when one was fixed up front, else the
    /// extremes of the lowest and highest band of both spin channels.
    pub fn energy_range(&self) -> (r: (Fix, Fix))
        requires
            self.u.len() >= 1,
            self.d.len() == self.u.len(),
        ensures
            r == self.spec_energy_range(),
    {
        match self.grid_info.energy_range {
            Some(fixed) => fixed,
            None => {
                let last = self.u.len() - 1;
                let up_ground = self.u[0].energy_range().0;
                let up_heighest = self.u[last].energy_range().1;
                let down_ground = self.d[0].energy_range().0;
                let down_heighest = self.d[last].energy_range().1;
                (up_ground.min(down_ground), up_heighest.max(down_heighest))
            },
        }
    }
}

/// Pad an eigenvector to the fixed carrier width.
fn pad6(v: &Vec<Cpx>) -> (r: [Cpx; 6])
    requires
        v.len() <= 6,
    ensures
        forall|t: int| 0 <= t < v.len() ==> r@[t] == v@[t],
{
    let g0 = if v.len() > 0 {
        v[0]
    } else {
        Cpx::zero()
    };
    let g1 = if v.len() > 1 {
        v[1]
    } else {
        Cpx::zero()
    };
    let g2 = if v.len() > 2 {
        v[2]
    } else {
        Cpx::zero()
    };
    let g3 = if v.len() > 3 {
        v[3]
    } else {
        Cpx::zero()
    };
    let g4 = if v.len() > 4 {
        v[4]
    } else {
        Cpx::zero()
    };
    let g5 = if v.len() > 5 {
        v[5]
    } else {
        Cpx::zero()
    };
    [g0, g1, g2, g3, g4, g5]
}

/// The per-point precomputation: momenta in point order and the Berry
/// curvature of every (spin, band), already carrying the cell area.
pub open spec fn precomp_ok(
    kks: Seq<Vec2F>,
    berries: Seq<Vec<Vec<Fix>>>,
    points: Seq<PointData>,
    setting: CalcSetting,
    system: System,
    grid_info: GridInfo,
    cell_area: Fix,
) -> bool {
    let size = system.spec_size();
    &&& kks.len() == points.len()
&&& berries.len() == points.len()
&&& forall|q: int|
    0 <= q < points.len() ==> #[trigger] kks[q] == spec_i_j_to_kk(
        q / (setting.mesh_ky as int),
        q % (setting.mesh_ky as int),
        setting.mesh_kx as int,
        setting.mesh_ky as int,
        false,
        size,
        grid_info,
    )
&&& forall|q: int| 0 <= q < points.len() ==> (#[trigger] berries[q]).len() == 2
&&& forall|q: int, sp: int|
    0 <= q < points.len() && 0 <= sp < 2 ==> (#[trigger] berries[q]@[sp]).len() == size
&&& forall|q: int, sp: int, b: int|
    0 <= q < points.len() && 0 <= sp < 2 && 0 <= b < size ==> #[trigger] berries[q]@[sp]@[b]
        == spec_point_berry(points[q], sp, b, size, setting, cell_area)
}

/// One band's grid laid out from the precomputed per-point results.
fn build_band_grid(
    spin: usize,
    band: usize,
    calc_setting: CalcSetting,
    system: System,
    grid_info: GridInfo,
    points: &Vec<PointData>,
    kks: &Vec<Vec2F>,
    berries: &Vec<Vec<Vec<Fix>>>,
    cell_area: Fix,
) -> (g: Grid)
    requires
        calc_setting.wf(),
        system.has_size(),
        points.len() == calc_setting.mesh_kx * calc_setting.mesh_ky,
        forall|p: int| 0 <= p < points.len() ==> (#[trigger] points@[p]).wf(system.spec_size()),
        precomp_ok(kks@, berries@, points@, calc_setting, system, grid_info, cell_area),
        cell_area == spec_cal_cell_area(
            calc_setting.mesh_kx as int,
            calc_setting.mesh_ky as int,
            system.spec_size(),
        ),
        spin < 2,
        band < system.spec_size(),
    ensures
        grid_ok(g, spin as int, band as int, calc_setting, system, grid_info, points@),
{
    let mesh_kx = calc_setting.mesh_kx;
    let mesh_ky = calc_setting.mesh_ky;
    let mut rows: Vec<Vec<BandInfo>> = Vec::new();
    let mut i: usize = 0;
    while i < mesh_kx
        invariant
            calc_setting.wf(),
            system.has_size(),
            mesh_kx == calc_setting.mesh_kx,
            mesh_ky == calc_setting.mesh_ky,
            points.len() == mesh_kx * mesh_ky,
            forall|p: int|
                0 <= p < points.len() ==> (#[trigger] points@[p]).wf(system.spec_size()),
            precomp_ok(kks@, berries@, points@, calc_setting, system, grid_info, cell_area),
            cell_area == spec_cal_cell_area(
                mesh_kx as int,
                mesh_ky as int,
                system.spec_size(),
            ),
            spin < 2,
            band < system.spec_size(),
            i <= mesh_kx,
            rows.len() == i,
            forall|ii: int| 0 <= ii < i ==> (#[trigger] rows@[ii])@.len() == mesh_ky,
            forall|ii: int, jj: int|
                0 <= ii < i && 0 <= jj < mesh_ky ==> cell_ok(
                    #[trigger] rows@[ii]@[jj],
                    spin as int,
                    band as int,
                    ii,
                    jj,
                    calc_setting,
                    system,
                    grid_info,
                    points@,
                ),
        decreases mesh_kx - i,
    {
        let mut row: Vec<BandInfo> = Vec::new();
        let mut j: usize = 0;
        while j < mesh_ky
            invariant
                calc_setting.wf(),
                system.has_size(),
                mesh_kx == calc_setting.mesh_kx,
                mesh_ky == calc_setting.mesh_ky,
                points.len() == mesh_kx * mesh_ky,
                forall|p: int|
                    0 <= p < points.len() ==> (#[trigger] points@[p]).wf(system.spec_size()),
                precomp_ok(kks@, berries@, points@, calc_setting, system, grid_info, cell_area),
                cell_area == spec_cal_cell_area(
                    mesh_kx as int,
                    mesh_ky as int,
                    system.spec_size(),
                ),
                spin < 2,
                band < system.spec_size(),
                i < mesh_kx,
                j <= mesh_ky,
                row.len() == j,
                forall|jj: int|
                    0 <= jj < j ==> cell_ok(
                        #[trigger] row@[jj],
                        spin as int,
                        band as int,
                        i as int,
                        jj,
                        calc_setting,
                        system,
                        grid_info,
                        points@,
                    ),
            decreases mesh_ky - j,
        {
            proof {
                assert(i * mesh_ky + j < mesh_kx * mesh_ky) by (nonlinear_arith)
                    requires
                        i < mesh_kx,
                        j < mesh_ky,
                ;
                vstd::arithmetic::div_mod::lemma_fundamental_div_mod_converse(
                    (i * mesh_ky + j) as int,
                    mesh_ky as int,
                    i as int,
                    j as int,
                );
            }
            let idx = i * mesh_ky + j;
            let pd = &points[idx];
            let eig = pd.seud.index(spin);
            let kkv = kks[idx];
            let b = berries[idx][spin][band];
            let cell = BandInfo {
                kk: kkv,
                i: Some(i),
                j: Some(j),
                eigen: eig.value(band),
                eigen_vector: pad6(eig.vector(band)),
                berry: Some(b),
            };
            row.push(cell);
            j = j + 1;
        }
        rows.push(row);
        i = i + 1;
    }
    Grid(rows)
}

impl Grids {
    /// Build the full landscape from the per-point diagonalizations.  The
    /// momentum of each index comes from the tile geometry; the Berry
    /// curvature of every (spin, band) is evaluated once per point with the
    /// shared derivative matrices and already carries the cell area.
    pub fn build(
        calc_setting: CalcSetting,
        system: System,
        grid_info: GridInfo,
        points: &Vec<PointData>,
    ) -> (r: Grids)
        requires
            calc_setting.wf(),
            system.has_size(),
            points.len() == calc_setting.mesh_kx * calc_setting.mesh_ky,
            forall|p: int|
                0 <= p < points.len() ==> (#[trigger] points@[p]).wf(system.spec_size()),
        ensures
            r.system == system,
            r.calc_setting == calc_setting,
            r.grid_info == grid_info,
            r.wf_built(grid_info, points@),
            r.dims_ok(),
    {
        let size = system.size();
        let mesh_kx = calc_setting.mesh_kx;
        let mesh_ky = calc_setting.mesh_ky;
        let total = points.len();
        let cell_area = cal_cell_area(mesh_kx, mesh_ky, size);

        // momenta and curvature per point, in point order
        let mut kks: Vec<Vec2F> = Vec::new();
        let mut berries: Vec<Vec<Vec<Fix>>> = Vec::new();
        let mut p: usize = 0;
        while p < total
            invariant
                total == points.len(),
                total == mesh_kx * mesh_ky,
                mesh_kx == calc_setting.mesh_kx,
                mesh_ky == calc_setting.mesh_ky,
                calc_setting.wf(),
                system.has_size(),
                size == system.spec_size(),
                cell_area == spec_cal_cell_area(mesh_kx as int, mesh_ky as int, size as int),
                forall|q: int|
                    0 <= q < points.len() ==> (#[trigger] points@[q]).wf(system.spec_size()),
                p <= total,
                kks.len() == p,
                berries.len() == p,
                forall|q: int|
                    0 <= q < p ==> #[trigger] kks@[q] == spec_i_j_to_kk(
                        q / (mesh_ky as int),
                        q % (mesh_ky as int),
                        mesh_kx as int,
                        mesh_ky as int,
                        false,
                        size as int,
                        grid_info,
                    ),
                forall|q: int| 0 <= q < p ==> (#[trigger] berries@[q]).len() == 2,
                forall|q: int, sp: int|
                    0 <= q < p && 0 <= sp < 2 ==> (#[trigger] berries@[q]@[sp]).len() == size,
                forall|q: int, sp: int, b: int|
                    0 <= q < p && 0 <= sp < 2 && 0 <= b < size ==> #[trigger] berries@[q]@[sp]@[b]
                        == spec_point_berry(
                        points@[q],
                        sp,
                        b,
                        size as int,
                        calc_setting,
                        cell_area,
                    ),
            decreases total - p,
        {
            proof {
                assert((p as int) / (mesh_ky as int) < mesh_kx as int && (p as int) % (
                mesh_ky as int) < mesh_ky as int) by (nonlinear_arith)
                    requires
                        0 <= p < mesh_kx * mesh_ky,
                        mesh_ky >= 1,
                ;
            }
            let i = p / mesh_ky;
            let j = p % mesh_ky;
            kks.push(i_j_to_kk(i, j, mesh_kx, mesh_ky, false, size, grid_info));
            let pd = &points[p];
            let berry = calculate_berry_curvature_from_seud(
                &pd.seud,
                &pd.dhx,
                &pd.dhy,
                cell_area,
                &calc_setting,
            );
            berries.push(berry);
            p = p + 1;
        }
        proof {
            assert(precomp_ok(kks@, berries@, points@, calc_setting, system, grid_info, cell_area));
        }

        // lay the per-point results out per (spin, band)
        let mut u: Vec<Grid> = Vec::new();
        let mut d: Vec<Grid> = Vec::new();
        let mut band: usize = 0;
        while band < size
            invariant
                total == points.len(),
                total == mesh_kx * mesh_ky,
                mesh_kx == calc_setting.mesh_kx,
                mesh_ky == calc_setting.mesh_ky,
                calc_setting.wf(),
                system.has_size(),
                size == system.spec_size(),
                cell_area == spec_cal_cell_area(mesh_kx as int, mesh_ky as int, size as int),
                forall|q: int|
                    0 <= q < points.len() ==> (#[trigger] points@[q]).wf(system.spec_size()),
                precomp_ok(kks@, berries@, points@, calc_setting, system, grid_info, cell_area),
                band <= size,
                u.len() == band,
                d.len() == band,
                forall|b: int|
                    0 <= b < band ==> grid_ok(
                        #[trigger] u@[b],
                        0,
                        b,
                        calc_setting,
                        system,
                        grid_info,
                        points@,
                    ),
                forall|b: int|
                    0 <= b < band ==> grid_ok(
                        #[trigger] d@[b],
                        1,
                        b,
                        calc_setting,
                        system,
                        grid_info,
                        points@,
                    ),
            decreases size - band,
        {
            u.push(build_band_grid(
                0,
                band,
                calc_setting,
                system,
                grid_info,
                points,
                &kks,
                &berries,
                cell_area,
            ));
            d.push(build_band_grid(
                1,
                band,
                calc_setting,
                system,
                grid_info,
                points,
                &kks,
                &berries,
                cell_area,
            ));
            band = band + 1;
        }
        Grids { u, d, system, calc_setting, grid_info }
    }
}

} // verus!
