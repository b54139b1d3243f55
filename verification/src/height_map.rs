//! Isoenergy contour extraction by triangulated marching squares.
//!
//! Every (spin, band) energy surface is cut at `div` uniformly discretized
//! levels.  Each mesh cell, with its four corners wrapped toroidally, is
//! split into two triangles; a level crossing a triangle in exactly two
//! edges yields one contour segment, appended to that level's bucket.  The
//! quantities evaluated later at each segment's midpoint start out absent
//! and are attached in a second pass, all together.

use vstd::prelude::*;
use crate::fix::{Fix, sat64, tdiv, tdiv_i128, fix_div_spec, FIX_MAX_RAW};
use crate::cpx::{spec_fsub, spec_fmul};
use crate::vec2::{Vec2F, spec_vadd, spec_vsub, spec_vscale, spec_dist};
use crate::setting::CalcSetting;
use crate::honeycomb_grids::{BandInfo, Grid, Grids, grid_dims_ok};

verus! {

/// One contour segment with the midpoint quantities, which are either all
/// absent (just extracted) or all present (after the evaluation pass).
#[derive(Clone, Copy, Debug)]
pub struct Line {
    pub ini: Vec2F,
    pub end: Vec2F,
    pub berry: Option<Fix>,
    pub anomaly_velocity: Option<Vec2F>,
    pub gm_xx: Option<Fix>,
    pub gm_xy: Option<Fix>,
    pub gm_yy: Option<Fix>,
}

/// No midpoint quantity attached yet.
pub open spec fn line_bare(l: Line) -> bool {
    l.berry is None && l.anomaly_velocity is None && l.gm_xx is None && l.gm_xy is None
        && l.gm_yy is None
}

/// Every midpoint quantity attached.
pub open spec fn line_evaluated(l: Line) -> bool {
    l.berry is Some && l.anomaly_velocity is Some && l.gm_xx is Some && l.gm_xy is Some
        && l.gm_yy is Some
}

impl Line {
    pub fn new(ini: Vec2F, end: Vec2F) -> (r: Line)
        ensures
            r.ini == ini,
            r.end == end,
            line_bare(r),
    {
        Line { ini, end, berry: None, anomaly_velocity: None, gm_xx: None, gm_xy: None, gm_yy: None }
    }

    /// Segment length.
    pub fn length(&self) -> (r: Fix)
        ensures
            r.raw as int == spec_dist(self.ini, self.end),
            r.raw >= 0,
    {
        self.ini.dist(self.end)
    }

    /// Segment midpoint, where the quantities are evaluated.
    pub fn center(&self) -> (r: Vec2F)
        ensures
            r.x.raw as int == tdiv(sat64(self.ini.x.raw + self.end.x.raw), 2),
            r.y.raw as int == tdiv(sat64(self.ini.y.raw + self.end.y.raw), 2),
    {
        self.ini.midpoint(self.end)
    }
}

/// The bucket of segments of one discretized level.
#[derive(Clone, Debug)]
pub struct HeightMap(pub Vec<Line>);

impl HeightMap {
    pub fn ini() -> (r: HeightMap)
        ensures
            r.0.len() == 0,
    {
        HeightMap(Vec::new())
    }
}

/// Where the signed linear interpolation of a level crosses the edge from
/// `p1` to `p2`: absent unless the corner energies flank the level strictly.
pub open spec fn spec_div_internal(p1: BandInfo, p2: BandInfo, energy: Fix) -> Option<Vec2F> {
    let s1 = spec_fsub(p1.eigen, energy);
    let s2 = spec_fsub(p2.eigen, energy);
    if spec_fmul(s1, s2).raw >= 0 {
        None
    } else {
        let frac = Fix {
            raw: fix_div_spec(
                spec_fsub(energy, p1.eigen).raw as int,
                spec_fsub(p2.eigen, p1.eigen).raw as int,
            ) as i64,
        };
        Some(spec_vadd(p1.kk, spec_vscale(spec_vsub(p2.kk, p1.kk), frac)))
    }
}

/// Crossing point of a level on one triangle edge.
pub fn div_internal(p1: BandInfo, p2: BandInfo, energy: Fix) -> (r: Option<Vec2F>)
    ensures
        r == spec_div_internal(p1, p2, energy),
{
    let s1 = p1.eigen.sub(energy);
    let s2 = p2.eigen.sub(energy);
    if s1.mul(s2).raw >= 0 {
        None
    } else {
        proof {
            // opposite strict signs force distinct corner energies
            assert(p1.eigen.raw != p2.eigen.raw) by {
                if p1.eigen.raw == p2.eigen.raw {
                    assert(s1.raw as int == s2.raw as int);
                    assert((s1.raw as int) * (s2.raw as int) >= 0) by (nonlinear_arith)
                        requires
                            s1.raw as int == s2.raw as int,
                    ;
                    assert(tdiv((s1.raw as int) * (s2.raw as int), crate::fix::FIX_ONE as int) >= 0);
                }
            }
        }
        let diff = p2.eigen.sub(p1.eigen);
        let frac = energy.sub(p1.eigen).div(diff);
        Some(p1.kk.add(p2.kk.sub(p1.kk).scale(frac)))
    }
}

/// Exactly two of the three edge crossings present: one contour segment,
/// oriented as the crossings are paired.  Zero crossings: the level misses
/// the triangle.  Any other count is a topological anomaly and yields
/// nothing.
pub open spec fn spec_create_triangle_line(
    edge1: Option<Vec2F>,
    edge2: Option<Vec2F>,
    edge3: Option<Vec2F>,
) -> Option<Line> {
    if edge1 is Some && edge2 is Some && edge3 is None {
        Some(
            Line {
                ini: edge1->0,
                end: edge2->0,
                berry: None,
                anomaly_velocity: None,
                gm_xx: None,
                gm_xy: None,
                gm_yy: None,
            },
        )
    } else if edge1 is Some && edge2 is None && edge3 is Some {
        Some(
            Line {
                ini: edge3->0,
                end: edge1->0,
                berry: None,
                anomaly_velocity: None,
                gm_xx: None,
                gm_xy: None,
                gm_yy: None,
            },
        )
    } else if edge1 is None && edge2 is Some && edge3 is Some {
        Some(
            Line {
                ini: edge2->0,
                end: edge3->0,
                berry: None,
                anomaly_velocity: None,
                gm_xx: None,
                gm_xy: None,
                gm_yy: None,
            },
        )
    } else {
        None
    }
}

/// One or three crossings: an impossible way for a line to cut a triangle.
pub open spec fn spec_crossing_anomaly(
    edge1: Option<Vec2F>,
    edge2: Option<Vec2F>,
    edge3: Option<Vec2F>,
) -> bool {
    (edge1 is Some && edge2 is Some && edge3 is Some) || (edge1 is Some && edge2 is None && edge3
        is None) || (edge1 is None && edge2 is Some && edge3 is None) || (edge1 is None && edge2
        is None && edge3 is Some)
}

/// The contour segment of one triangle, if the level cuts it validly.
pub fn create_triangle_line(
    edge1: Option<Vec2F>,
    edge2: Option<Vec2F>,
    edge3: Option<Vec2F>,
) -> (r: Option<Line>)
    ensures
        r == spec_create_triangle_line(edge1, edge2, edge3),
{
    match (edge1, edge2, edge3) {
        (Some(u1), Some(u2), None) => Some(Line::new(u1, u2)),
        (Some(u1), None, Some(u3)) => Some(Line::new(u3, u1)),
        (None, Some(u2), Some(u3)) => Some(Line::new(u2, u3)),
        _ => None,
    }
}

/// Whether a triangle's crossing pattern is a topological anomaly: the
/// level cuts an impossible number of edges, the configuration that is
/// flagged and skipped rather than turned into a segment.
pub fn is_crossing_anomaly(
    edge1: &Option<Vec2F>,
    edge2: &Option<Vec2F>,
    edge3: &Option<Vec2F>,
) -> (r: bool)
    ensures
        r == spec_crossing_anomaly(*edge1, *edge2, *edge3),
{
    let c1: usize = if edge1.is_some() {
        1
    } else {
        0
    };
    let c2: usize = if edge2.is_some() {
        1
    } else {
        0
    };
    let c3: usize = if edge3.is_some() {
        1
    } else {
        0
    };
    let n = c1 + c2 + c3;
    n == 1 || n == 3
}

/// Index of the discretized level an energy falls into, clamped to
/// `[0, div - 1]`; a degenerate range maps everything to level zero.
pub open spec fn spec_energy_2_index(ground: Fix, highest: Fix, div: int, e: Fix) -> int {
    let range = highest.raw - ground.raw;
    if range <= 0 {
        0
    } else {
        let q = tdiv((e.raw - ground.raw) * div, range);
        if q < 0 {
            0
        } else if q >= div {
            div - 1
        } else {
            q
        }
    }
}

/// Energy of one discretized level: the exact linear interpolation from the
/// ground energy.
pub open spec fn spec_index_2_energy(ground: Fix, highest: Fix, div: int, idx: int) -> Fix {
    Fix { raw: sat64(ground.raw + tdiv((highest.raw - ground.raw) * idx, div)) as i64 }
}

/// Level index of an energy, over the fixed bounds.
pub fn energy_to_index(ground: Fix, highest: Fix, div: usize, e: Fix) -> (r: usize)
    requires
        1 <= div <= 0x10000,
    ensures
        r as int == spec_energy_2_index(ground, highest, div as int, e),
        r < div,
{
    let range: i128 = highest.raw as i128 - ground.raw as i128;
    if range <= 0 {
        0
    } else {
        proof {
            assert(-0x40000000000000000000000000000000 <= (e.raw - ground.raw) * (div as int)
                <= 0x40000000000000000000000000000000) by (nonlinear_arith)
                requires
                    div <= 0x10000,
                    -0x20000000000000000 <= e.raw - ground.raw <= 0x20000000000000000,
            ;
        }
        let num: i128 = (e.raw as i128 - ground.raw as i128) * (div as i128);
        let q = tdiv_i128(num, range);
        if q < 0 {
            0
        } else if q >= div as i128 {
            div - 1
        } else {
            q as usize
        }
    }
}

/// Energy of one level, over the fixed bounds.
pub fn index_to_energy(ground: Fix, highest: Fix, div: usize, idx: usize) -> (r: Fix)
    requires
        1 <= div <= 0x10000,
        idx <= div,
    ensures
        r == spec_index_2_energy(ground, highest, div as int, idx as int),
{
    let range: i128 = highest.raw as i128 - ground.raw as i128;
    proof {
        assert(-0x200000000000000000000 <= (highest.raw - ground.raw) * (idx as int)
            <= 0x200000000000000000000) by (nonlinear_arith)
            requires
                idx <= 0x10000,
                -0x20000000000000000 <= highest.raw - ground.raw <= 0x20000000000000000,
        ;
    }
    let num: i128 = range * (idx as i128);
    let q = tdiv_i128(num, div as i128);
    proof {
        crate::fix::lemma_tdiv_bound(num as int, div as int);
    }
    let s: i128 = ground.raw as i128 + q;
    Fix { raw: sat_to_i64(s) }
}

/// Saturate a 128-bit value into the raw range.
fn sat_to_i64(x: i128) -> (r: i64)
    ensures
        r as int == sat64(x as int),
{
    if x > FIX_MAX_RAW as i128 {
        FIX_MAX_RAW
    } else if x < -(FIX_MAX_RAW as i128) {
        -FIX_MAX_RAW
    } else {
        x as i64
    }
}

/// All the level buckets of one (spin, band), with the discretization that
/// generated them.
#[derive(Clone, Debug)]
pub struct HeightMaps {
    pub ground_energy: Fix,
    pub highest_energy: Fix,
    pub div: usize,
    pub contents: Vec<HeightMap>,
}

impl HeightMaps {
    pub open spec fn wf(self) -> bool {
        1 <= self.div <= 0x10000 && self.contents.len() == self.div
    }

    pub fn initialize(ground_energy: Fix, highest_energy: Fix, div: usize) -> (r: HeightMaps)
        requires
            1 <= div <= 0x10000,
        ensures
            r.wf(),
            r.ground_energy == ground_energy,
            r.highest_energy == highest_energy,
            r.div == div,
            forall|k: int| 0 <= k < div ==> (#[trigger] r.contents@[k]).0.len() == 0,
    {
        let mut contents: Vec<HeightMap> = Vec::new();
        while contents.len() < div
            invariant
                contents.len() <= div,
                forall|k: int| 0 <= k < contents.len() ==> (#[trigger] contents@[k]).0.len() == 0,
            decreases div - contents.len(),
        {
            contents.push(HeightMap::ini());
        }
        HeightMaps { ground_energy, highest_energy, div, contents }
    }

    /// Energy of one discretized level.
    pub fn index_2_energy(&self, index: &usize) -> (r: Fix)
        requires
            self.wf(),
            *index <= self.div,
        ensures
            r == spec_index_2_energy(
                self.ground_energy,
                self.highest_energy,
                self.div as int,
                *index as int,
            ),
    {
        index_to_energy(self.ground_energy, self.highest_energy, self.div, *index)
    }

    /// Level index of an energy, clamped into the discretization.
    pub fn energy_2_index(&self, energy: &Fix) -> (r: usize)
        requires
            self.wf(),
        ensures
            r as int == spec_energy_2_index(
                self.ground_energy,
                self.highest_energy,
                self.div as int,
                *energy,
            ),
            r < self.div,
    {
        energy_to_index(self.ground_energy, self.highest_energy, self.div, *energy)
    }
}

/// A quadrilateral mesh cell: its four corners in one band's grid, wrapped
/// toroidally at the mesh boundary.
pub struct Cell {
    pub a: BandInfo,
    pub b: BandInfo,
    pub c: BandInfo,
    pub d: BandInfo,
}

/// The corners of the cell at `(i, j)`.
pub open spec fn spec_cell_from_grid(g: Grid, i: int, j: int, mesh_kx: int, mesh_ky: int) -> Cell {
    Cell {
        a: g.0[i]@[j],
        b: g.0[(i + 1) % mesh_kx]@[j],
        c: g.0[(i + 1) % mesh_kx]@[(j + 1) % mesh_ky],
        d: g.0[i]@[(j + 1) % mesh_ky],
    }
}

impl Cell {
    pub fn from_grid(grid: &Grid, i: usize, j: usize, mesh_kx: usize, mesh_ky: usize) -> (r: Cell)
        requires
            mesh_kx >= 1,
            mesh_ky >= 1,
            i < mesh_kx,
            j < mesh_ky,
            grid_dims_ok(*grid, mesh_kx as int, mesh_ky as int),
        ensures
            r == spec_cell_from_grid(*grid, i as int, j as int, mesh_kx as int, mesh_ky as int),
    {
        let a = grid.0[i][j];
        let b = grid.0[(i + 1) % mesh_kx][j];
        let c = grid.0[(i + 1) % mesh_kx][(j + 1) % mesh_ky];
        let d = grid.0[i][(j + 1) % mesh_ky];
        Cell { a, b, c, d }
    }

    /// The smallest and largest level index among the four corners.
    pub open spec fn spec_index_range(self, ground: Fix, highest: Fix, div: int) -> (int, int) {
        let ia = spec_energy_2_index(ground, highest, div, self.a.eigen);
        let ib = spec_energy_2_index(ground, highest, div, self.b.eigen);
        let ic = spec_energy_2_index(ground, highest, div, self.c.eigen);
        let id = spec_energy_2_index(ground, highest, div, self.d.eigen);
        let mn0 = if ia <= ib {
            ia
        } else {
            ib
        };
        let mn1 = if mn0 <= ic {
            mn0
        } else {
            ic
        };
        let mn = if mn1 <= id {
            mn1
        } else {
            id
        };
        let mx0 = if ia >= ib {
            ia
        } else {
            ib
        };
        let mx1 = if mx0 >= ic {
            mx0
        } else {
            ic
        };
        let mx = if mx1 >= id {
            mx1
        } else {
            id
        };
        (mn, mx)
    }

    /// The level indices this cell can contribute to.
    pub fn index_range(&self, height_maps: &HeightMaps) -> (r: (usize, usize))
        requires
            height_maps.wf(),
        ensures
            r.0 as int == self.spec_index_range(
                height_maps.ground_energy,
                height_maps.highest_energy,
                height_maps.div as int,
            ).0,
            r.1 as int == self.spec_index_range(
                height_maps.ground_energy,
                height_maps.highest_energy,
                height_maps.div as int,
            ).1,
            r.0 <= r.1 < height_maps.div,
    {
        let ia = height_maps.energy_2_index(&self.a.eigen);
        let ib = height_maps.energy_2_index(&self.b.eigen);
        let ic = height_maps.energy_2_index(&self.c.eigen);
        let id = height_maps.energy_2_index(&self.d.eigen);
        let mut mn = ia;
        let mut mx = ia;
        if ib < mn {
            mn = ib;
        }
        if ic < mn {
            mn = ic;
        }
        if id < mn {
            mn = id;
        }
        if ib > mx {
            mx = ib;
        }
        if ic > mx {
            mx = ic;
        }
        if id > mx {
            mx = id;
        }
        (mn, mx)
    }
}

/// The (up to two) segments one cell emits at one level energy, in emission
/// order: the `(a, b, d)` triangle first, then `(b, c, d)`.
pub open spec fn spec_cell_lines(cell: Cell, energy: Fix) -> Seq<Line> {
    let ab = spec_div_internal(cell.a, cell.b, energy);
    let bc = spec_div_internal(cell.b, cell.c, energy);
    let cd = spec_div_internal(cell.c, cell.d, energy);
    let da = spec_div_internal(cell.d, cell.a, energy);
    let bd = spec_div_internal(cell.b, cell.d, energy);
    let t1 = spec_create_triangle_line(ab, bd, da);
    let t2 = spec_create_triangle_line(bc, cd, bd);
    let s1: Seq<Line> = match t1 {
        Some(l) => seq![l],
        None => Seq::empty(),
    };
    let s2: Seq<Line> = match t2 {
        Some(l) => seq![l],
        None => Seq::empty(),
    };
    s1 + s2
}

/// Whether a cell's corner indices cover a level.
pub open spec fn spec_covers(cell: Cell, ground: Fix, highest: Fix, div: int, k: int) -> bool {
    let r = cell.spec_index_range(ground, highest, div);
    r.0 <= k <= r.1
}

/// How many of a cell's two triangles a level cuts anomalously.
pub open spec fn spec_cell_anomalies(cell: Cell, energy: Fix) -> int {
    let ab = spec_div_internal(cell.a, cell.b, energy);
    let bc = spec_div_internal(cell.b, cell.c, energy);
    let cd = spec_div_internal(cell.c, cell.d, energy);
    let da = spec_div_internal(cell.d, cell.a, energy);
    let bd = spec_div_internal(cell.b, cell.d, energy);
    (if spec_crossing_anomaly(ab, bd, da) {
        1int
    } else {
        0
    }) + (if spec_crossing_anomaly(bc, cd, bd) {
        1int
    } else {
        0
    })
}

/// Anomalous triangle crossings of one cell over the covered levels below
/// `k`.
pub open spec fn spec_cell_level_anomalies(cell: Cell, ground: Fix, highest: Fix, div: int, k: int)
    -> int
    decreases k,
{
    if k <= 0 {
        0
    } else {
        spec_cell_level_anomalies(cell, ground, highest, div, k - 1) + if spec_covers(
            cell,
            ground,
            highest,
            div,
            k - 1,
        ) {
            spec_cell_anomalies(cell, spec_index_2_energy(ground, highest, div, k - 1))
        } else {
            0
        }
    }
}

proof fn lemma_cla_bounds(cell: Cell, ground: Fix, highest: Fix, div: int, k: int)
    requires
        k >= 0,
    ensures
        0 <= spec_cell_level_anomalies(cell, ground, highest, div, k) <= 2 * k,
    decreases k,
{
    if k > 0 {
        lemma_cla_bounds(cell, ground, highest, div, k - 1);
    }
}

/// Below the cell's lowest covered level, nothing has been counted.
proof fn lemma_cla_zero_below(cell: Cell, ground: Fix, highest: Fix, div: int, k: int)
    requires
        0 <= k <= cell.spec_index_range(ground, highest, div).0,
    ensures
        spec_cell_level_anomalies(cell, ground, highest, div, k) == 0,
    decreases k,
{
    if k > 0 {
        lemma_cla_zero_below(cell, ground, highest, div, k - 1);
    }
}

/// Above the cell's highest covered level, the count no longer changes.
proof fn lemma_cla_flat_above(cell: Cell, ground: Fix, highest: Fix, div: int, k: int)
    requires
        cell.spec_index_range(ground, highest, div).1 < k <= div,
    ensures
        spec_cell_level_anomalies(cell, ground, highest, div, div) == spec_cell_level_anomalies(
            cell,
            ground,
            highest,
            div,
            k,
        ),
    decreases div - k,
{
    if k < div {
        lemma_cla_flat_above(cell, ground, highest, div, k + 1);
    }
}

/// Append one segment to one level bucket.
fn push_line(contents: &mut Vec<HeightMap>, idx: usize, l: Line)
    requires
        idx < old(contents).len(),
    ensures
        final(contents).len() == old(contents).len(),
        final(contents)@[idx as int].0@ == old(contents)@[idx as int].0@.push(l),
        forall|k: int|
            0 <= k < old(contents).len() && k != idx ==> final(contents)@[k] == old(contents)@[k],
{
    let level = &mut contents[idx];
    level.0.push(l);
}

/// Scan one cell: append its segments to every level it covers, and count
/// the anomalous triangle crossings it skips.
fn emit_cell(contents: &mut Vec<HeightMap>, cell: &Cell, ground: Fix, highest: Fix, div: usize)
    -> (anoms: usize)
    requires
        1 <= div <= 0x10000,
        old(contents).len() == div,
    ensures
        anoms as int == spec_cell_level_anomalies(*cell, ground, highest, div as int, div as int),
        final(contents).len() == div,
        forall|k: int|
            0 <= k < div ==> final(contents)@[k].0@ == if spec_covers(
                *cell,
                ground,
                highest,
                div as int,
                k,
            ) {
                old(contents)@[k].0@ + spec_cell_lines(
                    *cell,
                    spec_index_2_energy(ground, highest, div as int, k),
                )
            } else {
                old(contents)@[k].0@
            },
{
    let ia = energy_to_index(ground, highest, div, cell.a.eigen);
    let ib = energy_to_index(ground, highest, div, cell.b.eigen);
    let ic = energy_to_index(ground, highest, div, cell.c.eigen);
    let id = energy_to_index(ground, highest, div, cell.d.eigen);
    let mut mn = ia;
    let mut mx = ia;
    if ib < mn {
        mn = ib;
    }
    if ic < mn {
        mn = ic;
    }
    if id < mn {
        mn = id;
    }
    if ib > mx {
        mx = ib;
    }
    if ic > mx {
        mx = ic;
    }
    if id > mx {
        mx = id;
    }
    proof {
        assert(mn as int == cell.spec_index_range(ground, highest, div as int).0);
        assert(mx as int == cell.spec_index_range(ground, highest, div as int).1);
    }
    let mut index = mn;
    let mut acount: usize = 0;
    proof {
        lemma_cla_zero_below(*cell, ground, highest, div as int, mn as int);
    }
    while index <= mx
        invariant
            mn as int == cell.spec_index_range(ground, highest, div as int).0,
            mx as int == cell.spec_index_range(ground, highest, div as int).1,
            mn <= index,
            index <= mx + 1,
            mx < div,
            1 <= div <= 0x10000,
            acount as int == spec_cell_level_anomalies(
                *cell,
                ground,
                highest,
                div as int,
                index as int,
            ),
            acount <= 2 * (index - mn),
            contents.len() == div,
            forall|k: int|
                0 <= k < div ==> contents@[k].0@ == if mn <= k < index {
                    old(contents)@[k].0@ + spec_cell_lines(
                        *cell,
                        spec_index_2_energy(ground, highest, div as int, k),
                    )
                } else {
                    old(contents)@[k].0@
                },
        decreases mx + 1 - index,
    {
        let energy = index_to_energy(ground, highest, div, index);
        let ab = div_internal(cell.a, cell.b, energy);
        let bc = div_internal(cell.b, cell.c, energy);
        let cd = div_internal(cell.c, cell.d, energy);
        let da = div_internal(cell.d, cell.a, energy);
        let bd = div_internal(cell.b, cell.d, energy);
        let ghost before = contents@[index as int].0@;
        let t1 = create_triangle_line(ab, bd, da);
        if let Some(l) = t1 {
            push_line(contents, index, l);
        }
        let t2 = create_triangle_line(bc, cd, bd);
        if let Some(l) = t2 {
            push_line(contents, index, l);
        }
        if is_crossing_anomaly(&ab, &bd, &da) {
            acount = acount + 1;
        }
        if is_crossing_anomaly(&bc, &cd, &bd) {
            acount = acount + 1;
        }
        proof {
            assert(contents@[index as int].0@ =~= before + spec_cell_lines(*cell, energy));
        }
        index = index + 1;
    }
    proof {
        lemma_cla_flat_above(*cell, ground, highest, div as int, index as int);
    }
    acount
}

/// The level contents of one band after scanning the first `cc` cells, in
/// row-major interior-cell order.
pub open spec fn spec_level_prefix(
    g: Grid,
    ground: Fix,
    highest: Fix,
    div: int,
    mesh_kx: int,
    mesh_ky: int,
    k: int,
    cc: int,
) -> Seq<Line>
    decreases cc,
{
    if cc <= 0 {
        Seq::empty()
    } else {
        let prev = spec_level_prefix(g, ground, highest, div, mesh_kx, mesh_ky, k, cc - 1);
        let i = (cc - 1) / (mesh_ky - 1);
        let j = (cc - 1) % (mesh_ky - 1);
        let cell = spec_cell_from_grid(g, i, j, mesh_kx, mesh_ky);
        if spec_covers(cell, ground, highest, div, k) {
            prev + spec_cell_lines(cell, spec_index_2_energy(ground, highest, div, k))
        } else {
            prev
        }
    }
}

/// The finished contents of one level of one band: every interior cell
/// scanned.
pub open spec fn spec_level_lines(
    g: Grid,
    ground: Fix,
    highest: Fix,
    div: int,
    mesh_kx: int,
    mesh_ky: int,
    k: int,
) -> Seq<Line> {
    spec_level_prefix(
        g,
        ground,
        highest,
        div,
        mesh_kx,
        mesh_ky,
        k,
        (mesh_kx - 1) * (mesh_ky - 1),
    )
}

/// Anomalous triangle crossings over the first `cc` cells of one band.
pub open spec fn spec_anomaly_prefix(
    g: Grid,
    ground: Fix,
    highest: Fix,
    div: int,
    mesh_kx: int,
    mesh_ky: int,
    cc: int,
) -> int
    decreases cc,
{
    if cc <= 0 {
        0
    } else {
        let i = (cc - 1) / (mesh_ky - 1);
        let j = (cc - 1) % (mesh_ky - 1);
        let cell = spec_cell_from_grid(g, i, j, mesh_kx, mesh_ky);
        spec_anomaly_prefix(g, ground, highest, div, mesh_kx, mesh_ky, cc - 1)
            + spec_cell_level_anomalies(cell, ground, highest, div, div)
    }
}

/// Anomalous triangle crossings of one whole band.
pub open spec fn spec_band_anomalies(
    g: Grid,
    ground: Fix,
    highest: Fix,
    div: int,
    mesh_kx: int,
    mesh_ky: int,
) -> int {
    spec_anomaly_prefix(g, ground, highest, div, mesh_kx, mesh_ky, (mesh_kx - 1) * (mesh_ky - 1))
}

proof fn lemma_anomaly_prefix_bounds(
    g: Grid,
    ground: Fix,
    highest: Fix,
    div: int,
    mesh_kx: int,
    mesh_ky: int,
    cc: int,
)
    requires
        cc >= 0,
        div >= 0,
    ensures
        0 <= spec_anomaly_prefix(g, ground, highest, div, mesh_kx, mesh_ky, cc) <= 2 * div * cc,
    decreases cc,
{
    if cc > 0 {
        lemma_anomaly_prefix_bounds(g, ground, highest, div, mesh_kx, mesh_ky, cc - 1);
        let i = (cc - 1) / (mesh_ky - 1);
        let j = (cc - 1) % (mesh_ky - 1);
        let cell = spec_cell_from_grid(g, i, j, mesh_kx, mesh_ky);
        lemma_cla_bounds(cell, ground, highest, div, div);
        assert(2 * div * (cc - 1) + 2 * div == 2 * div * cc) by (nonlinear_arith);
    }
}

/// Anomalous triangle crossings over the first `b` bands of one spin
/// channel.
pub open spec fn spec_channel_anomalies(
    ch: Seq<Grid>,
    ground: Fix,
    highest: Fix,
    div: int,
    mesh_kx: int,
    mesh_ky: int,
    b: int,
) -> int
    decreases b,
{
    if b <= 0 {
        0
    } else {
        spec_channel_anomalies(ch, ground, highest, div, mesh_kx, mesh_ky, b - 1)
            + spec_band_anomalies(ch[b - 1], ground, highest, div, mesh_kx, mesh_ky)
    }
}

proof fn lemma_channel_anomalies_bounds(
    ch: Seq<Grid>,
    ground: Fix,
    highest: Fix,
    div: int,
    mesh_kx: int,
    mesh_ky: int,
    b: int,
)
    requires
        b >= 0,
        div >= 0,
        mesh_kx >= 1,
        mesh_ky >= 1,
    ensures
        0 <= spec_channel_anomalies(ch, ground, highest, div, mesh_kx, mesh_ky, b) <= 2 * div * ((
        mesh_kx - 1) * (mesh_ky - 1)) * b,
    decreases b,
{
    if b > 0 {
        lemma_channel_anomalies_bounds(ch, ground, highest, div, mesh_kx, mesh_ky, b - 1);
        assert((mesh_kx - 1) * (mesh_ky - 1) >= 0) by (nonlinear_arith)
            requires
                mesh_kx >= 1,
                mesh_ky >= 1,
        ;
        lemma_anomaly_prefix_bounds(
            ch[b - 1],
            ground,
            highest,
            div,
            mesh_kx,
            mesh_ky,
            (mesh_kx - 1) * (mesh_ky - 1),
        );
        assert(2 * div * ((mesh_kx - 1) * (mesh_ky - 1)) * (b - 1) + 2 * div * ((mesh_kx - 1) * (
        mesh_ky - 1)) == 2 * div * ((mesh_kx - 1) * (mesh_ky - 1)) * b) by (nonlinear_arith);
    }
}

/// Extract the height map of one band's grid, with the count of anomalous
/// triangle crossings it skipped.
fn build_band_height_maps(
    grid: &Grid,
    ground: Fix,
    highest: Fix,
    div: usize,
    mesh_kx: usize,
    mesh_ky: usize,
) -> (r: (HeightMaps, u64))
    requires
        1 <= div <= 0x10000,
        1 <= mesh_kx <= 0x10000,
        1 <= mesh_ky <= 0x10000,
        grid_dims_ok(*grid, mesh_kx as int, mesh_ky as int),
    ensures
        r.0.wf(),
        r.0.ground_energy == ground,
        r.0.highest_energy == highest,
        r.0.div == div,
        r.1 as int == spec_band_anomalies(
            *grid,
            ground,
            highest,
            div as int,
            mesh_kx as int,
            mesh_ky as int,
        ),
        forall|k: int|
            0 <= k < div ==> (#[trigger] r.0.contents@[k]).0@ == spec_level_lines(
                *grid,
                ground,
                highest,
                div as int,
                mesh_kx as int,
                mesh_ky as int,
                k,
            ),
{
    let mut hm = HeightMaps::initialize(ground, highest, div);
    let cells_per_row = mesh_ky - 1;
    let mut anoms: u64 = 0;
    let mut cc: usize = 0;
    let mut i: usize = 0;
    while i < mesh_kx - 1
        invariant
            1 <= div <= 0x10000,
            1 <= mesh_kx <= 0x10000,
            1 <= mesh_ky <= 0x10000,
            grid_dims_ok(*grid, mesh_kx as int, mesh_ky as int),
            cells_per_row == mesh_ky - 1,
            i <= mesh_kx - 1,
            cc == i * cells_per_row,
            anoms as int == spec_anomaly_prefix(
                *grid,
                ground,
                highest,
                div as int,
                mesh_kx as int,
                mesh_ky as int,
                cc as int,
            ),
            hm.wf(),
            hm.ground_energy == ground,
            hm.highest_energy == highest,
            hm.div == div,
            forall|k: int|
                0 <= k < div ==> (#[trigger] hm.contents@[k]).0@ == spec_level_prefix(
                    *grid,
                    ground,
                    highest,
                    div as int,
                    mesh_kx as int,
                    mesh_ky as int,
                    k,
                    cc as int,
                ),
        decreases mesh_kx - 1 - i,
    {
        let mut j: usize = 0;
        while j < mesh_ky - 1
            invariant
                1 <= div <= 0x10000,
                1 <= mesh_kx <= 0x10000,
                1 <= mesh_ky <= 0x10000,
                grid_dims_ok(*grid, mesh_kx as int, mesh_ky as int),
                cells_per_row == mesh_ky - 1,
                i < mesh_kx - 1,
                j <= mesh_ky - 1,
                cc == i * cells_per_row + j,
                anoms as int == spec_anomaly_prefix(
                    *grid,
                    ground,
                    highest,
                    div as int,
                    mesh_kx as int,
                    mesh_ky as int,
                    cc as int,
                ),
                hm.wf(),
                hm.ground_energy == ground,
                hm.highest_energy == highest,
                hm.div == div,
                forall|k: int|
                    0 <= k < div ==> (#[trigger] hm.contents@[k]).0@ == spec_level_prefix(
                        *grid,
                        ground,
                        highest,
                        div as int,
                        mesh_kx as int,
                        mesh_ky as int,
                        k,
                        cc as int,
                    ),
            decreases mesh_ky - 1 - j,
        {
            proof {
                assert(i * cells_per_row + j < (mesh_kx - 1) * cells_per_row && i * cells_per_row
                    + j + 1 <= 0xfffe0001) by (nonlinear_arith)
                    requires
                        i < mesh_kx - 1,
                        j < cells_per_row,
                        mesh_kx <= 0x10000,
                        cells_per_row < 0x10000,
                ;
                vstd::arithmetic::div_mod::lemma_fundamental_div_mod_converse(
                    (i * cells_per_row + j) as int,
                    cells_per_row as int,
                    i as int,
                    j as int,
                );
            }
            let cell = Cell::from_grid(grid, i, j, mesh_kx, mesh_ky);
            let cell_anoms = emit_cell(&mut hm.contents, &cell, ground, highest, div);
            proof {
                lemma_anomaly_prefix_bounds(
                    *grid,
                    ground,
                    highest,
                    div as int,
                    mesh_kx as int,
                    mesh_ky as int,
                    cc as int,
                );
                lemma_cla_bounds(cell, ground, highest, div as int, div as int);
                assert(2 * (div as int) * (cc as int) <= 0x2000000000000) by (nonlinear_arith)
                    requires
                        div <= 0x10000,
                        cc <= 0xfffe0001,
                ;
            }
            anoms = anoms + (cell_anoms as u64);
            cc = cc + 1;
            j = j + 1;
        }
        proof {
            assert((i + 1) * cells_per_row == i * cells_per_row + cells_per_row)
                by (nonlinear_arith);
        }
        i = i + 1;
    }
    proof {
        assert(cc as int == (mesh_kx - 1) * (mesh_ky - 1)) by (nonlinear_arith)
            requires
                cc == i * cells_per_row,
                i == mesh_kx - 1,
                cells_per_row == mesh_ky - 1,
        ;
    }
    (hm, anoms)
}

/// The height maps of every (spin, band) of one landscape, with the count
/// of topological anomalies (triangles a level cut in one or three edges)
/// that were flagged and skipped during extraction.
#[derive(Debug)]
pub struct AllHeightMaps {
    pub u: Vec<HeightMaps>,
    pub d: Vec<HeightMaps>,
    pub calc_setting: CalcSetting,
    pub anomalies: u64,
}

impl AllHeightMaps {
    pub open spec fn spec_channel(self, spin: int) -> Vec<HeightMaps> {
        if spin == 0 {
            self.u
        } else {
            self.d
        }
    }

    pub fn ini(calc_setting: CalcSetting) -> (r: AllHeightMaps)
        ensures
            r.u.len() == 0,
            r.d.len() == 0,
            r.calc_setting == calc_setting,
            r.anomalies == 0,
    {
        AllHeightMaps { u: Vec::new(), d: Vec::new(), calc_setting, anomalies: 0 }
    }

    /// Spin channel by index: 0 is up, 1 is down.
    pub fn index(&self, index: usize) -> (r: &Vec<HeightMaps>)
        requires
            index < 2,
        ensures
            *r == self.spec_channel(index as int),
    {
        if index == 0 {
            &self.u
        } else {
            &self.d
        }
    }

    /// Extract every (spin, band) height map of a landscape, discretizing
    /// the shared energy range into the configured number of levels.
    pub fn build(grids: &Grids) -> (r: AllHeightMaps)
        requires
            grids.calc_setting.wf(),
            1 <= grids.u.len() <= 6,
            grids.d.len() == grids.u.len(),
            grids.dims_ok(),
        ensures
            r.calc_setting == grids.calc_setting,
            r.u.len() == grids.u.len(),
            r.d.len() == grids.u.len(),
            ({
                let er = grids.spec_energy_range();
                let div = grids.calc_setting.height_map_div;
                r.anomalies as int == spec_channel_anomalies(
                    grids.u@,
                    er.0,
                    er.1,
                    div as int,
                    grids.calc_setting.mesh_kx as int,
                    grids.calc_setting.mesh_ky as int,
                    grids.u.len() as int,
                ) + spec_channel_anomalies(
                    grids.d@,
                    er.0,
                    er.1,
                    div as int,
                    grids.calc_setting.mesh_kx as int,
                    grids.calc_setting.mesh_ky as int,
                    grids.u.len() as int,
                )
            }),
            ({
                let er = grids.spec_energy_range();
                let div = grids.calc_setting.height_map_div;
                forall|s: int, b: int|
                    0 <= s < 2 && 0 <= b < grids.u.len() ==> {
                        let hm = #[trigger] r.spec_channel(s)@[b];
                        hm.wf() && hm.ground_energy == er.0 && hm.highest_energy == er.1 && hm.div
                            == div && forall|k: int|
                            0 <= k < div ==> (#[trigger] hm.contents@[k]).0@ == spec_level_lines(
                                grids.spec_channel(s)@[b],
                                er.0,
                                er.1,
                                div as int,
                                grids.calc_setting.mesh_kx as int,
                                grids.calc_setting.mesh_ky as int,
                                k,
                            )
                    }
            }),
    {
        let size = grids.u.len();
        let mesh_kx = grids.calc_setting.mesh_kx;
        let mesh_ky = grids.calc_setting.mesh_ky;
        let div = grids.calc_setting.height_map_div;
        let er = grids.energy_range();
        let ground = er.0;
        let highest = er.1;
        let mut u: Vec<HeightMaps> = Vec::new();
        let mut d: Vec<HeightMaps> = Vec::new();
        let mut anomalies: u64 = 0;
        let mut band: usize = 0;
        while band < size
            invariant
                grids.calc_setting.wf(),
                1 <= size <= 6,
                size == grids.u.len(),
                grids.d.len() == size,
                grids.dims_ok(),
                mesh_kx == grids.calc_setting.mesh_kx,
                mesh_ky == grids.calc_setting.mesh_ky,
                div == grids.calc_setting.height_map_div,
                ground == grids.spec_energy_range().0,
                highest == grids.spec_energy_range().1,
                band <= size,
                u.len() == band,
                d.len() == band,
                anomalies as int == spec_channel_anomalies(
                    grids.u@,
                    ground,
                    highest,
                    div as int,
                    mesh_kx as int,
                    mesh_ky as int,
                    band as int,
                ) + spec_channel_anomalies(
                    grids.d@,
                    ground,
                    highest,
                    div as int,
                    mesh_kx as int,
                    mesh_ky as int,
                    band as int,
                ),
                forall|b: int|
                    0 <= b < band ==> {
                        let hm = #[trigger] u@[b];
                        hm.wf() && hm.ground_energy == ground && hm.highest_energy == highest
                            && hm.div == div && forall|k: int|
                            0 <= k < div ==> (#[trigger] hm.contents@[k]).0@ == spec_level_lines(
                                grids.u@[b],
                                ground,
                                highest,
                                div as int,
                                mesh_kx as int,
                                mesh_ky as int,
                                k,
                            )
                    },
                forall|b: int|
                    0 <= b < band ==> {
                        let hm = #[trigger] d@[b];
                        hm.wf() && hm.ground_energy == ground && hm.highest_energy == highest
                            && hm.div == div && forall|k: int|
                            0 <= k < div ==> (#[trigger] hm.contents@[k]).0@ == spec_level_lines(
                                grids.d@[b],
                                ground,
                                highest,
                                div as int,
                                mesh_kx as int,
                                mesh_ky as int,
                                k,
                            )
                    },
            decreases size - band,
        {
            proof {
                assert(grids.spec_channel(0) == grids.u);
                assert(grids.spec_channel(1) == grids.d);
                assert(crate::honeycomb_grids::grid_dims_ok(
                    grids.u@[band as int],
                    mesh_kx as int,
                    mesh_ky as int,
                ));
                assert(crate::honeycomb_grids::grid_dims_ok(
                    grids.d@[band as int],
                    mesh_kx as int,
                    mesh_ky as int,
                ));
            }
            let (hmu, au) = build_band_height_maps(
                &grids.u[band],
                ground,
                highest,
                div,
                mesh_kx,
                mesh_ky,
            );
            let (hmd, ad) = build_band_height_maps(
                &grids.d[band],
                ground,
                highest,
                div,
                mesh_kx,
                mesh_ky,
            );
            proof {
                lemma_channel_anomalies_bounds(
                    grids.u@,
                    ground,
                    highest,
                    div as int,
                    mesh_kx as int,
                    mesh_ky as int,
                    band as int,
                );
                lemma_channel_anomalies_bounds(
                    grids.d@,
                    ground,
                    highest,
                    div as int,
                    mesh_kx as int,
                    mesh_ky as int,
                    band as int,
                );
                lemma_anomaly_prefix_bounds(
                    grids.u@[band as int],
                    ground,
                    highest,
                    div as int,
                    mesh_kx as int,
                    mesh_ky as int,
                    (mesh_kx - 1) as int * (mesh_ky - 1) as int,
                );
                lemma_anomaly_prefix_bounds(
                    grids.d@[band as int],
                    ground,
                    highest,
                    div as int,
                    mesh_kx as int,
                    mesh_ky as int,
                    (mesh_kx - 1) as int * (mesh_ky - 1) as int,
                );
                assert(2 * (div as int) * ((mesh_kx - 1) as int * (mesh_ky - 1) as int) * (
                band as int) <= 0x40000000000000 && 2 * (div as int) * ((mesh_kx - 1) as int * (
                mesh_ky - 1) as int) <= 0x40000000000000) by (nonlinear_arith)
                    requires
                        div <= 0x10000,
                        mesh_kx <= 0x10000,
                        mesh_ky <= 0x10000,
                        mesh_kx >= 1,
                        mesh_ky >= 1,
                        band <= 6,
                ;
            }
            u.push(hmu);
            d.push(hmd);
            anomalies = anomalies + au + ad;
            band = band + 1;
        }
        AllHeightMaps { u, d, calc_setting: grids.calc_setting, anomalies }
    }

    /// Attach the midpoint quantities of one segment, leaving everything
    /// else as it is.
    pub fn set_line_values(
        &mut self,
        spin: usize,
        band: usize,
        level: usize,
        k: usize,
        berry: Fix,
        anomaly_velocity: Vec2F,
        gm_xx: Fix,
        gm_xy: Fix,
        gm_yy: Fix,
    )
        requires
            spin < 2,
            band < old(self).spec_channel(spin as int).len(),
            level < old(self).spec_channel(spin as int)@[band as int].contents.len(),
            k < old(self).spec_channel(spin as int)@[band as int].contents@[level as int].0.len(),
        ensures
            final(self).calc_setting == old(self).calc_setting,
            final(self).anomalies == old(self).anomalies,
            final(self).spec_channel(1 - spin as int) == old(self).spec_channel(1 - spin as int),
            final(self).spec_channel(spin as int).len() == old(self).spec_channel(
                spin as int,
            ).len(),
            forall|b: int|
                0 <= b < old(self).spec_channel(spin as int).len() && b != band
                    ==> #[trigger] final(self).spec_channel(spin as int)@[b] == old(
                    self,
                ).spec_channel(spin as int)@[b],
            ({
                let oldhm = old(self).spec_channel(spin as int)@[band as int];
                let newhm = final(self).spec_channel(spin as int)@[band as int];
                let oldline = oldhm.contents@[level as int].0@[k as int];
                newhm.ground_energy == oldhm.ground_energy && newhm.highest_energy
                    == oldhm.highest_energy && newhm.div == oldhm.div && newhm.contents.len()
                    == oldhm.contents.len() && (forall|lv: int|
                    0 <= lv < oldhm.contents.len() && lv != level ==> newhm.contents@[lv]
                        == oldhm.contents@[lv]) && newhm.contents@[level as int].0@
                    == oldhm.contents@[level as int].0@.update(
                    k as int,
                    Line {
                        ini: oldline.ini,
                        end: oldline.end,
                        berry: Some(berry),
                        anomaly_velocity: Some(anomaly_velocity),
                        gm_xx: Some(gm_xx),
                        gm_xy: Some(gm_xy),
                        gm_yy: Some(gm_yy),
                    },
                )
            }),
    {
        let channel: &mut Vec<HeightMaps> = if spin == 0 {
            &mut self.u
        } else {
            &mut self.d
        };
        let hm = &mut channel[band];
        let lvl = &mut hm.contents[level];
        let line = &mut lvl.0[k];
        line.berry = Some(berry);
        line.anomaly_velocity = Some(anomaly_velocity);
        line.gm_xx = Some(gm_xx);
        line.gm_xy = Some(gm_xy);
        line.gm_yy = Some(gm_yy);
    }

    /// Number of segments one level of one band holds.
    pub fn line_count(&self, spin: usize, band: usize, level: usize) -> (r: usize)
        requires
            spin < 2,
            band < self.spec_channel(spin as int).len(),
            level < self.spec_channel(spin as int)@[band as int].contents.len(),
        ensures
            r == self.spec_channel(spin as int)@[band as int].contents@[level as int].0.len(),
    {
        let channel = self.index(spin);
        channel[band].contents[level].0.len()
    }

    /// One segment by position.
    pub fn get_line(&self, spin: usize, band: usize, level: usize, k: usize) -> (r: Line)
        requires
            spin < 2,
            band < self.spec_channel(spin as int).len(),
            level < self.spec_channel(spin as int)@[band as int].contents.len(),
            k < self.spec_channel(spin as int)@[band as int].contents@[level as int].0.len(),
        ensures
            r == self.spec_channel(spin as int)@[band as int].contents@[level as int].0@[k as int],
    {
        let channel = self.index(spin);
        channel[band].contents[level].0[k]
    }
}

/// Core rounding fact behind the energy discretization: mapping an offset
/// into `d` buckets and scaling the bucket back loses at most one bucket
/// width plus one raw unit.
proof fn lemma_bucket_round_trip(ee: int, rr: int, d: int)
    requires
        0 <= ee <= rr,
        rr > 0,
        d >= 1,
    ensures
        ({
            let q = ee * d / rr;
            let qc = if q >= d {
                d - 1
            } else {
                q
            };
            let back = rr * qc / d;
            &&& 0 <= q
            &&& 0 <= qc < d
            &&& 0 <= back <= rr
            &&& 0 <= ee - back <= rr / d + 1
        }),
{
    let q = ee * d / rr;
    assert(0 <= ee * d && ee * d <= rr * d) by (nonlinear_arith)
        requires
            0 <= ee <= rr,
            d >= 1,
    ;
    vstd::arithmetic::div_mod::lemma_div_pos_is_pos(ee * d, rr);
    vstd::arithmetic::div_mod::lemma_div_is_ordered(ee * d, rr * d, rr);
    vstd::arithmetic::div_mod::lemma_div_multiples_vanish(d, rr);
    assert(q <= d);
    vstd::arithmetic::div_mod::lemma_fundamental_div_mod(ee * d, rr);
    vstd::arithmetic::div_mod::lemma_mod_division_less_than_divisor(ee * d, rr);
    let r1 = (ee * d) % rr;
    let bwidth = rr / d;
    vstd::arithmetic::div_mod::lemma_fundamental_div_mod(rr, d);
    vstd::arithmetic::div_mod::lemma_mod_division_less_than_divisor(rr, d);
    vstd::arithmetic::div_mod::lemma_div_pos_is_pos(rr, d);
    let sgap = rr % d;
    if q >= d {
        assert(q == d);
        assert(ee == rr) by (nonlinear_arith)
            requires
                ee * d == rr * q + r1,
                q == d,
                0 <= r1 < rr,
                0 <= ee <= rr,
                rr > 0,
                d >= 1,
        ;
        let qc = d - 1;
        let back = rr * qc / d;
        vstd::arithmetic::div_mod::lemma_fundamental_div_mod(rr * qc, d);
        vstd::arithmetic::div_mod::lemma_mod_division_less_than_divisor(rr * qc, d);
        let r2 = (rr * qc) % d;
        assert(0 <= back <= rr && 0 <= ee - back <= bwidth + 1) by (nonlinear_arith)
            requires
                ee == rr,
                rr * qc == d * back + r2,
                0 <= r2 < d,
                rr == d * bwidth + sgap,
                0 <= sgap < d,
                0 <= bwidth,
                qc == d - 1,
                d >= 1,
                rr > 0,
        ;
    } else {
        let qc = q;
        let back = rr * qc / d;
        vstd::arithmetic::div_mod::lemma_fundamental_div_mod(rr * qc, d);
        vstd::arithmetic::div_mod::lemma_mod_division_less_than_divisor(rr * qc, d);
        let r2 = (rr * qc) % d;
        assert(0 <= back <= rr && 0 <= ee - back <= bwidth + 1) by (nonlinear_arith)
            requires
                ee * d == rr * qc + r1,
                0 <= r1 < rr,
                rr * qc == d * back + r2,
                0 <= r2 < d,
                rr == d * bwidth + sgap,
                0 <= sgap < d,
                0 <= bwidth,
                0 <= qc < d,
                d >= 1,
                rr > 0,
                0 <= ee <= rr,
        ;
    }
}

/// The discretization round trip: taking an in-range energy to its level
/// and the level back to an energy recovers the energy to within one
/// discretization bucket width plus one raw rounding unit, never
/// overshooting; and the level always lies in `[0, div - 1]`.
pub proof fn lemma_energy_index_round_trip(ground: Fix, highest: Fix, div: int, e: Fix)
    requires
        ground.raw > i64::MIN,
        ground.raw < highest.raw,
        ground.raw <= e.raw <= highest.raw,
        1 <= div <= 0x10000,
    ensures
        ({
            let idx = spec_energy_2_index(ground, highest, div, e);
            let back = spec_index_2_energy(ground, highest, div, idx);
            &&& 0 <= idx < div
            &&& 0 <= e.raw - back.raw <= tdiv(highest.raw - ground.raw, div) + 1
        }),
{
    let ee = e.raw - ground.raw;
    let rr = highest.raw - ground.raw;
    lemma_bucket_round_trip(ee, rr, div);
    crate::fix::lemma_tdiv_nonneg(ee * div, rr);
    assert(ee * div >= 0) by (nonlinear_arith)
        requires
            ee >= 0,
            div >= 1,
    ;
    let q = tdiv(ee * div, rr);
    let qc = if q >= div {
        div - 1
    } else {
        q
    };
    let idx = spec_energy_2_index(ground, highest, div, e);
    assert(idx == qc);
    assert(rr * qc >= 0) by (nonlinear_arith)
        requires
            rr > 0,
            qc >= 0,
    ;
    crate::fix::lemma_tdiv_nonneg(rr * qc, div);
    crate::fix::lemma_tdiv_nonneg(rr, div);
    let back0 = rr * qc / div;
    assert(0 <= back0 <= rr);
    assert(-(FIX_MAX_RAW as int) <= ground.raw + back0 <= FIX_MAX_RAW as int);
    assert(sat64(ground.raw + back0) == ground.raw + back0);
    assert(spec_index_2_energy(ground, highest, div, idx).raw == ground.raw + back0);
}

/// Every segment a cell emits starts out bare: the midpoint quantities of
/// a freshly extracted contour are all absent until the evaluation pass
/// attaches them together.
proof fn lemma_cell_lines_bare(cell: Cell, energy: Fix)
    ensures
        forall|t: int|
            0 <= t < spec_cell_lines(cell, energy).len() ==> line_bare(
                #[trigger] spec_cell_lines(cell, energy)[t],
            ),
{
}

/// Every segment of a freshly built level bucket is bare.
pub proof fn lemma_extracted_lines_bare(
    g: Grid,
    ground: Fix,
    highest: Fix,
    div: int,
    mesh_kx: int,
    mesh_ky: int,
    k: int,
    cc: int,
)
    ensures
        forall|t: int|
            0 <= t < spec_level_prefix(g, ground, highest, div, mesh_kx, mesh_ky, k, cc).len()
                ==> line_bare(
                #[trigger] spec_level_prefix(g, ground, highest, div, mesh_kx, mesh_ky, k, cc)[t],
            ),
    decreases cc,
{
    if cc <= 0 {
    } else {
        lemma_extracted_lines_bare(g, ground, highest, div, mesh_kx, mesh_ky, k, cc - 1);
        let i = (cc - 1) / (mesh_ky - 1);
        let j = (cc - 1) % (mesh_ky - 1);
        let cell = spec_cell_from_grid(g, i, j, mesh_kx, mesh_ky);
        let energy = spec_index_2_energy(ground, highest, div, k);
        lemma_cell_lines_bare(cell, energy);
        let prev = spec_level_prefix(g, ground, highest, div, mesh_kx, mesh_ky, k, cc - 1);
        let cur = spec_level_prefix(g, ground, highest, div, mesh_kx, mesh_ky, k, cc);
        assert forall|t: int| 0 <= t < cur.len() implies line_bare(cur[t]) by {
            if spec_covers(cell, ground, highest, div, k) {
                if t < prev.len() {
                    assert(cur[t] == prev[t]);
                } else {
                    assert(cur[t] == spec_cell_lines(cell, energy)[t - prev.len()]);
                }
            }
        }
    }
}

} // verus!
