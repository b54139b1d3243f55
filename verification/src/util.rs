//! Brillouin-zone sampling: characteristic reciprocal-space points, tile
//! descriptions, the map from grid indices to momenta, and the mesh cell
//! area used to normalize curvature integrals.

use vstd::prelude::*;
use crate::fix::{Fix, tdiv, FIX_ONE};
use crate::cpx::{spec_fadd, spec_fmul, spec_fsub};
use crate::vec2::{Vec2F, spec_vneg, spec_dist};
use crate::dv2::{
    DV2, spec_dv2_add, spec_dv2_sub, spec_dv2_scale, spec_from_car, spec_to_car, SQRT3_HALF,
};

verus! {

/// K point of the 6-orbital zone, x component; also its K' and M share it.
pub const KS6_KX: i64 = 1298368158;

/// K point of the 6-orbital zone, y component.
pub const KS6_KY: i64 = 749613206;

/// K'' point of the 6-orbital zone, y component.
pub const KS6_KPP_Y: i64 = -1499226412;

/// K and K' points of the 2-orbital zone, x component.
pub const KS2_KX: i64 = 1298368158;

/// K point of the 2-orbital zone, y component.
pub const KS2_KY: i64 = 2248839617;

/// K point on the x axis of the 2-orbital zone.
pub const KS2_KIN_X: i64 = 2596736317;

/// M point of the 2-orbital zone.
pub const KS2_M_X: i64 = 1947552238;

pub const KS2_M_Y: i64 = 1124419809;

pub open spec fn spec_kp(size: int) -> Vec2F {
    if size == 2 {
        Vec2F { x: Fix { raw: KS2_KX }, y: Fix { raw: KS2_KY } }
    } else {
        Vec2F { x: Fix { raw: KS6_KX }, y: Fix { raw: KS6_KY } }
    }
}

pub open spec fn spec_kpp(size: int) -> Vec2F {
    if size == 2 {
        Vec2F { x: Fix { raw: KS2_KX }, y: Fix { raw: (-KS2_KY) as i64 } }
    } else {
        Vec2F { x: Fix { raw: 0 }, y: Fix { raw: KS6_KPP_Y } }
    }
}

pub open spec fn spec_k_point(size: int) -> Vec2F {
    if size == 2 {
        Vec2F { x: Fix { raw: KS2_KIN_X }, y: Fix { raw: 0 } }
    } else {
        Vec2F { x: Fix { raw: KS6_KX }, y: Fix { raw: (-KS6_KY) as i64 } }
    }
}

pub open spec fn spec_m_point(size: int) -> Vec2F {
    if size == 2 {
        Vec2F { x: Fix { raw: KS2_M_X }, y: Fix { raw: KS2_M_Y } }
    } else {
        Vec2F { x: Fix { raw: KS6_KX }, y: Fix { raw: 0 } }
    }
}

/// The K' point adapted to the lattice size.
pub fn kp(size: usize) -> (r: Vec2F)
    requires
        size == 2 || size == 6,
    ensures
        r == spec_kp(size as int),
{
    if size == 2 {
        Vec2F { x: Fix { raw: KS2_KX }, y: Fix { raw: KS2_KY } }
    } else {
        Vec2F { x: Fix { raw: KS6_KX }, y: Fix { raw: KS6_KY } }
    }
}

/// The K'' point adapted to the lattice size.
pub fn kpp(size: usize) -> (r: Vec2F)
    requires
        size == 2 || size == 6,
    ensures
        r == spec_kpp(size as int),
{
    if size == 2 {
        Vec2F { x: Fix { raw: KS2_KX }, y: Fix { raw: -KS2_KY } }
    } else {
        Vec2F { x: Fix { raw: 0 }, y: Fix { raw: KS6_KPP_Y } }
    }
}

/// The zone centre.
pub fn gamma(size: usize) -> (r: Vec2F)
    requires
        size == 2 || size == 6,
    ensures
        r.x.raw == 0 && r.y.raw == 0,
{
    Vec2F::zero()
}

/// The K point adapted to the lattice size.
pub fn k(size: usize) -> (r: Vec2F)
    requires
        size == 2 || size == 6,
    ensures
        r == spec_k_point(size as int),
{
    if size == 2 {
        Vec2F { x: Fix { raw: KS2_KIN_X }, y: Fix { raw: 0 } }
    } else {
        Vec2F { x: Fix { raw: KS6_KX }, y: Fix { raw: -KS6_KY } }
    }
}

/// The M point adapted to the lattice size.
pub fn m(size: usize) -> (r: Vec2F)
    requires
        size == 2 || size == 6,
    ensures
        r == spec_m_point(size as int),
{
    if size == 2 {
        Vec2F { x: Fix { raw: KS2_M_X }, y: Fix { raw: KS2_M_Y } }
    } else {
        Vec2F { x: Fix { raw: KS6_KX }, y: Fix { raw: 0 } }
    }
}

/// The fixed-point fraction `num / den` of two small integers.
pub open spec fn spec_frac(num: int, den: int) -> Fix {
    Fix { raw: tdiv(num * FIX_ONE, den) as i64 }
}

/// `num / den` as a fixed-point value, for the mesh-sized integers of a
/// tile description.
pub fn frac_fix(num: usize, den: usize) -> (r: Fix)
    requires
        1 <= den <= 0x10000,
        num <= 0x10000,
    ensures
        r == spec_frac(num as int, den as int),
        r.raw >= 0,
{
    proof {
        assert((num as int) * (FIX_ONE as int) <= 0x400000000000) by (nonlinear_arith)
            requires
                num <= 0x10000,
                FIX_ONE == 1073741824,
        ;
    }
    let prod: u64 = (num as u64) * (FIX_ONE as u64);
    let q: u64 = prod / (den as u64);
    proof {
        assert(0 <= (prod as int) / (den as int) <= prod as int) by (nonlinear_arith)
            requires
                den >= 1,
                prod >= 0,
        ;
    }
    Fix { raw: q as i64 }
}

/// One rectangular tile of the zone: the origin offset and the per-axis
/// scale, both as fractions of the full zone, and optionally the global
/// energy range shared across tiles.
#[derive(Clone, Copy, Debug)]
pub struct GridInfo {
    pub ini: Vec2F,
    pub dxy: Vec2F,
    pub energy_range: Option<(Fix, Fix)>,
}

impl GridInfo {
    pub fn new(ini_x: Fix, ini_y: Fix, delta_x: Fix, delta_y: Fix, energy_range: Option<(Fix, Fix)>)
        -> (r: GridInfo)
        ensures
            r.ini == (Vec2F { x: ini_x, y: ini_y }),
            r.dxy == (Vec2F { x: delta_x, y: delta_y }),
            r.energy_range == energy_range,
    {
        GridInfo { ini: Vec2F { x: ini_x, y: ini_y }, dxy: Vec2F { x: delta_x, y: delta_y }, energy_range }
    }

    /// The tile at position `(i, j)` of an `ni` by `nj` tiling.
    pub fn new_ijn(i: usize, j: usize, ni: usize, nj: usize, energy_range: Option<(Fix, Fix)>) -> (r:
        GridInfo)
        requires
            1 <= ni <= 0x10000,
            1 <= nj <= 0x10000,
            i <= ni,
            j <= nj,
        ensures
            r.ini.x == spec_frac(i as int, ni as int),
            r.ini.y == spec_frac(j as int, nj as int),
            r.dxy.x == spec_frac(1, ni as int),
            r.dxy.y == spec_frac(1, nj as int),
            r.energy_range == energy_range,
    {
        GridInfo {
            ini: Vec2F { x: frac_fix(i, ni), y: frac_fix(j, nj) },
            dxy: Vec2F { x: frac_fix(1, ni), y: frac_fix(1, nj) },
            energy_range,
        }
    }

    /// The whole zone as a single tile.
    pub fn no_divide() -> (r: GridInfo)
        ensures
            r.ini.x.raw == 0,
            r.ini.y.raw == 0,
            r.dxy.x.raw == FIX_ONE,
            r.dxy.y.raw == FIX_ONE,
            r.energy_range is None,
    {
        let r = GridInfo::new_ijn(0, 0, 1, 1, None);
        proof {
            vstd::arithmetic::div_mod::lemma_div_basics(FIX_ONE as int);
            vstd::arithmetic::div_mod::lemma_div_basics(0);
            assert(tdiv(1 * FIX_ONE, 1) == FIX_ONE);
            assert(tdiv(0 * FIX_ONE, 1) == 0);
        }
        r
    }
}

/// The signed cross product `(b - a) x (x - a)` used for the in-triangle
/// test.
pub open spec fn spec_cross(a: Vec2F, b: Vec2F, x: Vec2F) -> Fix {
    spec_fsub(
        spec_fmul(spec_fsub(b.x, a.x), spec_fsub(x.y, a.y)),
        spec_fmul(spec_fsub(b.y, a.y), spec_fsub(x.x, a.x)),
    )
}

pub open spec fn spec_point_in_triangle(x: Vec2F, a: Vec2F, b: Vec2F, c: Vec2F) -> bool {
    let ab = spec_cross(a, b, x);
    let bc = spec_cross(b, c, x);
    let ca = spec_cross(c, a, x);
    (ab.raw >= 0 && bc.raw >= 0 && ca.raw >= 0) || (ab.raw <= 0 && bc.raw <= 0 && ca.raw <= 0)
}

fn cross(a: Vec2F, b: Vec2F, x: Vec2F) -> (r: Fix)
    ensures
        r == spec_cross(a, b, x),
{
    b.x.sub(a.x).mul(x.y.sub(a.y)).sub(b.y.sub(a.y).mul(x.x.sub(a.x)))
}

/// Whether `x` lies inside (or on the border of) the triangle `a b c`:
/// all three edge cross products carry one sign.
pub fn point_in_triangle_simple(x: Vec2F, a: Vec2F, b: Vec2F, c: Vec2F) -> (r: bool)
    ensures
        r == spec_point_in_triangle(x, a, b, c),
{
    let cross_ab_ax = cross(a, b, x);
    let cross_bc_bx = cross(b, c, x);
    let cross_ca_cx = cross(c, a, x);
    let all_non_negative = cross_ab_ax.raw >= 0 && cross_bc_bx.raw >= 0 && cross_ca_cx.raw >= 0;
    let all_non_positive = cross_ab_ax.raw <= 0 && cross_bc_bx.raw <= 0 && cross_ca_cx.raw <= 0;
    all_non_negative || all_non_positive
}

/// First oblique basis vector of the sampled zone.
pub open spec fn spec_zone_k1(size: int) -> DV2 {
    spec_dv2_sub(
        spec_from_car(spec_kpp(size), size),
        spec_from_car(spec_vneg(spec_k_point(size)), size),
    )
}

/// Second oblique basis vector of the sampled zone.
pub open spec fn spec_zone_k2(size: int) -> DV2 {
    spec_dv2_sub(
        spec_from_car(spec_kp(size), size),
        spec_from_car(spec_vneg(spec_k_point(size)), size),
    )
}

/// The momentum of grid index `(i, j)`: the tile origin plus the scaled
/// oblique fractions, folded into the hexagonal zone when `hex` is set.
pub open spec fn spec_i_j_to_kk(
    i: int,
    j: int,
    mesh_kx: int,
    mesh_ky: int,
    hex: bool,
    size: int,
    grid_info: GridInfo,
) -> Vec2F {
    let mk = spec_from_car(spec_vneg(spec_k_point(size)), size);
    let k1 = spec_zone_k1(size);
    let k2 = spec_zone_k2(size);
    let ini = spec_dv2_add(
        spec_dv2_add(spec_dv2_scale(k1, grid_info.ini.x), spec_dv2_scale(k2, grid_info.ini.y)),
        mk,
    );
    let k1g = spec_dv2_scale(k1, grid_info.dxy.x);
    let k2g = spec_dv2_scale(k2, grid_info.dxy.y);
    let if64 = spec_frac(i, mesh_kx);
    let jf64 = spec_frac(j, mesh_ky);
    let kk0 = spec_dv2_add(
        spec_dv2_add(spec_dv2_scale(k1g, if64), spec_dv2_scale(k2g, jf64)),
        ini,
    );
    let kk = if hex {
        let car = spec_to_car(kk0, size);
        let kv = spec_k_point(size);
        let k2v = Vec2F { x: spec_fadd(kv.x, kv.x), y: spec_fadd(kv.y, kv.y) };
        if spec_point_in_triangle(car, kv, k2v, spec_kpp(size)) {
            spec_dv2_sub(kk0, k1)
        } else if spec_point_in_triangle(car, kv, k2v, spec_kp(size)) {
            spec_dv2_sub(kk0, k2)
        } else {
            kk0
        }
    } else {
        kk0
    };
    spec_to_car(kk, size)
}

/// Momentum of grid index `(i, j)` on a `mesh_kx` by `mesh_ky` mesh over the
/// tile `grid_info`.
pub fn i_j_to_kk(
    i: usize,
    j: usize,
    mesh_kx: usize,
    mesh_ky: usize,
    hex: bool,
    size: usize,
    grid_info: GridInfo,
) -> (r: Vec2F)
    requires
        size == 2 || size == 6,
        1 <= mesh_kx <= 0x10000,
        1 <= mesh_ky <= 0x10000,
        i <= mesh_kx,
        j <= mesh_ky,
    ensures
        r == spec_i_j_to_kk(
            i as int,
            j as int,
            mesh_kx as int,
            mesh_ky as int,
            hex,
            size as int,
            grid_info,
        ),
{
    let mk = DV2::from_car(k(size).neg(), size);
    let k1 = DV2::from_car(kpp(size), size).sub(mk);
    let k2 = DV2::from_car(kp(size), size).sub(mk);
    let ini = k1.scale(grid_info.ini.x).add(k2.scale(grid_info.ini.y)).add(mk);
    let k1g = k1.scale(grid_info.dxy.x);
    let k2g = k2.scale(grid_info.dxy.y);
    let if64 = frac_fix(i, mesh_kx);
    let jf64 = frac_fix(j, mesh_ky);
    let mut kk_dv2 = k1g.scale(if64).add(k2g.scale(jf64)).add(ini);
    if hex {
        let car = kk_dv2.to_car(size);
        let kv = k(size);
        let k2v = kv.add(kv);
        if point_in_triangle_simple(car, kv, k2v, kpp(size)) {
            kk_dv2 = kk_dv2.sub(k1);
        } else if point_in_triangle_simple(car, kv, k2v, kp(size)) {
            kk_dv2 = kk_dv2.sub(k2);
        }
    }
    kk_dv2.to_car(size)
}

/// Area of one mesh cell in reciprocal space.
pub open spec fn spec_cal_cell_area(mesh_kx: int, mesh_ky: int, size: int) -> Fix {
    let l1 = spec_dist(spec_to_car(spec_zone_k1(size), size), Vec2F { x: Fix { raw: 0 }, y: Fix { raw: 0 } });
    let l2 = spec_dist(spec_to_car(spec_zone_k2(size), size), Vec2F { x: Fix { raw: 0 }, y: Fix { raw: 0 } });
    let s1 = Fix {
        raw: crate::fix::fix_div_spec(l1, mesh_kx * FIX_ONE) as i64,
    };
    let s2 = Fix {
        raw: crate::fix::fix_div_spec(l2, mesh_ky * FIX_ONE) as i64,
    };
    spec_fmul(spec_fmul(s1, s2), Fix { raw: SQRT3_HALF })
}

/// Area of one mesh cell: the two basis-vector lengths over the mesh
/// resolutions, times `sqrt(3)/2`.
pub fn cal_cell_area(mesh_kx: usize, mesh_ky: usize, size: usize) -> (r: Fix)
    requires
        size == 2 || size == 6,
        1 <= mesh_kx <= 0x10000,
        1 <= mesh_ky <= 0x10000,
    ensures
        r == spec_cal_cell_area(mesh_kx as int, mesh_ky as int, size as int),

{
    let mk = DV2::from_car(k(size).neg(), size);
    let k1 = DV2::from_car(kpp(size), size).sub(mk);
    let k2 = DV2::from_car(kp(size), size).sub(mk);
    let l1 = k1.to_car(size).dist(Vec2F::zero());
    let l2 = k2.to_car(size).dist(Vec2F::zero());
    let mx = Fix { raw: (mesh_kx as i64) * FIX_ONE };
    let my = Fix { raw: (mesh_ky as i64) * FIX_ONE };
    let s1 = l1.div(mx);
    let s2 = l2.div(my);
    s1.mul(s2).mul(Fix { raw: SQRT3_HALF })
}

} // verus!
