//! Two-component fixed-point vectors in Cartesian reciprocal space.

use vstd::prelude::*;
use crate::fix::{
    Fix, sat64, sqrt_floor, is_sqrt_floor, fix_mul_spec, isqrt_u128, lemma_sqrt_floor_unique,
    FIX_MAX_RAW,
};
use crate::cpx::{spec_fadd, spec_fsub, spec_fneg, spec_fmul};

verus! {

#[derive(Clone, Copy, PartialEq, Eq, Structural, Debug)]
pub struct Vec2F {
    pub x: Fix,
    pub y: Fix,
}

pub open spec fn spec_vadd(a: Vec2F, b: Vec2F) -> Vec2F {
    Vec2F { x: spec_fadd(a.x, b.x), y: spec_fadd(a.y, b.y) }
}

pub open spec fn spec_vsub(a: Vec2F, b: Vec2F) -> Vec2F {
    Vec2F { x: spec_fsub(a.x, b.x), y: spec_fsub(a.y, b.y) }
}

pub open spec fn spec_vneg(a: Vec2F) -> Vec2F {
    Vec2F { x: spec_fneg(a.x), y: spec_fneg(a.y) }
}

pub open spec fn spec_vscale(a: Vec2F, f: Fix) -> Vec2F {
    Vec2F { x: spec_fmul(a.x, f), y: spec_fmul(a.y, f) }
}

/// Distance between two points: the saturated floor square root of the sum
/// of the squared saturated component differences.
pub open spec fn spec_dist(a: Vec2F, b: Vec2F) -> int {
    let dx = sat64(a.x.raw - b.x.raw);
    let dy = sat64(a.y.raw - b.y.raw);
    sat64(sqrt_floor(dx * dx + dy * dy))
}

impl Vec2F {
    pub fn new(x: Fix, y: Fix) -> (r: Vec2F)
        ensures
            r == (Vec2F { x, y }),
    {
        Vec2F { x, y }
    }

    pub fn zero() -> (r: Vec2F)
        ensures
            r.x.raw == 0 && r.y.raw == 0,
    {
        Vec2F { x: Fix { raw: 0 }, y: Fix { raw: 0 } }
    }

    pub fn add(self, o: Vec2F) -> (r: Vec2F)
        ensures
            r.x == spec_fadd(self.x, o.x),
            r.y == spec_fadd(self.y, o.y),
    {
        Vec2F { x: self.x.add(o.x), y: self.y.add(o.y) }
    }

    pub fn sub(self, o: Vec2F) -> (r: Vec2F)
        ensures
            r.x == spec_fsub(self.x, o.x),
            r.y == spec_fsub(self.y, o.y),
    {
        Vec2F { x: self.x.sub(o.x), y: self.y.sub(o.y) }
    }

    pub fn neg(self) -> (r: Vec2F)
        ensures
            r.x == spec_fneg(self.x),
            r.y == spec_fneg(self.y),
    {
        Vec2F { x: self.x.neg(), y: self.y.neg() }
    }

    pub fn scale(self, f: Fix) -> (r: Vec2F)
        ensures
            r.x == spec_fmul(self.x, f),
            r.y == spec_fmul(self.y, f),
    {
        Vec2F { x: self.x.mul(f), y: self.y.mul(f) }
    }

    /// Midpoint of the segment from `self` to `o`: each component is the
    /// truncated half of the saturated sum.
    pub fn midpoint(self, o: Vec2F) -> (r: Vec2F)
        ensures
            r.x.raw as int == crate::fix::tdiv(sat64(self.x.raw + o.x.raw), 2),
            r.y.raw as int == crate::fix::tdiv(sat64(self.y.raw + o.y.raw), 2),
    {
        let sx = self.x.add(o.x);
        let sy = self.y.add(o.y);
        Vec2F { x: half(sx), y: half(sy) }
    }

    /// Euclidean distance to `o`.
    pub fn dist(self, o: Vec2F) -> (r: Fix)
        ensures
            r.raw as int == spec_dist(self, o),
            r.raw >= 0,
    {
        let dx = self.x.sub(o.x);
        let dy = self.y.sub(o.y);
        let ax: u64 = if dx.raw >= 0 {
            dx.raw as u64
        } else {
            (-dx.raw) as u64
        };
        let ay: u64 = if dy.raw >= 0 {
            dy.raw as u64
        } else {
            (-dy.raw) as u64
        };
        let axw: u128 = ax as u128;
        let ayw: u128 = ay as u128;
        proof {
            assert((axw as int) * (axw as int) == (dx.raw as int) * (dx.raw as int)
                && (ayw as int) * (ayw as int) == (dy.raw as int) * (dy.raw as int)
                && 0 <= (axw as int) * (axw as int) < 0x40000000000000000000000000000000
                && 0 <= (ayw as int) * (ayw as int) < 0x40000000000000000000000000000000)
                by (nonlinear_arith)
                requires
                    axw as int == if dx.raw >= 0 { dx.raw as int } else { -(dx.raw as int) },
                    ayw as int == if dy.raw >= 0 { dy.raw as int } else { -(dy.raw as int) },
                    -FIX_MAX_RAW <= dx.raw <= FIX_MAX_RAW,
                    -FIX_MAX_RAW <= dy.raw <= FIX_MAX_RAW,
            ;
        }
        let m: u128 = axw * axw + ayw * ayw;
        let root = isqrt_u128(m);
        proof {
            lemma_sqrt_floor_unique(m as int, root as int);
        }
        if root > FIX_MAX_RAW as u64 {
            Fix { raw: FIX_MAX_RAW }
        } else {
            Fix { raw: root as i64 }
        }
    }
}

/// Truncated halving of a raw value.
fn half(a: Fix) -> (r: Fix)
    requires
        a.raw > i64::MIN,
    ensures
        r.raw as int == crate::fix::tdiv(a.raw as int, 2),
{
    if a.raw >= 0 {
        Fix { raw: ((a.raw as u64) / 2) as i64 }
    } else {
        Fix { raw: -((((-a.raw) as u64) / 2) as i64) }
    }
}

} // verus!
