//! Oblique reciprocal-lattice coordinates.
//!
//! The Brillouin zone is sampled along two skewed basis vectors; which
//! basis depends on the lattice size (2- versus 6-orbital unit cell).
//! Conversions to and from Cartesian momentum use fixed-point images of the
//! exact irrational coefficients.

use vstd::prelude::*;
use crate::fix::{Fix, FIX_ONE};
use crate::cpx::{spec_fadd, spec_fsub, spec_fneg, spec_fmul};
use crate::vec2::Vec2F;

verus! {

/// Fixed-point image of `sqrt(3)/2`.
pub const SQRT3_HALF: i64 = 929887697;

/// Fixed-point image of `1/2`.
pub const HALF: i64 = 536870912;

/// Fixed-point image of `1/sqrt(3)`.
pub const INV_SQRT3: i64 = 619925131;

/// Fixed-point image of `2/sqrt(3)`.
pub const TWO_INV_SQRT3: i64 = 1239850262;

/// A point in the skewed coordinate system.
#[derive(Clone, Copy, PartialEq, Eq, Structural, Debug)]
pub struct DV2 {
    pub x: Fix,
    pub y: Fix,
}

pub open spec fn spec_dv2_add(a: DV2, b: DV2) -> DV2 {
    DV2 { x: spec_fadd(a.x, b.x), y: spec_fadd(a.y, b.y) }
}

pub open spec fn spec_dv2_sub(a: DV2, b: DV2) -> DV2 {
    DV2 { x: spec_fsub(a.x, b.x), y: spec_fsub(a.y, b.y) }
}

pub open spec fn spec_dv2_scale(a: DV2, f: Fix) -> DV2 {
    DV2 { x: spec_fmul(a.x, f), y: spec_fmul(a.y, f) }
}

/// Dot product of a Cartesian point with a constant row vector.
pub open spec fn spec_dot2(px: Fix, py: Fix, cx: Fix, cy: Fix) -> Fix {
    spec_fadd(spec_fmul(px, cx), spec_fmul(py, cy))
}

/// Cartesian to oblique, with the lattice-size-dependent basis.
pub open spec fn spec_from_car(p: Vec2F, size: int) -> DV2 {
    if size == 2 {
        DV2 {
            x: spec_dot2(p.x, p.y, Fix { raw: INV_SQRT3 }, Fix { raw: (-FIX_ONE) as i64 }),
            y: spec_dot2(p.x, p.y, Fix { raw: INV_SQRT3 }, Fix { raw: FIX_ONE }),
        }
    } else {
        DV2 {
            x: spec_dot2(p.x, p.y, Fix { raw: 0 }, Fix { raw: (-TWO_INV_SQRT3) as i64 }),
            y: spec_dot2(p.x, p.y, Fix { raw: FIX_ONE }, Fix { raw: INV_SQRT3 }),
        }
    }
}

/// Oblique back to Cartesian, with the matching basis.
pub open spec fn spec_to_car(d: DV2, size: int) -> Vec2F {
    if size == 2 {
        Vec2F {
            x: spec_fadd(
                spec_fmul(d.x, Fix { raw: SQRT3_HALF }),
                spec_fmul(d.y, Fix { raw: SQRT3_HALF }),
            ),
            y: spec_fadd(
                spec_fmul(d.x, Fix { raw: (-HALF) as i64 }),
                spec_fmul(d.y, Fix { raw: HALF }),
            ),
        }
    } else {
        Vec2F {
            x: spec_fadd(
                spec_fmul(d.x, Fix { raw: HALF }),
                spec_fmul(d.y, Fix { raw: FIX_ONE }),
            ),
            y: spec_fadd(spec_fmul(d.x, Fix { raw: (-SQRT3_HALF) as i64 }), spec_fmul(d.y, Fix { raw: 0 })),
        }
    }
}

impl DV2 {
    pub fn new(x: Fix, y: Fix) -> (r: DV2)
        ensures
            r == (DV2 { x, y }),
    {
        DV2 { x, y }
    }

    pub fn from_car(xy_c: Vec2F, system_size: usize) -> (r: DV2)
        requires
            system_size == 2 || system_size == 6,
        ensures
            r == spec_from_car(xy_c, system_size as int),
    {
        if system_size == 2 {
            DV2 {
                x: xy_c.x.mul(Fix { raw: INV_SQRT3 }).add(xy_c.y.mul(Fix { raw: -FIX_ONE })),
                y: xy_c.x.mul(Fix { raw: INV_SQRT3 }).add(xy_c.y.mul(Fix { raw: FIX_ONE })),
            }
        } else {
            DV2 {
                x: xy_c.x.mul(Fix { raw: 0 }).add(xy_c.y.mul(Fix { raw: -TWO_INV_SQRT3 })),
                y: xy_c.x.mul(Fix { raw: FIX_ONE }).add(xy_c.y.mul(Fix { raw: INV_SQRT3 })),
            }
        }
    }

    pub fn to_car(self, system_size: usize) -> (r: Vec2F)
        requires
            system_size == 2 || system_size == 6,
        ensures
            r == spec_to_car(self, system_size as int),
    {
        if system_size == 2 {
            Vec2F {
                x: self.x.mul(Fix { raw: SQRT3_HALF }).add(self.y.mul(Fix { raw: SQRT3_HALF })),
                y: self.x.mul(Fix { raw: -HALF }).add(self.y.mul(Fix { raw: HALF })),
            }
        } else {
            Vec2F {
                x: self.x.mul(Fix { raw: HALF }).add(self.y.mul(Fix { raw: FIX_ONE })),
                y: self.x.mul(Fix { raw: -SQRT3_HALF }).add(self.y.mul(Fix { raw: 0 })),
            }
        }
    }

    pub fn add(self, other: DV2) -> (r: DV2)
        ensures
            r.x == spec_fadd(self.x, other.x),
            r.y == spec_fadd(self.y, other.y),
    {
        DV2 { x: self.x.add(other.x), y: self.y.add(other.y) }
    }

    pub fn sub(self, other: DV2) -> (r: DV2)
        ensures
            r.x == spec_fsub(self.x, other.x),
            r.y == spec_fsub(self.y, other.y),
    {
        DV2 { x: self.x.sub(other.x), y: self.y.sub(other.y) }
    }

    pub fn scale(self, rhs: Fix) -> (r: DV2)
        ensures
            r.x == spec_fmul(self.x, rhs),
            r.y == spec_fmul(self.y, rhs),
    {
        DV2 { x: self.x.mul(rhs), y: self.y.mul(rhs) }
    }

    pub fn neg(self) -> (r: DV2)
        ensures
            r.x == spec_fneg(self.x),
            r.y == spec_fneg(self.y),
    {
        DV2 { x: self.x.neg(), y: self.y.neg() }
    }
}

} // verus!
