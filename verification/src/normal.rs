//! Outward surface orientation at a hit point: a unit vector with
//! reflection and the small offset used to keep shadow rays from
//! intersecting the surface they start on.

use vstd::prelude::*;
use crate::num::{Fx, SCALE, iabs, fmul, lemma_fmul_le};
use crate::coords::{Vector, Point, UnitVector, vec_wf, vec_dot_wf, uv_wf, vdot, vadd, vscale,
    vnormed, vmsq, lemma_uv_comp_bound, VEC_LIM, MIN_NORM_MSQ};

verus! {

/// Raw offset used by `over_point`: about 1e-8 in real units.
pub const OVER_EPS: i64 = 43;

/// An outward surface direction of unit length.
#[derive(Clone, Copy, PartialEq, Eq, Structural, Debug)]
pub struct Normal {
    pub u: UnitVector,
}

/// The reflection of `v` about the normal direction `n`:
/// `-v + n * (2 * dot(v, n))`.
pub open spec fn vreflect(n: Vector, v: Vector) -> Vector {
    Vector {
        x: Fx { raw: (fmul(n.x@, 2 * vdot(v, n)) - v.x@) as i64 },
        y: Fx { raw: (fmul(n.y@, 2 * vdot(v, n)) - v.y@) as i64 },
        z: Fx { raw: (fmul(n.z@, 2 * vdot(v, n)) - v.z@) as i64 },
    }
}

/// The point biased a little along the normal.
pub open spec fn over_point_of(n: Normal, p: Point) -> Point {
    Point { v: vadd(p.v, vscale(n.u.v, OVER_EPS as int)) }
}

/// The opposite orientation.
pub open spec fn nflip(n: Normal) -> Normal {
    Normal { u: UnitVector { v: crate::coords::vflip(n.u.v) } }
}

impl Normal {
    /// The normal along a raw direction vector, by normalization.
    pub fn from_vector(value: &Vector) -> (r: Normal)
        requires
            vec_dot_wf(*value),
            vmsq(*value) >= MIN_NORM_MSQ,
        ensures
            r.u.v == vnormed(*value),
            uv_wf(r.u),
    {
        Normal { u: value.normalize() }
    }

    /// The wrapped unit vector.
    pub fn as_unit(&self) -> (r: UnitVector)
        ensures
            r == self.u,
    {
        self.u
    }

    /// Dot product of the normal direction with a vector.
    pub fn dot(&self, v: &Vector) -> (r: Fx)
        requires
            uv_wf(self.u),
            vec_dot_wf(*v),
        ensures
            r@ == vdot(self.u.v, *v),
    {
        proof {
            lemma_uv_comp_bound(self.u);
        }
        self.u.v().dot(*v)
    }

    /// Reflects an incoming vector about the surface orientation.
    pub fn reflect(&self, incoming: &Vector) -> (r: Vector)
        requires
            uv_wf(self.u),
            vec_wf(*incoming),
        ensures
            r == vreflect(self.u.v, *incoming),
    {
        proof {
            lemma_uv_comp_bound(self.u);
            lemma_reflect_bounds(self.u.v, *incoming);
        }
        let d = incoming.dot(self.u.v());
        let d2 = d.add(d);
        let n = self.u.v();
        Vector {
            x: n.x.mul(d2).sub(incoming.x),
            y: n.y.mul(d2).sub(incoming.y),
            z: n.z.mul(d2).sub(incoming.z),
        }
    }

    /// The opposite orientation.
    pub fn flip(&self) -> (r: Normal)
        requires
            uv_wf(self.u),
        ensures
            r.u.v.x@ == -self.u.v.x@,
            r.u.v.y@ == -self.u.v.y@,
            r.u.v.z@ == -self.u.v.z@,
            uv_wf(r.u),
    {
        Normal { u: self.u.flip() }
    }

    /// The point moved a small step along the normal, so that a
    /// secondary ray starting there does not hit the surface it left.
    pub fn over_point(&self, point: &Point) -> (r: Point)
        requires
            uv_wf(self.u),
            vec_wf(point.v),
        ensures
            r == over_point_of(*self, *point),
            iabs(r.v.x@) <= iabs(point.v.x@) + 44,
            iabs(r.v.y@) <= iabs(point.v.y@) + 44,
            iabs(r.v.z@) <= iabs(point.v.z@) + 44,
    {
        proof {
            lemma_uv_comp_bound(self.u);
            lemma_fmul_le(self.u.v.x@, OVER_EPS as int, SCALE as int + 20, OVER_EPS as int);
            lemma_fmul_le(self.u.v.y@, OVER_EPS as int, SCALE as int + 20, OVER_EPS as int);
            lemma_fmul_le(self.u.v.z@, OVER_EPS as int, SCALE as int + 20, OVER_EPS as int);
            assert(((SCALE as int + 20) * (OVER_EPS as int)) / (SCALE as int) == 43);
        }
        let eps = Fx::from_raw(OVER_EPS);
        let offset = self.u.v().scale(eps);
        point.add_vector(offset)
    }
}

/// The reflection of one near-unit vector about another stays small.
pub proof fn lemma_reflect_unit_bounds(n: Vector, v: Vector)
    requires
        iabs(n.x@) <= SCALE as int + 20,
        iabs(n.y@) <= SCALE as int + 20,
        iabs(n.z@) <= SCALE as int + 20,
        iabs(v.x@) <= SCALE as int + 20,
        iabs(v.y@) <= SCALE as int + 20,
        iabs(v.z@) <= SCALE as int + 20,
    ensures
        iabs(vreflect(n, v).x@) <= 10 * SCALE,
        iabs(vreflect(n, v).y@) <= 10 * SCALE,
        iabs(vreflect(n, v).z@) <= 10 * SCALE,
        vec_dot_wf(vreflect(n, v)),
        iabs(vdot(v, n)) <= 4 * SCALE,
{
    lemma_fmul_le(v.x@, n.x@, SCALE as int + 20, SCALE as int + 20);
    lemma_fmul_le(v.y@, n.y@, SCALE as int + 20, SCALE as int + 20);
    lemma_fmul_le(v.z@, n.z@, SCALE as int + 20, SCALE as int + 20);
    assert(((SCALE as int + 20) * (SCALE as int + 20)) / (SCALE as int) == 0x1_0000_0028) by (nonlinear_arith);
    let d = vdot(v, n);
    lemma_fmul_le(n.x@, 2 * d, SCALE as int + 20, 8 * SCALE as int);
    lemma_fmul_le(n.y@, 2 * d, SCALE as int + 20, 8 * SCALE as int);
    lemma_fmul_le(n.z@, 2 * d, SCALE as int + 20, 8 * SCALE as int);
    assert(((SCALE as int + 20) * (8 * SCALE as int)) / (SCALE as int) == 0x8_0000_00A0) by (nonlinear_arith);
}

/// Bounds that make a reflection computable without overflow.
proof fn lemma_reflect_bounds(n: Vector, v: Vector)
    requires
        iabs(n.x@) <= SCALE as int + 20,
        iabs(n.y@) <= SCALE as int + 20,
        iabs(n.z@) <= SCALE as int + 20,
        vec_wf(v),
    ensures
        iabs(vdot(v, n)) <= 0x3000_0003_c000,
        iabs(fmul(n.x@, 2 * vdot(v, n))) <= 0x6000_1000_0000,
        iabs(fmul(n.y@, 2 * vdot(v, n))) <= 0x6000_1000_0000,
        iabs(fmul(n.z@, 2 * vdot(v, n))) <= 0x6000_1000_0000,
{
    lemma_fmul_le(v.x@, n.x@, VEC_LIM as int, SCALE as int + 20);
    lemma_fmul_le(v.y@, n.y@, VEC_LIM as int, SCALE as int + 20);
    lemma_fmul_le(v.z@, n.z@, VEC_LIM as int, SCALE as int + 20);
    let d = vdot(v, n);
    lemma_fmul_le(n.x@, 2 * d, SCALE as int + 20, 0x6000_0007_8000);
    lemma_fmul_le(n.y@, 2 * d, SCALE as int + 20, 0x6000_0007_8000);
    lemma_fmul_le(n.z@, 2 * d, SCALE as int + 20, 0x6000_0007_8000);
}

} // verus!
