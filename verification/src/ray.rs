//! A half-line: an origin and a direction. Rays are created with a
//! unit direction, but transforming a ray under a scaling matrix can
//! leave a direction of any length, so the field holds a plain vector.

use vstd::prelude::*;
use crate::num::{Fx, iabs, fmul};
use crate::coords::{Vector, Point, UnitVector, vec_wf, vec_dot_wf, uv_wf, vuwf, vdot, vsub,
    vnormed, vmsq, lemma_uv_comp_bound, VEC_LIM, MIN_NORM_MSQ};
use crate::matrix::{Matrix, mat_wf, mapp_point, mapp_vector};

verus! {

/// Largest raw distance along a ray the kernel works with.
pub const DIST_LIM: i64 = 0x4_0000_0000_0000;

#[derive(Clone, Copy, Debug)]
pub struct Ray {
    pub origin: Point,
    pub direction: Vector,
}

/// The point at the given distance along the ray.
pub open spec fn ray_at(r: Ray, t: int) -> Point {
    Point {
        v: Vector {
            x: Fx { raw: (r.origin.v.x@ + fmul(r.direction.x@, t)) as i64 },
            y: Fx { raw: (r.origin.v.y@ + fmul(r.direction.y@, t)) as i64 },
            z: Fx { raw: (r.origin.v.z@ + fmul(r.direction.z@, t)) as i64 },
        },
    }
}

impl Ray {
    /// A ray out of `origin`; only unit-length directions are allowed.
    pub fn new(origin: Point, direction: UnitVector) -> (r: Ray)
        requires
            uv_wf(direction),
        ensures
            r.origin == origin,
            r.direction == direction.v,
            vec_wf(r.direction),
            vuwf(r.direction),
    {
        proof {
            lemma_uv_comp_bound(direction);
        }
        Ray { origin, direction: direction.v }
    }

    /// The ray from one point toward another, with the direction
    /// normalized.
    pub fn between(origin: &Point, dest: &Point) -> (r: Ray)
        requires
            vec_wf(origin.v),
            vec_wf(dest.v),
            vmsq(vsub(dest.v, origin.v)) >= MIN_NORM_MSQ,
        ensures
            r.origin == *origin,
            r.direction == vnormed(vsub(dest.v, origin.v)),
            vec_wf(r.direction),
            vuwf(r.direction),
    {
        let d = dest.sub_point(*origin);
        let direction = d.normalize();
        proof {
            assert(d == vsub(dest.v, origin.v));
            lemma_uv_comp_bound(direction);
        }
        Ray { origin: *origin, direction: direction.v }
    }

    /// The position at a distance along the ray.
    pub fn position(&self, distance: Fx) -> (r: Point)
        requires
            vec_wf(self.origin.v),
            vec_wf(self.direction),
            iabs(distance@) <= DIST_LIM,
        ensures
            r == ray_at(*self, distance@),
            iabs(r.v.x@) <= 0x4010_0000_0000_0000,
            iabs(r.v.y@) <= 0x4010_0000_0000_0000,
            iabs(r.v.z@) <= 0x4010_0000_0000_0000,
    {
        proof {
            crate::num::lemma_fmul_le(self.direction.x@, distance@, VEC_LIM as int, DIST_LIM as int);
            crate::num::lemma_fmul_le(self.direction.y@, distance@, VEC_LIM as int, DIST_LIM as int);
            crate::num::lemma_fmul_le(self.direction.z@, distance@, VEC_LIM as int, DIST_LIM as int);
        }
        self.origin.add_vector(self.direction.scale(distance))
    }

    /// How far a vector reaches along the ray's direction.
    pub fn scalar_projection_of(&self, v: &Vector) -> (r: Fx)
        requires
            vec_dot_wf(self.direction),
            vec_dot_wf(*v),
        ensures
            r@ == vdot(self.direction, *v),
    {
        self.direction.dot(*v)
    }

    /// The ray carried through a matrix: origin as a point, direction
    /// as a vector.
    pub fn matmul(&self, m: &Matrix) -> (r: Ray)
        requires
            mat_wf(*m),
            vec_wf(self.origin.v),
            vec_wf(self.direction),
        ensures
            r.origin == mapp_point(*m, self.origin),
            r.direction == mapp_vector(*m, self.direction),
    {
        Ray {
            origin: m.apply_to_point(&self.origin),
            direction: m.apply_to_vector(&self.direction),
        }
    }
}

} // verus!
