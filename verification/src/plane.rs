//! The XZ plane (normal +Y) in local space, carried into the scene by
//! its transform. A ray parallel to the plane, or nearly so, yields no
//! intersections; otherwise the single root is -origin.y / direction.y.

use vstd::prelude::*;
use crate::num::{Fx, SCALE, iabs, fdiv, lemma_fdiv_le};
use crate::coords::{Vector, Point, UnitVector, vec_wf, vec_dot_wf, uv_wf, vnormed, vmsq,
    DOT_LIM, MIN_NORM_MSQ};
use crate::matrix::{mapp_point, mapp_vector, mapp_vector_t};
use crate::transform::{Transform, t_wf};
use crate::material::{Material, material_wf};
use crate::color::Color;
use crate::ray::{Ray, DIST_LIM};
use crate::normal::Normal;
use crate::sphere::{LOCAL_O_LIM, LOCAL_D_LIM, local_ray_ok};

verus! {

/// A local direction with a Y component smaller than this is treated
/// as parallel to the plane: about 1e-4 in real units.
pub const PLANE_EPS: i64 = 429497;

pub struct Plane {
    pub material: Material,
    pub transform: Transform,
}

/// A plane the kernel can work with.
pub open spec fn plane_wf(p: Plane) -> bool {
    t_wf(p.transform) && material_wf(p.material)
}

/// The distances at which a ray meets the plane: none when the local
/// direction is (nearly) parallel, the local ray is out of range, or
/// the single root lies beyond the working distance.
pub open spec fn plane_roots(p: Plane, ray: Ray) -> Seq<Fx> {
    let lo = mapp_point(p.transform.inverse, ray.origin);
    let ld = mapp_vector(p.transform.inverse, ray.direction);
    if !local_ray_ok(lo, ld) {
        Seq::empty()
    } else if iabs(ld.y@) < PLANE_EPS {
        Seq::empty()
    } else {
        let t = fdiv(-lo.v.y@, ld.y@);
        if iabs(t) > DIST_LIM {
            Seq::empty()
        } else {
            seq![Fx { raw: t as i64 }]
        }
    }
}

/// The surface normal of the plane: the local +Y axis carried to world
/// space by the transpose of the inverse matrix, normalized. A
/// degenerate image of the axis (squashed by the transform, or out of
/// range) yields the +Y axis by policy.
pub open spec fn plane_normal(p: Plane) -> Normal {
    let w = mapp_vector_t(p.transform.inverse, Vector { x: Fx { raw: 0 }, y: Fx { raw: SCALE }, z: Fx { raw: 0 } });
    if vec_dot_wf(w) && vmsq(w) >= MIN_NORM_MSQ {
        Normal { u: UnitVector { v: vnormed(w) } }
    } else {
        Normal { u: UnitVector { v: Vector { x: Fx { raw: 0 }, y: Fx { raw: SCALE }, z: Fx { raw: 0 } } } }
    }
}

impl Plane {
    /// The XZ plane through the origin.
    pub fn new() -> (r: Plane)
        ensures
            plane_wf(r),
            crate::transform::is_translation(r.transform, 0, 0, 0),
            crate::material::is_stock_material(r.material, crate::color::white_color()),
    {
        Plane {
            material: Material::default_with_color(Color::white()),
            transform: Transform::identity(),
        }
    }

    /// The same plane with another material.
    pub fn with_material(self, m: Material) -> (r: Plane)
        requires
            material_wf(m),
        ensures
            r.material == m,
            r.transform == self.transform,
            plane_wf(self) ==> plane_wf(r),
    {
        Plane { material: m, ..self }
    }

    /// The same plane with another transform.
    pub fn with_transform(self, t: Transform) -> (r: Plane)
        requires
            t_wf(t),
        ensures
            r.transform == t,
            r.material == self.material,
            plane_wf(self) ==> plane_wf(r),
    {
        Plane { transform: t, ..self }
    }

    pub fn material(&self) -> (r: &Material)
        ensures
            r == &self.material,
    {
        &self.material
    }

    /// The surface normal at any point of the plane: it is constant,
    /// so the point is not consulted.
    pub fn normal_at(&self, _pt: &Point) -> (r: Normal)
        requires
            plane_wf(*self),
        ensures
            r == plane_normal(*self),
            uv_wf(r.u),
    {
        let up = UnitVector::y_axis();
        let w = self.transform.inverse.apply_transposed_to_vector(&up.v());
        let in_range = w.x.raw <= DOT_LIM && w.x.raw >= -DOT_LIM
            && w.y.raw <= DOT_LIM && w.y.raw >= -DOT_LIM
            && w.z.raw <= DOT_LIM && w.z.raw >= -DOT_LIM;
        if in_range && w.can_normalize() {
            Normal::from_vector(&w)
        } else {
            Normal { u: UnitVector::y_axis() }
        }
    }

    /// Where a world ray meets the plane.
    pub fn intersect_with(&self, ray: &Ray) -> (r: Vec<Fx>)
        requires
            plane_wf(*self),
            vec_wf(ray.origin.v),
            vec_wf(ray.direction),
        ensures
            r@ == plane_roots(*self, *ray),
            forall|i: int| 0 <= i < r@.len() ==> iabs((#[trigger] r@[i])@) <= DIST_LIM,
    {
        let inv = self.transform.inverse();
        let local = inv.apply_to_ray(ray);
        let lo = local.origin.as_vector();
        let ld = local.direction;
        let o_ok = lo.x.raw <= LOCAL_O_LIM && lo.x.raw >= -LOCAL_O_LIM
            && lo.y.raw <= LOCAL_O_LIM && lo.y.raw >= -LOCAL_O_LIM
            && lo.z.raw <= LOCAL_O_LIM && lo.z.raw >= -LOCAL_O_LIM;
        let d_ok = ld.x.raw <= LOCAL_D_LIM && ld.x.raw >= -LOCAL_D_LIM
            && ld.y.raw <= LOCAL_D_LIM && ld.y.raw >= -LOCAL_D_LIM
            && ld.z.raw <= LOCAL_D_LIM && ld.z.raw >= -LOCAL_D_LIM;
        if !(o_ok && d_ok) {
            let out: Vec<Fx> = Vec::new();
            proof {
                assert(out@ =~= plane_roots(*self, *ray));
            }
            return out;
        }
        let dy_abs = if ld.y.raw < 0 { -ld.y.raw } else { ld.y.raw };
        if dy_abs < PLANE_EPS {
            let out: Vec<Fx> = Vec::new();
            proof {
                assert(out@ =~= plane_roots(*self, *ray));
            }
            return out;
        }
        proof {
            lemma_fdiv_le(-lo.y@, ld.y@, LOCAL_O_LIM as int, PLANE_EPS as int);
            assert((LOCAL_O_LIM as int * SCALE as int) / (PLANE_EPS as int) <= 0x20_0000_0000_0000)
                by (nonlinear_arith);
        }
        let t = lo.y.neg().div(ld.y);
        let in_dist = t.raw <= DIST_LIM && t.raw >= -DIST_LIM;
        if !in_dist {
            let out: Vec<Fx> = Vec::new();
            proof {
                assert(out@ =~= plane_roots(*self, *ray));
            }
            return out;
        }
        let mut out: Vec<Fx> = Vec::new();
        out.push(t);
        proof {
            assert(out@ =~= plane_roots(*self, *ray));
        }
        out
    }
}

} // verus!
