//! A sphere of a given radius, centred at the local origin and carried
//! into the scene by its transform. Intersection solves the quadratic
//! equation of the local ray against the sphere; the normal at a world
//! point is the local normal carried back to world space by the
//! transpose of the inverse matrix, then normalized.

use vstd::prelude::*;
use crate::num::{Fx, SCALE, iabs, fmul, fdiv, fsqrt, is_sqrt, lemma_fmul_le, lemma_fdiv_le, lemma_tdiv};
use crate::coords::{Vector, Point, UnitVector, vec_wf, vec_dot_wf, uv_wf, vdot, vnormed, vmsq,
    lemma_vdot_le, VEC_LIM, DOT_LIM, MIN_NORM_MSQ};
use crate::matrix::{mapp_point, mapp_vector, mapp_vector_t};
use crate::transform::{Transform, t_wf};
use crate::material::{Material, material_wf};
use crate::color::Color;
use crate::ray::{Ray, DIST_LIM};
use crate::normal::Normal;

verus! {

/// Bound on the components of a local ray origin the solver accepts
/// (128 in real units); farther configurations count as misses.
pub const LOCAL_O_LIM: i64 = 0x80_0000_0000;

/// Bound on the components of a local ray direction the solver accepts
/// (32 in real units).
pub const LOCAL_D_LIM: i64 = 0x20_0000_0000;

/// Least accepted squared-direction coefficient: local directions
/// shorter than 1/16 (a sphere scaled up by more than 16) count as
/// misses.
pub const MIN_QUAD_A: i64 = 0x100_0000;

/// Largest sphere radius (64 in real units).
pub const MAX_RADIUS: i64 = 0x40_0000_0000;

pub struct Sphere {
    pub radius: Fx,
    pub material: Material,
    pub transform: Transform,
}

/// A sphere the kernel can work with.
pub open spec fn sphere_wf(s: Sphere) -> bool {
    t_wf(s.transform) && material_wf(s.material) && 0 < s.radius@ <= MAX_RADIUS
}

/// The local ray is within the ranges the quadratic solver accepts.
pub open spec fn local_ray_ok(o: Point, d: Vector) -> bool {
    iabs(o.v.x@) <= LOCAL_O_LIM && iabs(o.v.y@) <= LOCAL_O_LIM && iabs(o.v.z@) <= LOCAL_O_LIM
        && iabs(d.x@) <= LOCAL_D_LIM && iabs(d.y@) <= LOCAL_D_LIM && iabs(d.z@) <= LOCAL_D_LIM
}

/// The distances at which a ray meets the sphere: none when the
/// discriminant is negative, the local ray is out of range, or a root
/// lies beyond the working distance; else the near root followed by
/// the far root.
pub open spec fn sphere_roots(s: Sphere, ray: Ray) -> Seq<Fx> {
    let lo = mapp_point(s.transform.inverse, ray.origin);
    let ld = mapp_vector(s.transform.inverse, ray.direction);
    if !local_ray_ok(lo, ld) {
        Seq::empty()
    } else {
        let a = vdot(ld, ld);
        if a < MIN_QUAD_A {
            Seq::empty()
        } else {
            let b = 2 * vdot(lo.v, ld);
            let c = vdot(lo.v, lo.v) - fmul(s.radius@, s.radius@);
            let disc = fmul(b, b) - 4 * fmul(a, c);
            if disc < 0 {
                Seq::empty()
            } else {
                let t1 = fdiv(-b - fsqrt(disc), 2 * a);
                let t2 = fdiv(-b + fsqrt(disc), 2 * a);
                if iabs(t1) > DIST_LIM || iabs(t2) > DIST_LIM {
                    Seq::empty()
                } else {
                    seq![Fx { raw: t1 as i64 }, Fx { raw: t2 as i64 }]
                }
            }
        }
    }
}

/// The surface normal of the sphere at a world point: the local point
/// is the local normal, which the transpose of the inverse matrix
/// carries back to world space before normalization. A degenerate
/// result (a point at the centre, or values out of range) yields the
/// +Y axis by policy.
pub open spec fn sphere_normal(s: Sphere, pt: Point) -> Normal {
    let lp = mapp_point(s.transform.inverse, pt);
    if !vec_wf(lp.v) {
        Normal { u: UnitVector { v: Vector { x: Fx { raw: 0 }, y: Fx { raw: SCALE }, z: Fx { raw: 0 } } } }
    } else {
        let wn = mapp_vector_t(s.transform.inverse, lp.v);
        if vec_dot_wf(wn) && vmsq(wn) >= MIN_NORM_MSQ {
            Normal { u: UnitVector { v: vnormed(wn) } }
        } else {
            Normal { u: UnitVector { v: Vector { x: Fx { raw: 0 }, y: Fx { raw: SCALE }, z: Fx { raw: 0 } } } }
        }
    }
}

impl Sphere {
    /// A sphere of the given radius centred at a point.
    pub fn new(center: Point, radius: Fx) -> (r: Sphere)
        requires
            vec_wf(center.v),
            0 < radius@ <= MAX_RADIUS,
        ensures
            sphere_wf(r),
            r.radius == radius,
            crate::transform::is_translation(r.transform, center.v.x@, center.v.y@, center.v.z@),
            crate::material::is_stock_material(r.material, crate::color::white_color()),
    {
        Sphere {
            radius,
            material: Material::default_with_color(Color::white()),
            transform: Transform::translate(center.x(), center.y(), center.z()),
        }
    }

    /// The unit sphere at the origin.
    pub fn unit() -> (r: Sphere)
        ensures
            sphere_wf(r),
            r.radius@ == SCALE as int,
            crate::transform::is_translation(r.transform, 0, 0, 0),
            crate::material::is_stock_material(r.material, crate::color::white_color()),
    {
        Sphere::new(Point::zero(), Fx::one())
    }

    /// The same sphere with another material.
    pub fn with_material(self, material: Material) -> (r: Sphere)
        requires
            material_wf(material),
        ensures
            r.material == material,
            r.radius == self.radius,
            r.transform == self.transform,
            sphere_wf(self) ==> sphere_wf(r),
    {
        Sphere { material, ..self }
    }

    /// The same sphere with another transform.
    pub fn with_transform(self, transform: Transform) -> (r: Sphere)
        requires
            t_wf(transform),
        ensures
            r.transform == transform,
            r.radius == self.radius,
            r.material == self.material,
            sphere_wf(self) ==> sphere_wf(r),
    {
        Sphere { transform, ..self }
    }

    pub fn material(&self) -> (r: &Material)
        ensures
            r == &self.material,
    {
        &self.material
    }

    /// The surface normal at a world point.
    pub fn normal_at(&self, pt: &Point) -> (r: Normal)
        requires
            sphere_wf(*self),
            vec_wf(pt.v),
        ensures
            r == sphere_normal(*self, *pt),
            uv_wf(r.u),
    {
        let inv = self.transform.inverse();
        let lp = inv.apply_to_point(pt);
        let lv = lp.as_vector();
        let local_ok = lv.x.raw <= VEC_LIM && lv.x.raw >= -VEC_LIM
            && lv.y.raw <= VEC_LIM && lv.y.raw >= -VEC_LIM
            && lv.z.raw <= VEC_LIM && lv.z.raw >= -VEC_LIM;
        if !local_ok {
            return Normal { u: UnitVector::y_axis() };
        }
        let wn = self.transform.inverse.apply_transposed_to_vector(&lv);
        let world_ok = wn.x.raw <= DOT_LIM && wn.x.raw >= -DOT_LIM
            && wn.y.raw <= DOT_LIM && wn.y.raw >= -DOT_LIM
            && wn.z.raw <= DOT_LIM && wn.z.raw >= -DOT_LIM;
        if world_ok && wn.can_normalize() {
            Normal::from_vector(&wn)
        } else {
            Normal { u: UnitVector::y_axis() }
        }
    }

    /// Where a world ray meets the sphere.
    pub fn intersect_with(&self, ray: &Ray) -> (r: Vec<Fx>)
        requires
            sphere_wf(*self),
            vec_wf(ray.origin.v),
            vec_wf(ray.direction),
        ensures
            r@ == sphere_roots(*self, *ray),
            forall|i: int| 0 <= i < r@.len() ==> iabs((#[trigger] r@[i])@) <= DIST_LIM,
    {
        let inv = self.transform.inverse();
        let local = inv.apply_to_ray(ray);
        let lo = local.origin.as_vector();
        let ld = local.direction;
        let o_ok = lo.x.raw <= LOCAL_O_LIM && lo.x.raw >= -LOCAL_O_LIM
            && lo.y.raw <= LOCAL_O_LIM && lo.y.raw >= -LOCAL_O_LIM
            && lo.z.raw <= LOCAL_O_LIM && lo.z.raw >= -LOCAL_O_LIM;
        let d_ok = ld.x.raw <= LOCAL_D_LIM && ld.x.raw >= -LOCAL_D_LIM
            && ld.y.raw <= LOCAL_D_LIM && ld.y.raw >= -LOCAL_D_LIM
            && ld.z.raw <= LOCAL_D_LIM && ld.z.raw >= -LOCAL_D_LIM;
        if !(o_ok && d_ok) {
            let out: Vec<Fx> = Vec::new();
            proof {
                assert(out@ =~= sphere_roots(*self, *ray));
            }
            return out;
        }
        proof {
            lemma_vdot_le(ld, ld, LOCAL_D_LIM as int, LOCAL_D_LIM as int);
            lemma_vdot_le(lo, ld, LOCAL_O_LIM as int, LOCAL_D_LIM as int);
            lemma_vdot_le(lo, lo, LOCAL_O_LIM as int, LOCAL_O_LIM as int);
            lemma_fmul_le(self.radius@, self.radius@, MAX_RADIUS as int, MAX_RADIUS as int);
            assert((LOCAL_D_LIM as int * LOCAL_D_LIM as int) / (SCALE as int) == 0x400_0000_0000)
                by (nonlinear_arith);
            assert((LOCAL_O_LIM as int * LOCAL_D_LIM as int) / (SCALE as int) == 0x1000_0000_0000)
                by (nonlinear_arith);
            assert((LOCAL_O_LIM as int * LOCAL_O_LIM as int) / (SCALE as int) == 0x4000_0000_0000)
                by (nonlinear_arith);
            assert((MAX_RADIUS as int * MAX_RADIUS as int) / (SCALE as int) == 0x1000_0000_0000)
                by (nonlinear_arith);
        }
        let a = ld.dot(ld);
        if a.raw < MIN_QUAD_A {
            let out: Vec<Fx> = Vec::new();
            proof {
                assert(out@ =~= sphere_roots(*self, *ray));
            }
            return out;
        }
        let hb = lo.dot(ld);
        let b = hb.add(hb);
        let c = lo.dot(lo).sub(self.radius.mul(self.radius));
        proof {
            lemma_fmul_le(b@, b@, 0x6000_0000_0000, 0x6000_0000_0000);
            lemma_fmul_le(a@, c@, 0x1000_0000_0000, 0x1_4000_0000_0000);
            assert((0x6000_0000_0000int * 0x6000_0000_0000) / (SCALE as int) == 0x2400_0000_0000_0000)
                by (nonlinear_arith);
            assert((0x1000_0000_0000int * 0x1_4000_0000_0000) / (SCALE as int) == 0x1400_0000_0000_0000)
                by (nonlinear_arith);
        }
        let bb = b.mul(b);
        let ac = a.mul(c);
        let ac4 = ac.add(ac).add(ac).add(ac);
        let disc = bb.sub(ac4);
        if disc.raw < 0 {
            let out: Vec<Fx> = Vec::new();
            proof {
                assert(out@ =~= sphere_roots(*self, *ray));
            }
            return out;
        }
        let sq = disc.sqrt();
        proof {
            assert(sq@ < 0x1_0000_0000_0000) by (nonlinear_arith)
                requires
                    0 <= sq@,
                    sq@ * sq@ <= disc@ * SCALE,
                    disc@ <= 0x7fff_ffff_ffff_ffff,
            {
                if sq@ >= 0x1_0000_0000_0000 {
                    assert(sq@ * sq@ >= 0x1_0000_0000_0000 * 0x1_0000_0000_0000);
                }
            }
            lemma_fdiv_le(-b@ - sq@, 2 * a@, 0x1_6000_0000_0000, 0x200_0000);
            lemma_fdiv_le(-b@ + sq@, 2 * a@, 0x1_6000_0000_0000, 0x200_0000);
            assert((0x1_6000_0000_0000int * SCALE as int) / 0x200_0000 == 0xB0_0000_0000_0000)
                by (nonlinear_arith);
        }
        let nb = b.neg();
        let a2 = a.add(a);
        let t1 = nb.sub(sq).div(a2);
        let t2 = nb.add(sq).div(a2);
        let in_dist = t1.raw <= DIST_LIM && t1.raw >= -DIST_LIM
            && t2.raw <= DIST_LIM && t2.raw >= -DIST_LIM;
        if !in_dist {
            let out: Vec<Fx> = Vec::new();
            proof {
                assert(out@ =~= sphere_roots(*self, *ray));
            }
            return out;
        }
        let mut out: Vec<Fx> = Vec::new();
        out.push(t1);
        out.push(t2);
        proof {
            assert(out@ =~= sphere_roots(*self, *ray));
        }
        out
    }
}

} // verus!
