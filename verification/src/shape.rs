//! The closed set of scene shapes. Each shape works in its own local
//! space through its transform; the dispatch here is all that a new
//! primitive would have to extend.

use vstd::prelude::*;
use crate::num::{Fx, iabs};
use crate::coords::{Point, vec_wf, uv_wf};
use crate::material::Material;
use crate::normal::Normal;
use crate::ray::{Ray, DIST_LIM};
use crate::sphere::{Sphere, sphere_wf, sphere_roots, sphere_normal};
use crate::plane::{Plane, plane_wf, plane_roots, plane_normal};

verus! {

pub enum Shape {
    Sphere(Sphere),
    Plane(Plane),
}

/// A shape the kernel can work with.
pub open spec fn shape_wf(s: Shape) -> bool {
    match s {
        Shape::Sphere(sp) => sphere_wf(sp),
        Shape::Plane(pl) => plane_wf(pl),
    }
}

/// The distances at which a ray meets the shape.
pub open spec fn shape_roots(s: Shape, ray: Ray) -> Seq<Fx> {
    match s {
        Shape::Sphere(sp) => sphere_roots(sp, ray),
        Shape::Plane(pl) => plane_roots(pl, ray),
    }
}

/// The surface normal of the shape at a world point.
pub open spec fn shape_normal(s: Shape, pt: Point) -> Normal {
    match s {
        Shape::Sphere(sp) => sphere_normal(sp, pt),
        Shape::Plane(pl) => plane_normal(pl),
    }
}

/// The material of the shape.
pub open spec fn shape_material(s: Shape) -> Material {
    match s {
        Shape::Sphere(sp) => sp.material,
        Shape::Plane(pl) => pl.material,
    }
}

impl Shape {
    pub fn material(&self) -> (r: &Material)
        ensures
            r == &shape_material(*self),
    {
        match self {
            Shape::Sphere(sp) => sp.material(),
            Shape::Plane(pl) => pl.material(),
        }
    }

    /// The surface normal at a world point.
    pub fn normal_at(&self, pt: &Point) -> (r: Normal)
        requires
            shape_wf(*self),
            vec_wf(pt.v),
        ensures
            r == shape_normal(*self, *pt),
            uv_wf(r.u),
    {
        match self {
            Shape::Sphere(sp) => sp.normal_at(pt),
            Shape::Plane(pl) => pl.normal_at(pt),
        }
    }

    /// Where a world ray meets the shape.
    pub fn intersect_with(&self, ray: &Ray) -> (r: Vec<Fx>)
        requires
            shape_wf(*self),
            vec_wf(ray.origin.v),
            vec_wf(ray.direction),
        ensures
            r@ == shape_roots(*self, *ray),
            forall|i: int| 0 <= i < r@.len() ==> iabs((#[trigger] r@[i])@) <= DIST_LIM,
    {
        match self {
            Shape::Sphere(sp) => sp.intersect_with(ray),
            Shape::Plane(pl) => pl.intersect_with(ray),
        }
    }
}

} // verus!
