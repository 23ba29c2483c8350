//! A point light: an intensity and a position.

use vstd::prelude::*;
use crate::num::Fx;
use crate::color::Color;
use crate::coords::{Point, UnitVector, vec_wf, uv_wf, vsub, vnormed, vmag, vmsq, MIN_NORM_MSQ};

verus! {

pub struct PointLight {
    pub intensity: Color,
    pub position: Point,
}

impl PointLight {
    pub fn new(intensity: Color, position: Point) -> (r: PointLight)
        ensures
            r.intensity == intensity,
            r.position == position,
    {
        PointLight { intensity, position }
    }

    /// The unit direction from a point toward the light.
    pub fn direction_from(&self, pt: &Point) -> (r: UnitVector)
        requires
            vec_wf(self.position.v),
            vec_wf(pt.v),
            vmsq(vsub(self.position.v, pt.v)) >= MIN_NORM_MSQ,
        ensures
            r.v == vnormed(vsub(self.position.v, pt.v)),
            uv_wf(r),
    {
        self.position.sub_point(*pt).normalize()
    }

    /// The distance from a point to the light, in raw units.
    pub fn distance_from(&self, point: &Point) -> (r: Fx)
        requires
            vec_wf(self.position.v),
            vec_wf(point.v),
        ensures
            r@ == vmag(vsub(self.position.v, point.v)),
    {
        self.position.sub_point(*point).magnitude()
    }
}

} // verus!
