//! The camera's view transform: an orthonormal basis looking from one
//! point toward another, with a chosen up direction. Applying it maps
//! view-space points into the world.

use vstd::prelude::*;
use crate::num::{Fx, SCALE, iabs};
use crate::coords::{Vector, Point, UnitVector, vec_wf, vcross, vsub, vnormed, vmsq,
    lemma_uv_comp_bound, lemma_vcross_unit_bound, MIN_NORM_MSQ};
use crate::matrix::{Matrix, mat_at, mat_wf, mapp_point};

verus! {

/// Bound on the camera position (2048 in real units).
pub const FROM_LIM: i64 = 0x800_0000_0000;

/// Bound on view-space points handed to the transform (288 in real
/// units, enough for any pixel of a supported camera).
pub const VIEW_PT_LIM: i64 = 0x120_0000_0000;

/// Bound on the world points a view transform can produce.
pub const VIEW_OUT_LIM: i64 = 0xEC0_0000_0000;

pub struct ViewTransform {
    pub m: Matrix,
}

/// The world origin.
pub open spec fn origin_pt() -> Point {
    Point { v: Vector { x: Fx { raw: 0 }, y: Fx { raw: 0 }, z: Fx { raw: 0 } } }
}

/// The +Y axis, the default up direction.
pub open spec fn up_axis() -> Vector {
    Vector { x: Fx { raw: 0 }, y: Fx { raw: SCALE }, z: Fx { raw: 0 } }
}

/// A view matrix: an orientation of near-unit columns, a bounded
/// translation column, and the homogeneous bottom row.
pub open spec fn view_mat_wf(m: Matrix) -> bool {
    iabs(mat_at(m, 0)) <= 2 * SCALE && iabs(mat_at(m, 1)) <= 2 * SCALE
        && iabs(mat_at(m, 2)) <= 2 * SCALE && iabs(mat_at(m, 3)) <= FROM_LIM
        && iabs(mat_at(m, 4)) <= 2 * SCALE && iabs(mat_at(m, 5)) <= 2 * SCALE
        && iabs(mat_at(m, 6)) <= 2 * SCALE && iabs(mat_at(m, 7)) <= FROM_LIM
        && iabs(mat_at(m, 8)) <= 2 * SCALE && iabs(mat_at(m, 9)) <= 2 * SCALE
        && iabs(mat_at(m, 10)) <= 2 * SCALE && iabs(mat_at(m, 11)) <= FROM_LIM
        && mat_at(m, 12) == 0 && mat_at(m, 13) == 0 && mat_at(m, 14) == 0
        && mat_at(m, 15) == SCALE as int
}

/// The basis the view computation derives: forward, then sideways from
/// the up hint, then the true up.
pub open spec fn view_z_of(from: Point, to: Point) -> Vector {
    vnormed(vsub(to.v, from.v))
}

pub open spec fn view_x_of(from: Point, to: Point, up: Vector) -> Vector {
    vnormed(vcross(vnormed(up), view_z_of(from, to)))
}

pub open spec fn view_y_of(from: Point, to: Point, up: Vector) -> Vector {
    vnormed(vcross(view_z_of(from, to), view_x_of(from, to, up)))
}

impl ViewTransform {
    /// Looks from one point toward another. The configuration must not
    /// be degenerate: the two points must be apart, the up hint must
    /// have usable length, and neither derived basis vector may vanish
    /// (the up hint must not be parallel to the view direction).
    pub fn new(from: &Point, to: &Point, up: &Vector) -> (r: ViewTransform)
        requires
            iabs(from.v.x@) <= FROM_LIM && iabs(from.v.y@) <= FROM_LIM && iabs(from.v.z@) <= FROM_LIM,
            vec_wf(from.v),
            vec_wf(to.v),
            vec_wf(*up),
            vmsq(vsub(to.v, from.v)) >= MIN_NORM_MSQ,
            vmsq(*up) >= MIN_NORM_MSQ,
            vmsq(vcross(vnormed(*up), view_z_of(*from, *to))) >= MIN_NORM_MSQ,
            vmsq(vcross(view_z_of(*from, *to), view_x_of(*from, *to, *up))) >= MIN_NORM_MSQ,
        ensures
            mat_at(r.m, 0) == view_x_of(*from, *to, *up).x@,
            mat_at(r.m, 1) == view_y_of(*from, *to, *up).x@,
            mat_at(r.m, 2) == view_z_of(*from, *to).x@,
            mat_at(r.m, 3) == from.v.x@,
            mat_at(r.m, 4) == view_x_of(*from, *to, *up).y@,
            mat_at(r.m, 5) == view_y_of(*from, *to, *up).y@,
            mat_at(r.m, 6) == view_z_of(*from, *to).y@,
            mat_at(r.m, 7) == from.v.y@,
            mat_at(r.m, 8) == view_x_of(*from, *to, *up).z@,
            mat_at(r.m, 9) == view_y_of(*from, *to, *up).z@,
            mat_at(r.m, 10) == view_z_of(*from, *to).z@,
            mat_at(r.m, 11) == from.v.z@,
            mat_at(r.m, 12) == 0 && mat_at(r.m, 13) == 0 && mat_at(r.m, 14) == 0,
            mat_at(r.m, 15) == SCALE as int,
            view_mat_wf(r.m),
            mat_wf(r.m),
    {
        let view_z = to.sub_point(*from).normalize();
        let up_norm = up.normalize();
        proof {
            lemma_uv_comp_bound(view_z);
            lemma_uv_comp_bound(up_norm);
        }
        proof {
            lemma_vcross_unit_bound(up_norm.v, view_z.v);
        }
        let view_x = up_norm.v().cross(view_z.v()).normalize();
        proof {
            lemma_uv_comp_bound(view_x);
        }
        proof {
            lemma_vcross_unit_bound(view_z.v, view_x.v);
        }
        let view_y = view_z.v().cross(view_x.v()).normalize();
        proof {
            lemma_uv_comp_bound(view_y);
        }
        let xv = view_x.v();
        let yv = view_y.v();
        let zv = view_z.v();
        let one = Fx::one();
        let zer = Fx::zero();
        let m = Matrix::new([
            xv.x, yv.x, zv.x, from.v.x,
            xv.y, yv.y, zv.y, from.v.y,
            xv.z, yv.z, zv.z, from.v.z,
            zer, zer, zer, one,
        ]);
        ViewTransform { m }
    }

    /// Looks from the origin toward a point, with +Y up.
    pub fn to(to: &Point) -> (r: ViewTransform)
        requires
            vec_wf(to.v),
            vmsq(to.v) >= MIN_NORM_MSQ,
            vmsq(vcross(vnormed(up_axis()), view_z_of(origin_pt(), *to))) >= MIN_NORM_MSQ,
            vmsq(vcross(view_z_of(origin_pt(), *to), view_x_of(origin_pt(), *to, up_axis())))
                >= MIN_NORM_MSQ,
        ensures
            mat_at(r.m, 0) == view_x_of(origin_pt(), *to, up_axis()).x@,
            mat_at(r.m, 1) == view_y_of(origin_pt(), *to, up_axis()).x@,
            mat_at(r.m, 2) == view_z_of(origin_pt(), *to).x@,
            mat_at(r.m, 3) == 0,
            mat_at(r.m, 4) == view_x_of(origin_pt(), *to, up_axis()).y@,
            mat_at(r.m, 5) == view_y_of(origin_pt(), *to, up_axis()).y@,
            mat_at(r.m, 6) == view_z_of(origin_pt(), *to).y@,
            mat_at(r.m, 7) == 0,
            mat_at(r.m, 8) == view_x_of(origin_pt(), *to, up_axis()).z@,
            mat_at(r.m, 9) == view_y_of(origin_pt(), *to, up_axis()).z@,
            mat_at(r.m, 10) == view_z_of(origin_pt(), *to).z@,
            mat_at(r.m, 11) == 0,
            mat_at(r.m, 12) == 0 && mat_at(r.m, 13) == 0 && mat_at(r.m, 14) == 0,
            mat_at(r.m, 15) == SCALE as int,
            view_mat_wf(r.m),
            mat_wf(r.m),
    {
        let origin = Point::zero();
        let up = Vector::new(Fx::zero(), Fx::one(), Fx::zero());
        proof {
            lemma_up_normed(up);
            assert(origin == origin_pt());
            assert(up == up_axis());
            assert(vsub(to.v, origin.v) == to.v);
        }
        ViewTransform::new(&origin, to, &up)
    }

    /// Maps a view-space point into the world.
    pub fn to_world(&self, view_point: &Point) -> (r: Point)
        requires
            view_mat_wf(self.m),
            mat_wf(self.m),
            iabs(view_point.v.x@) <= VIEW_PT_LIM,
            iabs(view_point.v.y@) <= VIEW_PT_LIM,
            iabs(view_point.v.z@) <= VIEW_PT_LIM,
        ensures
            r == mapp_point(self.m, *view_point),
            iabs(r.v.x@) <= VIEW_OUT_LIM,
            iabs(r.v.y@) <= VIEW_OUT_LIM,
            iabs(r.v.z@) <= VIEW_OUT_LIM,
            vec_wf(r.v),
    {
        proof {
            lemma_view_row(self.m, 0, *view_point);
            lemma_view_row(self.m, 1, *view_point);
            lemma_view_row(self.m, 2, *view_point);
        }
        self.m.apply_to_point(view_point)
    }
}

/// A unit up vector normalizes to itself componentwise within the unit
/// slack; here only its squared magnitude matters.
proof fn lemma_up_normed(up: Vector)
    requires
        up.x@ == 0 && up.y@ == SCALE as int && up.z@ == 0,
    ensures
        vmsq(up) >= MIN_NORM_MSQ,
        vec_wf(up),
{
    assert(vmsq(up) == SCALE as int * SCALE) by (nonlinear_arith)
        requires
            up.x@ == 0 && up.y@ == SCALE as int && up.z@ == 0,
    ;
}

/// One row of a view matrix applied to a bounded view point stays
/// within the output bound.
proof fn lemma_view_row(m: Matrix, r: int, p: Point)
    requires
        view_mat_wf(m),
        0 <= r < 3,
        iabs(p.v.x@) <= VIEW_PT_LIM,
        iabs(p.v.y@) <= VIEW_PT_LIM,
        iabs(p.v.z@) <= VIEW_PT_LIM,
    ensures
        iabs(crate::matrix::prow(m, r, p.v)) <= VIEW_OUT_LIM,
{
    crate::num::lemma_fmul_le(mat_at(m, 4 * r), p.v.x@, 2 * SCALE as int, VIEW_PT_LIM as int);
    crate::num::lemma_fmul_le(mat_at(m, 4 * r + 1), p.v.y@, 2 * SCALE as int, VIEW_PT_LIM as int);
    crate::num::lemma_fmul_le(mat_at(m, 4 * r + 2), p.v.z@, 2 * SCALE as int, VIEW_PT_LIM as int);
    assert(((2 * SCALE as int) * (VIEW_PT_LIM as int)) / (SCALE as int) == 0x240_0000_0000)
        by (nonlinear_arith);
}

} // verus!
