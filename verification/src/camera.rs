//! A pinhole camera: pixel coordinates become world-space rays through
//! a view transform. The pixel size is derived once from the half
//! field of view (its tangent) and the larger image dimension, with
//! aspect correction for the smaller one.

use vstd::prelude::*;
use crate::num::{Fx, SCALE, iabs, fmul, fdiv, tdiv, lemma_tdiv, lemma_tdiv_le, lemma_fmul_le,
    lemma_fdiv_le};
use crate::coords::{Vector, Point, UnitVector, vec_wf, vuwf, vsub, vnormed, vmsq, MIN_NORM_MSQ};
use crate::matrix::{mat_wf, mapp_point};
use crate::ray::Ray;
use crate::view_transform::{ViewTransform, view_mat_wf, origin_pt, VIEW_PT_LIM, VIEW_OUT_LIM};

verus! {

/// Largest supported image dimension.
pub const DIM_LIM: usize = 100000;

/// Largest supported tangent of the half field of view (16, which is
/// over 173 degrees).
pub const HALF_VIEW_LIM: i64 = 0x10_0000_0000;

/// Half a raw unit, for sampling pixel centres.
pub const HALF_PIXEL: i64 = 0x8000_0000;

pub struct Camera {
    pub h_size: usize,
    pub v_size: usize,
    pub half_view: Fx,
    pub aspect_ratio: Fx,
    pub pixel_size: Fx,
    pub transform: ViewTransform,
}

/// The pixel size the constructor derives: the full view width divided
/// by the larger dimension.
pub open spec fn spec_pixel_size(h: int, v: int, hv: int) -> int {
    if fdiv(v * SCALE, h * SCALE) < SCALE {
        fdiv(2 * hv, h * SCALE)
    } else {
        fdiv(2 * hv, v * SCALE)
    }
}

/// A camera the kernel can work with: sane dimensions, an aspect ratio
/// within 16 either way, a positive bounded half view, and the derived
/// fields consistent with the dimensions.
pub open spec fn camera_wf(c: Camera) -> bool {
    view_mat_wf(c.transform.m) && mat_wf(c.transform.m)
        && 1 <= c.h_size <= DIM_LIM && 1 <= c.v_size <= DIM_LIM
        && c.v_size <= 16 * c.h_size && c.h_size <= 16 * c.v_size
        && 0 < c.half_view@ <= HALF_VIEW_LIM
        && c.aspect_ratio@ == fdiv(c.v_size * SCALE, c.h_size * SCALE)
        && c.pixel_size@ == spec_pixel_size(c.h_size as int, c.v_size as int, c.half_view@)
}

/// The view-space position of a pixel centre: offsets from the upper
/// left corner of the canvas one unit in front of the camera.
pub open spec fn spec_view_pixel(c: Camera, px: int, py: int) -> Point {
    let xo = fmul(px * SCALE + HALF_PIXEL, c.pixel_size@);
    let yo = fmul(py * SCALE + HALF_PIXEL, c.pixel_size@);
    Point {
        v: Vector {
            x: Fx { raw: (xo - c.half_view@) as i64 },
            y: Fx { raw: (fmul(c.half_view@, c.aspect_ratio@) - yo) as i64 },
            z: Fx { raw: SCALE },
        },
    }
}

/// The world-space ray through a pixel: from the camera position
/// toward the pixel centre. A degenerate pixel at the camera position
/// yields the +Z axis by policy.
pub open spec fn spec_cast_ray(c: Camera, px: int, py: int) -> Ray {
    let origin = mapp_point(c.transform.m, origin_pt());
    let pixel = mapp_point(c.transform.m, spec_view_pixel(c, px, py));
    let d = vsub(pixel.v, origin.v);
    if vmsq(d) < MIN_NORM_MSQ {
        Ray {
            origin,
            direction: Vector { x: Fx { raw: 0 }, y: Fx { raw: 0 }, z: Fx { raw: SCALE } },
        }
    } else {
        Ray { origin, direction: vnormed(d) }
    }
}


/// The default view orientation: looking from the origin toward
/// (0, 0, -1) with +Y up, which mirrors the X and Z axes.
pub open spec fn default_view(m: crate::matrix::Matrix) -> bool {
    crate::matrix::mat_at(m, 0) == -(SCALE as int) && crate::matrix::mat_at(m, 1) == 0
        && crate::matrix::mat_at(m, 2) == 0 && crate::matrix::mat_at(m, 3) == 0
        && crate::matrix::mat_at(m, 4) == 0 && crate::matrix::mat_at(m, 5) == SCALE as int
        && crate::matrix::mat_at(m, 6) == 0 && crate::matrix::mat_at(m, 7) == 0
        && crate::matrix::mat_at(m, 8) == 0 && crate::matrix::mat_at(m, 9) == 0
        && crate::matrix::mat_at(m, 10) == -(SCALE as int) && crate::matrix::mat_at(m, 11) == 0
        && crate::matrix::mat_at(m, 12) == 0 && crate::matrix::mat_at(m, 13) == 0
        && crate::matrix::mat_at(m, 14) == 0 && crate::matrix::mat_at(m, 15) == SCALE as int
}

/// The quotient of the two image dimensions falls below one exactly
/// when the vertical dimension is the smaller one.
proof fn lemma_aspect_branch(h: int, v: int)
    requires
        1 <= h,
        1 <= v,
    ensures
        (fdiv(v * SCALE, h * SCALE) < SCALE) <==> (v < h),
        fdiv(v * SCALE, h * SCALE) >= 0,
{
    let s = SCALE as int;
    let n = v * s * s;
    let d = h * s;
    assert(n > 0 && d > 0) by (nonlinear_arith)
        requires
            1 <= h && 1 <= v && s == 0x1_0000_0000,
            n == v * s * s,
            d == h * s,
    ;
    assert(fdiv(v * s, h * s) == n / d) by {
        assert((v * s) * s == n) by (nonlinear_arith)
            requires
                n == v * s * s,
        ;
    }
    vstd::arithmetic::div_mod::lemma_fundamental_div_mod(n, d);
    let q = n / d;
    let r0 = n % d;
    assert(0 <= r0 < d) by {
        vstd::arithmetic::div_mod::lemma_mod_division_less_than_divisor(n, d);
        vstd::arithmetic::div_mod::lemma_remainder_lower(n, d);
    }
    vstd::arithmetic::div_mod::lemma_div_pos_is_pos(n, d);
    if v < h {
        assert(q < s) by (nonlinear_arith)
            requires
                n == d * q + r0,
                0 <= r0 < d,
                n == v * s * s,
                d == h * s,
                v < h,
                q >= 0,
                s == 0x1_0000_0000,
        {
            if q >= s {
                assert(d * q >= d * s);
                assert(d * s == h * s * s);
                assert(h * s * s > v * s * s);
            }
        }
    } else {
        assert(q >= s) by (nonlinear_arith)
            requires
                n == d * q + r0,
                0 <= r0 < d,
                n == v * s * s,
                d == h * s,
                v >= h,
                q >= 0,
                s == 0x1_0000_0000,
        {
            if q < s {
                assert(d * q <= d * (s - 1));
                assert(d * (s - 1) == h * s * s - h * s);
                assert(v * s * s >= h * s * s);
            }
        }
    }
}

/// A pixel offset stays within the full view width: the pixel index is
/// below the dividing dimension, and the pixel size times that
/// dimension is at most the view width.
proof fn lemma_offset_bound(pf: int, q: int, d: int, cap: int)
    requires
        0 <= pf <= d,
        0 <= q,
        q * d <= cap * SCALE,
        1 <= d,
        0 <= cap,
    ensures
        0 <= fmul(pf, q) <= cap,
{
    let s = SCALE as int;
    assert(0 <= pf * q <= cap * s) by (nonlinear_arith)
        requires
            0 <= pf <= d,
            0 <= q,
            q * d <= cap * s,
    {
        assert(pf * q <= d * q);
    }
    lemma_tdiv(pf * q, s);
    lemma_tdiv_le(pf * q, s, cap * s);
    assert((cap * s) / s == cap) by {
        assert(cap * s == s * cap) by (nonlinear_arith);
        vstd::arithmetic::div_mod::lemma_div_multiples_vanish(cap, s);
    }
}

/// The derived pixel size is non-negative and scales back to at most
/// the full view width over the dividing dimension.
proof fn lemma_pixel_size_bounds(h: int, v: int, hv: int)
    requires
        1 <= h <= DIM_LIM as int,
        1 <= v <= DIM_LIM as int,
        0 < hv <= HALF_VIEW_LIM as int,
    ensures
        0 <= spec_pixel_size(h, v, hv) <= 2 * HALF_VIEW_LIM,
        fdiv(v * SCALE, h * SCALE) < SCALE
            ==> spec_pixel_size(h, v, hv) * (h * SCALE) <= 2 * hv * SCALE,
        fdiv(v * SCALE, h * SCALE) >= SCALE
            ==> spec_pixel_size(h, v, hv) * (v * SCALE) <= 2 * hv * SCALE,
{
    let s = SCALE as int;
    lemma_aspect_branch(h, v);
    let d = if fdiv(v * s, h * s) < s { h * s } else { v * s };
    assert(d >= s) by (nonlinear_arith)
        requires
            d == h * s || d == v * s,
            h >= 1 && v >= 1,
            s == 0x1_0000_0000,
    ;
    let n = 2 * hv * s;
    assert(spec_pixel_size(h, v, hv) == tdiv(n, d)) by {
        assert((2 * hv) * s == n);
    }
    lemma_tdiv(n, d);
    lemma_tdiv_le(n, d, n);
    assert(iabs(tdiv(n, d)) <= n / d);
    vstd::arithmetic::div_mod::lemma_div_is_ordered_by_denominator(n, s, d);
    assert(n / s == 2 * hv) by {
        assert(n == s * (2 * hv)) by (nonlinear_arith)
            requires
                n == 2 * hv * s,
        ;
        vstd::arithmetic::div_mod::lemma_div_multiples_vanish(2 * hv, s);
    }
}

impl Camera {
    /// A camera of the given image size; `half_view` is the tangent of
    /// half the field of view. It looks down the -Z axis until a view
    /// transform is set.
    pub fn new(h_size: usize, v_size: usize, half_view: Fx) -> (r: Camera)
        requires
            1 <= h_size <= DIM_LIM,
            1 <= v_size <= DIM_LIM,
            v_size <= 16 * h_size,
            h_size <= 16 * v_size,
            0 < half_view@ <= HALF_VIEW_LIM,
        ensures
            r.h_size == h_size,
            r.v_size == v_size,
            r.half_view == half_view,
            default_view(r.transform.m),
            camera_wf(r),
    {
        let h_fx = Fx::from_int(h_size as i64);
        let v_fx = Fx::from_int(v_size as i64);
        proof {
            assert(h_fx@ >= SCALE as int && v_fx@ >= SCALE as int) by (nonlinear_arith)
                requires
                    h_fx@ == h_size * SCALE,
                    v_fx@ == v_size * SCALE,
                    h_size >= 1 && v_size >= 1,
                    SCALE == 0x1_0000_0000i64,
            ;
            lemma_fdiv_le(v_fx@, h_fx@, 0x186A0 * SCALE as int, SCALE as int);
            assert(((0x186A0 * SCALE as int) * SCALE) / (SCALE as int) == 0x186A0 * SCALE as int)
                by (nonlinear_arith);
        }
        let aspect_ratio = v_fx.div(h_fx);
        let two_hv = half_view.add(half_view);
        proof {
            lemma_fdiv_le(two_hv@, h_fx@, 2 * HALF_VIEW_LIM as int, SCALE as int);
            lemma_fdiv_le(two_hv@, v_fx@, 2 * HALF_VIEW_LIM as int, SCALE as int);
            assert(((2 * HALF_VIEW_LIM as int) * SCALE) / (SCALE as int) == 2 * HALF_VIEW_LIM as int)
                by (nonlinear_arith);
        }
        let pixel_size = if aspect_ratio.raw < SCALE {
            two_hv.div(h_fx)
        } else {
            two_hv.div(v_fx)
        };
        let transform = ViewTransform { m: default_view_matrix() };
        Camera { h_size, v_size, half_view, aspect_ratio, pixel_size, transform }
    }

    pub fn h_size(&self) -> (r: usize)
        ensures
            r == self.h_size,
    {
        self.h_size
    }

    pub fn v_size(&self) -> (r: usize)
        ensures
            r == self.v_size,
    {
        self.v_size
    }

    /// The same camera, looking from one point toward another.
    pub fn with_transform(self, from: &Point, to: &Point, up: &Vector) -> (r: Camera)
        requires
            camera_wf(self),
            iabs(from.v.x@) <= crate::view_transform::FROM_LIM,
            iabs(from.v.y@) <= crate::view_transform::FROM_LIM,
            iabs(from.v.z@) <= crate::view_transform::FROM_LIM,
            vec_wf(from.v),
            vec_wf(to.v),
            vec_wf(*up),
            vmsq(vsub(to.v, from.v)) >= MIN_NORM_MSQ,
            vmsq(*up) >= MIN_NORM_MSQ,
            vmsq(crate::coords::vcross(vnormed(*up), crate::view_transform::view_z_of(*from, *to)))
                >= MIN_NORM_MSQ,
            vmsq(crate::coords::vcross(crate::view_transform::view_z_of(*from, *to),
                crate::view_transform::view_x_of(*from, *to, *up))) >= MIN_NORM_MSQ,
        ensures
            r.h_size == self.h_size,
            r.v_size == self.v_size,
            r.half_view == self.half_view,
            r.aspect_ratio == self.aspect_ratio,
            r.pixel_size == self.pixel_size,
            crate::matrix::mat_at(r.transform.m, 0) == crate::view_transform::view_x_of(*from, *to, *up).x@,
            crate::matrix::mat_at(r.transform.m, 1) == crate::view_transform::view_y_of(*from, *to, *up).x@,
            crate::matrix::mat_at(r.transform.m, 2) == crate::view_transform::view_z_of(*from, *to).x@,
            crate::matrix::mat_at(r.transform.m, 3) == from.v.x@,
            crate::matrix::mat_at(r.transform.m, 4) == crate::view_transform::view_x_of(*from, *to, *up).y@,
            crate::matrix::mat_at(r.transform.m, 5) == crate::view_transform::view_y_of(*from, *to, *up).y@,
            crate::matrix::mat_at(r.transform.m, 6) == crate::view_transform::view_z_of(*from, *to).y@,
            crate::matrix::mat_at(r.transform.m, 7) == from.v.y@,
            crate::matrix::mat_at(r.transform.m, 8) == crate::view_transform::view_x_of(*from, *to, *up).z@,
            crate::matrix::mat_at(r.transform.m, 9) == crate::view_transform::view_y_of(*from, *to, *up).z@,
            crate::matrix::mat_at(r.transform.m, 10) == crate::view_transform::view_z_of(*from, *to).z@,
            crate::matrix::mat_at(r.transform.m, 11) == from.v.z@,
            camera_wf(r),
    {
        let transform = ViewTransform::new(from, to, up);
        Camera { transform, ..self }
    }

    /// The view-space position of a pixel centre.
    pub fn view_pixel_at(&self, px: usize, py: usize) -> (r: Point)
        requires
            camera_wf(*self),
            px < self.h_size,
            py < self.v_size,
        ensures
            r == spec_view_pixel(*self, px as int, py as int),
            iabs(r.v.x@) <= VIEW_PT_LIM,
            iabs(r.v.y@) <= VIEW_PT_LIM,
            iabs(r.v.z@) <= VIEW_PT_LIM,
    {
        proof {
            lemma_aspect_branch(self.h_size as int, self.v_size as int);
            lemma_pixel_size_bounds(self.h_size as int, self.v_size as int, self.half_view@);
            let q = self.pixel_size@;
            let s = SCALE as int;
            let pf = px * s + HALF_PIXEL;
            let pg = py * s + HALF_PIXEL;
            if fdiv(self.v_size * s, self.h_size * s) < s {
                assert(pf <= self.h_size * s && pg <= self.h_size * s) by (nonlinear_arith)
                    requires
                        pf == px * s + HALF_PIXEL,
                        pg == py * s + HALF_PIXEL,
                        px < self.h_size,
                        py < self.v_size,
                        self.v_size < self.h_size,
                        s == 0x1_0000_0000,
                        HALF_PIXEL == 0x8000_0000i64,
                ;
                lemma_offset_bound(pf, q, self.h_size * s, 2 * HALF_VIEW_LIM as int);
                lemma_offset_bound(pg, q, self.h_size * s, 2 * HALF_VIEW_LIM as int);
            } else {
                assert(pf <= self.v_size * s && pg <= self.v_size * s) by (nonlinear_arith)
                    requires
                        pf == px * s + HALF_PIXEL,
                        pg == py * s + HALF_PIXEL,
                        px < self.h_size,
                        py < self.v_size,
                        self.v_size >= self.h_size,
                        s == 0x1_0000_0000,
                        HALF_PIXEL == 0x8000_0000i64,
                ;
                lemma_offset_bound(pf, q, self.v_size * s, 2 * HALF_VIEW_LIM as int);
                lemma_offset_bound(pg, q, self.v_size * s, 2 * HALF_VIEW_LIM as int);
            }
            lemma_aspect_le(self.h_size as int, self.v_size as int);
            lemma_fmul_le(self.half_view@, self.aspect_ratio@, HALF_VIEW_LIM as int,
                16 * SCALE as int);
            assert(((HALF_VIEW_LIM as int) * (16 * SCALE as int)) / (SCALE as int)
                == 16 * HALF_VIEW_LIM as int) by (nonlinear_arith);
        }
        let px_f = Fx::from_int(px as i64);
        let py_f = Fx::from_int(py as i64);
        let half = Fx::from_raw(HALF_PIXEL);
        let xo = px_f.add(half).mul(self.pixel_size);
        let yo = py_f.add(half).mul(self.pixel_size);
        let world_x = xo.sub(self.half_view);
        let world_y = self.half_view.mul(self.aspect_ratio).sub(yo);
        Point { v: Vector { x: world_x, y: world_y, z: Fx::one() } }
    }

    /// The world-space ray through a pixel.
    pub fn cast_ray_at(&self, px: usize, py: usize) -> (r: Ray)
        requires
            camera_wf(*self),
            px < self.h_size,
            py < self.v_size,
        ensures
            r == spec_cast_ray(*self, px as int, py as int),
            vec_wf(r.origin.v),
            vec_wf(r.direction),
            vuwf(r.direction),
    {
        let zero = Point::zero();
        let origin = self.transform.to_world(&zero);
        let vp = self.view_pixel_at(px, py);
        let pixel = self.transform.to_world(&vp);
        proof {
            assert(zero == origin_pt());
        }
        let d = pixel.sub_point(origin);
        if d.can_normalize() {
            let r = Ray::between(&origin, &pixel);
            proof {
                assert(d == vsub(pixel.v, origin.v));
            }
            r
        } else {
            let r = Ray::new(origin, UnitVector::z_axis());
            proof {
                assert(d == vsub(pixel.v, origin.v));
            }
            r
        }
    }
}

/// The aspect ratio of supported dimensions stays within sixteen.
proof fn lemma_aspect_le(h: int, v: int)
    requires
        1 <= h <= DIM_LIM as int,
        1 <= v <= DIM_LIM as int,
        v <= 16 * h,
    ensures
        0 <= fdiv(v * SCALE, h * SCALE) <= 16 * SCALE,
{
    let s = SCALE as int;
    let n = v * s * s;
    let d = h * s;
    assert(n >= 0 && d >= s) by (nonlinear_arith)
        requires
            n == v * s * s,
            d == h * s,
            1 <= h && 1 <= v,
            s == 0x1_0000_0000,
    ;
    assert(fdiv(v * s, h * s) == tdiv(n, d)) by {
        assert((v * s) * s == n) by (nonlinear_arith)
            requires
                n == v * s * s,
        ;
    }
    lemma_tdiv(n, d);
    assert(iabs(n) <= (16 * s) * d) by (nonlinear_arith)
        requires
            n == v * s * s,
            d == h * s,
            v <= 16 * h,
            1 <= h && 1 <= v,
            s == 0x1_0000_0000,
    ;
    lemma_tdiv_le(n, d, (16 * s) * d);
    assert(((16 * s) * d) / d == 16 * s) by {
        assert((16 * s) * d == d * (16 * s)) by (nonlinear_arith);
        vstd::arithmetic::div_mod::lemma_div_multiples_vanish(16 * s, d);
    }
}

/// The default view matrix: looking from the origin down -Z with +Y
/// up, which mirrors X and Z.
fn default_view_matrix() -> (r: crate::matrix::Matrix)
    ensures
        default_view(r),
        view_mat_wf(r),
        mat_wf(r),
{
    let one = Fx::one();
    let none = Fx::from_raw(-SCALE);
    let zer = Fx::zero();
    crate::matrix::Matrix::new([
        none, zer, zer, zer,
        zer, one, zer, zer,
        zer, zer, none, zer,
        zer, zer, zer, one,
    ])
}

} // verus!
