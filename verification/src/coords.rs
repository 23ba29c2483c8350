//! Vectors, points and unit vectors over fixed-point components.
//!
//! A `Vector` is a free displacement, a `Point` a position; the two are
//! kept as distinct types so that the homogeneous-coordinate rules
//! (point + vector = point, point - point = vector, and so on) are
//! enforced statically. A `UnitVector` is a vector whose squared
//! magnitude is within a small slack of one; it is produced by
//! normalization, never from raw components.

use vstd::prelude::*;
use crate::num::{Fx, SCALE, iabs, fmul, fdiv, is_sqrt, isq,
    lemma_tdiv, lemma_tdiv_le, lemma_fmul_le, lemma_isq_is, lemma_isq_ordered};

verus! {

/// Bound on the raw components of well-formed geometric values
/// (4096 in real units); keeps every product of the kernel inside i64.
pub const VEC_LIM: i64 = 0x1000_0000_0000;

/// Looser bound under which a dot product still cannot overflow.
pub const DOT_LIM: i64 = 0x4000_0000_0000;

/// Raw tolerance on the magnitude of a unit vector: about 1e-6.
pub const UNIT_TOL: i64 = 4295;

/// Slack allowed on the squared raw magnitude of a unit vector,
/// in units of SCALE: normalization keeps the squared magnitude
/// within 40 * SCALE of SCALE * SCALE.
pub const UNIT_MSQ_SLACK: i64 = 40;

/// Least squared raw magnitude a vector may have to be normalized
/// (magnitude 1/16 in real units).
pub const MIN_NORM_MSQ: i64 = 0x100_0000_0000_0000;

#[derive(Clone, Copy, PartialEq, Eq, Structural, Debug)]
pub struct Vector {
    pub x: Fx,
    pub y: Fx,
    pub z: Fx,
}

#[derive(Clone, Copy, PartialEq, Eq, Structural, Debug)]
pub struct Point {
    pub v: Vector,
}

/// A vector of magnitude one (within tolerance).
#[derive(Clone, Copy, PartialEq, Eq, Structural, Debug)]
pub struct UnitVector {
    pub v: Vector,
}

/// Squared magnitude in raw * raw units.
pub open spec fn vmsq(v: Vector) -> int {
    v.x@ * v.x@ + v.y@ * v.y@ + v.z@ * v.z@
}

/// Magnitude in raw units: the integer square root of the squared
/// magnitude.
pub open spec fn vmag(v: Vector) -> int {
    isq(vmsq(v))
}

/// All components within the working bound.
pub open spec fn vec_wf(v: Vector) -> bool {
    iabs(v.x@) <= VEC_LIM && iabs(v.y@) <= VEC_LIM && iabs(v.z@) <= VEC_LIM
}

/// All components within the dot-product bound.
pub open spec fn vec_dot_wf(v: Vector) -> bool {
    iabs(v.x@) <= DOT_LIM && iabs(v.y@) <= DOT_LIM && iabs(v.z@) <= DOT_LIM
}

/// Fixed-point dot product.
pub open spec fn vdot(a: Vector, b: Vector) -> int {
    fmul(a.x@, b.x@) + fmul(a.y@, b.y@) + fmul(a.z@, b.z@)
}

/// Fixed-point cross product, componentwise.
pub open spec fn vcross(a: Vector, b: Vector) -> Vector {
    Vector {
        x: Fx { raw: (fmul(a.y@, b.z@) - fmul(a.z@, b.y@)) as i64 },
        y: Fx { raw: (fmul(a.z@, b.x@) - fmul(a.x@, b.z@)) as i64 },
        z: Fx { raw: (fmul(a.x@, b.y@) - fmul(a.y@, b.x@)) as i64 },
    }
}

/// The magnitude is within tolerance of one.
pub open spec fn vunit(v: Vector) -> bool {
    iabs(vmag(v) - SCALE) <= UNIT_TOL
}

/// Squared magnitude within the slack that normalization guarantees.
pub open spec fn vuwf(v: Vector) -> bool {
    iabs(vmsq(v) - SCALE * SCALE) <= UNIT_MSQ_SLACK * SCALE
}

/// Well-formed unit vector.
pub open spec fn uv_wf(u: UnitVector) -> bool {
    vuwf(u.v)
}

/// Componentwise sum.
pub open spec fn vadd(a: Vector, b: Vector) -> Vector {
    Vector {
        x: Fx { raw: (a.x@ + b.x@) as i64 },
        y: Fx { raw: (a.y@ + b.y@) as i64 },
        z: Fx { raw: (a.z@ + b.z@) as i64 },
    }
}

/// Componentwise difference.
pub open spec fn vsub(a: Vector, b: Vector) -> Vector {
    Vector {
        x: Fx { raw: (a.x@ - b.x@) as i64 },
        y: Fx { raw: (a.y@ - b.y@) as i64 },
        z: Fx { raw: (a.z@ - b.z@) as i64 },
    }
}

/// The opposite vector.
pub open spec fn vflip(a: Vector) -> Vector {
    Vector {
        x: Fx { raw: (-a.x@) as i64 },
        y: Fx { raw: (-a.y@) as i64 },
        z: Fx { raw: (-a.z@) as i64 },
    }
}

/// Componentwise scaling.
pub open spec fn vscale(a: Vector, c: int) -> Vector {
    Vector {
        x: Fx { raw: fmul(a.x@, c) as i64 },
        y: Fx { raw: fmul(a.y@, c) as i64 },
        z: Fx { raw: fmul(a.z@, c) as i64 },
    }
}

/// The components a normalization of `v` yields.
pub open spec fn vnormed(v: Vector) -> Vector {
    Vector {
        x: Fx { raw: fdiv(v.x@, vmag(v)) as i64 },
        y: Fx { raw: fdiv(v.y@, vmag(v)) as i64 },
        z: Fx { raw: fdiv(v.z@, vmag(v)) as i64 },
    }
}

/// Componentwise bound that a dot product obeys.
proof fn lemma_vdot_bound(a: Vector, b: Vector)
    requires
        vec_dot_wf(a),
        vec_dot_wf(b),
    ensures
        iabs(vdot(a, b)) <= 3 * 0x1000_0000_0000_0000,
        iabs(fmul(a.x@, b.x@)) <= 0x1000_0000_0000_0000,
        iabs(fmul(a.y@, b.y@)) <= 0x1000_0000_0000_0000,
        iabs(fmul(a.z@, b.z@)) <= 0x1000_0000_0000_0000,
{
    lemma_fmul_le(a.x@, b.x@, DOT_LIM as int, DOT_LIM as int);
    lemma_fmul_le(a.y@, b.y@, DOT_LIM as int, DOT_LIM as int);
    lemma_fmul_le(a.z@, b.z@, DOT_LIM as int, DOT_LIM as int);
    assert((DOT_LIM as int * DOT_LIM as int) / (SCALE as int) == 0x1000_0000_0000_0000);
}

/// A componentwise bound on two vectors bounds their dot product.
pub proof fn lemma_vdot_le(u: Vector, w: Vector, ub: int, wb: int)
    requires
        iabs(u.x@) <= ub && iabs(u.y@) <= ub && iabs(u.z@) <= ub,
        iabs(w.x@) <= wb && iabs(w.y@) <= wb && iabs(w.z@) <= wb,
    ensures
        iabs(vdot(u, w)) <= 3 * ((ub * wb) / (SCALE as int)),
        iabs(fmul(u.x@, w.x@)) <= (ub * wb) / (SCALE as int),
        iabs(fmul(u.y@, w.y@)) <= (ub * wb) / (SCALE as int),
        iabs(fmul(u.z@, w.z@)) <= (ub * wb) / (SCALE as int),
{
    lemma_fmul_le(u.x@, w.x@, ub, wb);
    lemma_fmul_le(u.y@, w.y@, ub, wb);
    lemma_fmul_le(u.z@, w.z@, ub, wb);
}

/// The cross product of near-unit vectors stays small.
pub proof fn lemma_vcross_unit_bound(a: Vector, b: Vector)
    requires
        iabs(a.x@) <= SCALE + 20 && iabs(a.y@) <= SCALE + 20 && iabs(a.z@) <= SCALE + 20,
        iabs(b.x@) <= SCALE + 20 && iabs(b.y@) <= SCALE + 20 && iabs(b.z@) <= SCALE + 20,
    ensures
        iabs(vcross(a, b).x@) <= 3 * SCALE,
        iabs(vcross(a, b).y@) <= 3 * SCALE,
        iabs(vcross(a, b).z@) <= 3 * SCALE,
        vec_dot_wf(vcross(a, b)),
        vec_wf(vcross(a, b)),
{
    lemma_fmul_le(a.y@, b.z@, SCALE as int + 20, SCALE as int + 20);
    lemma_fmul_le(a.z@, b.y@, SCALE as int + 20, SCALE as int + 20);
    lemma_fmul_le(a.z@, b.x@, SCALE as int + 20, SCALE as int + 20);
    lemma_fmul_le(a.x@, b.z@, SCALE as int + 20, SCALE as int + 20);
    lemma_fmul_le(a.x@, b.y@, SCALE as int + 20, SCALE as int + 20);
    lemma_fmul_le(a.y@, b.x@, SCALE as int + 20, SCALE as int + 20);
    assert(((SCALE as int + 20) * (SCALE as int + 20)) / (SCALE as int) == 0x1_0000_0028)
        by (nonlinear_arith);
}

impl Vector {
    pub fn new(x: Fx, y: Fx, z: Fx) -> (r: Vector)
        ensures
            r == (Vector { x, y, z }),
    {
        Vector { x, y, z }
    }

    pub fn zero() -> (r: Vector)
        ensures
            r.x@ == 0 && r.y@ == 0 && r.z@ == 0,
    {
        Vector { x: Fx::zero(), y: Fx::zero(), z: Fx::zero() }
    }

    /// Componentwise sum.
    pub fn add(self, o: Vector) -> (r: Vector)
        requires
            i64::MIN <= self.x@ + o.x@ <= i64::MAX,
            i64::MIN <= self.y@ + o.y@ <= i64::MAX,
            i64::MIN <= self.z@ + o.z@ <= i64::MAX,
        ensures
            r.x@ == self.x@ + o.x@,
            r.y@ == self.y@ + o.y@,
            r.z@ == self.z@ + o.z@,
    {
        Vector { x: self.x.add(o.x), y: self.y.add(o.y), z: self.z.add(o.z) }
    }

    /// Componentwise difference.
    pub fn sub(self, o: Vector) -> (r: Vector)
        requires
            i64::MIN <= self.x@ - o.x@ <= i64::MAX,
            i64::MIN <= self.y@ - o.y@ <= i64::MAX,
            i64::MIN <= self.z@ - o.z@ <= i64::MAX,
        ensures
            r.x@ == self.x@ - o.x@,
            r.y@ == self.y@ - o.y@,
            r.z@ == self.z@ - o.z@,
    {
        Vector { x: self.x.sub(o.x), y: self.y.sub(o.y), z: self.z.sub(o.z) }
    }

    /// The opposite vector.
    pub fn flip(self) -> (r: Vector)
        requires
            self.x@ > i64::MIN,
            self.y@ > i64::MIN,
            self.z@ > i64::MIN,
        ensures
            r.x@ == -self.x@,
            r.y@ == -self.y@,
            r.z@ == -self.z@,
    {
        Vector { x: self.x.neg(), y: self.y.neg(), z: self.z.neg() }
    }

    /// Scaling by a fixed-point factor.
    pub fn scale(self, c: Fx) -> (r: Vector)
        requires
            i64::MIN <= fmul(self.x@, c@) <= i64::MAX,
            i64::MIN <= fmul(self.y@, c@) <= i64::MAX,
            i64::MIN <= fmul(self.z@, c@) <= i64::MAX,
        ensures
            r.x@ == fmul(self.x@, c@),
            r.y@ == fmul(self.y@, c@),
            r.z@ == fmul(self.z@, c@),
    {
        Vector { x: self.x.mul(c), y: self.y.mul(c), z: self.z.mul(c) }
    }

    /// Componentwise reciprocal.
    pub fn recip(self) -> (r: Vector)
        requires
            iabs(self.x@) >= 0x10_0000,
            iabs(self.y@) >= 0x10_0000,
            iabs(self.z@) >= 0x10_0000,
        ensures
            r.x@ == fdiv(SCALE as int, self.x@),
            r.y@ == fdiv(SCALE as int, self.y@),
            r.z@ == fdiv(SCALE as int, self.z@),
    {
        proof {
            lemma_fdiv_fits(self.x@);
            lemma_fdiv_fits(self.y@);
            lemma_fdiv_fits(self.z@);
        }
        let one = Fx::one();
        Vector { x: one.div(self.x), y: one.div(self.y), z: one.div(self.z) }
    }

    /// Dot product.
    pub fn dot(self, o: Vector) -> (r: Fx)
        requires
            vec_dot_wf(self),
            vec_dot_wf(o),
        ensures
            r@ == vdot(self, o),
    {
        proof {
            lemma_vdot_bound(self, o);
        }
        self.x.mul(o.x).add(self.y.mul(o.y)).add(self.z.mul(o.z))
    }

    /// Cross product.
    pub fn cross(self, o: Vector) -> (r: Vector)
        requires
            vec_dot_wf(self),
            vec_dot_wf(o),
        ensures
            r == vcross(self, o),
    {
        proof {
            lemma_vdot_bound(self, o);
            lemma_fmul_le(self.y@, o.z@, DOT_LIM as int, DOT_LIM as int);
            lemma_fmul_le(self.z@, o.y@, DOT_LIM as int, DOT_LIM as int);
            lemma_fmul_le(self.z@, o.x@, DOT_LIM as int, DOT_LIM as int);
            lemma_fmul_le(self.x@, o.z@, DOT_LIM as int, DOT_LIM as int);
            lemma_fmul_le(self.x@, o.y@, DOT_LIM as int, DOT_LIM as int);
            lemma_fmul_le(self.y@, o.x@, DOT_LIM as int, DOT_LIM as int);
        }
        Vector {
            x: self.y.mul(o.z).sub(self.z.mul(o.y)),
            y: self.z.mul(o.x).sub(self.x.mul(o.z)),
            z: self.x.mul(o.y).sub(self.y.mul(o.x)),
        }
    }

    /// Squared magnitude, as a fixed-point number.
    pub fn magnitude_squared(self) -> (r: Fx)
        requires
            vec_dot_wf(self),
        ensures
            r@ == vdot(self, self),
    {
        self.dot(self)
    }

    /// Magnitude: the integer square root of the exact squared raw
    /// magnitude, so no precision is lost to an intermediate rounding.
    pub fn magnitude(self) -> (r: Fx)
        requires
            vec_dot_wf(self),
        ensures
            r@ == vmag(self),
            is_sqrt(vmsq(self), r@),
            0 <= r@ < 0x1_0000_0000_0000,
    {
        proof {
            assert(0 <= self.x@ * self.x@ <= DOT_LIM as int * DOT_LIM as int) by (nonlinear_arith)
                requires
                    -DOT_LIM <= self.x@ <= DOT_LIM,
            ;
            assert(0 <= self.y@ * self.y@ <= DOT_LIM as int * DOT_LIM as int) by (nonlinear_arith)
                requires
                    -DOT_LIM <= self.y@ <= DOT_LIM,
            ;
            assert(0 <= self.z@ * self.z@ <= DOT_LIM as int * DOT_LIM as int) by (nonlinear_arith)
                requires
                    -DOT_LIM <= self.z@ <= DOT_LIM,
            ;
        }
        let xx: i128 = (self.x.raw as i128) * (self.x.raw as i128);
        let yy: i128 = (self.y.raw as i128) * (self.y.raw as i128);
        let zz: i128 = (self.z.raw as i128) * (self.z.raw as i128);
        let msq: i128 = xx + yy + zz;
        let r = crate::num::isqrt_u128(msq as u128);
        proof {
            lemma_isq_is(vmsq(self), r as int);
            assert(r < 0x1_0000_0000_0000) by (nonlinear_arith)
                requires
                    0 <= r,
                    (r as int) * (r as int) <= msq as int,
                    msq as int <= 3 * (0x4000_0000_0000 * 0x4000_0000_0000),
            {
                if r >= 0x1_0000_0000_0000 {
                    assert((r as int) * (r as int) >= 0x1_0000_0000_0000 * 0x1_0000_0000_0000);
                }
            }
        }
        Fx::from_raw(r as i64)
    }

    /// Normalization: each component is divided by the magnitude.
    /// The result is a unit vector, so normalizing any admissible
    /// vector yields magnitude one within tolerance.
    pub fn normalize(self) -> (r: UnitVector)
        requires
            vec_dot_wf(self),
            vmsq(self) >= MIN_NORM_MSQ,
        ensures
            r.v == vnormed(self),
            uv_wf(r),
            vunit(r.v),
    {
        let m = self.magnitude();
        proof {
            lemma_mag_bounds(self, m@);
            lemma_norm_comp(self.x@, m@, fdiv(self.x@, m@));
            lemma_norm_comp(self.y@, m@, fdiv(self.y@, m@));
            lemma_norm_comp(self.z@, m@, fdiv(self.z@, m@));
        }
        let ux = self.x.div(m);
        let uy = self.y.div(m);
        let uz = self.z.div(m);
        let r = UnitVector { v: Vector { x: ux, y: uy, z: uz } };
        proof {
            lemma_normalize_msq(self, m@, r.v);
            lemma_unit_magnitude(r);
        }
        r
    }

    /// Whether two vectors differ by at most the tolerance, measured
    /// by the magnitude of their difference.
    pub fn is_approx_equal(self, other: &Vector, tolerance: Fx) -> (r: bool)
        requires
            vec_wf(self),
            vec_wf(*other),
        ensures
            r == (vmag(vsub(self, *other)) <= tolerance@),
    {
        let d = self.sub(*other);
        let m = d.magnitude();
        m.raw <= tolerance.raw
    }

    /// Whether the vector is long enough to be normalized.
    pub fn can_normalize(self) -> (r: bool)
        requires
            vec_dot_wf(self),
        ensures
            r == (vmsq(self) >= MIN_NORM_MSQ),
    {
        proof {
            assert(0 <= self.x@ * self.x@ <= DOT_LIM as int * DOT_LIM as int) by (nonlinear_arith)
                requires
                    -DOT_LIM <= self.x@ <= DOT_LIM,
            ;
            assert(0 <= self.y@ * self.y@ <= DOT_LIM as int * DOT_LIM as int) by (nonlinear_arith)
                requires
                    -DOT_LIM <= self.y@ <= DOT_LIM,
            ;
            assert(0 <= self.z@ * self.z@ <= DOT_LIM as int * DOT_LIM as int) by (nonlinear_arith)
                requires
                    -DOT_LIM <= self.z@ <= DOT_LIM,
            ;
        }
        let xx: i128 = (self.x.raw as i128) * (self.x.raw as i128);
        let yy: i128 = (self.y.raw as i128) * (self.y.raw as i128);
        let zz: i128 = (self.z.raw as i128) * (self.z.raw as i128);
        xx + yy + zz >= MIN_NORM_MSQ as i128
    }

    /// Whether the magnitude is within tolerance of one.
    pub fn is_unit(self) -> (r: bool)
        requires
            vec_dot_wf(self),
        ensures
            r == vunit(self),
    {
        let m = self.magnitude();
        let d = m.raw - SCALE;
        let da = if d < 0 { -d } else { d };
        da <= UNIT_TOL
    }
}

/// One component of a normalization: the quotient keeps magnitude at
/// most SCALE, and its square, scaled by the divisor squared, stays
/// within 2 m^2 SCALE + m^2 of the exact value.
proof fn lemma_norm_comp(x: int, m: int, ux: int)
    requires
        m >= 1,
        iabs(x) <= m,
        ux == fdiv(x, m),
    ensures
        iabs(ux) <= SCALE as int,
        m * m * (ux * ux) >= x * x * (SCALE as int * SCALE) - 2 * (m * m) * SCALE,
        m * m * (ux * ux) <= x * x * (SCALE as int * SCALE) + 2 * (m * m) * SCALE + m * m,
{
    let s = SCALE as int;
    lemma_tdiv(x * s, m);
    let rx = x * s - ux * m;
    assert(-m < rx < m);
    assert(iabs(ux * m) <= iabs(x * s));
    assert(iabs(x * s) <= m * s) by (nonlinear_arith)
        requires
            -m <= x <= m,
            s > 0,
    ;
    assert(-(m * s) <= ux * m <= m * s);
    assert(-s <= ux && ux <= s) by (nonlinear_arith)
        requires
            -(m * s) <= ux * m <= m * s,
            m >= 1,
            s == 0x1_0000_0000,
    {
        if ux > s {
            assert(ux * m >= (s + 1) * m);
            assert((s + 1) * m > s * m);
        }
        if ux < -s {
            assert(ux * m <= (-(s + 1)) * m);
            assert((-(s + 1)) * m < -(s * m));
        }
    }
    assert(m * m * (ux * ux) >= x * x * (s * s) - 2 * (m * m) * s
        && m * m * (ux * ux) <= x * x * (s * s) + 2 * (m * m) * s + m * m) by (nonlinear_arith)
        requires
            rx == x * s - ux * m,
            -m < rx < m,
            -m <= x <= m,
            m >= 1,
            s == 0x1_0000_0000,
    {
        assert((ux * m) * (ux * m) == (x * s - rx) * (x * s - rx));
        assert((x * s - rx) * (x * s - rx) == x * x * (s * s) - 2 * (x * s) * rx + rx * rx);
        assert(m * m * (ux * ux) == (ux * m) * (ux * m));
        assert(rx * rx <= m * m);
        assert(-(m * (m * s)) <= (x * s) * rx <= m * (m * s));
    }
}

/// A magnitude witness of an admissible vector is at least 2^28 and
/// dominates every component.
proof fn lemma_mag_bounds(v: Vector, m: int)
    requires
        vmsq(v) >= MIN_NORM_MSQ,
        is_sqrt(vmsq(v), m),
    ensures
        m >= 0x1000_0000,
        iabs(v.x@) <= m,
        iabs(v.y@) <= m,
        iabs(v.z@) <= m,
{
    let x = v.x@;
    let y = v.y@;
    let z = v.z@;
    let msq = vmsq(v);
    assert(m >= 0x1000_0000) by (nonlinear_arith)
        requires
            m >= 0,
            msq < (m + 1) * (m + 1),
            msq >= 0x100_0000_0000_0000,
    {
        if m + 1 <= 0x1000_0000 {
            assert((m + 1) * (m + 1) <= 0x1000_0000 * 0x1000_0000);
        }
    }
    assert(iabs(x) <= m && iabs(y) <= m && iabs(z) <= m) by (nonlinear_arith)
        requires
            x * x + y * y + z * z == msq,
            msq < (m + 1) * (m + 1),
            m >= 0,
    {
        assert(y * y >= 0 && z * z >= 0 && x * x >= 0);
        if x > m || x < -m {
            assert(x * x >= (m + 1) * (m + 1));
        }
        if y > m || y < -m {
            assert(y * y >= (m + 1) * (m + 1));
        }
        if z > m || z < -m {
            assert(z * z >= (m + 1) * (m + 1));
        }
    }
}

/// Normalization yields a vector whose squared magnitude is within the
/// unit slack, provided the source is well formed and not too short.
proof fn lemma_normalize_msq(v: Vector, m: int, u: Vector)
    requires
        vmsq(v) >= MIN_NORM_MSQ,
        is_sqrt(vmsq(v), m),
        u.x@ == fdiv(v.x@, m),
        u.y@ == fdiv(v.y@, m),
        u.z@ == fdiv(v.z@, m),
    ensures
        iabs(vmsq(u) - SCALE as int * SCALE) <= UNIT_MSQ_SLACK as int * SCALE,
        iabs(u.x@) <= SCALE as int,
        iabs(u.y@) <= SCALE as int,
        iabs(u.z@) <= SCALE as int,
        m >= 0x1000_0000,
{
    let s = SCALE as int;
    let x = v.x@;
    let y = v.y@;
    let z = v.z@;
    let msq = vmsq(v);
    lemma_mag_bounds(v, m);
    lemma_norm_comp(x, m, u.x@);
    lemma_norm_comp(y, m, u.y@);
    lemma_norm_comp(z, m, u.z@);
    let e = msq - m * m;
    assert(0 <= e <= 2 * m) by (nonlinear_arith)
        requires
            e == msq - m * m,
            m * m <= msq < (m + 1) * (m + 1),
    ;
    // Sum the three component bounds and cancel the positive factor m * m.
    assert(s * s - 40 * s <= vmsq(u) <= s * s + 40 * s) by (nonlinear_arith)
        requires
            m * m * (u.x@ * u.x@) >= x * x * (s * s) - 2 * (m * m) * s,
            m * m * (u.x@ * u.x@) <= x * x * (s * s) + 2 * (m * m) * s + m * m,
            m * m * (u.y@ * u.y@) >= y * y * (s * s) - 2 * (m * m) * s,
            m * m * (u.y@ * u.y@) <= y * y * (s * s) + 2 * (m * m) * s + m * m,
            m * m * (u.z@ * u.z@) >= z * z * (s * s) - 2 * (m * m) * s,
            m * m * (u.z@ * u.z@) <= z * z * (s * s) + 2 * (m * m) * s + m * m,
            msq == x * x + y * y + z * z,
            vmsq(u) == u.x@ * u.x@ + u.y@ * u.y@ + u.z@ * u.z@,
            0 <= e <= 2 * m,
            e == msq - m * m,
            m >= 0x1000_0000,
            s == 0x1_0000_0000,
            UNIT_MSQ_SLACK as int == 40,
    {
        let su = vmsq(u);
        assert(m * m * su >= msq * (s * s) - 6 * (m * m) * s);
        assert(m * m * su <= msq * (s * s) + 6 * (m * m) * s + 3 * (m * m));
        assert(msq * (s * s) == m * m * (s * s) + e * (s * s));
        assert(e * (s * s) <= 2 * m * (s * s));
        assert(2 * m * (s * s) <= 32 * (m * m) * s) by {
            assert(16 * m >= s);
            assert(2 * m * (s * s) == (2 * m * s) * s);
            assert(32 * (m * m) * s == (2 * m * s) * (16 * m));
        }
        assert(m * m * su <= m * m * (s * s) + 32 * (m * m) * s + 6 * (m * m) * s + 3 * (m * m));
        assert(3 * (m * m) <= 2 * (m * m) * s);
        assert(m * m * su <= (m * m) * (s * s + 40 * s));
        assert(m * m * su >= (m * m) * (s * s) - 6 * (m * m) * s >= (m * m) * (s * s - 40 * s));
        assert(su <= s * s + 40 * s);
        assert(su >= s * s - 40 * s);
    }
}

/// A well-formed unit vector has magnitude one, within the raw
/// tolerance of about 1e-6: the unit-length law of the kernel.
pub proof fn lemma_unit_magnitude(u: UnitVector)
    requires
        uv_wf(u),
    ensures
        iabs(vmag(u.v) - SCALE) <= UNIT_TOL,
        vunit(u.v),
{
    let s = SCALE as int;
    let msq = vmsq(u.v);
    assert(msq >= s * s - 40 * s);
    crate::num::lemma_isq_exists(msq);
    let g = vmag(u.v);
    assert(is_sqrt(msq, g));
    assert(is_sqrt((s - 21) * (s - 21), s - 21));
    assert(is_sqrt((s + 20) * (s + 20), s + 20));
    assert((s - 21) * (s - 21) <= msq);
    assert(msq <= (s + 20) * (s + 20));
    lemma_isq_ordered((s - 21) * (s - 21), msq, s - 21, g);
    lemma_isq_ordered(msq, (s + 20) * (s + 20), g, s + 20);
}

/// The reciprocal of a raw value of magnitude at least 2^20 fits i64.
proof fn lemma_fdiv_fits(x: int)
    requires
        iabs(x) >= 0x10_0000,
    ensures
        iabs(fdiv(SCALE as int, x)) <= 0x1000_0000_0000,
        x != 0,
{
    crate::num::lemma_fdiv_le(SCALE as int, x, SCALE as int, 0x10_0000);
    assert((SCALE as int * SCALE) / 0x10_0000 == 0x1000_0000_0000);
}

impl Point {
    pub fn new(x: Fx, y: Fx, z: Fx) -> (r: Point)
        ensures
            r.v == (Vector { x, y, z }),
    {
        Point { v: Vector { x, y, z } }
    }

    pub fn zero() -> (r: Point)
        ensures
            r.v.x@ == 0 && r.v.y@ == 0 && r.v.z@ == 0,
    {
        Point { v: Vector::zero() }
    }

    pub fn x(&self) -> (r: Fx)
        ensures
            r == self.v.x,
    {
        self.v.x
    }

    pub fn y(&self) -> (r: Fx)
        ensures
            r == self.v.y,
    {
        self.v.y
    }

    pub fn z(&self) -> (r: Fx)
        ensures
            r == self.v.z,
    {
        self.v.z
    }

    /// The displacement of this point from the origin.
    pub fn as_vector(&self) -> (r: Vector)
        ensures
            r == self.v,
    {
        self.v
    }

    /// Point plus vector is a point.
    pub fn add_vector(self, o: Vector) -> (r: Point)
        requires
            i64::MIN <= self.v.x@ + o.x@ <= i64::MAX,
            i64::MIN <= self.v.y@ + o.y@ <= i64::MAX,
            i64::MIN <= self.v.z@ + o.z@ <= i64::MAX,
        ensures
            r.v.x@ == self.v.x@ + o.x@,
            r.v.y@ == self.v.y@ + o.y@,
            r.v.z@ == self.v.z@ + o.z@,
    {
        Point { v: self.v.add(o) }
    }

    /// Point minus point is a vector.
    pub fn sub_point(self, o: Point) -> (r: Vector)
        requires
            i64::MIN <= self.v.x@ - o.v.x@ <= i64::MAX,
            i64::MIN <= self.v.y@ - o.v.y@ <= i64::MAX,
            i64::MIN <= self.v.z@ - o.v.z@ <= i64::MAX,
        ensures
            r.x@ == self.v.x@ - o.v.x@,
            r.y@ == self.v.y@ - o.v.y@,
            r.z@ == self.v.z@ - o.v.z@,
    {
        self.v.sub(o.v)
    }

    /// Point minus vector is a point.
    pub fn sub_vector(self, o: Vector) -> (r: Point)
        requires
            i64::MIN <= self.v.x@ - o.x@ <= i64::MAX,
            i64::MIN <= self.v.y@ - o.y@ <= i64::MAX,
            i64::MIN <= self.v.z@ - o.z@ <= i64::MAX,
        ensures
            r.v.x@ == self.v.x@ - o.x@,
            r.v.y@ == self.v.y@ - o.y@,
            r.v.z@ == self.v.z@ - o.z@,
    {
        Point { v: self.v.sub(o) }
    }
}

impl UnitVector {
    /// The wrapped vector.
    pub fn v(&self) -> (r: Vector)
        ensures
            r == self.v,
    {
        self.v
    }

    /// The unit vector along +X.
    pub fn x_axis() -> (r: UnitVector)
        ensures
            r.v.x@ == SCALE as int && r.v.y@ == 0 && r.v.z@ == 0,
            uv_wf(r),
    {
        let r = UnitVector { v: Vector { x: Fx::one(), y: Fx::zero(), z: Fx::zero() } };
        proof {
            lemma_axis_wf(r);
        }
        r
    }

    /// The unit vector along +Y.
    pub fn y_axis() -> (r: UnitVector)
        ensures
            r.v.x@ == 0 && r.v.y@ == SCALE as int && r.v.z@ == 0,
            uv_wf(r),
    {
        let r = UnitVector { v: Vector { x: Fx::zero(), y: Fx::one(), z: Fx::zero() } };
        proof {
            lemma_axis_wf(r);
        }
        r
    }

    /// The unit vector along +Z.
    pub fn z_axis() -> (r: UnitVector)
        ensures
            r.v.x@ == 0 && r.v.y@ == 0 && r.v.z@ == SCALE as int,
            uv_wf(r),
    {
        let r = UnitVector { v: Vector { x: Fx::zero(), y: Fx::zero(), z: Fx::one() } };
        proof {
            lemma_axis_wf(r);
        }
        r
    }

    /// The opposite unit vector.
    pub fn flip(self) -> (r: UnitVector)
        requires
            uv_wf(self),
        ensures
            r.v.x@ == -self.v.x@,
            r.v.y@ == -self.v.y@,
            r.v.z@ == -self.v.z@,
            uv_wf(r),
    {
        proof {
            lemma_uv_comp_bound(self);
        }
        let r = UnitVector { v: self.v.flip() };
        proof {
            assert(vmsq(r.v) == vmsq(self.v)) by (nonlinear_arith)
                requires
                    r.v.x@ == -self.v.x@ && r.v.y@ == -self.v.y@ && r.v.z@ == -self.v.z@,
            ;
        }
        r
    }
}

/// A unit vector along an axis is well formed.
proof fn lemma_axis_wf(u: UnitVector)
    requires
        vmsq(u.v) == SCALE as int * SCALE,
    ensures
        uv_wf(u),
{
}

/// Components of a well-formed unit vector stay close to SCALE.
pub proof fn lemma_uv_comp_bound(u: UnitVector)
    requires
        uv_wf(u),
    ensures
        iabs(u.v.x@) <= SCALE + 20,
        iabs(u.v.y@) <= SCALE + 20,
        iabs(u.v.z@) <= SCALE + 20,
        vec_wf(u.v),
{
    assert(iabs(u.v.x@) <= SCALE + 20 && iabs(u.v.y@) <= SCALE + 20 && iabs(u.v.z@) <= SCALE + 20)
        by (nonlinear_arith)
        requires
            u.v.x@ * u.v.x@ + u.v.y@ * u.v.y@ + u.v.z@ * u.v.z@
                <= SCALE as int * SCALE + UNIT_MSQ_SLACK as int * SCALE,
    {
        let s = SCALE as int;
        if u.v.x@ > s + 20 || u.v.x@ < -(s + 20) {
            assert(u.v.x@ * u.v.x@ > (s + 20) * (s + 20));
        }
        if u.v.y@ > s + 20 || u.v.y@ < -(s + 20) {
            assert(u.v.y@ * u.v.y@ > (s + 20) * (s + 20));
        }
        if u.v.z@ > s + 20 || u.v.z@ < -(s + 20) {
            assert(u.v.z@ * u.v.z@ > (s + 20) * (s + 20));
        }
    }
}

} // verus!
