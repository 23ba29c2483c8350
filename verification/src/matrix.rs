//! 4x4 homogeneous matrices over fixed-point entries: named
//! constructors for the affine maps the renderer uses, the matrix
//! product, and application to points (implicit w = 1) and vectors
//! (implicit w = 0). Keeping the two application operations distinct
//! preserves the homogeneous-coordinate invariant: translation moves
//! points and leaves vectors alone.
use vstd::prelude::*;
use crate::num::{Fx, SCALE, iabs, fmul, lemma_fmul_le, lemma_tdiv};
use crate::coords::{Vector, Point, UnitVector, vec_wf, uv_wf, lemma_uv_comp_bound, VEC_LIM};

verus! {

/// Bound on the raw value a matrix application can produce.
pub const APP_LIM: i64 = 0x400_0000_0000_0000;

#[derive(Clone, Copy, Debug, PartialEq)]
pub struct Matrix {
    pub e: [Fx; 16],
}

/// Entry at flat index k (row-major).
pub open spec fn mat_at(m: Matrix, k: int) -> int
    recommends 0 <= k < 16,
{
    m.e@[k]@
}

/// All entries within the working bound.
pub open spec fn mat_wf(m: Matrix) -> bool {
    forall|k: int| 0 <= k < 16 ==> iabs(#[trigger] mat_at(m, k)) <= VEC_LIM
}

/// Entry (r, c) of the product of two matrices.
pub open spec fn ment(a: Matrix, b: Matrix, r: int, c: int) -> int
    recommends 0 <= r < 4 && 0 <= c < 4,
{
    fmul(mat_at(a, 4 * r), mat_at(b, c))
        + fmul(mat_at(a, 4 * r + 1), mat_at(b, 4 + c))
        + fmul(mat_at(a, 4 * r + 2), mat_at(b, 8 + c))
        + fmul(mat_at(a, 4 * r + 3), mat_at(b, 12 + c))
}

/// Row r of the matrix applied to a position (w = 1): the translation
/// column enters the sum.
pub open spec fn prow(m: Matrix, r: int, v: Vector) -> int
    recommends 0 <= r < 4,
{
    fmul(mat_at(m, 4 * r), v.x@) + fmul(mat_at(m, 4 * r + 1), v.y@)
        + fmul(mat_at(m, 4 * r + 2), v.z@) + mat_at(m, 4 * r + 3)
}

/// Row r of the matrix applied to a direction (w = 0): translation has
/// no effect.
pub open spec fn vrow(m: Matrix, r: int, v: Vector) -> int
    recommends 0 <= r < 4,
{
    fmul(mat_at(m, 4 * r), v.x@) + fmul(mat_at(m, 4 * r + 1), v.y@)
        + fmul(mat_at(m, 4 * r + 2), v.z@)
}

/// The point a matrix application yields.
pub open spec fn mapp_point(m: Matrix, p: Point) -> Point {
    Point {
        v: Vector {
            x: Fx { raw: prow(m, 0, p.v) as i64 },
            y: Fx { raw: prow(m, 1, p.v) as i64 },
            z: Fx { raw: prow(m, 2, p.v) as i64 },
        },
    }
}

/// The vector a matrix application yields.
pub open spec fn mapp_vector(m: Matrix, v: Vector) -> Vector {
    Vector {
        x: Fx { raw: vrow(m, 0, v) as i64 },
        y: Fx { raw: vrow(m, 1, v) as i64 },
        z: Fx { raw: vrow(m, 2, v) as i64 },
    }
}


/// Row r of the transposed matrix applied to a direction: column r of
/// the matrix dotted with the vector. This is how a normal is carried
/// by the transpose of an inverse matrix.
pub open spec fn vrow_t(m: Matrix, r: int, v: Vector) -> int
    recommends 0 <= r < 3,
{
    fmul(mat_at(m, r), v.x@) + fmul(mat_at(m, 4 + r), v.y@)
        + fmul(mat_at(m, 8 + r), v.z@)
}

/// The vector the transposed matrix maps a direction to.
pub open spec fn mapp_vector_t(m: Matrix, v: Vector) -> Vector {
    Vector {
        x: Fx { raw: vrow_t(m, 0, v) as i64 },
        y: Fx { raw: vrow_t(m, 1, v) as i64 },
        z: Fx { raw: vrow_t(m, 2, v) as i64 },
    }
}

/// Multiplying by one is exact.
pub proof fn lemma_fmul_one(a: int)
    ensures
        fmul(a, SCALE as int) == a,
        fmul(SCALE as int, a) == a,
{
    assert(a * (SCALE as int) == (SCALE as int) * a) by (nonlinear_arith);
    let s = SCALE as int;
    if a >= 0 {
        assert(a * s == s * a) by (nonlinear_arith);
        vstd::arithmetic::div_mod::lemma_div_multiples_vanish(a, s);
    } else {
        assert(a * s < 0 && -(a * s) == s * (-a)) by (nonlinear_arith)
            requires
                a < 0,
                s == SCALE as int,
        ;
        vstd::arithmetic::div_mod::lemma_div_multiples_vanish(-a, s);
    }
}

/// Multiplying by zero is exact.
pub proof fn lemma_fmul_zero(a: int)
    ensures
        fmul(a, 0) == 0,
        fmul(0, a) == 0,
{
    assert(a * 0 == 0) by (nonlinear_arith);
    assert(0 * a == 0) by (nonlinear_arith);
}

/// Four fixed-point products summed, with every factor within the
/// working bound.
fn dot4(a0: Fx, a1: Fx, a2: Fx, a3: Fx, b0: Fx, b1: Fx, b2: Fx, b3: Fx) -> (r: Fx)
    requires
        iabs(a0@) <= VEC_LIM && iabs(a1@) <= VEC_LIM && iabs(a2@) <= VEC_LIM && iabs(a3@) <= VEC_LIM,
        iabs(b0@) <= VEC_LIM && iabs(b1@) <= VEC_LIM && iabs(b2@) <= VEC_LIM && iabs(b3@) <= VEC_LIM,
    ensures
        r@ == fmul(a0@, b0@) + fmul(a1@, b1@) + fmul(a2@, b2@) + fmul(a3@, b3@),
        iabs(r@) <= APP_LIM,
{
    proof {
        lemma_fmul_le(a0@, b0@, VEC_LIM as int, VEC_LIM as int);
        lemma_fmul_le(a1@, b1@, VEC_LIM as int, VEC_LIM as int);
        lemma_fmul_le(a2@, b2@, VEC_LIM as int, VEC_LIM as int);
        lemma_fmul_le(a3@, b3@, VEC_LIM as int, VEC_LIM as int);
        assert((VEC_LIM as int * VEC_LIM) / (SCALE as int) == 0x100_0000_0000_0000);
    }
    a0.mul(b0).add(a1.mul(b1)).add(a2.mul(b2)).add(a3.mul(b3))
}

impl Matrix {
    pub fn new(e: [Fx; 16]) -> (r: Matrix)
        ensures
            r.e@ == e@,
    {
        Matrix { e }
    }

    /// Entry at (row, col).
    pub fn el(&self, row: usize, col: usize) -> (r: Fx)
        requires
            row < 4,
            col < 4,
        ensures
            r@ == mat_at(*self, 4 * row + col),
    {
        self.e[row * 4 + col]
    }

    /// The neutral element of composition.
    pub fn identity() -> (r: Matrix)
        ensures
            mat_at(r, 0) == SCALE as int,
            mat_at(r, 1) == 0,
            mat_at(r, 2) == 0,
            mat_at(r, 3) == 0,
            mat_at(r, 4) == 0,
            mat_at(r, 5) == SCALE as int,
            mat_at(r, 6) == 0,
            mat_at(r, 7) == 0,
            mat_at(r, 8) == 0,
            mat_at(r, 9) == 0,
            mat_at(r, 10) == SCALE as int,
            mat_at(r, 11) == 0,
            mat_at(r, 12) == 0,
            mat_at(r, 13) == 0,
            mat_at(r, 14) == 0,
            mat_at(r, 15) == SCALE as int,
            mat_wf(r),
    {
        let one = Fx::one();
        let zer = Fx::zero();
        Matrix { e: [
            one, zer, zer, zer,
            zer, one, zer, zer,
            zer, zer, one, zer,
            zer, zer, zer, one,
        ] }
    }

    /// Translation by a vector; acts on points only.
    pub fn translation(v: &Vector) -> (r: Matrix)
        requires
            vec_wf(*v),
        ensures
            mat_at(r, 0) == SCALE as int,
            mat_at(r, 1) == 0,
            mat_at(r, 2) == 0,
            mat_at(r, 3) == v.x@,
            mat_at(r, 4) == 0,
            mat_at(r, 5) == SCALE as int,
            mat_at(r, 6) == 0,
            mat_at(r, 7) == v.y@,
            mat_at(r, 8) == 0,
            mat_at(r, 9) == 0,
            mat_at(r, 10) == SCALE as int,
            mat_at(r, 11) == v.z@,
            mat_at(r, 12) == 0,
            mat_at(r, 13) == 0,
            mat_at(r, 14) == 0,
            mat_at(r, 15) == SCALE as int,
            mat_wf(r),
    {
        let one = Fx::one();
        let zer = Fx::zero();
        Matrix { e: [
            one, zer, zer, v.x,
            zer, one, zer, v.y,
            zer, zer, one, v.z,
            zer, zer, zer, one,
        ] }
    }

    /// Scaling by a factor per axis.
    pub fn diag(v: &Vector) -> (r: Matrix)
        requires
            vec_wf(*v),
        ensures
            mat_at(r, 0) == v.x@,
            mat_at(r, 1) == 0,
            mat_at(r, 2) == 0,
            mat_at(r, 3) == 0,
            mat_at(r, 4) == 0,
            mat_at(r, 5) == v.y@,
            mat_at(r, 6) == 0,
            mat_at(r, 7) == 0,
            mat_at(r, 8) == 0,
            mat_at(r, 9) == 0,
            mat_at(r, 10) == v.z@,
            mat_at(r, 11) == 0,
            mat_at(r, 12) == 0,
            mat_at(r, 13) == 0,
            mat_at(r, 14) == 0,
            mat_at(r, 15) == SCALE as int,
            mat_wf(r),
    {
        let one = Fx::one();
        let zer = Fx::zero();
        Matrix { e: [
            v.x, zer, zer, zer,
            zer, v.y, zer, zer,
            zer, zer, v.z, zer,
            zer, zer, zer, one,
        ] }
    }

    /// Rotation about the X axis, given the sine and cosine of the
    /// angle.
    pub fn rotate_x(si: Fx, co: Fx) -> (r: Matrix)
        requires
            iabs(si@) <= SCALE as int,
            iabs(co@) <= SCALE as int,
        ensures
            mat_at(r, 0) == SCALE as int,
            mat_at(r, 1) == 0,
            mat_at(r, 2) == 0,
            mat_at(r, 3) == 0,
            mat_at(r, 4) == 0,
            mat_at(r, 5) == co@,
            mat_at(r, 6) == -si@,
            mat_at(r, 7) == 0,
            mat_at(r, 8) == 0,
            mat_at(r, 9) == si@,
            mat_at(r, 10) == co@,
            mat_at(r, 11) == 0,
            mat_at(r, 12) == 0,
            mat_at(r, 13) == 0,
            mat_at(r, 14) == 0,
            mat_at(r, 15) == SCALE as int,
            mat_wf(r),
    {
        let one = Fx::one();
        let zer = Fx::zero();
        let nsi = si.neg();
        Matrix { e: [
            one, zer, zer, zer,
            zer, co, nsi, zer,
            zer, si, co, zer,
            zer, zer, zer, one,
        ] }
    }

    /// Rotation about the Y axis, given the sine and cosine of the
    /// angle.
    pub fn rotate_y(si: Fx, co: Fx) -> (r: Matrix)
        requires
            iabs(si@) <= SCALE as int,
            iabs(co@) <= SCALE as int,
        ensures
            mat_at(r, 0) == co@,
            mat_at(r, 1) == 0,
            mat_at(r, 2) == si@,
            mat_at(r, 3) == 0,
            mat_at(r, 4) == 0,
            mat_at(r, 5) == SCALE as int,
            mat_at(r, 6) == 0,
            mat_at(r, 7) == 0,
            mat_at(r, 8) == -si@,
            mat_at(r, 9) == 0,
            mat_at(r, 10) == co@,
            mat_at(r, 11) == 0,
            mat_at(r, 12) == 0,
            mat_at(r, 13) == 0,
            mat_at(r, 14) == 0,
            mat_at(r, 15) == SCALE as int,
            mat_wf(r),
    {
        let one = Fx::one();
        let zer = Fx::zero();
        let nsi = si.neg();
        Matrix { e: [
            co, zer, si, zer,
            zer, one, zer, zer,
            nsi, zer, co, zer,
            zer, zer, zer, one,
        ] }
    }

    /// Rotation about the Z axis, given the sine and cosine of the
    /// angle.
    pub fn rotate_z(si: Fx, co: Fx) -> (r: Matrix)
        requires
            iabs(si@) <= SCALE as int,
            iabs(co@) <= SCALE as int,
        ensures
            mat_at(r, 0) == co@,
            mat_at(r, 1) == -si@,
            mat_at(r, 2) == 0,
            mat_at(r, 3) == 0,
            mat_at(r, 4) == si@,
            mat_at(r, 5) == co@,
            mat_at(r, 6) == 0,
            mat_at(r, 7) == 0,
            mat_at(r, 8) == 0,
            mat_at(r, 9) == 0,
            mat_at(r, 10) == SCALE as int,
            mat_at(r, 11) == 0,
            mat_at(r, 12) == 0,
            mat_at(r, 13) == 0,
            mat_at(r, 14) == 0,
            mat_at(r, 15) == SCALE as int,
            mat_wf(r),
    {
        let one = Fx::one();
        let zer = Fx::zero();
        let nsi = si.neg();
        Matrix { e: [
            co, nsi, zer, zer,
            si, co, zer, zer,
            zer, zer, one, zer,
            zer, zer, zer, one,
        ] }
    }

    /// The change of basis whose columns are three unit vectors.
    pub fn from_vectors(x: &UnitVector, y: &UnitVector, z: &UnitVector) -> (r: Matrix)
        requires
            uv_wf(*x),
            uv_wf(*y),
            uv_wf(*z),
        ensures
            mat_at(r, 0) == x.v.x@,
            mat_at(r, 1) == y.v.x@,
            mat_at(r, 2) == z.v.x@,
            mat_at(r, 3) == 0,
            mat_at(r, 4) == x.v.y@,
            mat_at(r, 5) == y.v.y@,
            mat_at(r, 6) == z.v.y@,
            mat_at(r, 7) == 0,
            mat_at(r, 8) == x.v.z@,
            mat_at(r, 9) == y.v.z@,
            mat_at(r, 10) == z.v.z@,
            mat_at(r, 11) == 0,
            mat_at(r, 12) == 0,
            mat_at(r, 13) == 0,
            mat_at(r, 14) == 0,
            mat_at(r, 15) == SCALE as int,
            mat_wf(r),
    {
        proof {
            lemma_uv_comp_bound(*x);
            lemma_uv_comp_bound(*y);
            lemma_uv_comp_bound(*z);
        }
        let one = Fx::one();
        let zer = Fx::zero();
        let xv = x.v();
        let yv = y.v();
        let zv = z.v();
        Matrix { e: [
            xv.x, yv.x, zv.x, zer,
            xv.y, yv.y, zv.y, zer,
            xv.z, yv.z, zv.z, zer,
            zer, zer, zer, one,
        ] }
    }

    /// Matrix product: self composed after o on the right, so that
    /// applying the product equals applying o, then self.
    pub fn matmul(&self, o: &Matrix) -> (r: Matrix)
        requires
            mat_wf(*self),
            mat_wf(*o),
        ensures
            mat_at(r, 0) == ment(*self, *o, 0, 0),
            mat_at(r, 1) == ment(*self, *o, 0, 1),
            mat_at(r, 2) == ment(*self, *o, 0, 2),
            mat_at(r, 3) == ment(*self, *o, 0, 3),
            mat_at(r, 4) == ment(*self, *o, 1, 0),
            mat_at(r, 5) == ment(*self, *o, 1, 1),
            mat_at(r, 6) == ment(*self, *o, 1, 2),
            mat_at(r, 7) == ment(*self, *o, 1, 3),
            mat_at(r, 8) == ment(*self, *o, 2, 0),
            mat_at(r, 9) == ment(*self, *o, 2, 1),
            mat_at(r, 10) == ment(*self, *o, 2, 2),
            mat_at(r, 11) == ment(*self, *o, 2, 3),
            mat_at(r, 12) == ment(*self, *o, 3, 0),
            mat_at(r, 13) == ment(*self, *o, 3, 1),
            mat_at(r, 14) == ment(*self, *o, 3, 2),
            mat_at(r, 15) == ment(*self, *o, 3, 3),
            forall|k: int| 0 <= k < 16 ==> iabs(#[trigger] mat_at(r, k)) <= APP_LIM,
    {
        proof {
            assert forall|k: int| 0 <= k < 16 implies iabs(#[trigger] self.e@[k]@) <= VEC_LIM by {
                assert(mat_at(*self, k) == self.e@[k]@);
            }
            assert forall|k: int| 0 <= k < 16 implies iabs(#[trigger] o.e@[k]@) <= VEC_LIM by {
                assert(mat_at(*o, k) == o.e@[k]@);
            }
        }
        Matrix { e: [
                dot4(self.e[0], self.e[1], self.e[2], self.e[3], o.e[0], o.e[4], o.e[8], o.e[12]),
                dot4(self.e[0], self.e[1], self.e[2], self.e[3], o.e[1], o.e[5], o.e[9], o.e[13]),
                dot4(self.e[0], self.e[1], self.e[2], self.e[3], o.e[2], o.e[6], o.e[10], o.e[14]),
                dot4(self.e[0], self.e[1], self.e[2], self.e[3], o.e[3], o.e[7], o.e[11], o.e[15]),
                dot4(self.e[4], self.e[5], self.e[6], self.e[7], o.e[0], o.e[4], o.e[8], o.e[12]),
                dot4(self.e[4], self.e[5], self.e[6], self.e[7], o.e[1], o.e[5], o.e[9], o.e[13]),
                dot4(self.e[4], self.e[5], self.e[6], self.e[7], o.e[2], o.e[6], o.e[10], o.e[14]),
                dot4(self.e[4], self.e[5], self.e[6], self.e[7], o.e[3], o.e[7], o.e[11], o.e[15]),
                dot4(self.e[8], self.e[9], self.e[10], self.e[11], o.e[0], o.e[4], o.e[8], o.e[12]),
                dot4(self.e[8], self.e[9], self.e[10], self.e[11], o.e[1], o.e[5], o.e[9], o.e[13]),
                dot4(self.e[8], self.e[9], self.e[10], self.e[11], o.e[2], o.e[6], o.e[10], o.e[14]),
                dot4(self.e[8], self.e[9], self.e[10], self.e[11], o.e[3], o.e[7], o.e[11], o.e[15]),
                dot4(self.e[12], self.e[13], self.e[14], self.e[15], o.e[0], o.e[4], o.e[8], o.e[12]),
                dot4(self.e[12], self.e[13], self.e[14], self.e[15], o.e[1], o.e[5], o.e[9], o.e[13]),
                dot4(self.e[12], self.e[13], self.e[14], self.e[15], o.e[2], o.e[6], o.e[10], o.e[14]),
                dot4(self.e[12], self.e[13], self.e[14], self.e[15], o.e[3], o.e[7], o.e[11], o.e[15]),
        ] }
    }

    /// Application to a position: the implicit fourth component is one.
    pub fn apply_to_point(&self, p: &Point) -> (r: Point)
        requires
            mat_wf(*self),
            vec_wf(p.v),
        ensures
            r == mapp_point(*self, *p),
            iabs(r.v.x@) <= APP_LIM && iabs(r.v.y@) <= APP_LIM && iabs(r.v.z@) <= APP_LIM,
    {
        proof {
            assert forall|k: int| 0 <= k < 16 implies iabs(#[trigger] self.e@[k]@) <= VEC_LIM by {
                assert(mat_at(*self, k) == self.e@[k]@);
            }
            lemma_fmul_one(mat_at(*self, 3));
            lemma_fmul_one(mat_at(*self, 7));
            lemma_fmul_one(mat_at(*self, 11));
        }
        let one = Fx::one();
        let x = dot4(self.e[0], self.e[1], self.e[2], self.e[3], p.v.x, p.v.y, p.v.z, one);
        let y = dot4(self.e[4], self.e[5], self.e[6], self.e[7], p.v.x, p.v.y, p.v.z, one);
        let z = dot4(self.e[8], self.e[9], self.e[10], self.e[11], p.v.x, p.v.y, p.v.z, one);
        Point { v: Vector { x, y, z } }
    }


    /// Application of the transpose to a direction, without forming
    /// the transposed matrix: each output component dots one column
    /// with the vector.
    pub fn apply_transposed_to_vector(&self, v: &Vector) -> (r: Vector)
        requires
            mat_wf(*self),
            vec_wf(*v),
        ensures
            r == mapp_vector_t(*self, *v),
            iabs(r.x@) <= APP_LIM && iabs(r.y@) <= APP_LIM && iabs(r.z@) <= APP_LIM,
    {
        proof {
            assert forall|k: int| 0 <= k < 16 implies iabs(#[trigger] self.e@[k]@) <= VEC_LIM by {
                assert(mat_at(*self, k) == self.e@[k]@);
            }
            lemma_fmul_zero(mat_at(*self, 12));
            lemma_fmul_zero(mat_at(*self, 13));
            lemma_fmul_zero(mat_at(*self, 14));
        }
        let zer = Fx::zero();
        let x = dot4(self.e[0], self.e[4], self.e[8], self.e[12], v.x, v.y, v.z, zer);
        let y = dot4(self.e[1], self.e[5], self.e[9], self.e[13], v.x, v.y, v.z, zer);
        let z = dot4(self.e[2], self.e[6], self.e[10], self.e[14], v.x, v.y, v.z, zer);
        Vector { x, y, z }
    }

    /// Application to a direction: the implicit fourth component is
    /// zero, so translation does not act.
    pub fn apply_to_vector(&self, v: &Vector) -> (r: Vector)
        requires
            mat_wf(*self),
            vec_wf(*v),
        ensures
            r == mapp_vector(*self, *v),
            iabs(r.x@) <= APP_LIM && iabs(r.y@) <= APP_LIM && iabs(r.z@) <= APP_LIM,
    {
        proof {
            assert forall|k: int| 0 <= k < 16 implies iabs(#[trigger] self.e@[k]@) <= VEC_LIM by {
                assert(mat_at(*self, k) == self.e@[k]@);
            }
            lemma_fmul_zero(mat_at(*self, 3));
            lemma_fmul_zero(mat_at(*self, 7));
            lemma_fmul_zero(mat_at(*self, 11));
        }
        let zer = Fx::zero();
        let x = dot4(self.e[0], self.e[1], self.e[2], self.e[3], v.x, v.y, v.z, zer);
        let y = dot4(self.e[4], self.e[5], self.e[6], self.e[7], v.x, v.y, v.z, zer);
        let z = dot4(self.e[8], self.e[9], self.e[10], self.e[11], v.x, v.y, v.z, zer);
        Vector { x, y, z }
    }
}


/// Composing a translation after any affine matrix and applying the
/// result to a point equals applying the matrix and then translating:
/// the application of a composition associates exactly in this case,
/// because multiplying by one and adding are exact.
pub proof fn lemma_translate_compose(t: Matrix, b: Matrix, m: Matrix, p: Point)
    requires
        mat_at(t, 0) == SCALE as int && mat_at(t, 1) == 0 && mat_at(t, 2) == 0,
        mat_at(t, 4) == 0 && mat_at(t, 5) == SCALE as int && mat_at(t, 6) == 0,
        mat_at(t, 8) == 0 && mat_at(t, 9) == 0 && mat_at(t, 10) == SCALE as int,
        mat_at(t, 12) == 0 && mat_at(t, 13) == 0 && mat_at(t, 14) == 0 && mat_at(t, 15) == SCALE as int,
        mat_at(b, 12) == 0 && mat_at(b, 13) == 0 && mat_at(b, 14) == 0 && mat_at(b, 15) == SCALE as int,
        forall|k: int| 0 <= k < 16 ==> iabs(#[trigger] mat_at(m, k)) <= 0x7fff_ffff_ffff_ffff,
        forall|r: int, c: int| 0 <= r < 4 && 0 <= c < 4
            ==> mat_at(m, 4 * r + c) == #[trigger] ment(t, b, r, c),
        i64::MIN <= prow(b, 0, p.v) && prow(b, 0, p.v) + mat_at(t, 3) <= i64::MAX,
        i64::MIN <= prow(b, 1, p.v) && prow(b, 1, p.v) + mat_at(t, 7) <= i64::MAX,
        i64::MIN <= prow(b, 2, p.v) && prow(b, 2, p.v) + mat_at(t, 11) <= i64::MAX,
        i64::MIN <= prow(b, 0, p.v) + mat_at(t, 3),
        i64::MIN <= prow(b, 1, p.v) + mat_at(t, 7),
        i64::MIN <= prow(b, 2, p.v) + mat_at(t, 11),
        prow(b, 0, p.v) <= i64::MAX,
        prow(b, 1, p.v) <= i64::MAX,
        prow(b, 2, p.v) <= i64::MAX,
    ensures
        prow(m, 0, p.v) == prow(t, 0, mapp_point(b, p).v),
        prow(m, 1, p.v) == prow(t, 1, mapp_point(b, p).v),
        prow(m, 2, p.v) == prow(t, 2, mapp_point(b, p).v),
{
    let q = mapp_point(b, p);
    lemma_fmul_one(mat_at(b, 0));
    lemma_fmul_zero(mat_at(b, 0));
    lemma_fmul_one(mat_at(b, 1));
    lemma_fmul_zero(mat_at(b, 1));
    lemma_fmul_one(mat_at(b, 2));
    lemma_fmul_zero(mat_at(b, 2));
    lemma_fmul_one(mat_at(b, 3));
    lemma_fmul_zero(mat_at(b, 3));
    lemma_fmul_one(mat_at(b, 4));
    lemma_fmul_zero(mat_at(b, 4));
    lemma_fmul_one(mat_at(b, 5));
    lemma_fmul_zero(mat_at(b, 5));
    lemma_fmul_one(mat_at(b, 6));
    lemma_fmul_zero(mat_at(b, 6));
    lemma_fmul_one(mat_at(b, 7));
    lemma_fmul_zero(mat_at(b, 7));
    lemma_fmul_one(mat_at(b, 8));
    lemma_fmul_zero(mat_at(b, 8));
    lemma_fmul_one(mat_at(b, 9));
    lemma_fmul_zero(mat_at(b, 9));
    lemma_fmul_one(mat_at(b, 10));
    lemma_fmul_zero(mat_at(b, 10));
    lemma_fmul_one(mat_at(b, 11));
    lemma_fmul_zero(mat_at(b, 11));
    lemma_fmul_one(mat_at(b, 12));
    lemma_fmul_zero(mat_at(b, 12));
    lemma_fmul_one(mat_at(b, 13));
    lemma_fmul_zero(mat_at(b, 13));
    lemma_fmul_one(mat_at(b, 14));
    lemma_fmul_zero(mat_at(b, 14));
    lemma_fmul_one(mat_at(b, 15));
    lemma_fmul_zero(mat_at(b, 15));
    lemma_fmul_one(mat_at(t, 3));
    lemma_fmul_zero(mat_at(t, 3));
    lemma_fmul_one(mat_at(t, 7));
    lemma_fmul_zero(mat_at(t, 7));
    lemma_fmul_one(mat_at(t, 11));
    lemma_fmul_zero(mat_at(t, 11));
    assert(mat_at(m, 0) == mat_at(b, 0)) by {
        assert(mat_at(m, 0) == ment(t, b, 0, 0));
    }
    assert(mat_at(m, 1) == mat_at(b, 1)) by {
        assert(mat_at(m, 1) == ment(t, b, 0, 1));
    }
    assert(mat_at(m, 2) == mat_at(b, 2)) by {
        assert(mat_at(m, 2) == ment(t, b, 0, 2));
    }
    assert(mat_at(m, 3) == mat_at(b, 3) + mat_at(t, 3)) by {
        assert(mat_at(m, 3) == ment(t, b, 0, 3));
    }
    assert(mat_at(m, 4) == mat_at(b, 4)) by {
        assert(mat_at(m, 4) == ment(t, b, 1, 0));
    }
    assert(mat_at(m, 5) == mat_at(b, 5)) by {
        assert(mat_at(m, 5) == ment(t, b, 1, 1));
    }
    assert(mat_at(m, 6) == mat_at(b, 6)) by {
        assert(mat_at(m, 6) == ment(t, b, 1, 2));
    }
    assert(mat_at(m, 7) == mat_at(b, 7) + mat_at(t, 7)) by {
        assert(mat_at(m, 7) == ment(t, b, 1, 3));
    }
    assert(mat_at(m, 8) == mat_at(b, 8)) by {
        assert(mat_at(m, 8) == ment(t, b, 2, 0));
    }
    assert(mat_at(m, 9) == mat_at(b, 9)) by {
        assert(mat_at(m, 9) == ment(t, b, 2, 1));
    }
    assert(mat_at(m, 10) == mat_at(b, 10)) by {
        assert(mat_at(m, 10) == ment(t, b, 2, 2));
    }
    assert(mat_at(m, 11) == mat_at(b, 11) + mat_at(t, 11)) by {
        assert(mat_at(m, 11) == ment(t, b, 2, 3));
    }
    lemma_fmul_one(q.v.x@);
    lemma_fmul_one(q.v.y@);
    lemma_fmul_one(q.v.z@);
    lemma_fmul_zero(q.v.x@);
    lemma_fmul_zero(q.v.y@);
    lemma_fmul_zero(q.v.z@);
}



/// Matrix application composes: applying a composed matrix to a point
/// agrees with applying the two factors one after the other, within
/// ten rounding units plus nine units for every raw unit of the sizes
/// involved. For entries and points within 16 real units the bound is
/// 10 + 9 * 32 raw units, about 7e-8 — far inside the working
/// tolerance of 1e-6; coordinates must stay below roughly 230 units
/// for the bound to remain within that tolerance. The inner matrix
/// must be affine (its bottom row is that of the identity), as every
/// transform of the kernel is.
pub proof fn lemma_apply_composition(a: Matrix, b: Matrix, m: Matrix, p: Point, ba: int, bp: int)
    requires
        forall|k: int| 0 <= k < 16 ==> iabs(#[trigger] mat_at(a, k)) <= ba,
        ba <= VEC_LIM,
        mat_wf(b),
        mat_at(b, 12) == 0 && mat_at(b, 13) == 0 && mat_at(b, 14) == 0,
        mat_at(b, 15) == SCALE as int,
        iabs(p.v.x@) <= bp && iabs(p.v.y@) <= bp && iabs(p.v.z@) <= bp,
        bp <= VEC_LIM,
        forall|r: int, c: int| 0 <= r < 4 && 0 <= c < 4
            ==> mat_at(m, 4 * r + c) == #[trigger] ment(a, b, r, c),
    ensures
        iabs(prow(m, 0, p.v) - prow(a, 0, mapp_point(b, p).v))
            <= 10 + (9 * (ba + bp)) / (SCALE as int),
        iabs(prow(m, 1, p.v) - prow(a, 1, mapp_point(b, p).v))
            <= 10 + (9 * (ba + bp)) / (SCALE as int),
        iabs(prow(m, 2, p.v) - prow(a, 2, mapp_point(b, p).v))
            <= 10 + (9 * (ba + bp)) / (SCALE as int),
{
    let q = mapp_point(b, p);
    // The intermediate point's rows fit in the raw type, so its stored
    // components equal the exact row values.
    assert forall|j: int| 0 <= j < 3 implies iabs(#[trigger] prow(b, j, p.v)) < 0x7fff_ffff_ffff_ffff by {
        lemma_fmul_le(mat_at(b, 4 * j), p.v.x@, VEC_LIM as int, VEC_LIM as int);
        lemma_fmul_le(mat_at(b, 4 * j + 1), p.v.y@, VEC_LIM as int, VEC_LIM as int);
        lemma_fmul_le(mat_at(b, 4 * j + 2), p.v.z@, VEC_LIM as int, VEC_LIM as int);
        assert((VEC_LIM as int * VEC_LIM) / (SCALE as int) == 0x100_0000_0000_0000);
    }
    assert(q.v.x@ == prow(b, 0, p.v));
    assert(q.v.y@ == prow(b, 1, p.v));
    assert(q.v.z@ == prow(b, 2, p.v));
    assert(mat_at(m, 0) == ment(a, b, 0, 0));
    assert(mat_at(m, 1) == ment(a, b, 0, 1));
    assert(mat_at(m, 2) == ment(a, b, 0, 2));
    assert(mat_at(m, 3) == ment(a, b, 0, 3));
    assert(mat_at(m, 4) == ment(a, b, 1, 0));
    assert(mat_at(m, 5) == ment(a, b, 1, 1));
    assert(mat_at(m, 6) == ment(a, b, 1, 2));
    assert(mat_at(m, 7) == ment(a, b, 1, 3));
    assert(mat_at(m, 8) == ment(a, b, 2, 0));
    assert(mat_at(m, 9) == ment(a, b, 2, 1));
    assert(mat_at(m, 10) == ment(a, b, 2, 2));
    assert(mat_at(m, 11) == ment(a, b, 2, 3));
    assert(mat_at(m, 12) == ment(a, b, 3, 0));
    assert(mat_at(m, 13) == ment(a, b, 3, 1));
    assert(mat_at(m, 14) == ment(a, b, 3, 2));
    assert(mat_at(m, 15) == ment(a, b, 3, 3));
    lemma_row_compose(
        mat_at(a, 0), mat_at(a, 1), mat_at(a, 2), mat_at(a, 3),
        mat_at(b, 0), mat_at(b, 1), mat_at(b, 2), mat_at(b, 3),
        mat_at(b, 4), mat_at(b, 5), mat_at(b, 6), mat_at(b, 7),
        mat_at(b, 8), mat_at(b, 9), mat_at(b, 10), mat_at(b, 11),
        p.v.x@, p.v.y@, p.v.z@,
        mat_at(m, 0), mat_at(m, 1), mat_at(m, 2), mat_at(m, 3),
        prow(b, 0, p.v), prow(b, 1, p.v), prow(b, 2, p.v),
        prow(m, 0, p.v), prow(a, 0, q.v),
        ba, bp,
    );
    lemma_row_compose(
        mat_at(a, 4), mat_at(a, 5), mat_at(a, 6), mat_at(a, 7),
        mat_at(b, 0), mat_at(b, 1), mat_at(b, 2), mat_at(b, 3),
        mat_at(b, 4), mat_at(b, 5), mat_at(b, 6), mat_at(b, 7),
        mat_at(b, 8), mat_at(b, 9), mat_at(b, 10), mat_at(b, 11),
        p.v.x@, p.v.y@, p.v.z@,
        mat_at(m, 4), mat_at(m, 5), mat_at(m, 6), mat_at(m, 7),
        prow(b, 0, p.v), prow(b, 1, p.v), prow(b, 2, p.v),
        prow(m, 1, p.v), prow(a, 1, q.v),
        ba, bp,
    );
    lemma_row_compose(
        mat_at(a, 8), mat_at(a, 9), mat_at(a, 10), mat_at(a, 11),
        mat_at(b, 0), mat_at(b, 1), mat_at(b, 2), mat_at(b, 3),
        mat_at(b, 4), mat_at(b, 5), mat_at(b, 6), mat_at(b, 7),
        mat_at(b, 8), mat_at(b, 9), mat_at(b, 10), mat_at(b, 11),
        p.v.x@, p.v.y@, p.v.z@,
        mat_at(m, 8), mat_at(m, 9), mat_at(m, 10), mat_at(m, 11),
        prow(b, 0, p.v), prow(b, 1, p.v), prow(b, 2, p.v),
        prow(m, 2, p.v), prow(a, 2, q.v),
        ba, bp,
    );
}

/// One output row of a composed application differs from the row of
/// the composition of applications by ten rounding units plus a share
/// proportional to the sizes of the outer row and the point. All
/// values are raw fixed-point integers; `b` stands for an affine
/// matrix, so only its three upper rows appear.
proof fn lemma_row_compose(
    a0: int, a1: int, a2: int, a3: int,
    b00: int, b01: int, b02: int, b03: int,
    b10: int, b11: int, b12: int, b13: int,
    b20: int, b21: int, b22: int, b23: int,
    px: int, py: int, pz: int,
    m0: int, m1: int, m2: int, m3: int,
    q0: int, q1: int, q2: int,
    lhs: int, rhs: int,
    ba: int, bp: int,
)
    requires
        iabs(a0) <= ba && iabs(a1) <= ba && iabs(a2) <= ba,
        iabs(px) <= bp && iabs(py) <= bp && iabs(pz) <= bp,
        ba >= 0,
        bp >= 0,
        m0 == fmul(a0, b00) + fmul(a1, b10) + fmul(a2, b20) + fmul(a3, 0),
        m1 == fmul(a0, b01) + fmul(a1, b11) + fmul(a2, b21) + fmul(a3, 0),
        m2 == fmul(a0, b02) + fmul(a1, b12) + fmul(a2, b22) + fmul(a3, 0),
        m3 == fmul(a0, b03) + fmul(a1, b13) + fmul(a2, b23) + fmul(a3, SCALE as int),
        q0 == fmul(b00, px) + fmul(b01, py) + fmul(b02, pz) + b03,
        q1 == fmul(b10, px) + fmul(b11, py) + fmul(b12, pz) + b13,
        q2 == fmul(b20, px) + fmul(b21, py) + fmul(b22, pz) + b23,
        lhs == fmul(m0, px) + fmul(m1, py) + fmul(m2, pz) + m3,
        rhs == fmul(a0, q0) + fmul(a1, q1) + fmul(a2, q2) + a3,
    ensures
        iabs(lhs - rhs) <= 10 + (9 * (ba + bp)) / (SCALE as int),
{
    let s = SCALE as int;
    lemma_fmul_one(a3);
    lemma_fmul_zero(a3);
    lemma_tdiv(a0 * b00, SCALE as int);
    lemma_tdiv(a1 * b10, SCALE as int);
    lemma_tdiv(a2 * b20, SCALE as int);
    lemma_tdiv(a0 * b01, SCALE as int);
    lemma_tdiv(a1 * b11, SCALE as int);
    lemma_tdiv(a2 * b21, SCALE as int);
    lemma_tdiv(a0 * b02, SCALE as int);
    lemma_tdiv(a1 * b12, SCALE as int);
    lemma_tdiv(a2 * b22, SCALE as int);
    lemma_tdiv(a0 * b03, SCALE as int);
    lemma_tdiv(a1 * b13, SCALE as int);
    lemma_tdiv(a2 * b23, SCALE as int);
    lemma_tdiv(b00 * px, SCALE as int);
    lemma_tdiv(b01 * py, SCALE as int);
    lemma_tdiv(b02 * pz, SCALE as int);
    lemma_tdiv(b10 * px, SCALE as int);
    lemma_tdiv(b11 * py, SCALE as int);
    lemma_tdiv(b12 * pz, SCALE as int);
    lemma_tdiv(b20 * px, SCALE as int);
    lemma_tdiv(b21 * py, SCALE as int);
    lemma_tdiv(b22 * pz, SCALE as int);
    lemma_tdiv(m0 * px, SCALE as int);
    lemma_tdiv(m1 * py, SCALE as int);
    lemma_tdiv(m2 * pz, SCALE as int);
    lemma_tdiv(a0 * q0, SCALE as int);
    lemma_tdiv(a1 * q1, SCALE as int);
    lemma_tdiv(a2 * q2, SCALE as int);
    let xa0 = a0 * b00 + a1 * b10 + a2 * b20;
    let xa1 = a0 * b01 + a1 * b11 + a2 * b21;
    let xa2 = a0 * b02 + a1 * b12 + a2 * b22;
    let xa3 = a0 * b03 + a1 * b13 + a2 * b23;
    let e0 = s * m0 - xa0;
    let e1 = s * m1 - xa1;
    let e2 = s * m2 - xa2;
    let e3 = s * m3 - (xa3 + s * a3);
    assert(-3 * s < e0 < 3 * s);
    assert(-3 * s < e1 < 3 * s);
    assert(-3 * s < e2 < 3 * s);
    assert(-3 * s < e3 < 3 * s);
    let yb0 = b00 * px + b01 * py + b02 * pz;
    let yb1 = b10 * px + b11 * py + b12 * pz;
    let yb2 = b20 * px + b21 * py + b22 * pz;
    let f0 = s * q0 - (yb0 + s * b03);
    let f1 = s * q1 - (yb1 + s * b13);
    let f2 = s * q2 - (yb2 + s * b23);
    assert(-3 * s < f0 < 3 * s);
    assert(-3 * s < f1 < 3 * s);
    assert(-3 * s < f2 < 3 * s);
    let el = s * lhs - (m0 * px + m1 * py + m2 * pz + s * m3);
    let er = s * rhs - (a0 * q0 + a1 * q1 + a2 * q2 + s * a3);
    assert(-3 * s < el < 3 * s);
    assert(-3 * s < er < 3 * s);
    // Scale the left side once more, one product at a time.
    assert(s * (s * lhs) == s * (m0 * px) + s * (m1 * py) + s * (m2 * pz) + s * (s * m3) + s * el)
        by (nonlinear_arith)
        requires
            s * lhs == m0 * px + m1 * py + m2 * pz + s * m3 + el,
    ;
    assert(s * (m0 * px) == xa0 * px + e0 * px) by (nonlinear_arith)
        requires
            s * m0 == xa0 + e0,
    ;
    assert(s * (m1 * py) == xa1 * py + e1 * py) by (nonlinear_arith)
        requires
            s * m1 == xa1 + e1,
    ;
    assert(s * (m2 * pz) == xa2 * pz + e2 * pz) by (nonlinear_arith)
        requires
            s * m2 == xa2 + e2,
    ;
    assert(s * (s * m3) == s * xa3 + s * (s * a3) + s * e3) by (nonlinear_arith)
        requires
            s * m3 == xa3 + s * a3 + e3,
    ;
    let xx = xa0 * px + xa1 * py + xa2 * pz + s * xa3 + s * (s * a3);
    assert(s * (s * lhs) - xx == e0 * px + e1 * py + e2 * pz + s * e3 + s * el);
    // Scale the right side once more, one product at a time.
    assert(s * (s * rhs) == s * (a0 * q0) + s * (a1 * q1) + s * (a2 * q2) + s * (s * a3) + s * er)
        by (nonlinear_arith)
        requires
            s * rhs == a0 * q0 + a1 * q1 + a2 * q2 + s * a3 + er,
    ;
    assert(s * (a0 * q0) == a0 * yb0 + s * (a0 * b03) + a0 * f0) by (nonlinear_arith)
        requires
            s * q0 == yb0 + s * b03 + f0,
    ;
    assert(s * (a1 * q1) == a1 * yb1 + s * (a1 * b13) + a1 * f1) by (nonlinear_arith)
        requires
            s * q1 == yb1 + s * b13 + f1,
    ;
    assert(s * (a2 * q2) == a2 * yb2 + s * (a2 * b23) + a2 * f2) by (nonlinear_arith)
        requires
            s * q2 == yb2 + s * b23 + f2,
    ;
    let yy = a0 * yb0 + a1 * yb1 + a2 * yb2 + s * (a0 * b03 + a1 * b13 + a2 * b23) + s * (s * a3);
    assert(s * (a0 * b03 + a1 * b13 + a2 * b23) == s * (a0 * b03) + s * (a1 * b13) + s * (a2 * b23));
    assert(s * (s * rhs) - yy == a0 * f0 + a1 * f1 + a2 * f2 + s * er);
    // The exact values agree: the same double sum, taken row-first on
    // the left and column-first on the right.
    assert(xa0 * px == (a0 * b00) * px + (a1 * b10) * px + (a2 * b20) * px) by (nonlinear_arith)
        requires
            xa0 == a0 * b00 + a1 * b10 + a2 * b20,
    ;
    assert(xa1 * py == (a0 * b01) * py + (a1 * b11) * py + (a2 * b21) * py) by (nonlinear_arith)
        requires
            xa1 == a0 * b01 + a1 * b11 + a2 * b21,
    ;
    assert(xa2 * pz == (a0 * b02) * pz + (a1 * b12) * pz + (a2 * b22) * pz) by (nonlinear_arith)
        requires
            xa2 == a0 * b02 + a1 * b12 + a2 * b22,
    ;
    assert(a0 * yb0 == (a0 * b00) * px + (a0 * b01) * py + (a0 * b02) * pz) by {
        vstd::arithmetic::mul::lemma_mul_is_distributive_add(a0, b00 * px + b01 * py, b02 * pz);
        vstd::arithmetic::mul::lemma_mul_is_distributive_add(a0, b00 * px, b01 * py);
        vstd::arithmetic::mul::lemma_mul_is_associative(a0, b00, px);
        vstd::arithmetic::mul::lemma_mul_is_associative(a0, b01, py);
        vstd::arithmetic::mul::lemma_mul_is_associative(a0, b02, pz);
    }
    assert(a1 * yb1 == (a1 * b10) * px + (a1 * b11) * py + (a1 * b12) * pz) by {
        vstd::arithmetic::mul::lemma_mul_is_distributive_add(a1, b10 * px + b11 * py, b12 * pz);
        vstd::arithmetic::mul::lemma_mul_is_distributive_add(a1, b10 * px, b11 * py);
        vstd::arithmetic::mul::lemma_mul_is_associative(a1, b10, px);
        vstd::arithmetic::mul::lemma_mul_is_associative(a1, b11, py);
        vstd::arithmetic::mul::lemma_mul_is_associative(a1, b12, pz);
    }
    assert(a2 * yb2 == (a2 * b20) * px + (a2 * b21) * py + (a2 * b22) * pz) by {
        vstd::arithmetic::mul::lemma_mul_is_distributive_add(a2, b20 * px + b21 * py, b22 * pz);
        vstd::arithmetic::mul::lemma_mul_is_distributive_add(a2, b20 * px, b21 * py);
        vstd::arithmetic::mul::lemma_mul_is_associative(a2, b20, px);
        vstd::arithmetic::mul::lemma_mul_is_associative(a2, b21, py);
        vstd::arithmetic::mul::lemma_mul_is_associative(a2, b22, pz);
    }
    assert(xx == yy);
    // Bound the error terms and divide out the two scalings.
    assert(-3 * s * bp <= e0 * px <= 3 * s * bp
        && -3 * s * bp <= e1 * py <= 3 * s * bp
        && -3 * s * bp <= e2 * pz <= 3 * s * bp) by (nonlinear_arith)
        requires
            -3 * s < e0 < 3 * s && -3 * s < e1 < 3 * s && -3 * s < e2 < 3 * s,
            -bp <= px <= bp && -bp <= py <= bp && -bp <= pz <= bp,
            s == 0x1_0000_0000,
    ;
    assert(-3 * s * ba <= a0 * f0 <= 3 * s * ba
        && -3 * s * ba <= a1 * f1 <= 3 * s * ba
        && -3 * s * ba <= a2 * f2 <= 3 * s * ba) by (nonlinear_arith)
        requires
            -3 * s < f0 < 3 * s && -3 * s < f1 < 3 * s && -3 * s < f2 < 3 * s,
            -ba <= a0 <= ba && -ba <= a1 <= ba && -ba <= a2 <= ba,
            s == 0x1_0000_0000,
    ;
    let dd = lhs - rhs;
    let cap = 9 * s * bp + 9 * s * ba + 9 * (s * s);
    assert(-cap <= s * (s * dd) <= cap) by (nonlinear_arith)
        requires
            s * (s * lhs) - s * (s * rhs) == e0 * px + e1 * py + e2 * pz + s * e3 + s * el
                - (a0 * f0 + a1 * f1 + a2 * f2 + s * er),
            dd == lhs - rhs,
            cap == 9 * s * bp + 9 * s * ba + 9 * (s * s),
            -3 * s * bp <= e0 * px <= 3 * s * bp,
            -3 * s * bp <= e1 * py <= 3 * s * bp,
            -3 * s * bp <= e2 * pz <= 3 * s * bp,
            -3 * s * ba <= a0 * f0 <= 3 * s * ba,
            -3 * s * ba <= a1 * f1 <= 3 * s * ba,
            -3 * s * ba <= a2 * f2 <= 3 * s * ba,
            -3 * s < e3 < 3 * s && -3 * s < el < 3 * s && -3 * s < er < 3 * s,
            s == 0x1_0000_0000,
    ;
    let g = (9 * (ba + bp)) / s;
    assert(g * s <= 9 * (ba + bp) && 9 * (ba + bp) < g * s + s && g >= 0) by {
        vstd::arithmetic::div_mod::lemma_fundamental_div_mod(9 * (ba + bp), s);
        vstd::arithmetic::div_mod::lemma_mod_division_less_than_divisor(9 * (ba + bp), s);
        vstd::arithmetic::div_mod::lemma_remainder_lower(9 * (ba + bp), s);
        vstd::arithmetic::div_mod::lemma_div_pos_is_pos(9 * (ba + bp), s);
    }
    assert(-(10 + g) <= dd <= 10 + g) by (nonlinear_arith)
        requires
            -cap <= s * (s * dd) <= cap,
            cap == 9 * s * bp + 9 * s * ba + 9 * (s * s),
            g * s <= 9 * (ba + bp),
            9 * (ba + bp) < g * s + s,
            g >= 0,
            s == 0x1_0000_0000,
    {
        if dd > 10 + g {
            assert(dd >= 11 + g);
            assert(s * dd >= s * (11 + g));
            assert(s * (s * dd) >= s * (s * (11 + g)));
            assert(s * (s * (11 + g)) == 11 * (s * s) + (g * s) * s);
            assert((g * s) * s > (9 * (ba + bp) - s) * s);
            assert(9 * s * bp + 9 * s * ba == (9 * (ba + bp)) * s);
        }
        if dd < -(10 + g) {
            assert(dd <= -11 - g);
            assert(s * dd <= s * (-11 - g));
            assert(s * (s * dd) <= s * (s * (-11 - g)));
            assert(s * (s * (-11 - g)) == -(11 * (s * s)) - (g * s) * s);
            assert((g * s) * s > (9 * (ba + bp) - s) * s);
            assert(9 * s * bp + 9 * s * ba == (9 * (ba + bp)) * s);
        }
    }
}

} // verus!
