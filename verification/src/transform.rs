//! An invertible affine transform: a forward matrix together with its
//! analytically derived inverse, so that inverting is a constant-time
//! swap and never a numerical inversion.

use vstd::prelude::*;
use crate::num::{Fx, SCALE, iabs, fmul, fdiv, lemma_tdiv, lemma_fmul_le};
use crate::coords::{Vector, Point, vec_wf, VEC_LIM};
use crate::matrix::{Matrix, mat_at, mat_wf, ment, mapp_point, mapp_vector, lemma_fmul_one, lemma_fmul_zero, APP_LIM};
use crate::ray::Ray;

verus! {

#[derive(Clone, Copy, Debug)]
pub struct Transform {
    pub forward: Matrix,
    pub inverse: Matrix,
}

/// Both matrices of the transform are within the working bound.
pub open spec fn t_wf(t: Transform) -> bool {
    mat_wf(t.forward) && mat_wf(t.inverse)
}

/// The product of the two matrices has entries within the working
/// bound, so the composition is again a usable transform.
pub open spec fn mcomp_wf(a: Matrix, b: Matrix) -> bool {
    forall|r: int, c: int| 0 <= r < 4 && 0 <= c < 4 ==> iabs(#[trigger] ment(a, b, r, c)) <= VEC_LIM
}


/// The transform translates by (tx, ty, tz): its forward matrix is the
/// identity with that translation column, and its inverse translates
/// back. Translation by zero is the identity transform.
pub open spec fn is_translation(t: Transform, tx: int, ty: int, tz: int) -> bool {
    mat_at(t.forward, 0) == SCALE as int && mat_at(t.forward, 1) == 0
        && mat_at(t.forward, 2) == 0 && mat_at(t.forward, 3) == tx
        && mat_at(t.forward, 4) == 0 && mat_at(t.forward, 5) == SCALE as int
        && mat_at(t.forward, 6) == 0 && mat_at(t.forward, 7) == ty
        && mat_at(t.forward, 8) == 0 && mat_at(t.forward, 9) == 0
        && mat_at(t.forward, 10) == SCALE as int && mat_at(t.forward, 11) == tz
        && mat_at(t.forward, 12) == 0 && mat_at(t.forward, 13) == 0
        && mat_at(t.forward, 14) == 0 && mat_at(t.forward, 15) == SCALE as int
        && mat_at(t.inverse, 0) == SCALE as int && mat_at(t.inverse, 1) == 0
        && mat_at(t.inverse, 2) == 0 && mat_at(t.inverse, 3) == -tx
        && mat_at(t.inverse, 4) == 0 && mat_at(t.inverse, 5) == SCALE as int
        && mat_at(t.inverse, 6) == 0 && mat_at(t.inverse, 7) == -ty
        && mat_at(t.inverse, 8) == 0 && mat_at(t.inverse, 9) == 0
        && mat_at(t.inverse, 10) == SCALE as int && mat_at(t.inverse, 11) == -tz
        && mat_at(t.inverse, 12) == 0 && mat_at(t.inverse, 13) == 0
        && mat_at(t.inverse, 14) == 0 && mat_at(t.inverse, 15) == SCALE as int
}


/// The transform rotates about the X axis by the angle whose sine
/// and cosine are given; its inverse rotates back.
pub open spec fn is_rotation_x(t: Transform, si: int, co: int) -> bool {
    mat_at(t.forward, 0) == SCALE as int && mat_at(t.forward, 1) == 0 && mat_at(t.forward, 2) == 0 && mat_at(t.forward, 3) == 0 && mat_at(t.forward, 4) == 0 && mat_at(t.forward, 5) == co && mat_at(t.forward, 6) == -si && mat_at(t.forward, 7) == 0 && mat_at(t.forward, 8) == 0 && mat_at(t.forward, 9) == si && mat_at(t.forward, 10) == co && mat_at(t.forward, 11) == 0 && mat_at(t.forward, 12) == 0 && mat_at(t.forward, 13) == 0 && mat_at(t.forward, 14) == 0 && mat_at(t.forward, 15) == SCALE as int
        && mat_at(t.inverse, 0) == SCALE as int && mat_at(t.inverse, 1) == 0 && mat_at(t.inverse, 2) == 0 && mat_at(t.inverse, 3) == 0 && mat_at(t.inverse, 4) == 0 && mat_at(t.inverse, 5) == co && mat_at(t.inverse, 6) == si && mat_at(t.inverse, 7) == 0 && mat_at(t.inverse, 8) == 0 && mat_at(t.inverse, 9) == -si && mat_at(t.inverse, 10) == co && mat_at(t.inverse, 11) == 0 && mat_at(t.inverse, 12) == 0 && mat_at(t.inverse, 13) == 0 && mat_at(t.inverse, 14) == 0 && mat_at(t.inverse, 15) == SCALE as int
}

/// The transform rotates about the Y axis by the angle whose sine
/// and cosine are given; its inverse rotates back.
pub open spec fn is_rotation_y(t: Transform, si: int, co: int) -> bool {
    mat_at(t.forward, 0) == co && mat_at(t.forward, 1) == 0 && mat_at(t.forward, 2) == si && mat_at(t.forward, 3) == 0 && mat_at(t.forward, 4) == 0 && mat_at(t.forward, 5) == SCALE as int && mat_at(t.forward, 6) == 0 && mat_at(t.forward, 7) == 0 && mat_at(t.forward, 8) == -si && mat_at(t.forward, 9) == 0 && mat_at(t.forward, 10) == co && mat_at(t.forward, 11) == 0 && mat_at(t.forward, 12) == 0 && mat_at(t.forward, 13) == 0 && mat_at(t.forward, 14) == 0 && mat_at(t.forward, 15) == SCALE as int
        && mat_at(t.inverse, 0) == co && mat_at(t.inverse, 1) == 0 && mat_at(t.inverse, 2) == -si && mat_at(t.inverse, 3) == 0 && mat_at(t.inverse, 4) == 0 && mat_at(t.inverse, 5) == SCALE as int && mat_at(t.inverse, 6) == 0 && mat_at(t.inverse, 7) == 0 && mat_at(t.inverse, 8) == si && mat_at(t.inverse, 9) == 0 && mat_at(t.inverse, 10) == co && mat_at(t.inverse, 11) == 0 && mat_at(t.inverse, 12) == 0 && mat_at(t.inverse, 13) == 0 && mat_at(t.inverse, 14) == 0 && mat_at(t.inverse, 15) == SCALE as int
}

/// The transform rotates about the Z axis by the angle whose sine
/// and cosine are given; its inverse rotates back.
pub open spec fn is_rotation_z(t: Transform, si: int, co: int) -> bool {
    mat_at(t.forward, 0) == co && mat_at(t.forward, 1) == -si && mat_at(t.forward, 2) == 0 && mat_at(t.forward, 3) == 0 && mat_at(t.forward, 4) == si && mat_at(t.forward, 5) == co && mat_at(t.forward, 6) == 0 && mat_at(t.forward, 7) == 0 && mat_at(t.forward, 8) == 0 && mat_at(t.forward, 9) == 0 && mat_at(t.forward, 10) == SCALE as int && mat_at(t.forward, 11) == 0 && mat_at(t.forward, 12) == 0 && mat_at(t.forward, 13) == 0 && mat_at(t.forward, 14) == 0 && mat_at(t.forward, 15) == SCALE as int
        && mat_at(t.inverse, 0) == co && mat_at(t.inverse, 1) == si && mat_at(t.inverse, 2) == 0 && mat_at(t.inverse, 3) == 0 && mat_at(t.inverse, 4) == -si && mat_at(t.inverse, 5) == co && mat_at(t.inverse, 6) == 0 && mat_at(t.inverse, 7) == 0 && mat_at(t.inverse, 8) == 0 && mat_at(t.inverse, 9) == 0 && mat_at(t.inverse, 10) == SCALE as int && mat_at(t.inverse, 11) == 0 && mat_at(t.inverse, 12) == 0 && mat_at(t.inverse, 13) == 0 && mat_at(t.inverse, 14) == 0 && mat_at(t.inverse, 15) == SCALE as int
}

/// The transform scales each axis by the given positive raw factor;
/// its inverse scales by the reciprocals.
pub open spec fn is_scaling(t: Transform, sx: int, sy: int, sz: int) -> bool {
    mat_at(t.forward, 0) == sx && mat_at(t.forward, 1) == 0
        && mat_at(t.forward, 2) == 0 && mat_at(t.forward, 3) == 0
        && mat_at(t.forward, 4) == 0 && mat_at(t.forward, 5) == sy
        && mat_at(t.forward, 6) == 0 && mat_at(t.forward, 7) == 0
        && mat_at(t.forward, 8) == 0 && mat_at(t.forward, 9) == 0
        && mat_at(t.forward, 10) == sz && mat_at(t.forward, 11) == 0
        && mat_at(t.forward, 12) == 0 && mat_at(t.forward, 13) == 0
        && mat_at(t.forward, 14) == 0 && mat_at(t.forward, 15) == SCALE as int
        && mat_at(t.inverse, 0) == fdiv(SCALE as int, sx) && mat_at(t.inverse, 1) == 0
        && mat_at(t.inverse, 2) == 0 && mat_at(t.inverse, 3) == 0
        && mat_at(t.inverse, 4) == 0 && mat_at(t.inverse, 5) == fdiv(SCALE as int, sy)
        && mat_at(t.inverse, 6) == 0 && mat_at(t.inverse, 7) == 0
        && mat_at(t.inverse, 8) == 0 && mat_at(t.inverse, 9) == 0
        && mat_at(t.inverse, 10) == fdiv(SCALE as int, sz) && mat_at(t.inverse, 11) == 0
        && mat_at(t.inverse, 12) == 0 && mat_at(t.inverse, 13) == 0
        && mat_at(t.inverse, 14) == 0 && mat_at(t.inverse, 15) == SCALE as int
}

impl Transform {
    /// The neutral transform.
    pub fn identity() -> (r: Transform)
        ensures
            mat_at(r.forward, 0) == SCALE as int,
            mat_at(r.forward, 1) == 0,
            mat_at(r.forward, 2) == 0,
            mat_at(r.forward, 3) == 0,
            mat_at(r.forward, 4) == 0,
            mat_at(r.forward, 5) == SCALE as int,
            mat_at(r.forward, 6) == 0,
            mat_at(r.forward, 7) == 0,
            mat_at(r.forward, 8) == 0,
            mat_at(r.forward, 9) == 0,
            mat_at(r.forward, 10) == SCALE as int,
            mat_at(r.forward, 11) == 0,
            mat_at(r.forward, 12) == 0,
            mat_at(r.forward, 13) == 0,
            mat_at(r.forward, 14) == 0,
            mat_at(r.forward, 15) == SCALE as int,
            mat_at(r.inverse, 0) == SCALE as int,
            mat_at(r.inverse, 1) == 0,
            mat_at(r.inverse, 2) == 0,
            mat_at(r.inverse, 3) == 0,
            mat_at(r.inverse, 4) == 0,
            mat_at(r.inverse, 5) == SCALE as int,
            mat_at(r.inverse, 6) == 0,
            mat_at(r.inverse, 7) == 0,
            mat_at(r.inverse, 8) == 0,
            mat_at(r.inverse, 9) == 0,
            mat_at(r.inverse, 10) == SCALE as int,
            mat_at(r.inverse, 11) == 0,
            mat_at(r.inverse, 12) == 0,
            mat_at(r.inverse, 13) == 0,
            mat_at(r.inverse, 14) == 0,
            mat_at(r.inverse, 15) == SCALE as int,
            is_translation(r, 0, 0, 0),
            t_wf(r),
    {
        Transform { forward: Matrix::identity(), inverse: Matrix::identity() }
    }

    /// Rotation about the X axis, given the sine and cosine of the
    /// angle; the inverse rotates by the opposite angle.
    pub fn rotate_x(si: Fx, co: Fx) -> (r: Transform)
        requires
            iabs(si@) <= SCALE as int,
            iabs(co@) <= SCALE as int,
        ensures
            mat_at(r.forward, 0) == SCALE as int,
            mat_at(r.forward, 1) == 0,
            mat_at(r.forward, 2) == 0,
            mat_at(r.forward, 3) == 0,
            mat_at(r.forward, 4) == 0,
            mat_at(r.forward, 5) == co@,
            mat_at(r.forward, 6) == -si@,
            mat_at(r.forward, 7) == 0,
            mat_at(r.forward, 8) == 0,
            mat_at(r.forward, 9) == si@,
            mat_at(r.forward, 10) == co@,
            mat_at(r.forward, 11) == 0,
            mat_at(r.forward, 12) == 0,
            mat_at(r.forward, 13) == 0,
            mat_at(r.forward, 14) == 0,
            mat_at(r.forward, 15) == SCALE as int,
            mat_at(r.inverse, 0) == SCALE as int,
            mat_at(r.inverse, 1) == 0,
            mat_at(r.inverse, 2) == 0,
            mat_at(r.inverse, 3) == 0,
            mat_at(r.inverse, 4) == 0,
            mat_at(r.inverse, 5) == co@,
            mat_at(r.inverse, 6) == si@,
            mat_at(r.inverse, 7) == 0,
            mat_at(r.inverse, 8) == 0,
            mat_at(r.inverse, 9) == -si@,
            mat_at(r.inverse, 10) == co@,
            mat_at(r.inverse, 11) == 0,
            mat_at(r.inverse, 12) == 0,
            mat_at(r.inverse, 13) == 0,
            mat_at(r.inverse, 14) == 0,
            mat_at(r.inverse, 15) == SCALE as int,
            is_rotation_x(r, si@, co@),
            t_wf(r),
    {
        let nsi = si.neg();
        Transform { forward: Matrix::rotate_x(si, co), inverse: Matrix::rotate_x(nsi, co) }
    }

    /// Rotation about the Y axis, given the sine and cosine of the
    /// angle; the inverse rotates by the opposite angle.
    pub fn rotate_y(si: Fx, co: Fx) -> (r: Transform)
        requires
            iabs(si@) <= SCALE as int,
            iabs(co@) <= SCALE as int,
        ensures
            mat_at(r.forward, 0) == co@,
            mat_at(r.forward, 1) == 0,
            mat_at(r.forward, 2) == si@,
            mat_at(r.forward, 3) == 0,
            mat_at(r.forward, 4) == 0,
            mat_at(r.forward, 5) == SCALE as int,
            mat_at(r.forward, 6) == 0,
            mat_at(r.forward, 7) == 0,
            mat_at(r.forward, 8) == -si@,
            mat_at(r.forward, 9) == 0,
            mat_at(r.forward, 10) == co@,
            mat_at(r.forward, 11) == 0,
            mat_at(r.forward, 12) == 0,
            mat_at(r.forward, 13) == 0,
            mat_at(r.forward, 14) == 0,
            mat_at(r.forward, 15) == SCALE as int,
            mat_at(r.inverse, 0) == co@,
            mat_at(r.inverse, 1) == 0,
            mat_at(r.inverse, 2) == -si@,
            mat_at(r.inverse, 3) == 0,
            mat_at(r.inverse, 4) == 0,
            mat_at(r.inverse, 5) == SCALE as int,
            mat_at(r.inverse, 6) == 0,
            mat_at(r.inverse, 7) == 0,
            mat_at(r.inverse, 8) == si@,
            mat_at(r.inverse, 9) == 0,
            mat_at(r.inverse, 10) == co@,
            mat_at(r.inverse, 11) == 0,
            mat_at(r.inverse, 12) == 0,
            mat_at(r.inverse, 13) == 0,
            mat_at(r.inverse, 14) == 0,
            mat_at(r.inverse, 15) == SCALE as int,
            is_rotation_y(r, si@, co@),
            t_wf(r),
    {
        let nsi = si.neg();
        Transform { forward: Matrix::rotate_y(si, co), inverse: Matrix::rotate_y(nsi, co) }
    }

    /// Rotation about the Z axis, given the sine and cosine of the
    /// angle; the inverse rotates by the opposite angle.
    pub fn rotate_z(si: Fx, co: Fx) -> (r: Transform)
        requires
            iabs(si@) <= SCALE as int,
            iabs(co@) <= SCALE as int,
        ensures
            mat_at(r.forward, 0) == co@,
            mat_at(r.forward, 1) == -si@,
            mat_at(r.forward, 2) == 0,
            mat_at(r.forward, 3) == 0,
            mat_at(r.forward, 4) == si@,
            mat_at(r.forward, 5) == co@,
            mat_at(r.forward, 6) == 0,
            mat_at(r.forward, 7) == 0,
            mat_at(r.forward, 8) == 0,
            mat_at(r.forward, 9) == 0,
            mat_at(r.forward, 10) == SCALE as int,
            mat_at(r.forward, 11) == 0,
            mat_at(r.forward, 12) == 0,
            mat_at(r.forward, 13) == 0,
            mat_at(r.forward, 14) == 0,
            mat_at(r.forward, 15) == SCALE as int,
            mat_at(r.inverse, 0) == co@,
            mat_at(r.inverse, 1) == si@,
            mat_at(r.inverse, 2) == 0,
            mat_at(r.inverse, 3) == 0,
            mat_at(r.inverse, 4) == -si@,
            mat_at(r.inverse, 5) == co@,
            mat_at(r.inverse, 6) == 0,
            mat_at(r.inverse, 7) == 0,
            mat_at(r.inverse, 8) == 0,
            mat_at(r.inverse, 9) == 0,
            mat_at(r.inverse, 10) == SCALE as int,
            mat_at(r.inverse, 11) == 0,
            mat_at(r.inverse, 12) == 0,
            mat_at(r.inverse, 13) == 0,
            mat_at(r.inverse, 14) == 0,
            mat_at(r.inverse, 15) == SCALE as int,
            is_rotation_z(r, si@, co@),
            t_wf(r),
    {
        let nsi = si.neg();
        Transform { forward: Matrix::rotate_z(si, co), inverse: Matrix::rotate_z(nsi, co) }
    }

    /// Translation; the inverse translates back.
    pub fn translate(tx: Fx, ty: Fx, tz: Fx) -> (r: Transform)
        requires
            iabs(tx@) <= VEC_LIM,
            iabs(ty@) <= VEC_LIM,
            iabs(tz@) <= VEC_LIM,
        ensures
            mat_at(r.forward, 0) == SCALE as int,
            mat_at(r.forward, 1) == 0,
            mat_at(r.forward, 2) == 0,
            mat_at(r.forward, 3) == tx@,
            mat_at(r.forward, 4) == 0,
            mat_at(r.forward, 5) == SCALE as int,
            mat_at(r.forward, 6) == 0,
            mat_at(r.forward, 7) == ty@,
            mat_at(r.forward, 8) == 0,
            mat_at(r.forward, 9) == 0,
            mat_at(r.forward, 10) == SCALE as int,
            mat_at(r.forward, 11) == tz@,
            mat_at(r.forward, 12) == 0,
            mat_at(r.forward, 13) == 0,
            mat_at(r.forward, 14) == 0,
            mat_at(r.forward, 15) == SCALE as int,
            mat_at(r.inverse, 0) == SCALE as int,
            mat_at(r.inverse, 1) == 0,
            mat_at(r.inverse, 2) == 0,
            mat_at(r.inverse, 3) == -tx@,
            mat_at(r.inverse, 4) == 0,
            mat_at(r.inverse, 5) == SCALE as int,
            mat_at(r.inverse, 6) == 0,
            mat_at(r.inverse, 7) == -ty@,
            mat_at(r.inverse, 8) == 0,
            mat_at(r.inverse, 9) == 0,
            mat_at(r.inverse, 10) == SCALE as int,
            mat_at(r.inverse, 11) == -tz@,
            mat_at(r.inverse, 12) == 0,
            mat_at(r.inverse, 13) == 0,
            mat_at(r.inverse, 14) == 0,
            mat_at(r.inverse, 15) == SCALE as int,
            is_translation(r, tx@, ty@, tz@),
            t_wf(r),
    {
        let v = Vector { x: tx, y: ty, z: tz };
        let w = v.flip();
        Transform { forward: Matrix::translation(&v), inverse: Matrix::translation(&w) }
    }

    /// Scaling per axis; the inverse scales by the reciprocals. Factors
    /// must be at least 2^-12 in magnitude so the reciprocals stay
    /// within the working bound.
    pub fn scale(sx: Fx, sy: Fx, sz: Fx) -> (r: Transform)
        requires
            0x10_0000 <= iabs(sx@) <= VEC_LIM,
            0x10_0000 <= iabs(sy@) <= VEC_LIM,
            0x10_0000 <= iabs(sz@) <= VEC_LIM,
        ensures
            mat_at(r.forward, 0) == sx@,
            mat_at(r.forward, 1) == 0,
            mat_at(r.forward, 2) == 0,
            mat_at(r.forward, 3) == 0,
            mat_at(r.forward, 4) == 0,
            mat_at(r.forward, 5) == sy@,
            mat_at(r.forward, 6) == 0,
            mat_at(r.forward, 7) == 0,
            mat_at(r.forward, 8) == 0,
            mat_at(r.forward, 9) == 0,
            mat_at(r.forward, 10) == sz@,
            mat_at(r.forward, 11) == 0,
            mat_at(r.forward, 12) == 0,
            mat_at(r.forward, 13) == 0,
            mat_at(r.forward, 14) == 0,
            mat_at(r.forward, 15) == SCALE as int,
            mat_at(r.inverse, 0) == fdiv(SCALE as int, sx@),
            mat_at(r.inverse, 1) == 0,
            mat_at(r.inverse, 2) == 0,
            mat_at(r.inverse, 3) == 0,
            mat_at(r.inverse, 4) == 0,
            mat_at(r.inverse, 5) == fdiv(SCALE as int, sy@),
            mat_at(r.inverse, 6) == 0,
            mat_at(r.inverse, 7) == 0,
            mat_at(r.inverse, 8) == 0,
            mat_at(r.inverse, 9) == 0,
            mat_at(r.inverse, 10) == fdiv(SCALE as int, sz@),
            mat_at(r.inverse, 11) == 0,
            mat_at(r.inverse, 12) == 0,
            mat_at(r.inverse, 13) == 0,
            mat_at(r.inverse, 14) == 0,
            mat_at(r.inverse, 15) == SCALE as int,
            is_scaling(r, sx@, sy@, sz@),
            t_wf(r),
    {
        let v = Vector { x: sx, y: sy, z: sz };
        let w = v.recip();
        proof {
            crate::num::lemma_fdiv_le(SCALE as int, sx@, SCALE as int, 0x10_0000);
            crate::num::lemma_fdiv_le(SCALE as int, sy@, SCALE as int, 0x10_0000);
            crate::num::lemma_fdiv_le(SCALE as int, sz@, SCALE as int, 0x10_0000);
            assert((SCALE as int * SCALE) / 0x10_0000 == 0x1000_0000_0000);
        }
        Transform { forward: Matrix::diag(&v), inverse: Matrix::diag(&w) }
    }

    /// Inversion is an exact swap of the two matrices.
    pub fn inverse(&self) -> (r: Transform)
        ensures
            r.forward == self.inverse,
            r.inverse == self.forward,
    {
        Transform { forward: self.inverse, inverse: self.forward }
    }

    /// Composition: applying the result equals applying `self`, then
    /// `other`. The composed inverse is the reverse composition of the
    /// inverses. How closely applying the composed matrix tracks
    /// applying the factors in turn is stated by
    /// `crate::matrix::lemma_apply_composition`.
    #[verifier::rlimit(60)]
    pub fn and_then(&self, other: &Transform) -> (r: Transform)
        requires
            t_wf(*self),
            t_wf(*other),
            mcomp_wf(other.forward, self.forward),
            mcomp_wf(self.inverse, other.inverse),
        ensures
            mat_at(r.forward, 0) == ment(other.forward, self.forward, 0, 0),
            mat_at(r.forward, 1) == ment(other.forward, self.forward, 0, 1),
            mat_at(r.forward, 2) == ment(other.forward, self.forward, 0, 2),
            mat_at(r.forward, 3) == ment(other.forward, self.forward, 0, 3),
            mat_at(r.forward, 4) == ment(other.forward, self.forward, 1, 0),
            mat_at(r.forward, 5) == ment(other.forward, self.forward, 1, 1),
            mat_at(r.forward, 6) == ment(other.forward, self.forward, 1, 2),
            mat_at(r.forward, 7) == ment(other.forward, self.forward, 1, 3),
            mat_at(r.forward, 8) == ment(other.forward, self.forward, 2, 0),
            mat_at(r.forward, 9) == ment(other.forward, self.forward, 2, 1),
            mat_at(r.forward, 10) == ment(other.forward, self.forward, 2, 2),
            mat_at(r.forward, 11) == ment(other.forward, self.forward, 2, 3),
            mat_at(r.forward, 12) == ment(other.forward, self.forward, 3, 0),
            mat_at(r.forward, 13) == ment(other.forward, self.forward, 3, 1),
            mat_at(r.forward, 14) == ment(other.forward, self.forward, 3, 2),
            mat_at(r.forward, 15) == ment(other.forward, self.forward, 3, 3),
            mat_at(r.inverse, 0) == ment(self.inverse, other.inverse, 0, 0),
            mat_at(r.inverse, 1) == ment(self.inverse, other.inverse, 0, 1),
            mat_at(r.inverse, 2) == ment(self.inverse, other.inverse, 0, 2),
            mat_at(r.inverse, 3) == ment(self.inverse, other.inverse, 0, 3),
            mat_at(r.inverse, 4) == ment(self.inverse, other.inverse, 1, 0),
            mat_at(r.inverse, 5) == ment(self.inverse, other.inverse, 1, 1),
            mat_at(r.inverse, 6) == ment(self.inverse, other.inverse, 1, 2),
            mat_at(r.inverse, 7) == ment(self.inverse, other.inverse, 1, 3),
            mat_at(r.inverse, 8) == ment(self.inverse, other.inverse, 2, 0),
            mat_at(r.inverse, 9) == ment(self.inverse, other.inverse, 2, 1),
            mat_at(r.inverse, 10) == ment(self.inverse, other.inverse, 2, 2),
            mat_at(r.inverse, 11) == ment(self.inverse, other.inverse, 2, 3),
            mat_at(r.inverse, 12) == ment(self.inverse, other.inverse, 3, 0),
            mat_at(r.inverse, 13) == ment(self.inverse, other.inverse, 3, 1),
            mat_at(r.inverse, 14) == ment(self.inverse, other.inverse, 3, 2),
            mat_at(r.inverse, 15) == ment(self.inverse, other.inverse, 3, 3),
            t_wf(r),
    {
        Transform {
            forward: other.forward.matmul(&self.forward),
            inverse: self.inverse.matmul(&other.inverse),
        }
    }

    /// Applies the forward matrix to a position.
    pub fn apply_to_point(&self, p: &Point) -> (r: Point)
        requires
            t_wf(*self),
            vec_wf(p.v),
        ensures
            r == mapp_point(self.forward, *p),
            iabs(r.v.x@) <= APP_LIM && iabs(r.v.y@) <= APP_LIM && iabs(r.v.z@) <= APP_LIM,
    {
        self.forward.apply_to_point(p)
    }

    /// Applies the forward matrix to a direction.
    pub fn apply_to_vector(&self, v: &Vector) -> (r: Vector)
        requires
            t_wf(*self),
            vec_wf(*v),
        ensures
            r == mapp_vector(self.forward, *v),
            iabs(r.x@) <= APP_LIM && iabs(r.y@) <= APP_LIM && iabs(r.z@) <= APP_LIM,
    {
        self.forward.apply_to_vector(v)
    }

    /// Applies the forward matrix to a ray.
    pub fn apply_to_ray(&self, ray: &Ray) -> (r: Ray)
        requires
            t_wf(*self),
            vec_wf(ray.origin.v),
            vec_wf(ray.direction),
        ensures
            r.origin == mapp_point(self.forward, ray.origin),
            r.direction == mapp_vector(self.forward, ray.direction),
    {
        ray.matmul(&self.forward)
    }
}

/// Rotating a plane pair by an angle and back: the result returns to
/// the start within a few rounding units, plus the pair's size scaled
/// by however far the given sine and cosine stray from the unit
/// circle. All values are raw fixed-point integers.
proof fn lemma_rotate_pair(
    co: int, si: int, x1: int, x2: int, y1: int, y2: int, z1: int, z2: int,
    ee: int, bx: int,
)
    requires
        iabs(co) <= SCALE as int,
        iabs(si) <= SCALE as int,
        iabs(co * co + si * si - (SCALE as int) * SCALE) <= ee,
        0 <= ee,
        iabs(x1) <= bx && iabs(x2) <= bx,
        0 <= bx,
        y1 == fmul(co, x1) + fmul(-si, x2),
        y2 == fmul(si, x1) + fmul(co, x2),
        z1 == fmul(co, y1) + fmul(si, y2),
        z2 == fmul(-si, y1) + fmul(co, y2),
    ensures
        iabs(z1 - x1) <= 7 + (ee * bx) / ((SCALE as int) * SCALE),
        iabs(z2 - x2) <= 7 + (ee * bx) / ((SCALE as int) * SCALE),
{
    let s = SCALE as int;
    lemma_tdiv(co * x1, s);
    lemma_tdiv((-si) * x2, s);
    lemma_tdiv(si * x1, s);
    lemma_tdiv(co * x2, s);
    lemma_tdiv(co * y1, s);
    lemma_tdiv(si * y2, s);
    lemma_tdiv((-si) * y1, s);
    lemma_tdiv(co * y2, s);
    assert((-si) * x2 == -(si * x2)) by (nonlinear_arith);
    assert((-si) * y1 == -(si * y1)) by (nonlinear_arith);
    let ea = s * y1 - (co * x1 - si * x2);
    let eb = s * y2 - (si * x1 + co * x2);
    let ec = s * z1 - (co * y1 + si * y2);
    let ed = s * z2 - (-(si * y1) + co * y2);
    assert(-2 * s < ea < 2 * s);
    assert(-2 * s < eb < 2 * s);
    assert(-2 * s < ec < 2 * s);
    assert(-2 * s < ed < 2 * s);
    // Scale the round trip once more and expand, one product at a time.
    assert(s * (s * z1) == s * (co * y1) + s * (si * y2) + s * ec) by (nonlinear_arith)
        requires
            s * z1 == co * y1 + si * y2 + ec,
    ;
    assert(s * (s * z2) == -(s * (si * y1)) + s * (co * y2) + s * ed) by (nonlinear_arith)
        requires
            s * z2 == -(si * y1) + co * y2 + ed,
    ;
    assert(s * (co * y1) == co * (co * x1) - co * (si * x2) + co * ea) by {
        vstd::arithmetic::mul::lemma_mul_is_associative(s, co, y1);
        vstd::arithmetic::mul::lemma_mul_is_commutative(s, co);
        vstd::arithmetic::mul::lemma_mul_is_associative(co, s, y1);
        vstd::arithmetic::mul::lemma_mul_is_distributive_add(co, co * x1 - si * x2, ea);
        vstd::arithmetic::mul::lemma_mul_is_distributive_sub(co, co * x1, si * x2);
        vstd::arithmetic::mul::lemma_mul_is_associative(co, co, x1);
        vstd::arithmetic::mul::lemma_mul_is_associative(co, si, x2);
    }
    assert(s * (si * y2) == si * (si * x1) + si * (co * x2) + si * eb) by {
        vstd::arithmetic::mul::lemma_mul_is_associative(s, si, y2);
        vstd::arithmetic::mul::lemma_mul_is_commutative(s, si);
        vstd::arithmetic::mul::lemma_mul_is_associative(si, s, y2);
        vstd::arithmetic::mul::lemma_mul_is_distributive_add(si, si * x1 + co * x2, eb);
        vstd::arithmetic::mul::lemma_mul_is_distributive_add(si, si * x1, co * x2);
    }
    assert(s * (si * y1) == si * (co * x1) - si * (si * x2) + si * ea) by {
        vstd::arithmetic::mul::lemma_mul_is_associative(s, si, y1);
        vstd::arithmetic::mul::lemma_mul_is_commutative(s, si);
        vstd::arithmetic::mul::lemma_mul_is_associative(si, s, y1);
        vstd::arithmetic::mul::lemma_mul_is_distributive_add(si, co * x1 - si * x2, ea);
        vstd::arithmetic::mul::lemma_mul_is_distributive_sub(si, co * x1, si * x2);
    }
    assert(s * (co * y2) == co * (si * x1) + co * (co * x2) + co * eb) by {
        vstd::arithmetic::mul::lemma_mul_is_associative(s, co, y2);
        vstd::arithmetic::mul::lemma_mul_is_commutative(s, co);
        vstd::arithmetic::mul::lemma_mul_is_associative(co, s, y2);
        vstd::arithmetic::mul::lemma_mul_is_distributive_add(co, si * x1 + co * x2, eb);
        vstd::arithmetic::mul::lemma_mul_is_distributive_add(co, si * x1, co * x2);
    }
    // Reassociate each trilinear monomial so the cross terms cancel.
    assert(co * (co * x1) + si * (si * x1) == (co * co + si * si) * x1) by (nonlinear_arith);
    assert(co * (si * x2) == si * (co * x2)) by (nonlinear_arith);
    assert(si * (co * x1) == co * (si * x1)) by (nonlinear_arith);
    assert(si * (si * x2) + co * (co * x2) == (co * co + si * si) * x2) by (nonlinear_arith);
    let drift = co * co + si * si - s * s;
    assert(s * (s * z1) - s * (s * x1) == drift * x1 + co * ea + si * eb + s * ec) by (nonlinear_arith)
        requires
            s * (s * z1) == (co * co + si * si) * x1 + co * ea + si * eb + s * ec,
            drift == co * co + si * si - s * s,
    ;
    assert(s * (s * z2) - s * (s * x2) == drift * x2 - si * ea + co * eb + s * ed) by (nonlinear_arith)
        requires
            s * (s * z2) == (co * co + si * si) * x2 - si * ea + co * eb + s * ed,
            drift == co * co + si * si - s * s,
    ;
    // Bound every error term.
    assert(-(ee * bx) <= drift * x1 <= ee * bx && -(ee * bx) <= drift * x2 <= ee * bx)
        by (nonlinear_arith)
        requires
            -ee <= drift <= ee,
            -bx <= x1 <= bx && -bx <= x2 <= bx,
            0 <= ee && 0 <= bx,
    ;
    assert(-2 * (s * s) <= co * ea <= 2 * (s * s) && -2 * (s * s) <= si * eb <= 2 * (s * s)
        && -2 * (s * s) <= si * ea <= 2 * (s * s) && -2 * (s * s) <= co * eb <= 2 * (s * s))
        by (nonlinear_arith)
        requires
            -s <= co <= s && -s <= si <= s,
            -2 * s < ea < 2 * s && -2 * s < eb < 2 * s,
            s == 0x1_0000_0000,
    ;
    let cap = ee * bx + 6 * (s * s);
    let g = (ee * bx) / (s * s);
    assert(g * (s * s) <= ee * bx && ee * bx < g * (s * s) + s * s && g >= 0) by {
        vstd::arithmetic::mul::lemma_mul_nonnegative(ee, bx);
        vstd::arithmetic::div_mod::lemma_fundamental_div_mod(ee * bx, s * s);
        vstd::arithmetic::div_mod::lemma_mod_division_less_than_divisor(ee * bx, s * s);
        vstd::arithmetic::div_mod::lemma_remainder_lower(ee * bx, s * s);
        vstd::arithmetic::div_mod::lemma_div_pos_is_pos(ee * bx, s * s);
    }
    assert(-cap <= s * (s * z1) - s * (s * x1) <= cap);
    assert(-cap <= s * (s * z2) - s * (s * x2) <= cap);
    assert(-(7 + g) <= z1 - x1 <= 7 + g) by (nonlinear_arith)
        requires
            -cap <= s * (s * z1) - s * (s * x1) <= cap,
            s * (s * (z1 - x1)) == s * (s * z1) - s * (s * x1),
            cap == ee * bx + 6 * (s * s),
            g * (s * s) <= ee * bx,
            ee * bx < g * (s * s) + s * s,
            g >= 0,
            s == 0x1_0000_0000,
    {
        let dd = z1 - x1;
        if dd > 7 + g {
            assert(dd >= 8 + g);
            assert(s * (s * dd) >= s * (s * (8 + g)));
            assert(s * (s * (8 + g)) == 8 * (s * s) + (s * s) * g);
        }
        if dd < -(7 + g) {
            assert(dd <= -8 - g);
            assert(s * (s * dd) <= s * (s * (-8 - g)));
            assert(s * (s * (-8 - g)) == -(8 * (s * s)) - (s * s) * g);
        }
    }
    assert(-(7 + g) <= z2 - x2 <= 7 + g) by (nonlinear_arith)
        requires
            -cap <= s * (s * z2) - s * (s * x2) <= cap,
            s * (s * (z2 - x2)) == s * (s * z2) - s * (s * x2),
            cap == ee * bx + 6 * (s * s),
            g * (s * s) <= ee * bx,
            ee * bx < g * (s * s) + s * s,
            g >= 0,
            s == 0x1_0000_0000,
    {
        let dd = z2 - x2;
        if dd > 7 + g {
            assert(dd >= 8 + g);
            assert(s * (s * dd) >= s * (s * (8 + g)));
            assert(s * (s * (8 + g)) == 8 * (s * s) + (s * s) * g);
        }
        if dd < -(7 + g) {
            assert(dd <= -8 - g);
            assert(s * (s * dd) <= s * (s * (-8 - g)));
            assert(s * (s * (-8 - g)) == -(8 * (s * s)) - (s * s) * g);
        }
    }
}

/// Round trip of a rotation about the X axis: applying the
/// transform and then its analytic inverse returns a point to its
/// start — exactly on the rotation axis, and on the rotated pair
/// within seven rounding units plus the point's size scaled by how far
/// the given sine and cosine stray from the unit circle (`ee` bounds
/// co * co + si * si - 1 in raw units; for values taken from an angle
/// it is a few units, so the round trip lands far inside the working
/// tolerance). This is the transform round-trip law for rotations.
pub proof fn lemma_rotate_x_round_trip(t: Transform, si: int, co: int, p: Point, ee: int, bx: int)
    requires
        is_rotation_x(t, si, co),
        iabs(si) <= SCALE as int,
        iabs(co) <= SCALE as int,
        iabs(co * co + si * si - (SCALE as int) * SCALE) <= ee,
        0 <= ee,
        iabs(p.v.x@) <= bx && iabs(p.v.y@) <= bx && iabs(p.v.z@) <= bx,
        0 <= bx <= VEC_LIM,
    ensures
        mapp_point(t.inverse, mapp_point(t.forward, p)).v.x@ == p.v.x@,
        iabs(mapp_point(t.inverse, mapp_point(t.forward, p)).v.y@ - p.v.y@)
            <= 7 + (ee * bx) / ((SCALE as int) * SCALE),
        iabs(mapp_point(t.inverse, mapp_point(t.forward, p)).v.z@ - p.v.z@)
            <= 7 + (ee * bx) / ((SCALE as int) * SCALE),
{
    let s = SCALE as int;
    lemma_fmul_one(p.v.x@);
    lemma_fmul_one(p.v.y@);
    lemma_fmul_one(p.v.z@);
    lemma_fmul_zero(p.v.x@);
    lemma_fmul_zero(p.v.y@);
    lemma_fmul_zero(p.v.z@);
    lemma_fmul_le(co, p.v.y@, s, bx);
    lemma_fmul_le(-si, p.v.z@, s, bx);
    lemma_fmul_le(si, p.v.y@, s, bx);
    lemma_fmul_le(co, p.v.z@, s, bx);
    assert((s * bx) / s == bx) by {
        vstd::arithmetic::div_mod::lemma_div_multiples_vanish(bx, s);
    }
    let q = mapp_point(t.forward, p);
    assert(q.v.x@ == p.v.x@);
    assert(q.v.y@ == fmul(co, p.v.y@) + fmul(-si, p.v.z@));
    assert(q.v.z@ == fmul(si, p.v.y@) + fmul(co, p.v.z@));
    lemma_fmul_one(q.v.x@);
    lemma_fmul_zero(q.v.y@);
    lemma_fmul_zero(q.v.z@);
    lemma_fmul_zero(q.v.x@);
    lemma_fmul_le(co, q.v.y@, s, 2 * bx);
    lemma_fmul_le(si, q.v.z@, s, 2 * bx);
    lemma_fmul_le(-si, q.v.y@, s, 2 * bx);
    lemma_fmul_le(co, q.v.z@, s, 2 * bx);
    assert((s * (2 * bx)) / s == 2 * bx) by {
        vstd::arithmetic::div_mod::lemma_div_multiples_vanish(2 * bx, s);
    }
    let r = mapp_point(t.inverse, q);
    assert(r.v.x@ == q.v.x@);
    assert(r.v.y@ == fmul(co, q.v.y@) + fmul(si, q.v.z@));
    assert(r.v.z@ == fmul(-si, q.v.y@) + fmul(co, q.v.z@));
    lemma_rotate_pair(co, si, p.v.y@, p.v.z@, q.v.y@, q.v.z@,
        r.v.y@, r.v.z@, ee, bx);
}

/// Round trip of a rotation about the Y axis: applying the
/// transform and then its analytic inverse returns a point to its
/// start — exactly on the rotation axis, and on the rotated pair
/// within seven rounding units plus the point's size scaled by how far
/// the given sine and cosine stray from the unit circle (`ee` bounds
/// co * co + si * si - 1 in raw units; for values taken from an angle
/// it is a few units, so the round trip lands far inside the working
/// tolerance). This is the transform round-trip law for rotations.
pub proof fn lemma_rotate_y_round_trip(t: Transform, si: int, co: int, p: Point, ee: int, bx: int)
    requires
        is_rotation_y(t, si, co),
        iabs(si) <= SCALE as int,
        iabs(co) <= SCALE as int,
        iabs(co * co + si * si - (SCALE as int) * SCALE) <= ee,
        0 <= ee,
        iabs(p.v.x@) <= bx && iabs(p.v.y@) <= bx && iabs(p.v.z@) <= bx,
        0 <= bx <= VEC_LIM,
    ensures
        mapp_point(t.inverse, mapp_point(t.forward, p)).v.y@ == p.v.y@,
        iabs(mapp_point(t.inverse, mapp_point(t.forward, p)).v.z@ - p.v.z@)
            <= 7 + (ee * bx) / ((SCALE as int) * SCALE),
        iabs(mapp_point(t.inverse, mapp_point(t.forward, p)).v.x@ - p.v.x@)
            <= 7 + (ee * bx) / ((SCALE as int) * SCALE),
{
    let s = SCALE as int;
    lemma_fmul_one(p.v.x@);
    lemma_fmul_one(p.v.y@);
    lemma_fmul_one(p.v.z@);
    lemma_fmul_zero(p.v.x@);
    lemma_fmul_zero(p.v.y@);
    lemma_fmul_zero(p.v.z@);
    lemma_fmul_le(co, p.v.z@, s, bx);
    lemma_fmul_le(-si, p.v.x@, s, bx);
    lemma_fmul_le(si, p.v.z@, s, bx);
    lemma_fmul_le(co, p.v.x@, s, bx);
    assert((s * bx) / s == bx) by {
        vstd::arithmetic::div_mod::lemma_div_multiples_vanish(bx, s);
    }
    let q = mapp_point(t.forward, p);
    assert(q.v.y@ == p.v.y@);
    assert(q.v.z@ == fmul(co, p.v.z@) + fmul(-si, p.v.x@));
    assert(q.v.x@ == fmul(si, p.v.z@) + fmul(co, p.v.x@));
    lemma_fmul_one(q.v.y@);
    lemma_fmul_zero(q.v.z@);
    lemma_fmul_zero(q.v.x@);
    lemma_fmul_zero(q.v.y@);
    lemma_fmul_le(co, q.v.z@, s, 2 * bx);
    lemma_fmul_le(si, q.v.x@, s, 2 * bx);
    lemma_fmul_le(-si, q.v.z@, s, 2 * bx);
    lemma_fmul_le(co, q.v.x@, s, 2 * bx);
    assert((s * (2 * bx)) / s == 2 * bx) by {
        vstd::arithmetic::div_mod::lemma_div_multiples_vanish(2 * bx, s);
    }
    let r = mapp_point(t.inverse, q);
    assert(r.v.y@ == q.v.y@);
    assert(r.v.z@ == fmul(co, q.v.z@) + fmul(si, q.v.x@));
    assert(r.v.x@ == fmul(-si, q.v.z@) + fmul(co, q.v.x@));
    lemma_rotate_pair(co, si, p.v.z@, p.v.x@, q.v.z@, q.v.x@,
        r.v.z@, r.v.x@, ee, bx);
}

/// Round trip of a rotation about the Z axis: applying the
/// transform and then its analytic inverse returns a point to its
/// start — exactly on the rotation axis, and on the rotated pair
/// within seven rounding units plus the point's size scaled by how far
/// the given sine and cosine stray from the unit circle (`ee` bounds
/// co * co + si * si - 1 in raw units; for values taken from an angle
/// it is a few units, so the round trip lands far inside the working
/// tolerance). This is the transform round-trip law for rotations.
pub proof fn lemma_rotate_z_round_trip(t: Transform, si: int, co: int, p: Point, ee: int, bx: int)
    requires
        is_rotation_z(t, si, co),
        iabs(si) <= SCALE as int,
        iabs(co) <= SCALE as int,
        iabs(co * co + si * si - (SCALE as int) * SCALE) <= ee,
        0 <= ee,
        iabs(p.v.x@) <= bx && iabs(p.v.y@) <= bx && iabs(p.v.z@) <= bx,
        0 <= bx <= VEC_LIM,
    ensures
        mapp_point(t.inverse, mapp_point(t.forward, p)).v.z@ == p.v.z@,
        iabs(mapp_point(t.inverse, mapp_point(t.forward, p)).v.x@ - p.v.x@)
            <= 7 + (ee * bx) / ((SCALE as int) * SCALE),
        iabs(mapp_point(t.inverse, mapp_point(t.forward, p)).v.y@ - p.v.y@)
            <= 7 + (ee * bx) / ((SCALE as int) * SCALE),
{
    let s = SCALE as int;
    lemma_fmul_one(p.v.x@);
    lemma_fmul_one(p.v.y@);
    lemma_fmul_one(p.v.z@);
    lemma_fmul_zero(p.v.x@);
    lemma_fmul_zero(p.v.y@);
    lemma_fmul_zero(p.v.z@);
    lemma_fmul_le(co, p.v.x@, s, bx);
    lemma_fmul_le(-si, p.v.y@, s, bx);
    lemma_fmul_le(si, p.v.x@, s, bx);
    lemma_fmul_le(co, p.v.y@, s, bx);
    assert((s * bx) / s == bx) by {
        vstd::arithmetic::div_mod::lemma_div_multiples_vanish(bx, s);
    }
    let q = mapp_point(t.forward, p);
    assert(q.v.z@ == p.v.z@);
    assert(q.v.x@ == fmul(co, p.v.x@) + fmul(-si, p.v.y@));
    assert(q.v.y@ == fmul(si, p.v.x@) + fmul(co, p.v.y@));
    lemma_fmul_one(q.v.z@);
    lemma_fmul_zero(q.v.x@);
    lemma_fmul_zero(q.v.y@);
    lemma_fmul_zero(q.v.z@);
    lemma_fmul_le(co, q.v.x@, s, 2 * bx);
    lemma_fmul_le(si, q.v.y@, s, 2 * bx);
    lemma_fmul_le(-si, q.v.x@, s, 2 * bx);
    lemma_fmul_le(co, q.v.y@, s, 2 * bx);
    assert((s * (2 * bx)) / s == 2 * bx) by {
        vstd::arithmetic::div_mod::lemma_div_multiples_vanish(2 * bx, s);
    }
    let r = mapp_point(t.inverse, q);
    assert(r.v.z@ == q.v.z@);
    assert(r.v.x@ == fmul(co, q.v.x@) + fmul(si, q.v.y@));
    assert(r.v.y@ == fmul(-si, q.v.x@) + fmul(co, q.v.y@));
    lemma_rotate_pair(co, si, p.v.x@, p.v.y@, q.v.x@, q.v.y@,
        r.v.x@, r.v.y@, ee, bx);
}

/// Scaling one coordinate and dividing it back: the result returns to
/// the start within three rounding units, plus one unit for each whole
/// factor the reciprocal loses (at most 4096 for the smallest allowed
/// factor) and one for each whole unit of the scaled value. All values
/// are raw fixed-point integers; the factor must be positive.
proof fn lemma_scale_axis(sv: int, x: int, y: int, z: int, rv: int, bx: int, by: int)
    requires
        0x10_0000 <= sv <= VEC_LIM as int,
        iabs(x) <= bx,
        0 <= bx,
        y == fmul(sv, x),
        rv == fdiv(SCALE as int, sv),
        z == fmul(rv, y),
        iabs(y) <= by,
        0 <= by,
    ensures
        iabs(z - x) <= 3 + (SCALE as int) / sv + by / (SCALE as int),
{
    let s = SCALE as int;
    lemma_tdiv(sv * x, s);
    crate::num::lemma_fdiv_le(s, sv, s, 0x10_0000);
    lemma_tdiv(rv * y, s);
    let e1 = s * y - sv * x;
    let e2 = rv * sv - s * s;
    let e3 = s * z - rv * y;
    assert(-s < e1 < s);
    assert(-sv < e2 < sv);
    assert(-s < e3 < s);
    // Expand the doubly scaled round trip one product at a time.
    assert(s * (sv * z) == sv * (s * z)) by (nonlinear_arith);
    assert(sv * (s * z) == sv * (rv * y) + sv * e3) by (nonlinear_arith)
        requires
            s * z == rv * y + e3,
    ;
    assert(sv * (rv * y) == y * (rv * sv)) by (nonlinear_arith);
    assert(y * (rv * sv) == y * (s * s) + y * e2) by (nonlinear_arith)
        requires
            rv * sv == s * s + e2,
    ;
    assert(y * (s * s) == s * (s * y)) by (nonlinear_arith);
    assert(s * (s * y) == s * (sv * x) + s * e1) by (nonlinear_arith)
        requires
            s * y == sv * x + e1,
    ;
    let dd = z - x;
    assert(s * (sv * dd) == s * e1 + y * e2 + sv * e3) by (nonlinear_arith)
        requires
            s * (sv * z) == s * (sv * x) + s * e1 + y * e2 + sv * e3,
            dd == z - x,
    ;
    assert(-(by * sv) <= y * e2 <= by * sv) by (nonlinear_arith)
        requires
            -by <= y <= by,
            -sv < e2 < sv,
            0 <= by,
            0 < sv,
    ;
    assert(-(sv * s) <= sv * e3 <= sv * s) by (nonlinear_arith)
        requires
            -s < e3 < s,
            0 < sv,
            s == 0x1_0000_0000,
    ;
    let cap = s * s + by * sv + sv * s;
    assert(-cap <= s * (sv * dd) <= cap);
    let g1 = s / sv;
    let g2 = by / s;
    assert(g1 * sv <= s && s < g1 * sv + sv && g1 >= 0) by {
        vstd::arithmetic::div_mod::lemma_fundamental_div_mod(s, sv);
        vstd::arithmetic::div_mod::lemma_mod_division_less_than_divisor(s, sv);
        vstd::arithmetic::div_mod::lemma_remainder_lower(s, sv);
        vstd::arithmetic::div_mod::lemma_div_pos_is_pos(s, sv);
    }
    assert(g2 * s <= by && by < g2 * s + s && g2 >= 0) by {
        vstd::arithmetic::div_mod::lemma_fundamental_div_mod(by, s);
        vstd::arithmetic::div_mod::lemma_mod_division_less_than_divisor(by, s);
        vstd::arithmetic::div_mod::lemma_remainder_lower(by, s);
        vstd::arithmetic::div_mod::lemma_div_pos_is_pos(by, s);
    }
    assert(-(3 + g1 + g2) <= dd <= 3 + g1 + g2) by (nonlinear_arith)
        requires
            -cap <= s * (sv * dd) <= cap,
            cap == s * s + by * sv + sv * s,
            g1 * sv <= s && s < g1 * sv + sv && g1 >= 0,
            g2 * s <= by && by < g2 * s + s && g2 >= 0,
            0x10_0000 <= sv,
            s == 0x1_0000_0000,
    {
        if dd > 3 + g1 + g2 {
            assert(dd >= 4 + g1 + g2);
            assert(sv * dd >= sv * (4 + g1 + g2));
            assert(s * (sv * dd) >= s * (sv * (4 + g1 + g2)));
            assert(s * (sv * (4 + g1 + g2)) == 4 * (s * sv) + s * (sv * g1) + s * (sv * g2));
            assert(sv * g1 > s - sv);
            assert(s * (sv * g1) > s * (s - sv));
            assert(s * (sv * g2) == sv * (s * g2));
            assert(s * g2 > by - s);
            assert(sv * (s * g2) > sv * (by - s));
            assert(sv * (by - s) == by * sv - sv * s);
        }
        if dd < -(3 + g1 + g2) {
            assert(dd <= -4 - g1 - g2);
            assert(sv * dd <= sv * (-4 - g1 - g2));
            assert(s * (sv * dd) <= s * (sv * (-4 - g1 - g2)));
            assert(s * (sv * (-4 - g1 - g2)) == -(4 * (s * sv)) - s * (sv * g1) - s * (sv * g2));
            assert(sv * g1 > s - sv);
            assert(s * (sv * g1) > s * (s - sv));
            assert(s * (sv * g2) == sv * (s * g2));
            assert(s * g2 > by - s);
            assert(sv * (s * g2) > sv * (by - s));
            assert(sv * (by - s) == by * sv - sv * s);
        }
    }
}

/// Round trip of a scaling with positive factors: applying the
/// transform and then its analytic inverse returns a point to its
/// start, within three rounding units per coordinate plus the
/// reciprocal's granularity and one unit per whole unit of the scaled
/// coordinate. For factors of at least one and scaled coordinates
/// within 64 units the bound is at most 68 raw units, about 1.6e-8 —
/// far inside the working tolerance. This is the transform round-trip
/// law for scalings.
pub proof fn lemma_scale_round_trip(t: Transform, sx: int, sy: int, sz: int, p: Point, by: int)
    requires
        is_scaling(t, sx, sy, sz),
        0x10_0000 <= sx <= VEC_LIM as int,
        0x10_0000 <= sy <= VEC_LIM as int,
        0x10_0000 <= sz <= VEC_LIM as int,
        vec_wf(p.v),
        iabs(fmul(sx, p.v.x@)) <= by,
        iabs(fmul(sy, p.v.y@)) <= by,
        iabs(fmul(sz, p.v.z@)) <= by,
        0 <= by <= VEC_LIM as int,
    ensures
        iabs(mapp_point(t.inverse, mapp_point(t.forward, p)).v.x@ - p.v.x@)
            <= 3 + (SCALE as int) / sx + by / (SCALE as int),
        iabs(mapp_point(t.inverse, mapp_point(t.forward, p)).v.y@ - p.v.y@)
            <= 3 + (SCALE as int) / sy + by / (SCALE as int),
        iabs(mapp_point(t.inverse, mapp_point(t.forward, p)).v.z@ - p.v.z@)
            <= 3 + (SCALE as int) / sz + by / (SCALE as int),
{
    let s = SCALE as int;
    lemma_fmul_zero(p.v.x@);
    lemma_fmul_zero(p.v.y@);
    lemma_fmul_zero(p.v.z@);
    let q = mapp_point(t.forward, p);
    assert(q.v.x@ == fmul(sx, p.v.x@));
    assert(q.v.y@ == fmul(sy, p.v.y@));
    assert(q.v.z@ == fmul(sz, p.v.z@));
    lemma_fmul_zero(q.v.x@);
    lemma_fmul_zero(q.v.y@);
    lemma_fmul_zero(q.v.z@);
    crate::num::lemma_fdiv_le(s, sx, s, 0x10_0000);
    crate::num::lemma_fdiv_le(s, sy, s, 0x10_0000);
    crate::num::lemma_fdiv_le(s, sz, s, 0x10_0000);
    assert((s * s) / 0x10_0000 == 0x1000_0000_0000) by (nonlinear_arith)
        requires
            s == 0x1_0000_0000,
    ;
    lemma_fmul_le(fdiv(s, sx), q.v.x@, 0x1000_0000_0000, VEC_LIM as int);
    lemma_fmul_le(fdiv(s, sy), q.v.y@, 0x1000_0000_0000, VEC_LIM as int);
    lemma_fmul_le(fdiv(s, sz), q.v.z@, 0x1000_0000_0000, VEC_LIM as int);
    assert((0x1000_0000_0000int * 0x1000_0000_0000) / (SCALE as int) == 0x100_0000_0000_0000)
        by (nonlinear_arith);
    let r = mapp_point(t.inverse, q);
    assert(r.v.x@ == fmul(fdiv(s, sx), q.v.x@));
    assert(r.v.y@ == fmul(fdiv(s, sy), q.v.y@));
    assert(r.v.z@ == fmul(fdiv(s, sz), q.v.z@));
    lemma_scale_axis(sx, p.v.x@, q.v.x@, r.v.x@, fdiv(s, sx), VEC_LIM as int, by);
    lemma_scale_axis(sy, p.v.y@, q.v.y@, r.v.y@, fdiv(s, sy), VEC_LIM as int, by);
    lemma_scale_axis(sz, p.v.z@, q.v.z@, r.v.z@, fdiv(s, sz), VEC_LIM as int, by);
}

/// Round trip of a translation: translating a point and applying the
/// analytic inverse restores the point exactly. This is the transform
/// round-trip law, exact in the translation case.
pub proof fn lemma_translate_round_trip(t: Transform, tx: int, ty: int, tz: int, p: Point)
    requires
            mat_at(t.forward, 0) == SCALE as int,
            mat_at(t.forward, 1) == 0,
            mat_at(t.forward, 2) == 0,
            mat_at(t.forward, 3) == tx,
            mat_at(t.forward, 4) == 0,
            mat_at(t.forward, 5) == SCALE as int,
            mat_at(t.forward, 6) == 0,
            mat_at(t.forward, 7) == ty,
            mat_at(t.forward, 8) == 0,
            mat_at(t.forward, 9) == 0,
            mat_at(t.forward, 10) == SCALE as int,
            mat_at(t.forward, 11) == tz,
            mat_at(t.forward, 12) == 0,
            mat_at(t.forward, 13) == 0,
            mat_at(t.forward, 14) == 0,
            mat_at(t.forward, 15) == SCALE as int,
            mat_at(t.inverse, 0) == SCALE as int,
            mat_at(t.inverse, 1) == 0,
            mat_at(t.inverse, 2) == 0,
            mat_at(t.inverse, 3) == -tx,
            mat_at(t.inverse, 4) == 0,
            mat_at(t.inverse, 5) == SCALE as int,
            mat_at(t.inverse, 6) == 0,
            mat_at(t.inverse, 7) == -ty,
            mat_at(t.inverse, 8) == 0,
            mat_at(t.inverse, 9) == 0,
            mat_at(t.inverse, 10) == SCALE as int,
            mat_at(t.inverse, 11) == -tz,
            mat_at(t.inverse, 12) == 0,
            mat_at(t.inverse, 13) == 0,
            mat_at(t.inverse, 14) == 0,
            mat_at(t.inverse, 15) == SCALE as int,
            vec_wf(p.v),
            iabs(p.v.x@ + tx) <= VEC_LIM,
            iabs(p.v.y@ + ty) <= VEC_LIM,
            iabs(p.v.z@ + tz) <= VEC_LIM,
    ensures
        mapp_point(t.inverse, mapp_point(t.forward, p)) == p,
{
    lemma_fmul_one(p.v.x@);
    lemma_fmul_one(p.v.y@);
    lemma_fmul_one(p.v.z@);
    lemma_fmul_zero(p.v.x@);
    lemma_fmul_zero(p.v.y@);
    lemma_fmul_zero(p.v.z@);
    let q = mapp_point(t.forward, p);
    assert(q.v.x@ == p.v.x@ + tx);
    assert(q.v.y@ == p.v.y@ + ty);
    assert(q.v.z@ == p.v.z@ + tz);
    lemma_fmul_one(q.v.x@);
    lemma_fmul_one(q.v.y@);
    lemma_fmul_one(q.v.z@);
    lemma_fmul_zero(q.v.x@);
    lemma_fmul_zero(q.v.y@);
    lemma_fmul_zero(q.v.z@);
}

} // verus!
