//! Surface material and the Phong lighting model: ambient plus diffuse
//! plus specular, with diffuse and specular suppressed in shadow.

use vstd::prelude::*;
use crate::num::{Fx, SCALE, iabs, fmul, fpow, lemma_fmul_le, lemma_tdiv};
use crate::color::{Color, cadd, cmul, cscale};
use crate::coords::{Vector, Point, UnitVector, vec_wf, vec_dot_wf, uv_wf, vdot, vsub, vnormed,
    lemma_uv_comp_bound, MIN_NORM_MSQ, vmsq};
use crate::normal::{Normal, vreflect, lemma_reflect_unit_bounds};
use crate::light::PointLight;

verus! {

/// Default ambient coefficient, about 0.1.
pub const DEFAULT_AMBIENT: i64 = 429496729;

/// Default diffuse coefficient, about 0.9.
pub const DEFAULT_DIFFUSE: i64 = 3865470566;

/// Default specular coefficient, about 0.9.
pub const DEFAULT_SPECULAR: i64 = 3865470566;

/// Default shininess exponent.
pub const DEFAULT_SHININESS: u32 = 200;

pub struct Material {
    pub color: Color,
    pub ambient: Fx,
    pub diffuse: Fx,
    pub specular: Fx,
    pub shininess: u32,
}

/// Channels within [0, 4]: enough headroom for any sensible color or
/// intensity while keeping products small.
pub open spec fn col_wf(c: Color) -> bool {
    0 <= c.r@ <= 4 * SCALE && 0 <= c.g@ <= 4 * SCALE && 0 <= c.b@ <= 4 * SCALE
}

/// Coefficients and color within their working ranges.
pub open spec fn material_wf(m: Material) -> bool {
    0 <= m.ambient@ <= 4 * SCALE && 0 <= m.diffuse@ <= 4 * SCALE
        && 0 <= m.specular@ <= 4 * SCALE && col_wf(m.color)
}

/// A dot product of near-unit vectors capped at one, so that powers of
/// it stay within [0, 1].
pub open spec fn cap_one(x: int) -> int {
    if x > SCALE { SCALE as int } else { x }
}

/// The diffuse term: zero when the light is behind the surface.
pub open spec fn diffuse_of(m: Material, ldir: Vector, n: Normal) -> int {
    let d = vdot(n.u.v, ldir);
    if d < 0 { 0 } else { fmul(m.diffuse@, d) }
}

/// The specular term: zero when the reflection points away from the
/// eye, else the reflection-eye alignment raised to the shininess.
pub open spec fn specular_of(m: Material, ldir: Vector, eye: Vector, n: Normal) -> int {
    let rde = vdot(eye, vreflect(n.u.v, ldir));
    if rde <= 0 { 0 } else { fmul(m.specular@, fpow(cap_one(rde), m.shininess as nat)) }
}

/// The full Phong evaluation.
pub open spec fn lighting_of(
    m: Material,
    light: PointLight,
    pos: Point,
    eye: Vector,
    n: Normal,
    shadowed: bool,
) -> Color {
    let ldir = vnormed(vsub(light.position.v, pos.v));
    let dif = if shadowed { 0 } else { diffuse_of(m, ldir, n) };
    let spe = if shadowed { 0 } else { specular_of(m, ldir, eye, n) };
    cadd(cscale(cmul(light.intensity, m.color), m.ambient@ + dif), cscale(light.intensity, spe))
}


/// The stock material: the given color with the default Phong
/// coefficients.
pub open spec fn is_stock_material(m: Material, color: Color) -> bool {
    m.color == color && m.ambient@ == DEFAULT_AMBIENT as int
        && m.diffuse@ == DEFAULT_DIFFUSE as int && m.specular@ == DEFAULT_SPECULAR as int
        && m.shininess == DEFAULT_SHININESS
}

impl Material {
    /// The stock material in a given color.
    pub fn default_with_color(color: Color) -> (r: Material)
        ensures
            r.color == color,
            r.ambient@ == DEFAULT_AMBIENT as int,
            r.diffuse@ == DEFAULT_DIFFUSE as int,
            r.specular@ == DEFAULT_SPECULAR as int,
            r.shininess == DEFAULT_SHININESS,
            is_stock_material(r, color),
            col_wf(color) ==> material_wf(r),
    {
        Material {
            color,
            ambient: Fx::from_raw(DEFAULT_AMBIENT),
            diffuse: Fx::from_raw(DEFAULT_DIFFUSE),
            specular: Fx::from_raw(DEFAULT_SPECULAR),
            shininess: DEFAULT_SHININESS,
        }
    }

    /// The diffuse factor toward a light direction.
    fn diffuse(&self, light_direction: &UnitVector, normal: &Normal) -> (r: Fx)
        requires
            material_wf(*self),
            uv_wf(*light_direction),
            uv_wf(normal.u),
        ensures
            r@ == diffuse_of(*self, light_direction.v, *normal),
            0 <= r@ <= 16 * SCALE,
    {
        proof {
            lemma_uv_comp_bound(*light_direction);
            lemma_uv_comp_bound(normal.u);
            lemma_reflect_unit_bounds(normal.u.v, light_direction.v);
        }
        let d = normal.dot(&light_direction.v());
        if d.raw < 0 {
            Fx::zero()
        } else {
            proof {
                lemma_fmul_le(self.diffuse@, d@, 4 * SCALE as int, 4 * SCALE as int);
                assert(((4 * SCALE as int) * (4 * SCALE as int)) / (SCALE as int) == 16 * SCALE as int) by (nonlinear_arith);
                assert(self.diffuse@ * d@ >= 0) by (nonlinear_arith)
                    requires
                        self.diffuse@ >= 0,
                        d@ >= 0,
                ;
                lemma_tdiv(self.diffuse@ * d@, SCALE as int);
            }
            self.diffuse.mul(d)
        }
    }

    /// The specular factor toward a light direction, seen from an eye
    /// direction.
    fn specular(&self, light_direction: &UnitVector, eye_direction: &Vector, normal: &Normal)
        -> (r: Fx)
        requires
            material_wf(*self),
            uv_wf(*light_direction),
            uv_wf(normal.u),
            vec_dot_wf(*eye_direction),
        ensures
            r@ == specular_of(*self, light_direction.v, *eye_direction, *normal),
            0 <= r@ <= 16 * SCALE,
    {
        proof {
            lemma_uv_comp_bound(*light_direction);
            lemma_uv_comp_bound(normal.u);
            lemma_reflect_unit_bounds(normal.u.v, light_direction.v);
        }
        let reflection = normal.reflect(&light_direction.v());
        let rde = eye_direction.dot(reflection);
        if rde.raw <= 0 {
            Fx::zero()
        } else {
            let capped = if rde.raw > SCALE { Fx::one() } else { rde };
            let factor = capped.powi(self.shininess);
            proof {
                lemma_fmul_le(self.specular@, factor@, 4 * SCALE as int, SCALE as int);
                assert(((4 * SCALE as int) * (SCALE as int)) / (SCALE as int) == 4 * SCALE as int) by (nonlinear_arith);
                assert(self.specular@ * factor@ >= 0) by (nonlinear_arith)
                    requires
                        self.specular@ >= 0,
                        factor@ >= 0,
                ;
                lemma_tdiv(self.specular@ * factor@, SCALE as int);
            }
            self.specular.mul(factor)
        }
    }

    /// Phong lighting at a position: ambient always applies; diffuse
    /// and specular apply only when the point is not in shadow.
    pub fn lighting(
        &self,
        light: &PointLight,
        position: &Point,
        eye_direction: &Vector,
        normal: &Normal,
        is_shadowed: bool,
    ) -> (r: Color)
        requires
            material_wf(*self),
            col_wf(light.intensity),
            vec_wf(light.position.v),
            vec_wf(position.v),
            vmsq(vsub(light.position.v, position.v)) >= MIN_NORM_MSQ,
            vec_dot_wf(*eye_direction),
            uv_wf(normal.u),
        ensures
            r == lighting_of(*self, *light, *position, *eye_direction, *normal, is_shadowed),
    {
        let light_direction = light.direction_from(position);
        let dif = if is_shadowed {
            Fx::zero()
        } else {
            self.diffuse(&light_direction, normal)
        };
        let spe = if is_shadowed {
            Fx::zero()
        } else {
            self.specular(&light_direction, eye_direction, normal)
        };
        proof {
            lemma_col_products(light.intensity, self.color);
        }
        let effective = light.intensity.mul_pairwise(self.color);
        let shade = self.ambient.add(dif);
        proof {
            lemma_scale_products(effective, shade@);
            lemma_scale_products_small(light.intensity, spe@);
        }
        let shaded = effective.scale(shade);
        let glare = light.intensity.scale(spe);
        shaded.add(glare)
    }
}

/// Products of in-range colors stay within i64.
proof fn lemma_col_products(a: Color, b: Color)
    requires
        col_wf(a),
        col_wf(b),
    ensures
        iabs(fmul(a.r@, b.r@)) <= 16 * SCALE,
        iabs(fmul(a.g@, b.g@)) <= 16 * SCALE,
        iabs(fmul(a.b@, b.b@)) <= 16 * SCALE,
{
    lemma_fmul_le(a.r@, b.r@, 4 * SCALE as int, 4 * SCALE as int);
    lemma_fmul_le(a.g@, b.g@, 4 * SCALE as int, 4 * SCALE as int);
    lemma_fmul_le(a.b@, b.b@, 4 * SCALE as int, 4 * SCALE as int);
    assert(((4 * SCALE as int) * (4 * SCALE as int)) / (SCALE as int) == 16 * SCALE as int) by (nonlinear_arith);
}

/// Scaling a 16-bounded color by a 20-bounded factor stays within i64.
proof fn lemma_scale_products(c: Color, f: int)
    requires
        iabs(c.r@) <= 16 * SCALE,
        iabs(c.g@) <= 16 * SCALE,
        iabs(c.b@) <= 16 * SCALE,
        iabs(f) <= 20 * SCALE,
    ensures
        iabs(fmul(c.r@, f)) <= 320 * SCALE,
        iabs(fmul(c.g@, f)) <= 320 * SCALE,
        iabs(fmul(c.b@, f)) <= 320 * SCALE,
{
    lemma_fmul_le(c.r@, f, 16 * SCALE as int, 20 * SCALE as int);
    lemma_fmul_le(c.g@, f, 16 * SCALE as int, 20 * SCALE as int);
    lemma_fmul_le(c.b@, f, 16 * SCALE as int, 20 * SCALE as int);
    assert(((16 * SCALE as int) * (20 * SCALE as int)) / (SCALE as int) == 320 * SCALE as int) by (nonlinear_arith);
}

/// Scaling an in-range color by a 16-bounded factor stays within i64.
proof fn lemma_scale_products_small(c: Color, f: int)
    requires
        col_wf(c),
        iabs(f) <= 16 * SCALE,
    ensures
        iabs(fmul(c.r@, f)) <= 64 * SCALE,
        iabs(fmul(c.g@, f)) <= 64 * SCALE,
        iabs(fmul(c.b@, f)) <= 64 * SCALE,
{
    lemma_fmul_le(c.r@, f, 4 * SCALE as int, 16 * SCALE as int);
    lemma_fmul_le(c.g@, f, 4 * SCALE as int, 16 * SCALE as int);
    lemma_fmul_le(c.b@, f, 4 * SCALE as int, 16 * SCALE as int);
    assert(((4 * SCALE as int) * (16 * SCALE as int)) / (SCALE as int) == 64 * SCALE as int) by (nonlinear_arith);
}

} // verus!
