//! Colors: three fixed-point channels with the arithmetic the lighting
//! model needs.

use vstd::prelude::*;
use crate::num::{Fx, SCALE, fmul};

verus! {

#[derive(Clone, Copy, PartialEq, Eq, Structural, Debug)]
pub struct Color {
    pub r: Fx,
    pub g: Fx,
    pub b: Fx,
}

/// Channelwise product of two colors.
pub open spec fn cmul(a: Color, b: Color) -> Color {
    Color {
        r: Fx { raw: fmul(a.r@, b.r@) as i64 },
        g: Fx { raw: fmul(a.g@, b.g@) as i64 },
        b: Fx { raw: fmul(a.b@, b.b@) as i64 },
    }
}

/// A color scaled by a factor.
pub open spec fn cscale(a: Color, c: int) -> Color {
    Color {
        r: Fx { raw: fmul(a.r@, c) as i64 },
        g: Fx { raw: fmul(a.g@, c) as i64 },
        b: Fx { raw: fmul(a.b@, c) as i64 },
    }
}

/// Channelwise sum of two colors.
pub open spec fn cadd(a: Color, b: Color) -> Color {
    Color {
        r: Fx { raw: (a.r@ + b.r@) as i64 },
        g: Fx { raw: (a.g@ + b.g@) as i64 },
        b: Fx { raw: (a.b@ + b.b@) as i64 },
    }
}


/// The white color: all channels one.
pub open spec fn white_color() -> Color {
    Color { r: Fx { raw: SCALE }, g: Fx { raw: SCALE }, b: Fx { raw: SCALE } }
}

impl Color {
    pub fn new(r: Fx, g: Fx, b: Fx) -> (c: Color)
        ensures
            c == (Color { r, g, b }),
    {
        Color { r, g, b }
    }

    /// All channels zero.
    pub fn black() -> (c: Color)
        ensures
            c.r@ == 0 && c.g@ == 0 && c.b@ == 0,
    {
        Color { r: Fx::zero(), g: Fx::zero(), b: Fx::zero() }
    }

    /// All channels one.
    pub fn white() -> (c: Color)
        ensures
            c.r@ == SCALE as int && c.g@ == SCALE as int && c.b@ == SCALE as int,
            c == white_color(),
    {
        Color { r: Fx::one(), g: Fx::one(), b: Fx::one() }
    }

    pub fn r(&self) -> (v: Fx)
        ensures
            v == self.r,
    {
        self.r
    }

    pub fn g(&self) -> (v: Fx)
        ensures
            v == self.g,
    {
        self.g
    }

    pub fn b(&self) -> (v: Fx)
        ensures
            v == self.b,
    {
        self.b
    }

    /// The three channels as an array.
    pub fn to_a(&self) -> (v: [Fx; 3])
        ensures
            v@ == seq![self.r, self.g, self.b],
    {
        let v = [self.r, self.g, self.b];
        proof {
            assert(v@ =~= seq![self.r, self.g, self.b]);
        }
        v
    }

    /// Channelwise sum.
    pub fn add(self, o: Color) -> (c: Color)
        requires
            i64::MIN <= self.r@ + o.r@ <= i64::MAX,
            i64::MIN <= self.g@ + o.g@ <= i64::MAX,
            i64::MIN <= self.b@ + o.b@ <= i64::MAX,
        ensures
            c == cadd(self, o),
    {
        Color { r: self.r.add(o.r), g: self.g.add(o.g), b: self.b.add(o.b) }
    }

    /// Channelwise difference.
    pub fn sub(self, o: Color) -> (c: Color)
        requires
            i64::MIN <= self.r@ - o.r@ <= i64::MAX,
            i64::MIN <= self.g@ - o.g@ <= i64::MAX,
            i64::MIN <= self.b@ - o.b@ <= i64::MAX,
        ensures
            c.r@ == self.r@ - o.r@,
            c.g@ == self.g@ - o.g@,
            c.b@ == self.b@ - o.b@,
    {
        Color { r: self.r.sub(o.r), g: self.g.sub(o.g), b: self.b.sub(o.b) }
    }

    /// Scaling by a factor.
    pub fn scale(self, f: Fx) -> (c: Color)
        requires
            i64::MIN <= fmul(self.r@, f@) <= i64::MAX,
            i64::MIN <= fmul(self.g@, f@) <= i64::MAX,
            i64::MIN <= fmul(self.b@, f@) <= i64::MAX,
        ensures
            c == cscale(self, f@),
    {
        Color { r: self.r.mul(f), g: self.g.mul(f), b: self.b.mul(f) }
    }

    /// Channelwise product.
    pub fn mul_pairwise(self, o: Color) -> (c: Color)
        requires
            i64::MIN <= fmul(self.r@, o.r@) <= i64::MAX,
            i64::MIN <= fmul(self.g@, o.g@) <= i64::MAX,
            i64::MIN <= fmul(self.b@, o.b@) <= i64::MAX,
        ensures
            c == cmul(self, o),
    {
        Color { r: self.r.mul(o.r), g: self.g.mul(o.g), b: self.b.mul(o.b) }
    }
}

} // verus!
