//! Signed fixed-point numbers: an `i64` raw value interpreted as
//! `raw / SCALE`, with truncating multiplication, division and an
//! integer square root. All operations are exact functions of the raw
//! values, which the contracts state directly.

use vstd::prelude::*;
use vstd::arithmetic::div_mod::{lemma_fundamental_div_mod, lemma_div_is_ordered, lemma_div_pos_is_pos};

verus! {

/// Raw units per 1.0; 32 fractional bits.
pub const SCALE: i64 = 0x1_0000_0000;

/// Magnitude of a mathematical integer.
pub open spec fn iabs(x: int) -> int {
    if x >= 0 { x } else { -x }
}

/// Division truncating toward zero, as machine division does.
pub open spec fn tdiv(a: int, b: int) -> int
    recommends b != 0,
{
    if (a >= 0) == (b >= 0) { iabs(a) / iabs(b) } else { -(iabs(a) / iabs(b)) }
}

/// Fixed-point product: (a * b) / SCALE, truncated toward zero.
pub open spec fn fmul(a: int, b: int) -> int {
    tdiv(a * b, SCALE as int)
}

/// Fixed-point quotient: (a * SCALE) / b, truncated toward zero.
pub open spec fn fdiv(a: int, b: int) -> int
    recommends b != 0,
{
    tdiv(a * SCALE, b)
}

/// `r` is the integer square root of `n`.
pub open spec fn is_sqrt(n: int, r: int) -> bool {
    r >= 0 && r * r <= n && n < (r + 1) * (r + 1)
}

/// The integer square root (floor of the real square root).
pub open spec fn isq(n: int) -> int
    recommends n >= 0,
{
    choose|r: int| is_sqrt(n, r)
}

/// Fixed-point square root: isq(a * SCALE), so that squaring the result
/// gives back roughly a * SCALE in raw units.
pub open spec fn fsqrt(a: int) -> int
    recommends a >= 0,
{
    isq(a * SCALE)
}

/// The integer square root exists and is unique.
pub proof fn lemma_isq_is(n: int, r: int)
    requires
        is_sqrt(n, r),
    ensures
        isq(n) == r,
{
    assert(exists|x: int| is_sqrt(n, x)) by {
        assert(is_sqrt(n, r));
    }
    let q = isq(n);
    assert(is_sqrt(n, q));
    assert(q == r) by (nonlinear_arith)
        requires
            q >= 0 && q * q <= n && n < (q + 1) * (q + 1),
            r >= 0 && r * r <= n && n < (r + 1) * (r + 1),
    {
        if q < r {
            assert((q + 1) * (q + 1) <= r * r);
        }
        if r < q {
            assert((r + 1) * (r + 1) <= q * q);
        }
    }
}

/// Every non-negative integer has an integer square root, so `isq`
/// satisfies its defining property.
pub proof fn lemma_isq_exists(n: int)
    requires
        n >= 0,
    ensures
        is_sqrt(n, isq(n)),
    decreases n,
{
    if n == 0 {
        assert(is_sqrt(0, 0));
        assert(exists|x: int| is_sqrt(0, x));
    } else {
        lemma_isq_exists(n - 1);
        let r = isq(n - 1);
        if n < (r + 1) * (r + 1) {
            assert(is_sqrt(n, r));
        } else {
            assert(n == (r + 1) * (r + 1));
            assert(is_sqrt(n, r + 1)) by (nonlinear_arith)
                requires
                    n == (r + 1) * (r + 1),
                    r >= 0,
            ;
        }
        assert(exists|x: int| is_sqrt(n, x));
    }
    let q = isq(n);
    assert(is_sqrt(n, q));
}

/// The integer square root never decreases.
pub proof fn lemma_isq_ordered(m: int, n: int, r: int, s: int)
    requires
        is_sqrt(m, r),
        is_sqrt(n, s),
        m <= n,
    ensures
        r <= s,
{
    assert(r <= s) by (nonlinear_arith)
        requires
            r >= 0 && r * r <= m && m < (r + 1) * (r + 1),
            s >= 0 && s * s <= n && n < (s + 1) * (s + 1),
            m <= n,
    {
        if s < r {
            assert((s + 1) * (s + 1) <= r * r);
        }
    }
}

/// Truncating division leaves a remainder smaller than the divisor and
/// never grows the magnitude of the dividend.
pub proof fn lemma_tdiv(a: int, b: int)
    requires
        b != 0,
    ensures
        -iabs(b) < tdiv(a, b) * b - a < iabs(b),
        iabs(tdiv(a, b) * b) <= iabs(a),
        iabs(tdiv(a, b)) <= iabs(a),
        iabs(a) < iabs(b) ==> tdiv(a, b) == 0,
        a >= 0 && b > 0 ==> tdiv(a, b) >= 0 && tdiv(a, b) * b <= a,
{
    let p = iabs(a);
    let q = iabs(b);
    lemma_fundamental_div_mod(p, q);
    let d = p / q;
    let r0 = p % q;
    assert(0 <= r0 < q) by {
        vstd::arithmetic::div_mod::lemma_mod_division_less_than_divisor(p, q);
        vstd::arithmetic::div_mod::lemma_remainder_lower(p, q);
    }
    assert(p == q * d + r0);
    assert(d >= 0) by {
        lemma_div_pos_is_pos(p, q);
    }
    assert(d <= p) by {
        vstd::arithmetic::div_mod::lemma_div_nonincreasing(p, q);
    }
    let t = tdiv(a, b);
    // In every sign case, t * b differs from a by the Euclidean remainder.
    assert(if a >= 0 { t * b - a == -r0 } else { t * b - a == r0 }) by (nonlinear_arith)
        requires
            t == if (a >= 0) == (b >= 0) { d } else { -d },
            p == if a >= 0 { a } else { -a },
            q == if b >= 0 { b } else { -b },
            p == q * d + r0,
            b != 0,
    ;
    assert(t == d || t == -d);
    if p < q {
        assert(d == 0) by (nonlinear_arith)
            requires
                q * d <= p < q,
                d >= 0,
                q > 0,
        {
            if d >= 1 {
                assert(q * d >= q);
            }
        }
    }
}

/// A bound on the dividend gives a bound on the truncating quotient.
pub proof fn lemma_tdiv_le(a: int, b: int, bound: int)
    requires
        b > 0,
        iabs(a) <= bound,
    ensures
        iabs(tdiv(a, b)) <= bound / b,
        iabs(tdiv(a, b) * b) <= iabs(a),
{
    lemma_tdiv(a, b);
    lemma_div_is_ordered(iabs(a), bound, b);
    lemma_div_pos_is_pos(iabs(a), b);
}

/// A bound on both factors gives a bound on the fixed-point product.
pub proof fn lemma_fmul_le(a: int, b: int, ab: int, bb: int)
    requires
        iabs(a) <= ab,
        iabs(b) <= bb,
    ensures
        iabs(fmul(a, b)) <= (ab * bb) / (SCALE as int),
        iabs(fmul(a, b) * SCALE - a * b) < SCALE,
{
    assert(-(ab * bb) <= a * b <= ab * bb) by (nonlinear_arith)
        requires
            -ab <= a <= ab,
            -bb <= b <= bb,
    ;
    lemma_tdiv_le(a * b, SCALE as int, ab * bb);
    lemma_tdiv(a * b, SCALE as int);
}

/// A bounded dividend and a divisor bounded away from zero bound the
/// fixed-point quotient.
pub proof fn lemma_fdiv_le(a: int, b: int, ab: int, bl: int)
    requires
        iabs(a) <= ab,
        iabs(b) >= bl,
        bl > 0,
        b != 0,
    ensures
        iabs(fdiv(a, b)) <= (ab * SCALE) / bl,
        iabs(fdiv(a, b) * b - a * SCALE) < iabs(b),
{
    let n = a * SCALE;
    assert(-(ab * SCALE) <= n <= ab * SCALE) by (nonlinear_arith)
        requires
            -ab <= a <= ab,
            n == a * (SCALE as int),
    ;
    let q = iabs(b);
    lemma_div_pos_is_pos(iabs(n), q);
    assert(iabs(n) / q <= iabs(n) / bl) by {
        vstd::arithmetic::div_mod::lemma_div_is_ordered_by_denominator(iabs(n), bl, q);
    }
    lemma_div_is_ordered(iabs(n), ab * SCALE, bl);
    assert(iabs(tdiv(n, b)) == iabs(n) / q);
    lemma_tdiv(n, b);
}

/// Fixed-point power with a natural exponent.
pub open spec fn fpow(b: int, e: nat) -> int
    decreases e,
{
    if e == 0 { SCALE as int } else { fmul(fpow(b, (e - 1) as nat), b) }
}

/// A fixed-point number: `raw / SCALE`.
#[derive(Clone, Copy, PartialEq, Eq, Structural, Debug)]
pub struct Fx {
    pub raw: i64,
}

impl View for Fx {
    type V = int;

    open spec fn view(&self) -> int {
        self.raw as int
    }
}

/// Truncating division on wide machine integers.
fn tdiv_i128(a: i128, b: i128) -> (r: i128)
    requires
        b != 0,
        a > i128::MIN,
        b > i128::MIN,
    ensures
        r == tdiv(a as int, b as int),
{
    let ua: u128 = if a >= 0 { a as u128 } else { (-a) as u128 };
    let ub: u128 = if b >= 0 { b as u128 } else { (-b) as u128 };
    let q: u128 = ua / ub;
    assert(q <= ua) by {
        lemma_tdiv_le(ua as int, ub as int, ua as int);
        assert(iabs(tdiv(ua as int, ub as int)) == ua as int / ub as int);
    }
    if (a >= 0) == (b >= 0) {
        q as i128
    } else {
        -(q as i128)
    }
}

/// Integer square root by bisection.
pub(crate) fn isqrt_u128(n: u128) -> (r: u128)
    ensures
        is_sqrt(n as int, r as int),
{
    let mut lo: u128 = 0;
    let mut hi: u128 = 0x1_0000_0000_0000_0000;
    assert((n as int) < (hi as int) * (hi as int)) by (nonlinear_arith)
        requires
            n <= u128::MAX,
            hi == 0x1_0000_0000_0000_0000u128,
    ;
    while hi - lo > 1
        invariant
            lo < hi,
            hi <= 0x1_0000_0000_0000_0000u128,
            (lo as int) * (lo as int) <= n as int,
            (n as int) < (hi as int) * (hi as int),
        decreases hi - lo,
    {
        let mid = lo + (hi - lo) / 2;
        assert(lo < mid < hi);
        assert((mid as int) * (mid as int) < 0x1_0000_0000_0000_0000_0000_0000_0000_0000) by (nonlinear_arith)
            requires
                mid < 0x1_0000_0000_0000_0000u128,
        ;
        let sq = mid * mid;
        if sq <= n {
            lo = mid;
        } else {
            hi = mid;
        }
    }
    assert(hi == lo + 1);
    lo
}

impl Fx {
    /// Wraps a raw value.
    pub fn from_raw(raw: i64) -> (r: Fx)
        ensures
            r@ == raw as int,
    {
        Fx { raw }
    }

    /// The raw value.
    pub fn raw(self) -> (r: i64)
        ensures
            r as int == self@,
    {
        self.raw
    }

    /// The number of raw units in a whole number.
    pub fn from_int(i: i64) -> (r: Fx)
        requires
            iabs(i as int) < 0x8000_0000,
        ensures
            r@ == i * SCALE,
    {
        Fx { raw: i * SCALE }
    }

    pub fn zero() -> (r: Fx)
        ensures
            r@ == 0,
    {
        Fx { raw: 0 }
    }

    pub fn one() -> (r: Fx)
        ensures
            r@ == SCALE as int,
    {
        Fx { raw: SCALE }
    }

    pub fn add(self, o: Fx) -> (r: Fx)
        requires
            i64::MIN <= self@ + o@ <= i64::MAX,
        ensures
            r@ == self@ + o@,
    {
        Fx { raw: self.raw + o.raw }
    }

    pub fn sub(self, o: Fx) -> (r: Fx)
        requires
            i64::MIN <= self@ - o@ <= i64::MAX,
        ensures
            r@ == self@ - o@,
    {
        Fx { raw: self.raw - o.raw }
    }

    pub fn neg(self) -> (r: Fx)
        requires
            self@ > i64::MIN,
        ensures
            r@ == -self@,
    {
        Fx { raw: -self.raw }
    }

    /// Magnitude.
    pub fn abs(self) -> (r: Fx)
        requires
            self@ > i64::MIN,
        ensures
            r@ == iabs(self@),
    {
        if self.raw < 0 { Fx { raw: -self.raw } } else { self }
    }

    /// Fixed-point product, truncated toward zero.
    pub fn mul(self, o: Fx) -> (r: Fx)
        requires
            i64::MIN <= fmul(self@, o@) <= i64::MAX,
        ensures
            r@ == fmul(self@, o@),
    {
        proof {
            assert(-0x4000_0000_0000_0000_0000_0000_0000_0000 <= self@ * o@
                <= 0x4000_0000_0000_0000_0000_0000_0000_0000) by (nonlinear_arith)
                requires
                    -0x8000_0000_0000_0000 <= self@ <= 0x7fff_ffff_ffff_ffff,
                    -0x8000_0000_0000_0000 <= o@ <= 0x7fff_ffff_ffff_ffff,
            ;
        }
        let p: i128 = (self.raw as i128) * (o.raw as i128);
        let q = tdiv_i128(p, SCALE as i128);
        Fx { raw: q as i64 }
    }

    /// Fixed-point quotient, truncated toward zero.
    pub fn div(self, o: Fx) -> (r: Fx)
        requires
            o@ != 0,
            i64::MIN <= fdiv(self@, o@) <= i64::MAX,
        ensures
            r@ == fdiv(self@, o@),
    {
        let p: i128 = (self.raw as i128) * (SCALE as i128);
        let q = tdiv_i128(p, o.raw as i128);
        Fx { raw: q as i64 }
    }

    /// Fixed-point power by repeated multiplication; the base must lie
    /// in [0, 1], so the result does too.
    pub fn powi(self, e: u32) -> (r: Fx)
        requires
            0 <= self@ <= SCALE as int,
        ensures
            r@ == fpow(self@, e as nat),
            0 <= r@ <= SCALE as int,
    {
        let mut acc = Fx::one();
        let mut i: u32 = 0;
        while i < e
            invariant
                i <= e,
                acc@ == fpow(self@, i as nat),
                0 <= acc@ <= SCALE as int,
                0 <= self@ <= SCALE as int,
            decreases e - i,
        {
            proof {
                lemma_fmul_le(acc@, self@, SCALE as int, SCALE as int);
                assert((SCALE as int * SCALE) / (SCALE as int) == SCALE as int);
                assert(acc@ * self@ >= 0) by (nonlinear_arith)
                    requires
                        acc@ >= 0,
                        self@ >= 0,
                ;
                lemma_tdiv(acc@ * self@, SCALE as int);
            }
            acc = acc.mul(self);
            i = i + 1;
        }
        acc
    }

    /// Fixed-point square root of a non-negative number.
    pub fn sqrt(self) -> (r: Fx)
        requires
            self@ >= 0,
        ensures
            r@ == fsqrt(self@),
            is_sqrt(self@ * SCALE, r@),
            r@ >= 0,
    {
        proof {
            assert(0 <= self@ * SCALE <= 0x7fff_ffff_ffff_ffff * 0x1_0000_0000) by (nonlinear_arith)
                requires
                    0 <= self@ <= 0x7fff_ffff_ffff_ffff,
            ;
        }
        let n: i128 = (self.raw as i128) * (SCALE as i128);
        let r = isqrt_u128(n as u128);
        assert(r < 0x1_0000_0000_0000) by (nonlinear_arith)
            requires
                0 <= r,
                (r as int) * (r as int) <= n as int,
                n as int <= 0x7fff_ffff_ffff_ffff * 0x1_0000_0000,
        {
            if r >= 0x1_0000_0000_0000 {
                assert((r as int) * (r as int) >= 0x1_0000_0000_0000 * 0x1_0000_0000_0000);
            }
        }
        proof {
            lemma_isq_is(self@ * SCALE, r as int);
        }
        Fx { raw: r as i64 }
    }
}

} // verus!
