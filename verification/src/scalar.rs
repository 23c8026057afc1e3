//! Fixed-point numbers with six decimal places.
//!
//! Every quantity of a skeleton (seconds, degrees, lengths, scale factors and
//! easing fractions) is a [`Scalar`]: a signed count of millionths. All
//! arithmetic is exact on mathematical integers and then saturates at the
//! bounds of `i64`, so no operation can overflow or fail.

use vstd::prelude::*;
use vstd::arithmetic::div_mod::{
    lemma_div_multiples_vanish, lemma_fundamental_div_mod, lemma_fundamental_div_mod_converse,
};

verus! {

/// The number of millionths in one unit.
pub const MICROS_PER_UNIT: i64 = 1_000_000;

/// A fixed-point number, held as a count of millionths.
#[derive(Clone, Copy, Debug, PartialEq, Eq, Structural, PartialOrd, Ord, Hash)]
pub struct Scalar {
    /// The value in millionths.
    pub micros: i64,
}

impl View for Scalar {
    type V = int;

    open spec fn view(&self) -> int {
        self.micros as int
    }
}

/// The nearest value to `x` that an `i64` can hold.
pub open spec fn clamp(x: int) -> int {
    if x < i64::MIN as int {
        i64::MIN as int
    } else if x > i64::MAX as int {
        i64::MAX as int
    } else {
        x
    }
}

/// The scalar of `x` millionths, saturated.
pub open spec fn saturate(x: int) -> Scalar {
    Scalar { micros: clamp(x) as i64 }
}

/// The quotient of `n` by `d` rounded towards minus infinity, and 0 where `d` is 0.
pub open spec fn floor_div(n: int, d: int) -> int {
    if d > 0 {
        n / d
    } else if d < 0 {
        (-n) / (-d)
    } else {
        0
    }
}

/// Narrows to `i64`, saturating.
pub(crate) fn narrow(x: i128) -> (r: Scalar)
    ensures
        r == saturate(x as int),
{
    if x < i64::MIN as i128 {
        Scalar { micros: i64::MIN }
    } else if x > i64::MAX as i128 {
        Scalar { micros: i64::MAX }
    } else {
        Scalar { micros: x as i64 }
    }
}

/// Division that rounds towards minus infinity, for a positive divisor.
pub(crate) fn div_floor(n: i128, d: i128) -> (q: i128)
    requires
        d > 0,
        n > i128::MIN,
    ensures
        q as int == n as int / d as int,
{
    if n >= 0 {
        n / d
    } else {
        let m: i128 = -n;
        let t: i128 = m / d;
        let r: i128 = m % d;
        proof {
            lemma_fundamental_div_mod(m as int, d as int);
            if r == 0 {
                lemma_div_multiples_vanish(-(t as int), d as int);
                assert(n as int == (-(t as int)) * d as int) by (nonlinear_arith)
                    requires
                        m as int == d as int * t as int,
                        n as int == -(m as int),
                ;
            } else {
                assert(n as int == (-(t as int) - 1) * d as int + (d as int - r as int))
                    by (nonlinear_arith)
                    requires
                        m as int == d as int * t as int + r as int,
                        n as int == -(m as int),
                ;
                lemma_fundamental_div_mod_converse(
                    n as int,
                    d as int,
                    -(t as int) - 1,
                    d as int - r as int,
                );
            }
        }
        if r == 0 {
            -t
        } else {
            -t - 1
        }
    }
}

/// The product of two `i64` values, which always fits in an `i128`.
fn wide_mul(a: i64, b: i64) -> (p: i128)
    ensures
        p as int == a as int * b as int,
        -0x4000_0000_0000_0000_0000_0000_0000_0000 <= p as int
            <= 0x4000_0000_0000_0000_0000_0000_0000_0000,
{
    assert(-0x4000_0000_0000_0000_0000_0000_0000_0000 <= a as int * b as int
        <= 0x4000_0000_0000_0000_0000_0000_0000_0000) by (nonlinear_arith)
        requires
            -0x8000_0000_0000_0000 <= a as int <= 0x7fff_ffff_ffff_ffff,
            -0x8000_0000_0000_0000 <= b as int <= 0x7fff_ffff_ffff_ffff,
    ;
    (a as i128) * (b as i128)
}

impl Scalar {
    /// Zero.
    pub open spec fn spec_zero() -> Scalar {
        Scalar { micros: 0 }
    }

    /// One unit.
    pub open spec fn spec_one() -> Scalar {
        Scalar { micros: 1_000_000 }
    }

    /// The sum, saturated.
    pub open spec fn spec_add(self, rhs: Scalar) -> Scalar {
        saturate(self@ + rhs@)
    }

    /// The difference, saturated.
    pub open spec fn spec_sub(self, rhs: Scalar) -> Scalar {
        saturate(self@ - rhs@)
    }

    /// The negation, saturated.
    pub open spec fn spec_neg(self) -> Scalar {
        saturate(-self@)
    }

    /// The product rounded down to a millionth, saturated.
    pub open spec fn spec_mul(self, rhs: Scalar) -> Scalar {
        saturate(self@ * rhs@ / 1_000_000)
    }

    /// The quotient rounded down to a millionth, saturated; zero where `rhs` is zero.
    pub open spec fn spec_ratio(self, rhs: Scalar) -> Scalar {
        saturate(floor_div(self@ * 1_000_000, rhs@))
    }

    /// The value at fraction `t` of the way from `self` to `to`.
    pub open spec fn spec_lerp(self, to: Scalar, t: Scalar) -> Scalar {
        saturate(self@ + (to@ - self@) * t@ / 1_000_000)
    }

    /// The remainder of `self` in `[0, period)`, or `self` where the period is not positive.
    pub open spec fn spec_wrap(self, period: Scalar) -> Scalar {
        if period@ > 0 {
            Scalar { micros: (self@ % period@) as i64 }
        } else {
            self
        }
    }

    /// The greater of the two.
    pub open spec fn spec_max(self, rhs: Scalar) -> Scalar {
        if self@ >= rhs@ {
            self
        } else {
            rhs
        }
    }

    /// Half of `self`, rounded down to a millionth.
    pub open spec fn spec_half(self) -> Scalar {
        Scalar { micros: (self@ / 2) as i64 }
    }

    /// `self` held to the range from zero to one.
    pub open spec fn spec_unit_clamp(self) -> Scalar {
        if self@ < 0 {
            Scalar::spec_zero()
        } else if self@ > 1_000_000 {
            Scalar::spec_one()
        } else {
            self
        }
    }

    /// The scalar of `micros` millionths.
    pub fn from_micros(micros: i64) -> (r: Scalar)
        ensures
            r@ == micros,
    {
        Scalar { micros }
    }

    /// The scalar of `units` whole units.
    pub fn from_units(units: i32) -> (r: Scalar)
        ensures
            r@ == units * 1_000_000,
    {
        Scalar { micros: (units as i64) * MICROS_PER_UNIT }
    }

    /// Zero.
    #[verifier::when_used_as_spec(spec_zero)]
    pub fn zero() -> (r: Scalar)
        ensures
            r == Scalar::spec_zero(),
    {
        Scalar { micros: 0 }
    }

    /// One unit.
    #[verifier::when_used_as_spec(spec_one)]
    pub fn one() -> (r: Scalar)
        ensures
            r == Scalar::spec_one(),
    {
        Scalar { micros: MICROS_PER_UNIT }
    }

    /// Adds, saturating.
    pub fn add(self, rhs: Scalar) -> (r: Scalar)
        ensures
            r == self.spec_add(rhs),
    {
        narrow(self.micros as i128 + rhs.micros as i128)
    }

    /// Subtracts, saturating.
    pub fn sub(self, rhs: Scalar) -> (r: Scalar)
        ensures
            r == self.spec_sub(rhs),
    {
        narrow(self.micros as i128 - rhs.micros as i128)
    }

    /// Negates, saturating.
    pub fn neg(self) -> (r: Scalar)
        ensures
            r == self.spec_neg(),
    {
        narrow(-(self.micros as i128))
    }

    /// Multiplies, rounding down to a millionth and saturating.
    pub fn mul(self, rhs: Scalar) -> (r: Scalar)
        ensures
            r == self.spec_mul(rhs),
    {
        let p = wide_mul(self.micros, rhs.micros);
        narrow(div_floor(p, MICROS_PER_UNIT as i128))
    }

    /// Divides, rounding down to a millionth and saturating. A zero divisor gives zero.
    pub fn ratio(self, rhs: Scalar) -> (r: Scalar)
        ensures
            r == self.spec_ratio(rhs),
    {
        if rhs.micros == 0 {
            Scalar { micros: 0 }
        } else {
            let n = wide_mul(self.micros, MICROS_PER_UNIT);
            if rhs.micros > 0 {
                narrow(div_floor(n, rhs.micros as i128))
            } else {
                narrow(div_floor(-n, -(rhs.micros as i128)))
            }
        }
    }

    /// Moves from `self` towards `to` by the fraction `t`.
    pub fn lerp(self, to: Scalar, t: Scalar) -> (r: Scalar)
        ensures
            r == self.spec_lerp(to, t),
    {
        let span: i128 = to.micros as i128 - self.micros as i128;
        let tm: i128 = t.micros as i128;
        assert(-0x7fff_ffff_ffff_ffff_8000_0000_0000_0000 <= span as int * tm as int
            <= 0x8000_0000_0000_0000_0000_0000_0000_0000 - 0x8000_0000_0000_0000)
            by (nonlinear_arith)
            requires
                -0xffff_ffff_ffff_ffff <= span as int <= 0xffff_ffff_ffff_ffff,
                -0x8000_0000_0000_0000 <= tm as int <= 0x7fff_ffff_ffff_ffff,
        ;
        let step: i128 = div_floor(span * tm, MICROS_PER_UNIT as i128);
        assert(-0x7fff_ffff_ffff_ffff_8000_0000_0000_0000 <= step as int
            <= 0x7fff_ffff_ffff_ffff_8000_0000_0000_0000) by {
            vstd::arithmetic::div_mod::lemma_div_is_ordered(
                -0x7fff_ffff_ffff_ffff_8000_0000_0000_0000,
                span as int * tm as int,
                1_000_000,
            );
            vstd::arithmetic::div_mod::lemma_div_is_ordered(
                span as int * tm as int,
                0x7fff_ffff_ffff_ffff_8000_0000_0000_0000,
                1_000_000,
            );
        }
        narrow(self.micros as i128 + step)
    }

    /// Reduces into `[0, period)`; returns `self` where the period is not positive.
    pub fn wrap(self, period: Scalar) -> (r: Scalar)
        ensures
            r == self.spec_wrap(period),
    {
        if period.micros > 0 {
            let n: i128 = self.micros as i128;
            let d: i128 = period.micros as i128;
            let q = div_floor(n, d);
            proof {
                lemma_fundamental_div_mod(n as int, d as int);
                vstd::arithmetic::div_mod::lemma_mod_bound(n as int, d as int);
                assert(q as int * d as int == d as int * q as int) by (nonlinear_arith);
                assert(q as int * d as int == n as int - (n as int % d as int));
            }
            let m: i128 = n - q * d;
            Scalar { micros: m as i64 }
        } else {
            self
        }
    }

    /// The greater of the two.
    pub fn max(self, rhs: Scalar) -> (r: Scalar)
        ensures
            r == self.spec_max(rhs),
    {
        if self.micros >= rhs.micros {
            self
        } else {
            rhs
        }
    }

    /// Halves, rounding down to a millionth.
    pub fn half(self) -> (r: Scalar)
        ensures
            r == self.spec_half(),
    {
        let q = div_floor(self.micros as i128, 2);
        Scalar { micros: q as i64 }
    }

    /// Holds `self` to the range from zero to one.
    pub fn unit_clamp(self) -> (r: Scalar)
        ensures
            r == self.spec_unit_clamp(),
    {
        if self.micros < 0 {
            Scalar { micros: 0 }
        } else if self.micros > MICROS_PER_UNIT {
            Scalar { micros: MICROS_PER_UNIT }
        } else {
            self
        }
    }
}

/// Moving by nothing stays, and moving by the whole way arrives, exactly.
pub proof fn lemma_lerp_ends(from: Scalar, to: Scalar)
    ensures
        from.spec_lerp(to, Scalar::spec_zero()) == from,
        from.spec_lerp(to, Scalar::spec_one()) == to,
{
    let span = to@ - from@;
    assert(span * 0 / 1_000_000 == 0) by (nonlinear_arith);
    assert(span * 1_000_000 / 1_000_000 == span) by (nonlinear_arith);
}

} // verus!
