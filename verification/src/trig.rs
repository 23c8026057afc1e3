//! Sine and cosine of an angle in degrees, in fixed-point arithmetic.
//!
//! The angle is reduced to a quarter turn and then to at most 45 degrees, where
//! a short power series in billionths is exact to well under a millionth. At
//! every multiple of 90 degrees the results are exactly 0, 1 or -1.

use vstd::prelude::*;
use vstd::arithmetic::div_mod::lemma_mod_bound;
use crate::scalar::Scalar;

verus! {

/// A full turn in millionths of a degree.
pub const FULL_TURN: i64 = 360_000_000;

/// A quarter turn in millionths of a degree.
pub const QUARTER_TURN: i64 = 90_000_000;

/// Half a quarter turn in millionths of a degree.
pub const EIGHTH_TURN: i64 = 45_000_000;

/// One unit in billionths, the precision of the series.
pub const NANOS_PER_UNIT: i64 = 1_000_000_000;

/// The radians of `r` millionths of a degree, in billionths.
pub open spec fn radians_nanos(r: int) -> int {
    r * 17_453_292_520 / 1_000_000_000
}

/// `a * b` in billionths, for `a` and `b` in billionths.
pub open spec fn nano_mul(a: int, b: int) -> int {
    a * b / 1_000_000_000
}

/// Billionths rounded to the nearest millionth.
pub open spec fn round_to_micros(n: int) -> int {
    (n + 500) / 1000
}

/// The sine of `r` millionths of a degree in millionths, for `r` up to 45 degrees:
/// `x - x^3/3! + x^5/5! - x^7/7!`, in Horner form.
pub open spec fn sin_series(r: int) -> int {
    let x = radians_nanos(r);
    let x2 = nano_mul(x, x);
    let t3 = 1_000_000_000 - x2 / 42;
    let t2 = 1_000_000_000 - nano_mul(x2, t3) / 20;
    let t1 = 1_000_000_000 - nano_mul(x2, t2) / 6;
    round_to_micros(nano_mul(x, t1))
}

/// The cosine of `r` millionths of a degree in millionths, for `r` up to 45 degrees:
/// `1 - x^2/2! + x^4/4! - x^6/6! + x^8/8!`, in Horner form.
pub open spec fn cos_series(r: int) -> int {
    let x = radians_nanos(r);
    let x2 = nano_mul(x, x);
    let u4 = 1_000_000_000 - x2 / 56;
    let u3 = 1_000_000_000 - nano_mul(x2, u4) / 30;
    let u2 = 1_000_000_000 - nano_mul(x2, u3) / 12;
    let u1 = 1_000_000_000 - nano_mul(x2, u2) / 2;
    round_to_micros(u1)
}

/// The sine of `r` millionths of a degree in millionths, for `r` within a quarter turn.
pub open spec fn quarter_sin(r: int) -> int {
    if r <= 45_000_000 {
        sin_series(r)
    } else {
        cos_series(90_000_000 - r)
    }
}

/// The sine of an angle in degrees.
pub open spec fn spec_sin(angle: Scalar) -> Scalar {
    let a = angle@ % 360_000_000;
    let q = a / 90_000_000;
    let r = a % 90_000_000;
    let micros = if q == 0 {
        quarter_sin(r)
    } else if q == 1 {
        quarter_sin(90_000_000 - r)
    } else if q == 2 {
        -quarter_sin(r)
    } else {
        -quarter_sin(90_000_000 - r)
    };
    Scalar { micros: micros as i64 }
}

/// The cosine of an angle in degrees.
pub open spec fn spec_cos(angle: Scalar) -> Scalar {
    let a = angle@ % 360_000_000;
    let q = a / 90_000_000;
    let r = a % 90_000_000;
    let micros = if q == 0 {
        quarter_sin(90_000_000 - r)
    } else if q == 1 {
        -quarter_sin(r)
    } else if q == 2 {
        -quarter_sin(90_000_000 - r)
    } else {
        quarter_sin(r)
    };
    Scalar { micros: micros as i64 }
}

proof fn lemma_nano_mul_bound(a: int, b: int)
    requires
        0 <= a <= 1_000_000_000,
        0 <= b <= 1_000_000_000,
    ensures
        0 <= a * b <= 1_000_000_000_000_000_000,
        0 <= nano_mul(a, b) <= a,
        nano_mul(a, b) <= b,
{
    assert(0 <= a * b <= 1_000_000_000 * a && a * b <= 1_000_000_000 * b) by (nonlinear_arith)
        requires
            0 <= a <= 1_000_000_000,
            0 <= b <= 1_000_000_000,
    ;
}

proof fn lemma_radians_bound(r: int)
    requires
        0 <= r <= 45_000_000,
    ensures
        0 <= radians_nanos(r) <= 785_398_164,
        r == 0 ==> radians_nanos(r) == 0,
{
}

/// The series stay between zero and one on their range.
pub proof fn lemma_series_range(r: int)
    requires
        0 <= r <= 45_000_000,
    ensures
        0 <= sin_series(r) <= 1_000_000,
        0 <= cos_series(r) <= 1_000_000,
        sin_series(0) == 0,
        cos_series(0) == 1_000_000,
{
    lemma_radians_bound(r);
    let x = radians_nanos(r);
    lemma_nano_mul_bound(x, x);
    let x2 = nano_mul(x, x);
    let t3 = 1_000_000_000 - x2 / 42;
    lemma_nano_mul_bound(x2, t3);
    let t2 = 1_000_000_000 - nano_mul(x2, t3) / 20;
    lemma_nano_mul_bound(x2, t2);
    let t1 = 1_000_000_000 - nano_mul(x2, t2) / 6;
    lemma_nano_mul_bound(x, t1);
    let u4 = 1_000_000_000 - x2 / 56;
    lemma_nano_mul_bound(x2, u4);
    let u3 = 1_000_000_000 - nano_mul(x2, u4) / 30;
    lemma_nano_mul_bound(x2, u3);
    let u2 = 1_000_000_000 - nano_mul(x2, u3) / 12;
    lemma_nano_mul_bound(x2, u2);
    lemma_radians_bound(0);
    lemma_nano_mul_bound(0, 0);
    lemma_nano_mul_bound(0, 1_000_000_000);
}

/// The sine of a quarter turn's part lies between zero and one, and is exact at both ends.
pub proof fn lemma_quarter_sin_range(r: int)
    requires
        0 <= r <= 90_000_000,
    ensures
        0 <= quarter_sin(r) <= 1_000_000,
        quarter_sin(0) == 0,
        quarter_sin(90_000_000) == 1_000_000,
{
    if r <= 45_000_000 {
        lemma_series_range(r);
    } else {
        lemma_series_range(90_000_000 - r);
    }
    lemma_series_range(0);
}

/// Sine and cosine never leave the range from minus one to one.
pub proof fn lemma_sin_cos_range(angle: Scalar)
    ensures
        -1_000_000 <= spec_sin(angle)@ <= 1_000_000,
        -1_000_000 <= spec_cos(angle)@ <= 1_000_000,
{
    let a = angle@ % 360_000_000;
    let r = a % 90_000_000;
    lemma_quarter_sin_range(r);
    lemma_quarter_sin_range(90_000_000 - r);
}

/// At every whole number of quarter turns, sine and cosine are exactly 0, 1 or -1.
pub proof fn lemma_quarter_turns(angle: Scalar)
    requires
        angle@ % 90_000_000 == 0,
    ensures
        angle@ % 360_000_000 == 0 ==> spec_sin(angle)@ == 0 && spec_cos(angle)@ == 1_000_000,
        angle@ % 360_000_000 == 90_000_000 ==> spec_sin(angle)@ == 1_000_000 && spec_cos(angle)@
            == 0,
        angle@ % 360_000_000 == 180_000_000 ==> spec_sin(angle)@ == 0 && spec_cos(angle)@
            == -1_000_000,
        angle@ % 360_000_000 == 270_000_000 ==> spec_sin(angle)@ == -1_000_000 && spec_cos(
            angle,
        )@ == 0,
{
    lemma_quarter_sin_range(0);
}

fn nano_product(a: i64, b: i64) -> (p: i64)
    requires
        0 <= a <= 1_000_000_000,
        0 <= b <= 1_000_000_000,
    ensures
        p == nano_mul(a as int, b as int),
        0 <= p <= a,
        p <= b,
{
    proof {
        lemma_nano_mul_bound(a as int, b as int);
    }
    a * b / NANOS_PER_UNIT
}

fn radians(r: i64) -> (x: i64)
    requires
        0 <= r <= 45_000_000,
    ensures
        x == radians_nanos(r as int),
        0 <= x <= 785_398_164,
{
    proof {
        lemma_radians_bound(r as int);
    }
    ((r as i128) * 17_453_292_520 / 1_000_000_000) as i64
}

fn sin_small(r: i64) -> (s: i64)
    requires
        0 <= r <= 45_000_000,
    ensures
        s == sin_series(r as int),
        0 <= s <= 1_000_000,
{
    proof {
        lemma_series_range(r as int);
    }
    let x = radians(r);
    let x2 = nano_product(x, x);
    let t3: i64 = NANOS_PER_UNIT - x2 / 42;
    let t2: i64 = NANOS_PER_UNIT - nano_product(x2, t3) / 20;
    let t1: i64 = NANOS_PER_UNIT - nano_product(x2, t2) / 6;
    (nano_product(x, t1) + 500) / 1000
}

fn cos_small(r: i64) -> (c: i64)
    requires
        0 <= r <= 45_000_000,
    ensures
        c == cos_series(r as int),
        0 <= c <= 1_000_000,
{
    proof {
        lemma_series_range(r as int);
    }
    let x = radians(r);
    let x2 = nano_product(x, x);
    let u4: i64 = NANOS_PER_UNIT - x2 / 56;
    let u3: i64 = NANOS_PER_UNIT - nano_product(x2, u4) / 30;
    let u2: i64 = NANOS_PER_UNIT - nano_product(x2, u3) / 12;
    let u1: i64 = NANOS_PER_UNIT - nano_product(x2, u2) / 2;
    (u1 + 500) / 1000
}

fn quarter_sine(r: i64) -> (s: i64)
    requires
        0 <= r <= 90_000_000,
    ensures
        s == quarter_sin(r as int),
        0 <= s <= 1_000_000,
{
    if r <= EIGHTH_TURN {
        sin_small(r)
    } else {
        cos_small(QUARTER_TURN - r)
    }
}

/// The sine and the cosine of an angle in degrees, in that order.
pub fn sin_cos(angle: Scalar) -> (r: (Scalar, Scalar))
    ensures
        r.0 == spec_sin(angle),
        r.1 == spec_cos(angle),
{
    let turn = angle.wrap(Scalar { micros: FULL_TURN });
    let a: i64 = turn.micros;
    proof {
        lemma_mod_bound(angle@, 360_000_000);
    }
    let q: i64 = a / QUARTER_TURN;
    let r: i64 = a % QUARTER_TURN;
    let s = quarter_sine(r);
    let c = quarter_sine(QUARTER_TURN - r);
    if q == 0 {
        (Scalar { micros: s }, Scalar { micros: c })
    } else if q == 1 {
        (Scalar { micros: c }, Scalar { micros: -s })
    } else if q == 2 {
        (Scalar { micros: -s }, Scalar { micros: -c })
    } else {
        (Scalar { micros: -c }, Scalar { micros: s })
    }
}

} // verus!
