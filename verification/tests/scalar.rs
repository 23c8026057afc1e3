use spine::scalar::Scalar;
use spine::trig::sin_cos;

fn sc(x: f64) -> Scalar {
    Scalar::from_micros((x * 1_000_000.0).round() as i64)
}

#[test]
fn from_units_counts_millionths() {
    assert_eq!(Scalar::from_units(3).micros, 3_000_000);
    assert_eq!(Scalar::from_units(-2).micros, -2_000_000);
    assert_eq!(Scalar::zero().micros, 0);
    assert_eq!(Scalar::one().micros, 1_000_000);
}

#[test]
fn add_and_sub_are_exact() {
    assert_eq!(sc(1.5).add(sc(2.25)), sc(3.75));
    assert_eq!(sc(1.5).sub(sc(2.25)), sc(-0.75));
    assert_eq!(sc(1.5).neg(), sc(-1.5));
}

#[test]
fn add_saturates() {
    let max = Scalar::from_micros(i64::MAX);
    let min = Scalar::from_micros(i64::MIN);
    assert_eq!(max.add(Scalar::one()), max);
    assert_eq!(min.sub(Scalar::one()), min);
    assert_eq!(min.neg(), max);
}

#[test]
fn mul_rounds_down_to_a_millionth() {
    assert_eq!(sc(1.5).mul(sc(2.0)), sc(3.0));
    assert_eq!(sc(0.5).mul(sc(0.5)), sc(0.25));
    // 0.000001 * 0.5 = 0.0000005, which rounds down to 0
    assert_eq!(Scalar::from_micros(1).mul(sc(0.5)).micros, 0);
    // -0.000001 * 0.5 = -0.0000005, which rounds down to -0.000001
    assert_eq!(Scalar::from_micros(-1).mul(sc(0.5)).micros, -1);
    assert_eq!(sc(-3.0).mul(sc(2.0)), sc(-6.0));
}

#[test]
fn mul_saturates() {
    let max = Scalar::from_micros(i64::MAX);
    assert_eq!(max.mul(sc(2.0)), max);
    assert_eq!(max.mul(sc(-2.0)), Scalar::from_micros(i64::MIN));
}

#[test]
fn ratio_divides_and_guards_zero() {
    assert_eq!(sc(0.25).ratio(sc(0.5)), sc(0.5));
    assert_eq!(sc(1.0).ratio(sc(3.0)).micros, 333_333);
    assert_eq!(sc(-1.0).ratio(sc(3.0)).micros, -333_334);
    assert_eq!(sc(1.0).ratio(sc(-3.0)).micros, -333_334);
    assert_eq!(sc(1.0).ratio(Scalar::zero()), Scalar::zero());
}

#[test]
fn lerp_hits_both_ends_exactly() {
    let a = sc(-12.345678);
    let b = sc(98.7654);
    assert_eq!(a.lerp(b, Scalar::zero()), a);
    assert_eq!(a.lerp(b, Scalar::one()), b);
    assert_eq!(sc(0.0).lerp(sc(90.0), sc(0.5)), sc(45.0));
    let min = Scalar::from_micros(i64::MIN);
    let max = Scalar::from_micros(i64::MAX);
    assert_eq!(min.lerp(max, Scalar::one()), max);
    assert_eq!(max.lerp(min, Scalar::one()), min);
}

#[test]
fn wrap_reduces_into_the_period() {
    assert_eq!(sc(1.5).wrap(sc(1.0)), sc(0.5));
    assert_eq!(sc(1.0).wrap(sc(1.0)), sc(0.0));
    assert_eq!(sc(-0.25).wrap(sc(1.0)), sc(0.75));
    assert_eq!(sc(0.3).wrap(sc(1.0)), sc(0.3));
    assert_eq!(sc(1.5).wrap(Scalar::zero()), sc(1.5));
    assert_eq!(sc(1.5).wrap(sc(-1.0)), sc(1.5));
    let min = Scalar::from_micros(i64::MIN);
    let max = Scalar::from_micros(i64::MAX);
    assert_eq!(min.wrap(max).micros, i64::MAX - 1);
}

#[test]
fn max_half_and_unit_clamp() {
    assert_eq!(sc(1.0).max(sc(2.0)), sc(2.0));
    assert_eq!(sc(3.0).max(sc(2.0)), sc(3.0));
    assert_eq!(sc(3.0).half(), sc(1.5));
    assert_eq!(Scalar::from_micros(-3).half().micros, -2);
    assert_eq!(sc(-0.5).unit_clamp(), Scalar::zero());
    assert_eq!(sc(1.5).unit_clamp(), Scalar::one());
    assert_eq!(sc(0.25).unit_clamp(), sc(0.25));
}

#[test]
fn sine_and_cosine_are_exact_at_quarter_turns() {
    let cases = [
        (0.0, 0, 1_000_000),
        (90.0, 1_000_000, 0),
        (180.0, 0, -1_000_000),
        (270.0, -1_000_000, 0),
        (360.0, 0, 1_000_000),
        (-90.0, -1_000_000, 0),
        (-180.0, 0, -1_000_000),
        (720.0, 0, 1_000_000),
    ];
    for (angle, sin, cos) in cases {
        let (s, c) = sin_cos(sc(angle));
        assert_eq!((s.micros, c.micros), (sin, cos), "at {} degrees", angle);
    }
}

#[test]
fn sine_and_cosine_of_known_angles() {
    let (s, c) = sin_cos(sc(30.0));
    assert_eq!(s.micros, 500_000);
    assert!((c.micros - 866_025).abs() <= 1);
    let (s, c) = sin_cos(sc(45.0));
    assert!((s.micros - 707_107).abs() <= 1);
    assert!((c.micros - 707_107).abs() <= 1);
    let (s, c) = sin_cos(sc(60.0));
    assert!((s.micros - 866_025).abs() <= 1);
    assert_eq!(c.micros, 500_000);
}

#[test]
fn sine_and_cosine_follow_the_real_ones() {
    let mut angle = -720.0f64;
    while angle <= 720.0 {
        let (s, c) = sin_cos(sc(angle));
        let radians = angle.to_radians();
        assert!(
            (s.micros as f64 - radians.sin() * 1e6).abs() <= 2.0,
            "sine at {} degrees: {}",
            angle,
            s.micros
        );
        assert!(
            (c.micros as f64 - radians.cos() * 1e6).abs() <= 2.0,
            "cosine at {} degrees: {}",
            angle,
            c.micros
        );
        assert!(s.micros.abs() <= 1_000_000 && c.micros.abs() <= 1_000_000);
        angle += 0.37;
    }
}

#[test]
fn sine_and_cosine_take_every_angle() {
    let (s, c) = sin_cos(Scalar::from_micros(i64::MAX));
    assert!(s.micros.abs() <= 1_000_000 && c.micros.abs() <= 1_000_000);
    let (s, c) = sin_cos(Scalar::from_micros(i64::MIN));
    assert!(s.micros.abs() <= 1_000_000 && c.micros.abs() <= 1_000_000);
}
