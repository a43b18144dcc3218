use engine::fixed::{clamp_to_i64, Fixed, SCALE};
use engine::logistic::{compute_logistic, exp_neg_fine};
use engine::text::{push_decimal, push_digits, push_fixed, push_padded};

fn fx(x: f64) -> Fixed {
    Fixed::from_micros((x * 1_000_000.0).round() as i64)
}

#[test]
fn fixed_arithmetic_rounds_toward_zero() {
    assert_eq!(SCALE, 1_000_000);
    assert_eq!(Fixed::one().raw, 1_000_000);
    assert_eq!(Fixed::zero().raw, 0);
    assert_eq!(Fixed::from_int(-3).raw, -3_000_000);
    assert_eq!(Fixed::from_ratio(1, 3).raw, 333_333);
    assert_eq!(Fixed::from_ratio(-1, 3).raw, -333_333);
    assert_eq!(Fixed::from_ratio(2, -3).raw, -666_666);
    assert_eq!(fx(1.5).sat_mul(fx(-2.5)), fx(-3.75));
    assert_eq!(Fixed::from_micros(1).sat_mul(Fixed::from_micros(999_999)).raw, 0);
    assert_eq!(Fixed::from_micros(-1).sat_mul(Fixed::from_micros(999_999)).raw, 0);
    assert_eq!(fx(7.0).sat_div(fx(2.0)), fx(3.5));
    assert_eq!(fx(-7.0).sat_div(fx(-2.0)), fx(3.5));
    assert_eq!(fx(1.0).sat_div(fx(-3.0)).raw, -333_333);
    assert_eq!(fx(2.0).sat_add(fx(0.5)), fx(2.5));
    assert_eq!(fx(2.0).sat_sub(fx(2.5)), fx(-0.5));
    assert_eq!(fx(-2.0).sat_abs(), fx(2.0));
    assert_eq!(fx(2.0).sat_neg(), fx(-2.0));
    assert_eq!(fx(2.0).min(fx(3.0)), fx(2.0));
    assert_eq!(fx(2.0).max(fx(3.0)), fx(3.0));
    assert_eq!(fx(5.0).clamp(fx(-1.0), fx(1.0)), fx(1.0));
    assert_eq!(fx(-5.0).clamp(fx(-1.0), fx(1.0)), fx(-1.0));
    assert_eq!(fx(0.25).clamp(fx(-1.0), fx(1.0)), fx(0.25));
}

#[test]
fn fixed_arithmetic_saturates_and_never_fails() {
    let max = Fixed::from_micros(i64::MAX);
    let min = Fixed::from_micros(i64::MIN);
    assert_eq!(max.sat_add(Fixed::one()), max);
    assert_eq!(min.sat_sub(Fixed::one()), min);
    assert_eq!(min.sat_neg(), max);
    assert_eq!(min.sat_abs(), max);
    assert_eq!(max.sat_mul(fx(2.0)), max);
    assert_eq!(max.sat_mul(fx(-2.0)), min);
    assert_eq!(min.sat_mul(min), max);
    assert_eq!(max.sat_div(fx(0.5)), max);
    assert_eq!(Fixed::from_int(i64::MAX), max);
    assert_eq!(Fixed::from_int(i64::MIN), min);
    assert_eq!(fx(1.0).sat_div(Fixed::zero()), max);
    assert_eq!(fx(-1.0).sat_div(Fixed::zero()), min);
    assert_eq!(Fixed::zero().sat_div(Fixed::zero()), Fixed::zero());
    assert_eq!(Fixed::from_ratio(5, 0), max);
    assert_eq!(clamp_to_i64(i128::MAX), i64::MAX);
    assert_eq!(clamp_to_i64(i128::MIN), i64::MIN);
    assert_eq!(clamp_to_i64(-12), -12);
}

#[test]
fn logistic_follows_the_curve() {
    assert_eq!(compute_logistic(Fixed::zero()).raw, 500_000);
    let mut z = -20.0;
    let mut last = 0;
    while z <= 20.0 {
        let got = compute_logistic(fx(z)).raw;
        let want = 1_000_000.0 / (1.0 + (-z).exp());
        assert!((got as f64 - want).abs() <= 1.5, "z = {}: {} against {}", z, got, want);
        assert!(got >= last, "z = {}", z);
        assert_eq!(got + compute_logistic(fx(-z)).raw, 1_000_000);
        last = got;
        z += 0.0625;
    }
    let mut last = 0;
    let mut raw = -20_000_000;
    while raw <= 20_000_000 {
        let got = compute_logistic(Fixed::from_micros(raw)).raw;
        assert!(got >= last, "raw = {}", raw);
        last = got;
        raw += 997;
    }
    let mut last = 0;
    for raw in -3_000..3_000 {
        let got = compute_logistic(Fixed::from_micros(raw * 231 + raw)).raw;
        assert!(got >= last, "raw = {}", raw);
        last = got;
    }
    assert_eq!(compute_logistic(fx(2.21)).raw, 901_143);
    assert_eq!(compute_logistic(fx(40.0)).raw, 1_000_000);
    assert_eq!(compute_logistic(Fixed::from_micros(i64::MAX)).raw, 1_000_000);
    assert_eq!(compute_logistic(Fixed::from_micros(i64::MIN)).raw, 0);
    assert_eq!(compute_logistic(Fixed::from_micros(i64::MIN + 1)).raw, 0);
}

#[test]
fn exponential_follows_the_curve() {
    assert_eq!(exp_neg_fine(0), 1_000_000_000_000_000_000);
    assert_eq!(exp_neg_fine(40_000_000), 0);
    assert_eq!(exp_neg_fine(i64::MAX), 0);
    for t in [1i64, 500_000, 693_147, 693_148, 1_000_000, 2_210_000, 10_000_000, 27_000_000, 39_999_999] {
        let got = exp_neg_fine(t) as f64 / 1e18;
        let want = (-(t as f64) / 1e6).exp();
        assert!((got - want).abs() <= 1e-10, "t = {}: {} against {}", t, got, want);
    }
    let mut last = exp_neg_fine(0);
    let mut t = 0;
    while t < 41_000_000 {
        let got = exp_neg_fine(t);
        assert!(got <= last, "t = {}", t);
        last = got;
        t += 4_099;
    }
}

#[test]
fn numbers_are_written_in_decimal() {
    let mut out = String::from("n=");
    push_decimal(&mut out, 0);
    out.push(' ');
    push_decimal(&mut out, -45);
    out.push(' ');
    push_decimal(&mut out, i64::MAX);
    out.push(' ');
    push_digits(&mut out, 1_000);
    out.push(' ');
    push_padded(&mut out, 1_234, 6);
    out.push(' ');
    push_padded(&mut out, 1_234, 2);
    out.push(' ');
    push_padded(&mut out, 7, 0);
    assert_eq!(out, "n=0 -45 9223372036854775807 1000 001234 34 ");

    let text = |x: Fixed| {
        let mut s = String::new();
        push_fixed(&mut s, x);
        s
    };
    assert_eq!(text(fx(22.0)), "22.000000");
    assert_eq!(text(fx(-0.5)), "-0.500000");
    assert_eq!(text(Fixed::from_micros(1)), "0.000001");
    assert_eq!(text(Fixed::zero()), "0.000000");
    assert_eq!(text(Fixed::from_micros(i64::MIN)), "-9223372036854.775808");
    assert_eq!(text(Fixed::from_micros(i64::MAX)), "9223372036854.775807");
}
