use fixed::types::extra::U117;
use fixed::FixedI128;
use mandelbrot::fixed_real::FixedReal;
use mandelbrot::fixed_real::HALF_BITS;
use mandelbrot::fixed_real::ONE_BITS;

type Fixed117 = FixedI128<U117>;

fn fx(value: f64) -> FixedReal {
    FixedReal::from_bits(Fixed117::from_num(value).to_bits())
}

#[test]
fn constants_are_powers_of_two() {
    assert_eq!(ONE_BITS, 1i128 << 117);
    assert_eq!(HALF_BITS, 1i128 << 116);
    assert_eq!(ONE_BITS, Fixed117::from_num(1).to_bits());
    assert_eq!(HALF_BITS, Fixed117::from_num(0.5f64).to_bits());
}

#[test]
fn bits_round_trip() {
    let patterns: [i128; 5] = [0, 1, -1, i128::MAX, i128::MIN];
    for bits in patterns {
        assert_eq!(FixedReal::from_bits(bits).to_bits(), bits);
        assert_eq!(FixedReal::from_bits(bits).bits, bits);
    }
}

#[test]
fn from_int_covers_the_range() {
    assert_eq!(FixedReal::from_int(0), Some(FixedReal::from_bits(0)));
    assert_eq!(FixedReal::from_int(3), Some(FixedReal::from_bits(3 * ONE_BITS)));
    assert_eq!(FixedReal::from_int(-7), Some(FixedReal::from_bits(-7 * ONE_BITS)));
    assert_eq!(FixedReal::from_int(1023), Some(FixedReal::from_bits(1023 * ONE_BITS)));
    assert_eq!(FixedReal::from_int(-1024), Some(FixedReal::from_bits(i128::MIN)));
    assert_eq!(FixedReal::from_int(1024), None);
    assert_eq!(FixedReal::from_int(-1025), None);
    assert_eq!(FixedReal::from_int(i32::MAX), None);
    assert_eq!(FixedReal::from_int(i32::MIN), None);
}

#[test]
fn from_halves_covers_the_range() {
    assert_eq!(FixedReal::from_halves(3), Some(fx(1.5)));
    assert_eq!(FixedReal::from_halves(-1), Some(fx(-0.5)));
    assert_eq!(FixedReal::from_halves(4), FixedReal::from_int(2));
    assert_eq!(FixedReal::from_halves(2047), Some(fx(1023.5)));
    assert_eq!(FixedReal::from_halves(-2048), Some(FixedReal::from_bits(i128::MIN)));
    assert_eq!(FixedReal::from_halves(2048), None);
    assert_eq!(FixedReal::from_halves(-2049), None);
    assert_eq!(FixedReal::from_halves(i64::MAX), None);
    assert_eq!(FixedReal::from_halves(i64::MIN), None);
}

#[test]
fn checked_add_is_exact_or_none() {
    assert_eq!(fx(1.5).checked_add(fx(2.25)), Some(fx(3.75)));
    assert_eq!(fx(-1.5).checked_add(fx(0.25)), Some(fx(-1.25)));
    assert_eq!(
        FixedReal::from_bits(i128::MAX - 1).checked_add(FixedReal::from_bits(1)),
        Some(FixedReal::from_bits(i128::MAX))
    );
    assert_eq!(FixedReal::from_bits(i128::MAX).checked_add(FixedReal::from_bits(1)), None);
    assert_eq!(FixedReal::from_bits(i128::MIN).checked_add(FixedReal::from_bits(-1)), None);
    assert_eq!(fx(1000.0).checked_add(fx(24.0)), None);
}

#[test]
fn checked_sub_is_exact_or_none() {
    assert_eq!(fx(1.5).checked_sub(fx(2.25)), Some(fx(-0.75)));
    assert_eq!(fx(5.0).checked_sub(fx(5.0)), Some(fx(0.0)));
    assert_eq!(
        FixedReal::from_bits(i128::MIN + 1).checked_sub(FixedReal::from_bits(1)),
        Some(FixedReal::from_bits(i128::MIN))
    );
    assert_eq!(FixedReal::from_bits(i128::MIN).checked_sub(FixedReal::from_bits(1)), None);
    assert_eq!(fx(0.0).checked_sub(FixedReal::from_bits(i128::MIN)), None);
    assert_eq!(fx(-1000.0).checked_sub(fx(25.0)), None);
}

#[test]
fn checked_mul_is_exact_on_short_fractions() {
    assert_eq!(fx(1.5).checked_mul(fx(2.5)), Some(fx(3.75)));
    assert_eq!(fx(-1.5).checked_mul(fx(2.5)), Some(fx(-3.75)));
    assert_eq!(fx(-1.5).checked_mul(fx(-2.5)), Some(fx(3.75)));
    assert_eq!(fx(0.0).checked_mul(fx(731.0)), Some(fx(0.0)));
    assert_eq!(fx(1.0).checked_mul(fx(-0.3)), Some(fx(-0.3)));
    assert_eq!(fx(2.0).checked_mul(fx(0.3)), Some(FixedReal::from_bits(2 * fx(0.3).bits)));
}

#[test]
fn checked_mul_rounds_towards_minus_infinity() {
    let half: FixedReal = fx(0.5);
    assert_eq!(FixedReal::from_bits(1).checked_mul(half), Some(FixedReal::from_bits(0)));
    assert_eq!(FixedReal::from_bits(3).checked_mul(half), Some(FixedReal::from_bits(1)));
    assert_eq!(FixedReal::from_bits(-1).checked_mul(half), Some(FixedReal::from_bits(-1)));
    assert_eq!(FixedReal::from_bits(-3).checked_mul(half), Some(FixedReal::from_bits(-2)));
    assert_eq!(
        FixedReal::from_bits(-1).checked_mul(FixedReal::from_bits(1)),
        Some(FixedReal::from_bits(-1))
    );
    assert_eq!(
        FixedReal::from_bits(1).checked_mul(FixedReal::from_bits(1)),
        Some(FixedReal::from_bits(0))
    );
}

#[test]
fn checked_mul_reports_overflow() {
    assert_eq!(fx(32.0).checked_mul(fx(32.0)), None);
    assert_eq!(fx(-32.0).checked_mul(fx(-32.0)), None);
    assert_eq!(fx(-32.0).checked_mul(fx(32.0)), Some(FixedReal::from_bits(i128::MIN)));
    assert_eq!(fx(512.0).checked_mul(fx(1.999)).is_some(), true);
    assert_eq!(fx(512.0).checked_mul(fx(2.0)), None);
    assert_eq!(FixedReal::from_bits(i128::MAX).checked_mul(FixedReal::from_bits(i128::MAX)), None);
    assert_eq!(FixedReal::from_bits(i128::MIN).checked_mul(FixedReal::from_bits(i128::MIN)), None);
    assert_eq!(
        FixedReal::from_bits(i128::MAX).checked_mul(fx(1.0)),
        Some(FixedReal::from_bits(i128::MAX))
    );
}

#[test]
fn checked_mul_agrees_with_the_fixed_point_crate() {
    let samples: [f64; 9] =
        [0.0, 1.0, -1.0, 0.95, 1.05, -0.20710786709396773, 1.12275706363259748, 31.75, -700.125];
    for a in samples {
        for b in samples {
            let expected: Option<i128> =
                Fixed117::from_num(a).checked_mul(Fixed117::from_num(b)).map(|v| v.to_bits());
            let got: Option<i128> = fx(a).checked_mul(fx(b)).map(|v| v.to_bits());
            assert_eq!(got, expected);
        }
    }
}

#[test]
fn checked_mul_int_is_exact_or_none() {
    assert_eq!(fx(1.5).checked_mul_int(2), Some(fx(3.0)));
    assert_eq!(fx(1.5).checked_mul_int(-3), Some(fx(-4.5)));
    assert_eq!(fx(0.3).checked_mul_int(0), Some(fx(0.0)));
    assert_eq!(fx(-0.3).checked_mul_int(1), Some(fx(-0.3)));
    assert_eq!(FixedReal::from_bits(7).checked_mul_int(3), Some(FixedReal::from_bits(21)));
    assert_eq!(fx(512.0).checked_mul_int(2), None);
    assert_eq!(fx(-512.0).checked_mul_int(2), Some(FixedReal::from_bits(i128::MIN)));
    assert_eq!(fx(-512.0).checked_mul_int(-2), None);
    assert_eq!(FixedReal::from_bits(i128::MIN).checked_mul_int(-1), None);
    assert_eq!(FixedReal::from_bits(2).checked_mul_int(i128::MAX), None);
    assert_eq!(
        FixedReal::from_bits(1).checked_mul_int(i128::MAX),
        Some(FixedReal::from_bits(i128::MAX))
    );
}

#[test]
fn checked_abs_is_the_magnitude() {
    assert_eq!(fx(-5.0).checked_abs(), Some(fx(5.0)));
    assert_eq!(fx(5.0).checked_abs(), Some(fx(5.0)));
    assert_eq!(fx(0.0).checked_abs(), Some(fx(0.0)));
    assert_eq!(FixedReal::from_bits(-1).checked_abs(), Some(FixedReal::from_bits(1)));
    assert_eq!(
        FixedReal::from_bits(i128::MIN + 1).checked_abs(),
        Some(FixedReal::from_bits(i128::MAX))
    );
    assert_eq!(FixedReal::from_bits(i128::MIN).checked_abs(), None);
}

#[test]
fn comparisons_follow_the_value() {
    let low: FixedReal = fx(-2.5);
    let high: FixedReal = fx(4.0);
    assert!(low.lt(high));
    assert!(low.le(high));
    assert!(!low.gt(high));
    assert!(!low.ge(high));
    assert!(high.gt(low));
    assert!(high.ge(low));
    assert!(!high.lt(low));
    assert!(!high.le(low));
    assert!(low.le(low));
    assert!(low.ge(low));
    assert!(!low.lt(low));
    assert!(!low.gt(low));
    assert!(FixedReal::from_bits(i128::MIN).lt(FixedReal::from_bits(i128::MAX)));
}

#[test]
fn resolution_is_far_below_ten_to_the_minus_eighteen() {
    let tiny: FixedReal = fx(1e-18);
    assert!(tiny.gt(FixedReal::from_bits(0)));
    assert!(tiny.bits > 100_000_000_000_000_000);
    let product: FixedReal = tiny.checked_mul(fx(0.95)).unwrap();
    assert!(product.gt(FixedReal::from_bits(0)));
    assert!(product.lt(tiny));
    let moved: FixedReal = fx(1.0).checked_add(tiny).unwrap();
    assert!(moved.gt(fx(1.0)));
}
