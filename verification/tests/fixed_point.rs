use tabular_rl::fixed::{
    fx_abs, fx_add, fx_div, fx_divn, fx_mul, fx_neg, fx_sin, fx_cos, normalize, Fx, PI_BITS,
    SCALE, TWO_PI_BITS,
};
use tabular_rl::parse::{parse_fx, parse_u64, parse_usize};

fn fx(bits: i64) -> Fx {
    Fx { bits }
}

#[test]
fn add_and_sub_are_exact() {
    assert_eq!(fx_add(fx(250_000), fx(750_000)).bits, 1_000_000);
    assert_eq!(fx_add(fx(-250_000), fx(100_000)).bits, -150_000);
    assert_eq!(fx_neg(fx(42)).bits, -42);
}

#[test]
fn add_saturates_at_the_range_ends() {
    assert_eq!(fx_add(fx(i64::MAX), fx(1)).bits, i64::MAX);
    assert_eq!(fx_add(fx(i64::MIN), fx(-1)).bits, i64::MIN);
    assert_eq!(fx_neg(fx(i64::MIN)).bits, i64::MAX);
}

#[test]
fn mul_scales_and_truncates_toward_zero() {
    // 0.5 * 0.5 == 0.25
    assert_eq!(fx_mul(fx(500_000), fx(500_000)).bits, 250_000);
    // 1.5 * -2 == -3
    assert_eq!(fx_mul(fx(1_500_000), fx(-2_000_000)).bits, -3_000_000);
    // truncation toward zero on both signs
    assert_eq!(fx_mul(fx(1), fx(1)).bits, 0);
    assert_eq!(fx_mul(fx(-1), fx(1)).bits, 0);
}

#[test]
fn div_is_exact_on_even_quotients() {
    assert_eq!(fx_div(fx(3_000_000), fx(2_000_000)).bits, 1_500_000);
    assert_eq!(fx_div(fx(-1_000_000), fx(3_000_000)).bits, -333_333);
    assert_eq!(fx_divn(fx(9_000_000), 3).bits, 3_000_000);
}

#[test]
fn abs_is_the_magnitude() {
    assert_eq!(fx_abs(fx(-123)).bits, 123);
    assert_eq!(fx_abs(fx(123)).bits, 123);
}

#[test]
fn normalize_lands_in_the_half_open_interval() {
    let probes: [i64; 7] = [
        0,
        PI_BITS,
        -PI_BITS,
        10 * TWO_PI_BITS + 123,
        -10 * TWO_PI_BITS - 123,
        i64::MAX / 2,
        i64::MIN / 2,
    ];
    for &p in probes.iter() {
        let w = normalize(fx(p)).bits;
        assert!(-PI_BITS <= w && w < PI_BITS);
    }
    // pi itself wraps to -pi
    assert_eq!(normalize(fx(PI_BITS)).bits, -PI_BITS);
    assert_eq!(normalize(fx(0)).bits, 0);
}

#[test]
fn normalize_is_periodic_in_whole_turns() {
    let thetas: [i64; 4] = [0, 123_456, -987_654, PI_BITS - 1];
    for &t in thetas.iter() {
        for k in -3i64..4 {
            let shifted = t + k * TWO_PI_BITS;
            assert_eq!(normalize(fx(t)).bits, normalize(fx(shifted)).bits);
        }
    }
}

#[test]
fn sine_and_cosine_match_known_points() {
    // sin 0 == 0, cos 0 == 1 (approximation is exact at zero)
    assert_eq!(fx_sin(fx(0)).bits, 0);
    let c0 = fx_cos(fx(0)).bits;
    assert!((c0 - SCALE).abs() < 2_000);
    // sin(pi/2) close to 1
    let s_half_pi = fx_sin(fx(PI_BITS / 2)).bits;
    assert!((s_half_pi - SCALE).abs() < 2_000);
    // sin(pi/6) close to 0.5
    let s_sixth = fx_sin(fx(PI_BITS / 6)).bits;
    assert!((s_sixth - 500_000).abs() < 2_000);
    // odd symmetry
    assert_eq!(fx_sin(fx(300_000)).bits, -fx_sin(fx(-300_000)).bits);
    // always within [-1, 1]
    for p in (-7_000_000i64..7_000_000).step_by(137_111) {
        let s = fx_sin(fx(p)).bits;
        assert!(-SCALE <= s && s <= SCALE);
    }
}

#[test]
fn parse_u64_accepts_digit_strings_only() {
    assert_eq!(parse_u64("0"), Some(0));
    assert_eq!(parse_u64("123456"), Some(123_456));
    assert_eq!(parse_u64("18446744073709551615"), Some(u64::MAX));
    assert_eq!(parse_u64("18446744073709551616"), None);
    assert_eq!(parse_u64(""), None);
    assert_eq!(parse_u64("12a"), None);
    assert_eq!(parse_u64("-1"), None);
}

#[test]
fn parse_usize_matches_parse_u64_in_range() {
    assert_eq!(parse_usize("42"), Some(42));
    assert_eq!(parse_usize("x"), None);
}

#[test]
fn parse_fx_reads_decimals_to_millionths() {
    assert_eq!(parse_fx("0.5").map(|v| v.bits), Some(500_000));
    assert_eq!(parse_fx("-0.01").map(|v| v.bits), Some(-10_000));
    assert_eq!(parse_fx("1").map(|v| v.bits), Some(1_000_000));
    assert_eq!(parse_fx("-1").map(|v| v.bits), Some(-1_000_000));
    assert_eq!(parse_fx("9.80665").map(|v| v.bits), Some(9_806_650));
    assert_eq!(parse_fx("0.9").map(|v| v.bits), Some(900_000));
    // the seventh fraction digit is ignored, the grammar still checked
    assert_eq!(parse_fx("0.1234567").map(|v| v.bits), Some(123_456));
    assert_eq!(parse_fx("0.123456x"), None);
    assert_eq!(parse_fx(""), None);
    assert_eq!(parse_fx("."), None);
    assert_eq!(parse_fx("1."), None);
    assert_eq!(parse_fx(".5"), None);
    assert_eq!(parse_fx("1.2.3"), None);
    assert_eq!(parse_fx("--1"), None);
    assert_eq!(parse_fx("abc"), None);
}
