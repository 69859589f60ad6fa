use tabular_rl::bins::digitize;
use tabular_rl::fixed::Fx;

fn fx(bits: i64) -> Fx {
    Fx { bits }
}

#[test]
fn probes_below_low_saturate_to_zero() {
    let low = fx(-2_000_000);
    let high = fx(2_000_000);
    assert_eq!(digitize(low, high, 6, fx(-2_000_001)), 0);
    assert_eq!(digitize(low, high, 6, fx(i64::MIN)), 0);
}

#[test]
fn probes_at_or_above_high_saturate_to_the_top_bin() {
    let low = fx(-2_000_000);
    let high = fx(2_000_000);
    assert_eq!(digitize(low, high, 6, fx(2_000_000)), 5);
    assert_eq!(digitize(low, high, 6, fx(i64::MAX)), 5);
}

#[test]
fn interior_probes_fall_into_equal_width_bins() {
    // [-2, 2) in 4 interior bins of width 1
    let low = fx(-2_000_000);
    let high = fx(2_000_000);
    assert_eq!(digitize(low, high, 6, fx(-2_000_000)), 1);
    assert_eq!(digitize(low, high, 6, fx(-1_500_000)), 1);
    assert_eq!(digitize(low, high, 6, fx(-500_000)), 2);
    assert_eq!(digitize(low, high, 6, fx(500_000)), 3);
    assert_eq!(digitize(low, high, 6, fx(1_999_999)), 4);
}

#[test]
fn a_probe_on_a_bin_boundary_takes_the_upper_bin() {
    let low = fx(0);
    let high = fx(4_000_000);
    // boundaries at 1, 2, 3: half-open bins mean the boundary goes up
    assert_eq!(digitize(low, high, 6, fx(1_000_000)), 2);
    assert_eq!(digitize(low, high, 6, fx(2_000_000)), 3);
    assert_eq!(digitize(low, high, 6, fx(3_000_000)), 4);
    // just below a boundary stays in the lower bin
    assert_eq!(digitize(low, high, 6, fx(999_999)), 1);
}

#[test]
fn the_bin_index_is_monotone_in_the_probe() {
    let low = fx(-1_000_000);
    let high = fx(1_000_000);
    let mut last: usize = 0;
    let mut v: i64 = -1_500_000;
    while v <= 1_500_000 {
        let idx = digitize(low, high, 9, fx(v));
        assert!(idx >= last);
        assert!(idx < 9);
        last = idx;
        v += 7_919;
    }
}
