//! State discretization: mapping a continuous scalar to a bounded bin index.
//!
//! Given boundaries `low < high` and a bin count `n >= 3`, the interval
//! `[low, high)` is cut into `n - 2` bins of equal real width, and the two
//! extreme indices `0` and `n - 1` are reserved for probes below `low` and at
//! or above `high`. The quotient is computed on the full product, so the
//! index is the exact mathematical floor with no intermediate rounding.

use crate::fixed::Fx;
use vstd::prelude::*;

verus! {

/// The bin index of probe `v`: `0` below `low`, `n - 1` at or above `high`,
/// and otherwise `1 + floor((v - low) * (n - 2) / (high - low))`.
pub open spec fn digitize_v(low: int, high: int, n: int, v: int) -> int {
    if v < low {
        0
    } else if v >= high {
        n - 1
    } else {
        1 + ((v - low) * (n - 2)) / (high - low)
    }
}

/// Every bin index is in `[0, n)`, and an in-range probe never reaches the
/// two saturated indices.
pub proof fn lemma_digitize_in_range(low: int, high: int, n: int, v: int)
    requires
        low < high,
        n >= 3,
    ensures
        0 <= digitize_v(low, high, n, v) < n,
        low <= v < high ==> 1 <= digitize_v(low, high, n, v) <= n - 2,
{
    if low <= v < high {
        let num = (v - low) * (n - 2);
        let den = high - low;
        assert(num >= 0 && num < den * (n - 2)) by (nonlinear_arith)
            requires
                0 <= v - low < den,
                n >= 3,
                num == (v - low) * (n - 2),
        ;
        vstd::arithmetic::div_mod::lemma_div_pos_is_pos(num, den);
        vstd::arithmetic::div_mod::lemma_multiply_divide_lt(num, den, n - 2);
    }
}

/// Builds the bin index of probe `v` for boundaries `low < high` and bin
/// count `n`. The bound on `n` keeps the intermediate product in range.
pub fn digitize(low: Fx, high: Fx, n: usize, v: Fx) -> (idx: usize)
    requires
        low@ < high@,
        3 <= n <= 100_000_000,
    ensures
        idx as int == digitize_v(low@, high@, n as int, v@),
        idx < n,
{
    proof {
        lemma_digitize_in_range(low@, high@, n as int, v@);
    }
    if v.bits < low.bits {
        0
    } else if v.bits >= high.bits {
        n - 1
    } else {
        let diff: i128 = v.bits as i128 - low.bits as i128;
        let den: i128 = high.bits as i128 - low.bits as i128;
        proof {
            assert(diff * ((n - 2) as int) < i128::MAX as int) by (nonlinear_arith)
                requires
                    0 <= diff <= 0x1_0000_0000_0000_0000i128 as int,
                    0 <= (n - 2) as int <= 100_000_000int,
            ;
        }
        let num: i128 = diff * ((n - 2) as i128);
        let q: i128 = num.checked_div(den).unwrap();
        1 + (q as usize)
    }
}

/// Law: a probe that sits exactly on an interior bin boundary — the `j`-th
/// multiple of the real bin width above `low` — falls into the upper of the
/// two bins it separates.
pub proof fn lemma_digitize_boundary(low: int, high: int, n: int, v: int, j: int)
    requires
        low < high,
        n >= 3,
        0 <= j < n - 2,
        (v - low) * (n - 2) == j * (high - low),
    ensures
        low <= v < high,
        digitize_v(low, high, n, v) == j + 1,
{
    let den = high - low;
    assert(0 <= j * den && j * den < (n - 2) * den) by (nonlinear_arith)
        requires
            0 <= j < n - 2,
            den > 0,
    ;
    assert(0 <= v - low) by (nonlinear_arith)
        requires
            (v - low) * (n - 2) == j * den,
            0 <= j * den,
            n >= 3,
    ;
    assert(v - low < den) by (nonlinear_arith)
        requires
            (v - low) * (n - 2) == j * den,
            j * den < (n - 2) * den,
            n >= 3,
    ;
    vstd::arithmetic::div_mod::lemma_div_by_multiple(j, den);
    assert(j * den == den * j) by (nonlinear_arith);
}

/// A digit below `aa` combined with a digit below `bb` by `a * bb + b`
/// stays below `aa * bb`: the mixed-radix encoding of state indices never
/// collides or overflows its range.
pub proof fn lemma_mixed_radix(a: int, aa: int, b: int, bb: int)
    requires
        0 <= a < aa,
        0 <= b < bb,
    ensures
        0 <= a * bb + b < aa * bb,
{
    assert(a * bb + b < aa * bb) by (nonlinear_arith)
        requires
            0 <= a < aa,
            0 <= b < bb,
    ;
    assert(0 <= a * bb) by (nonlinear_arith)
        requires
            0 <= a,
            0 <= bb,
    ;
}

/// Law: the bin index is monotone — a larger probe never lands in a lower
/// bin.
pub proof fn lemma_digitize_monotonic(low: int, high: int, n: int, v1: int, v2: int)
    requires
        low < high,
        n >= 3,
        v1 <= v2,
    ensures
        digitize_v(low, high, n, v1) <= digitize_v(low, high, n, v2),
{
    lemma_digitize_in_range(low, high, n, v1);
    lemma_digitize_in_range(low, high, n, v2);
    if low <= v1 && v2 < high {
        let num1 = (v1 - low) * (n - 2);
        let num2 = (v2 - low) * (n - 2);
        assert(num1 <= num2) by (nonlinear_arith)
            requires
                v1 - low <= v2 - low,
                0 <= v1 - low,
                n >= 3,
                num1 == (v1 - low) * (n - 2),
                num2 == (v2 - low) * (n - 2),
        ;
        vstd::arithmetic::div_mod::lemma_div_is_ordered(num1, num2, high - low);
    }
}

} // verus!
