//! Fixed-point scalar arithmetic.
//!
//! Every continuous quantity in this crate (rewards, learning rates, physical
//! state) is a fixed-point number: an `i64` count of millionths. Arithmetic
//! saturates at the `i64` range instead of wrapping or panicking, and every
//! operation is specified exactly over `int`, so the temporal-difference
//! updates and the integrator have deterministic, fully stated semantics.

use vstd::prelude::*;

verus! {

/// Number of fixed-point units that represent the value one.
pub const SCALE: i64 = 1_000_000;

/// The angle pi in fixed-point units (rounded to the nearest millionth).
pub const PI_BITS: i64 = 3_141_593;

/// Twice `PI_BITS`; the period used by angle normalization.
pub const TWO_PI_BITS: i64 = 6_283_186;

/// Half of `PI_BITS`, rounded down.
pub const HALF_PI_BITS: i64 = 1_570_796;

/// The value two in fixed-point units.
pub const TWO_BITS: i64 = 2_000_000;

/// The value four in fixed-point units.
pub const FOUR_BITS: i64 = 4_000_000;

/// 1/6 in fixed-point units, rounded to the nearest millionth.
pub const INV6_BITS: i64 = 166_667;

/// 1/20 in fixed-point units (exact).
pub const INV20_BITS: i64 = 50_000;

/// 1/42 in fixed-point units, rounded to the nearest millionth.
pub const INV42_BITS: i64 = 23_810;

/// A fixed-point number: `bits` millionths.
#[derive(Clone, Copy, PartialEq, Eq, Structural, Debug)]
pub struct Fx {
    pub bits: i64,
}

impl View for Fx {
    type V = int;

    open spec fn view(&self) -> int {
        self.bits as int
    }
}

/// The integer views of a sequence of fixed-point values.
pub open spec fn bits_of(s: Seq<Fx>) -> Seq<int> {
    s.map(|i: int, x: Fx| x@)
}

/// Saturation to the `i64` range, the range of every `Fx` value.
pub open spec fn sat64(x: int) -> int {
    if x > i64::MAX as int {
        i64::MAX as int
    } else if x < i64::MIN as int {
        i64::MIN as int
    } else {
        x
    }
}

/// Magnitude of an integer.
pub open spec fn abs_v(x: int) -> int {
    if x < 0 {
        -x
    } else {
        x
    }
}

/// Division truncated toward zero, as Rust's `/` computes it on machine
/// integers (Verus's `int` division rounds toward negative infinity instead).
pub open spec fn tdiv(x: int, d: int) -> int {
    if x == 0 {
        0
    } else if x > 0 && d > 0 {
        x / d
    } else if x < 0 && d < 0 {
        (x * -1) / (d * -1)
    } else if x < 0 {
        ((x * -1) / d) * -1
    } else {
        (x / (d * -1)) * -1
    }
}

/// Saturating fixed-point addition.
pub open spec fn fx_add_v(a: int, b: int) -> int {
    sat64(a + b)
}

/// Saturating fixed-point subtraction.
pub open spec fn fx_sub_v(a: int, b: int) -> int {
    sat64(a - b)
}

/// Saturating fixed-point negation.
pub open spec fn fx_neg_v(a: int) -> int {
    sat64(-a)
}

/// Saturating fixed-point magnitude.
pub open spec fn fx_abs_v(a: int) -> int {
    sat64(abs_v(a))
}

/// Saturating fixed-point multiplication: the full product scaled back down,
/// truncated toward zero.
pub open spec fn fx_mul_v(a: int, b: int) -> int {
    sat64(tdiv(a * b, SCALE as int))
}

/// Saturating fixed-point division.
pub open spec fn fx_div_v(a: int, b: int) -> int {
    sat64(tdiv(a * (SCALE as int), b))
}

/// Saturating division of a fixed-point value by a plain integer.
pub open spec fn fx_divn_v(a: int, n: int) -> int {
    sat64(tdiv(a, n))
}

/// Clamping to a closed interval.
pub open spec fn fx_clamp_v(a: int, lo: int, hi: int) -> int {
    if a < lo {
        lo
    } else if a > hi {
        hi
    } else {
        a
    }
}

/// Truncating division moves every value toward zero and never past it.
pub proof fn lemma_tdiv_bounds(x: int, d: int)
    requires
        d >= 1,
    ensures
        x >= 0 ==> 0 <= tdiv(x, d) <= x,
        x < 0 ==> x <= tdiv(x, d) <= 0,
{
    if x > 0 {
        vstd::arithmetic::div_mod::lemma_div_pos_is_pos(x, d);
        vstd::arithmetic::div_mod::lemma_div_nonincreasing(x, d);
    } else if x < 0 {
        vstd::arithmetic::div_mod::lemma_div_pos_is_pos(-x, d);
        vstd::arithmetic::div_mod::lemma_div_nonincreasing(-x, d);
    }
}

/// Truncating division never grows a value's magnitude.
pub proof fn lemma_tdiv_mag(x: int, d: int)
    requires
        d != 0,
    ensures
        abs_v(tdiv(x, d)) <= abs_v(x),
{
    if d >= 1 {
        lemma_tdiv_bounds(x, d);
    } else {
        if x > 0 {
            lemma_tdiv_bounds(x, -d);
        } else if x < 0 {
            lemma_tdiv_bounds(-x, -d);
        }
    }
}

/// Multiplying by the fixed-point one is the identity: the scaling divides
/// back out exactly.
pub proof fn lemma_fx_mul_one(m: int)
    requires
        i64::MIN as int <= m <= i64::MAX as int,
    ensures
        fx_mul_v(SCALE as int, m) == m,
{
    if m >= 0 {
        vstd::arithmetic::div_mod::lemma_div_by_multiple(m, SCALE as int);
        assert((SCALE as int) * m == m * (SCALE as int)) by (nonlinear_arith);
    } else {
        vstd::arithmetic::div_mod::lemma_div_by_multiple(-m, SCALE as int);
        assert(-((SCALE as int) * m) == (-m) * (SCALE as int)) by (nonlinear_arith);
    }
}

/// The square of a value of magnitude at most one stays in `[0, 1]`.
pub proof fn lemma_sq_unit(c: int)
    requires
        -(SCALE as int) <= c <= SCALE as int,
    ensures
        0 <= fx_mul_v(c, c) <= SCALE as int,
{
    assert(0 <= c * c <= (SCALE as int) * (SCALE as int)) by (nonlinear_arith)
        requires
            -(SCALE as int) <= c <= SCALE as int,
    ;
    lemma_tdiv_bounds(c * c, SCALE as int);
    lemma_tdiv_ordered(c * c, (SCALE as int) * (SCALE as int), SCALE as int);
    vstd::arithmetic::div_mod::lemma_div_by_multiple(SCALE as int, SCALE as int);
}

/// Scaling a nonnegative value by a factor of magnitude at most one never
/// grows it.
pub proof fn lemma_mul_frac_le(m: int, c: int)
    requires
        0 <= m <= i64::MAX as int,
        0 <= c <= SCALE as int,
    ensures
        0 <= fx_mul_v(m, c) <= m,
{
    assert(0 <= m * c <= m * (SCALE as int)) by (nonlinear_arith)
        requires
            0 <= m,
            0 <= c <= SCALE as int,
    ;
    lemma_tdiv_bounds(m * c, SCALE as int);
    lemma_tdiv_ordered(m * c, m * (SCALE as int), SCALE as int);
    vstd::arithmetic::div_mod::lemma_div_by_multiple(m, SCALE as int);
    assert(m * (SCALE as int) == (SCALE as int) * m) by (nonlinear_arith);
}

/// Truncating division by a positive divisor is monotone in the dividend.
pub proof fn lemma_tdiv_ordered(x: int, y: int, d: int)
    requires
        d >= 1,
        x <= y,
    ensures
        tdiv(x, d) <= tdiv(y, d),
{
    lemma_tdiv_bounds(x, d);
    lemma_tdiv_bounds(y, d);
    if x > 0 {
        vstd::arithmetic::div_mod::lemma_div_is_ordered(x, y, d);
    } else if y < 0 {
        vstd::arithmetic::div_mod::lemma_div_is_ordered(-y, -x, d);
    }
}

impl Fx {
    /// The fixed-point zero.
    pub fn zero() -> (r: Fx)
        ensures
            r@ == 0,
    {
        Fx { bits: 0 }
    }

    /// The fixed-point one.
    pub fn one() -> (r: Fx)
        ensures
            r@ == SCALE as int,
    {
        Fx { bits: SCALE }
    }

    /// The fixed-point representation of pi.
    pub fn pi() -> (r: Fx)
        ensures
            r@ == PI_BITS as int,
    {
        Fx { bits: PI_BITS }
    }

    /// Builds a value from a raw count of millionths.
    pub fn from_millionths(bits: i64) -> (r: Fx)
        ensures
            r@ == bits as int,
    {
        Fx { bits }
    }

    /// Builds the fixed-point representation of a whole number, saturating
    /// when it is out of range.
    pub fn from_units(n: i64) -> (r: Fx)
        ensures
            r@ == sat64(n * (SCALE as int)),
    {
        match n.checked_mul(SCALE) {
            Some(b) => Fx { bits: b },
            None => {
                if n > 0 {
                    Fx { bits: i64::MAX }
                } else {
                    Fx { bits: i64::MIN }
                }
            },
        }
    }
}

fn clamp_i128(x: i128) -> (r: i64)
    ensures
        r as int == sat64(x as int),
{
    if x > i64::MAX as i128 {
        i64::MAX
    } else if x < i64::MIN as i128 {
        i64::MIN
    } else {
        x as i64
    }
}

/// Truncating division on `i128`, restricted so that it cannot overflow.
fn tdiv_i128(x: i128, d: i128) -> (r: i128)
    requires
        d >= 1,
        x > i128::MIN as int,
    ensures
        r as int == tdiv(x as int, d as int),
{
    proof {
        lemma_tdiv_bounds(x as int, d as int);
    }
    x.checked_div(d).unwrap()
}

/// Saturating fixed-point addition.
pub fn fx_add(a: Fx, b: Fx) -> (r: Fx)
    ensures
        r@ == fx_add_v(a@, b@),
{
    let s: i128 = a.bits as i128 + b.bits as i128;
    Fx { bits: clamp_i128(s) }
}

/// Saturating fixed-point subtraction.
pub fn fx_sub(a: Fx, b: Fx) -> (r: Fx)
    ensures
        r@ == fx_sub_v(a@, b@),
{
    let s: i128 = a.bits as i128 - b.bits as i128;
    Fx { bits: clamp_i128(s) }
}

/// Saturating fixed-point negation.
pub fn fx_neg(a: Fx) -> (r: Fx)
    ensures
        r@ == fx_neg_v(a@),
{
    if a.bits == i64::MIN {
        Fx { bits: i64::MAX }
    } else {
        Fx { bits: -a.bits }
    }
}

/// Saturating fixed-point magnitude.
pub fn fx_abs(a: Fx) -> (r: Fx)
    ensures
        r@ == fx_abs_v(a@),
{
    if a.bits < 0 {
        fx_neg(a)
    } else {
        a
    }
}

/// Saturating fixed-point multiplication.
pub fn fx_mul(a: Fx, b: Fx) -> (r: Fx)
    ensures
        r@ == fx_mul_v(a@, b@),
{
    let aw: i128 = a.bits as i128;
    let bw: i128 = b.bits as i128;
    proof {
        assert(aw * bw <= i128::MAX as int && aw * bw > i128::MIN as int) by (nonlinear_arith)
            requires
                i64::MIN as int <= aw <= i64::MAX as int,
                i64::MIN as int <= bw <= i64::MAX as int,
        ;
    }
    let p: i128 = aw * bw;
    let q: i128 = tdiv_i128(p, SCALE as i128);
    Fx { bits: clamp_i128(q) }
}

/// Saturating fixed-point division.
pub fn fx_div(a: Fx, b: Fx) -> (r: Fx)
    requires
        b@ != 0,
    ensures
        r@ == fx_div_v(a@, b@),
{
    let aw: i128 = a.bits as i128;
    proof {
        assert(aw * (SCALE as int) <= i128::MAX as int && aw * (SCALE as int) > i128::MIN as int)
            by (nonlinear_arith)
            requires
                i64::MIN as int <= aw <= i64::MAX as int,
        ;
    }
    let n: i128 = aw * (SCALE as i128);
    proof {
        lemma_tdiv_mag(n as int, b@);
    }
    let q: i128 = n.checked_div(b.bits as i128).unwrap();
    Fx { bits: clamp_i128(q) }
}

/// Saturating division of a fixed-point value by a positive plain integer.
pub fn fx_divn(a: Fx, n: i64) -> (r: Fx)
    requires
        n >= 1,
    ensures
        r@ == fx_divn_v(a@, n as int),
{
    proof {
        lemma_tdiv_bounds(a@, n as int);
    }
    Fx { bits: a.bits.checked_div(n).unwrap() }
}

/// Clamping to a closed interval.
pub fn fx_clamp(a: Fx, lo: Fx, hi: Fx) -> (r: Fx)
    ensures
        r@ == fx_clamp_v(a@, lo@, hi@),
{
    if a.bits < lo.bits {
        lo
    } else if a.bits > hi.bits {
        hi
    } else {
        a
    }
}

/// The wrapped angle: `((theta + 3*pi) mod 2*pi) - pi`, which lies in
/// `[-pi, pi)`. The `mod` is the euclidean one, so the definition is total.
pub open spec fn norm_v(t: int) -> int {
    (t + 3 * (PI_BITS as int)) % (TWO_PI_BITS as int) - PI_BITS as int
}

/// Wraps an angle into `[-pi, pi)`.
///
/// The wrap is exact: the fixed-point period `TWO_PI_BITS` divides evenly
/// into the shifted angle with no rounding, so wrapping commutes with adding
/// whole periods (see `lemma_normalize_periodic`).
pub fn normalize(theta: Fx) -> (r: Fx)
    ensures
        r@ == norm_v(theta@),
        -(PI_BITS as int) <= r@ < PI_BITS as int,
{
    let t: i128 = theta.bits as i128 + 3 * (PI_BITS as i128);
    proof {
        vstd::arithmetic::div_mod::lemma_mod_division_less_than_divisor(
            t as int,
            TWO_PI_BITS as int,
        );
    }
    let m: i128 = t.checked_rem_euclid(TWO_PI_BITS as i128).unwrap();
    Fx { bits: (m - PI_BITS as i128) as i64 }
}

/// Law: the wrapped angle always lies in the half-open interval `[-pi, pi)`.
pub proof fn lemma_normalize_range(t: int)
    ensures
        -(PI_BITS as int) <= norm_v(t) < PI_BITS as int,
{
    vstd::arithmetic::div_mod::lemma_mod_division_less_than_divisor(
        t + 3 * (PI_BITS as int),
        TWO_PI_BITS as int,
    );
}

/// Law: wrapping is periodic — adding any whole number of periods to an
/// angle leaves the wrapped value unchanged.
pub proof fn lemma_normalize_periodic(t: int, k: int)
    ensures
        norm_v(t + k * (TWO_PI_BITS as int)) == norm_v(t),
{
    vstd::arithmetic::div_mod::lemma_mod_multiples_vanish(
        k,
        t + 3 * (PI_BITS as int),
        TWO_PI_BITS as int,
    );
}

/// The odd seventh-order polynomial used to approximate the sine on
/// `[0, pi/2]`: `a*(1 - t/6*(1 - t/20*(1 - t/42)))` with `t = a*a`, which is
/// the Taylor expansion `a - a^3/6 + a^5/120 - a^7/5040` in Horner form.
pub open spec fn sin_taylor_v(a: int) -> int {
    let t = fx_mul_v(a, a);
    fx_mul_v(
        a,
        fx_sub_v(
            SCALE as int,
            fx_mul_v(
                fx_mul_v(t, INV6_BITS as int),
                fx_sub_v(
                    SCALE as int,
                    fx_mul_v(
                        fx_mul_v(t, INV20_BITS as int),
                        fx_sub_v(SCALE as int, fx_mul_v(t, INV42_BITS as int)),
                    ),
                ),
            ),
        ),
    )
}

/// The fixed-point sine: the argument is wrapped into `[-pi, pi)`, folded
/// into `[0, pi/2]` by the sine's symmetries, approximated by
/// `sin_taylor_v`, and clamped into `[-1, 1]`.
pub open spec fn fx_sin_v(x: int) -> int {
    let r = norm_v(x);
    let a = if r < 0 {
        -r
    } else {
        r
    };
    let f = if a > HALF_PI_BITS as int {
        PI_BITS as int - a
    } else {
        a
    };
    let s = fx_clamp_v(sin_taylor_v(f), -(SCALE as int), SCALE as int);
    if r < 0 {
        -s
    } else {
        s
    }
}

/// The fixed-point cosine, defined by the shift `cos x == sin (x + pi/2)`.
pub open spec fn fx_cos_v(x: int) -> int {
    fx_sin_v(fx_add_v(x, HALF_PI_BITS as int))
}

/// Approximates the sine of a fixed-point angle; the result is in `[-1, 1]`.
pub fn fx_sin(x: Fx) -> (r: Fx)
    ensures
        r@ == fx_sin_v(x@),
        -(SCALE as int) <= r@ <= SCALE as int,
{
    let nrm = normalize(x);
    let neg = nrm.bits < 0;
    let a: i64 = if neg {
        -nrm.bits
    } else {
        nrm.bits
    };
    let f = Fx {
        bits: if a > HALF_PI_BITS {
            PI_BITS - a
        } else {
            a
        },
    };
    let t = fx_mul(f, f);
    let w3 = fx_sub(Fx { bits: SCALE }, fx_mul(t, Fx { bits: INV42_BITS }));
    let w2 = fx_sub(Fx { bits: SCALE }, fx_mul(fx_mul(t, Fx { bits: INV20_BITS }), w3));
    let w1 = fx_sub(Fx { bits: SCALE }, fx_mul(fx_mul(t, Fx { bits: INV6_BITS }), w2));
    let s = fx_clamp(fx_mul(f, w1), Fx { bits: -SCALE }, Fx { bits: SCALE });
    if neg {
        Fx { bits: -s.bits }
    } else {
        s
    }
}

/// Approximates the cosine of a fixed-point angle; the result is in `[-1, 1]`.
pub fn fx_cos(x: Fx) -> (r: Fx)
    ensures
        r@ == fx_cos_v(x@),
        -(SCALE as int) <= r@ <= SCALE as int,
{
    fx_sin(fx_add(x, Fx { bits: HALF_PI_BITS }))
}

/// Strict fixed-point comparison.
pub fn fx_lt(a: Fx, b: Fx) -> (r: bool)
    ensures
        r == (a@ < b@),
{
    a.bits < b.bits
}

/// Non-strict fixed-point comparison.
pub fn fx_le(a: Fx, b: Fx) -> (r: bool)
    ensures
        r == (a@ <= b@),
{
    a.bits <= b.bits
}

} // verus!
