//! Parsing of configuration values: plain decimal integers and fixed-point
//! decimals.
//!
//! The contracts are exact: each parser returns a value precisely when the
//! text matches its grammar and the value fits, and the value is pinned by
//! the spec functions below.

use crate::fixed::{Fx, SCALE};
use vstd::prelude::*;

verus! {

/// The character is a decimal digit.
pub open spec fn is_digit(c: char) -> bool {
    48 <= c as u32 <= 57
}

/// The value of a decimal digit.
pub open spec fn digit_val(c: char) -> int {
    c as u32 - 48
}

/// The text is one or more decimal digits.
pub open spec fn is_digit_seq(s: Seq<char>) -> bool {
    s.len() >= 1 && forall|j: int| 0 <= j < s.len() ==> is_digit(#[trigger] s[j])
}

/// The value of a digit string, most significant digit first.
pub open spec fn digits_val(s: Seq<char>) -> int
    decreases s.len(),
{
    if s.len() == 0 {
        0
    } else {
        digits_val(s.drop_last()) * 10 + digit_val(s.last())
    }
}

/// Position `p` carries the only occurrence of `c` in `s`.
pub open spec fn is_char_split(s: Seq<char>, c: char, p: int) -> bool {
    &&& 0 <= p < s.len()
    &&& s[p] == c
    &&& forall|j: int| 0 <= j < s.len() && j != p ==> s[j] != c
}

/// A digit string's value is never negative.
pub proof fn lemma_digits_nonneg(s: Seq<char>)
    requires
        forall|j: int| 0 <= j < s.len() ==> is_digit(#[trigger] s[j]),
    ensures
        digits_val(s) >= 0,
    decreases s.len(),
{
    if s.len() > 0 {
        lemma_digits_nonneg(s.drop_last());
    }
}

/// Extending a digit string to the right never shrinks its value.
pub proof fn lemma_digits_prefix_le(s: Seq<char>, j: int)
    requires
        forall|k: int| 0 <= k < s.len() ==> is_digit(#[trigger] s[k]),
        0 <= j <= s.len(),
    ensures
        digits_val(s.take(j)) <= digits_val(s),
    decreases s.len() - j,
{
    if j < s.len() {
        lemma_digits_prefix_le(s, j + 1);
        assert(s.take(j + 1).drop_last() =~= s.take(j));
        assert(forall|k: int| 0 <= k < j + 1 ==> is_digit(#[trigger] s.take(j + 1)[k]));
        lemma_digits_nonneg(s.take(j));
        assert(digits_val(s.take(j)) <= digits_val(s.take(j + 1)));
    } else {
        assert(s.take(j) =~= s);
    }
}

/// Parses an unsigned decimal integer; returns the value exactly when the
/// text is all digits and the value fits in a `u64`.
pub fn parse_u64(s: &str) -> (r: Option<u64>)
    ensures
        r is Some <==> is_digit_seq(s@) && digits_val(s@) <= u64::MAX as int,
        r matches Some(n) ==> n as int == digits_val(s@),
{
    let len = s.unicode_len();
    if len == 0 {
        return None;
    }
    let mut acc: u64 = 0;
    let mut i: usize = 0;
    while i < len
        invariant
            0 <= i <= len,
            len == s@.len(),
            forall|j: int| 0 <= j < i ==> is_digit(#[trigger] s@[j]),
            acc as int == digits_val(s@.take(i as int)),
        decreases len - i,
    {
        let c = s.get_char(i);
        let d: u32 = c as u32;
        if d < 48 || d > 57 {
            return None;
        }
        proof {
            assert(s@.take(i as int + 1).drop_last() =~= s@.take(i as int));
            assert(s@.take(i as int + 1).last() == s@[i as int]);
        }
        let step = match acc.checked_mul(10) {
            Some(t) => t.checked_add((d - 48) as u64),
            None => None,
        };
        match step {
            Some(t) => {
                acc = t;
            },
            None => {
                proof {
                    lemma_digits_nonneg(s@.take(i as int));
                    if is_digit_seq(s@) {
                        lemma_digits_prefix_le(s@, i as int + 1);
                    }
                }
                return None;
            },
        }
        i = i + 1;
    }
    proof {
        assert(s@.take(len as int) =~= s@);
    }
    Some(acc)
}

/// Parses an unsigned decimal integer into a `usize`.
pub fn parse_usize(s: &str) -> (r: Option<usize>)
    ensures
        r is Some <==> is_digit_seq(s@) && digits_val(s@) <= usize::MAX as int,
        r matches Some(n) ==> n as int == digits_val(s@),
{
    match parse_u64(s) {
        Some(n) => {
            if n <= usize::MAX as u64 {
                Some(n as usize)
            } else {
                None
            }
        },
        None => None,
    }
}

/// The contribution of a fraction part to a fixed-point value: its first six
/// digits read as millionths, shorter fractions padded with zeros on the
/// right.
pub open spec fn frac_units(f: Seq<char>) -> int {
    if f.len() >= 6 {
        digits_val(f.take(6))
    } else if f.len() == 5 {
        digits_val(f) * 10
    } else if f.len() == 4 {
        digits_val(f) * 100
    } else if f.len() == 3 {
        digits_val(f) * 1000
    } else if f.len() == 2 {
        digits_val(f) * 10000
    } else {
        digits_val(f) * 100000
    }
}

/// The unsigned part of a fixed-point decimal: digits, optionally followed
/// by a point and a nonempty fraction, scaled to millionths.
pub open spec fn fx_body_val(b: Seq<char>) -> Option<int> {
    if exists|p: int| is_char_split(b, '.', p) {
        let p = choose|p: int| is_char_split(b, '.', p);
        if is_digit_seq(b.take(p)) && is_digit_seq(b.skip(p + 1)) && digits_val(b.take(p)) * (
        SCALE as int) + frac_units(b.skip(p + 1)) <= i64::MAX as int {
            Some(digits_val(b.take(p)) * (SCALE as int) + frac_units(b.skip(p + 1)))
        } else {
            None
        }
    } else {
        if is_digit_seq(b) && digits_val(b) * (SCALE as int) <= i64::MAX as int {
            Some(digits_val(b) * (SCALE as int))
        } else {
            None
        }
    }
}

/// The value of a fixed-point decimal with an optional leading minus sign,
/// in millionths.
pub open spec fn fx_text_val(s: Seq<char>) -> Option<int> {
    if s.len() > 0 && s[0] == '-' {
        match fx_body_val(s.drop_first()) {
            Some(v) => Some(-v),
            None => None,
        }
    } else {
        fx_body_val(s)
    }
}

/// Parses a fixed-point decimal: an optional minus sign, digits, and
/// optionally a point followed by at least one digit. Fraction digits past
/// the sixth are ignored in the value (the grammar still requires them to be
/// digits). Returns the value exactly when the text matches and the
/// magnitude fits. The grammar is `-?digits(.digits)?` and nothing else:
/// exponent notation, a leading `+`, and forms without a digit before the
/// point (such as `.5`) are rejected, so configuration values must be
/// written in plain decimal.
pub fn parse_fx(s: &str) -> (r: Option<Fx>)
    ensures
        r matches Some(v) ==> fx_text_val(s@) == Some(v@),
        r is None ==> fx_text_val(s@) is None,
{
    let len = s.unicode_len();
    let neg = len > 0 && (s.get_char(0) as u32) == 45;
    let start: usize = if neg {
        1
    } else {
        0
    };
    let ghost body = if neg {
        s@.drop_first()
    } else {
        s@
    };
    proof {
        assert(body.len() == len - start);
        assert(forall|j: int| 0 <= j < body.len() ==> body[j] == s@[j + start]);
    }
    let mut dots: usize = 0;
    let mut dot_pos: usize = start;
    let mut i: usize = start;
    while i < len
        invariant
            start <= i <= len,
            len == s@.len(),
            start <= 1,
            body.len() == len - start,
            forall|j: int| 0 <= j < body.len() ==> body[j] == s@[j + start],
            dots == 0 ==> forall|j: int| 0 <= j < i - start ==> body[j] != '.',
            dots >= 1 ==> start <= dot_pos < i && body[dot_pos - start] == '.',
            dots == 1 ==> forall|j: int|
                0 <= j < i - start && j != dot_pos - start ==> body[j] != '.',
            dots >= 2 ==> exists|j: int|
                0 <= j < i - start && j != dot_pos - start && #[trigger] body[j] == '.',
        decreases len - i,
    {
        let c = s.get_char(i);
        proof {
            assert('.' as u32 == 46);
        }
        if (c as u32) == 46 {
            proof {
                assert(body[i - start] == '.');
            }
            if dots == 0 {
                dot_pos = i;
            } else {
                proof {
                    assert(i - start != dot_pos - start && body[i - start] == '.');
                }
            }
            if dots < 2 {
                dots = dots + 1;
            }
        } else {
            proof {
                assert(body[i - start] != '.');
            }
        }
        i = i + 1;
    }
    if dots >= 2 {
        proof {
            assert forall|p: int| !is_char_split(body, '.', p) by {
                if is_char_split(body, '.', p) {
                    let j = choose|j: int|
                        0 <= j < len - start && j != dot_pos - start && #[trigger] body[j] == '.';
                    assert(body[dot_pos - start] == '.');
                    assert(false);
                }
            }
        }
        return None;
    }
    if dots == 0 {
        proof {
            assert forall|p: int| !is_char_split(body, '.', p) by {}
        }
        let w = s.substring_char(start, len);
        proof {
            assert(w@ =~= body);
        }
        match parse_u64(w) {
            Some(n) => {
                match n.checked_mul(SCALE as u64) {
                    Some(t) => {
                        if t <= i64::MAX as u64 {
                            let units: i64 = t as i64;
                            if neg {
                                Some(Fx { bits: -units })
                            } else {
                                Some(Fx { bits: units })
                            }
                        } else {
                            None
                        }
                    },
                    None => {
                        proof {
                            lemma_digits_nonneg(body);
                            assert(digits_val(body) * (SCALE as int) > i64::MAX as int)
                                by (nonlinear_arith)
                                requires
                                    digits_val(body) * (SCALE as int) > u64::MAX as int,
                            ;
                        }
                        None
                    },
                }
            },
            None => {
                proof {
                    if is_digit_seq(body) && digits_val(body) * (SCALE as int) <= i64::MAX as int {
                        lemma_digits_nonneg(body);
                        assert(digits_val(body) <= digits_val(body) * (SCALE as int))
                            by (nonlinear_arith)
                            requires
                                digits_val(body) >= 0,
                        ;
                    }
                }
                None
            },
        }
    } else {
        let ghost p = dot_pos - start;
        proof {
            assert(is_char_split(body, '.', p));
            let pc = choose|q: int| is_char_split(body, '.', q);
            assert(is_char_split(body, '.', pc));
            assert(pc == p);
        }
        let w = s.substring_char(start, dot_pos);
        let f = s.substring_char(dot_pos + 1, len);
        proof {
            assert(w@ =~= body.take(p));
            assert(f@ =~= body.skip(p + 1));
        }
        let flen = len - dot_pos - 1;
        let mut k: usize = 0;
        let mut all_digits = true;
        while k < flen
            invariant
                k <= flen,
                flen == f@.len(),
                all_digits ==> forall|j: int| 0 <= j < k ==> is_digit(#[trigger] f@[j]),
                !all_digits ==> exists|j: int| 0 <= j < k && !is_digit(#[trigger] f@[j]),
            decreases flen - k,
        {
            let d = f.get_char(k) as u32;
            if d < 48 || d > 57 {
                all_digits = false;
            }
            k = k + 1;
        }
        if !all_digits || flen == 0 {
            return None;
        }
        let f6 = if flen >= 6 {
            s.substring_char(dot_pos + 1, dot_pos + 7)
        } else {
            f
        };
        proof {
            if flen >= 6 {
                assert(f6@ =~= body.skip(p + 1).take(6));
            }
        }
        let fv = match parse_u64(f6) {
            Some(n) => n,
            None => {
                proof {
                    assert(is_digit_seq(f6@));
                    lemma_digits_bounded(f6@);
                    assert(false);
                }
                return None;
            },
        };
        proof {
            lemma_digits_nonneg(f6@);
            if flen >= 6 {
                lemma_digits_bounded(f6@);
            } else {
                lemma_digits_bounded(f@);
            }
        }
        let funits: u64 = if flen >= 6 {
            fv
        } else if flen == 5 {
            fv * 10
        } else if flen == 4 {
            fv * 100
        } else if flen == 3 {
            fv * 1000
        } else if flen == 2 {
            fv * 10000
        } else {
            fv * 100000
        };
        match parse_u64(w) {
            Some(n) => {
                let total = match n.checked_mul(SCALE as u64) {
                    Some(t) => t.checked_add(funits),
                    None => None,
                };
                match total {
                    Some(t) => {
                        if t <= i64::MAX as u64 {
                            let units = t as i64;
                            if neg {
                                Some(Fx { bits: -units })
                            } else {
                                Some(Fx { bits: units })
                            }
                        } else {
                            None
                        }
                    },
                    None => {
                        proof {
                            lemma_digits_nonneg(body.take(p));
                        }
                        None
                    },
                }
            },
            None => {
                proof {
                    if is_digit_seq(body.take(p)) {
                        lemma_digits_nonneg(body.take(p));
                        assert(digits_val(body.take(p)) <= digits_val(body.take(p)) * (
                        SCALE as int)) by (nonlinear_arith)
                            requires
                                digits_val(body.take(p)) >= 0,
                        ;
                    }
                }
                None
            },
        }
    }
}

/// Ten to the `k`-th power.
pub open spec fn pow10(k: int) -> int
    decreases k,
{
    if k <= 0 {
        1
    } else {
        10 * pow10(k - 1)
    }
}

/// A digit string's value is below ten to the number of its digits.
pub proof fn lemma_digits_lt_pow(s: Seq<char>, n: int)
    requires
        forall|j: int| 0 <= j < s.len() ==> is_digit(#[trigger] s[j]),
        s.len() <= n,
        0 <= n,
    ensures
        digits_val(s) < pow10(n),
    decreases n,
{
    if s.len() == 0 {
        lemma_pow10_pos(n);
    } else {
        lemma_digits_lt_pow(s.drop_last(), n - 1);
    }
}

proof fn lemma_pow10_pos(n: int)
    ensures
        pow10(n) >= 1,
    decreases n,
{
    if n > 0 {
        lemma_pow10_pos(n - 1);
    }
}

/// A digit string of at most six digits is below one million.
pub proof fn lemma_digits_bounded(s: Seq<char>)
    requires
        forall|j: int| 0 <= j < s.len() ==> is_digit(#[trigger] s[j]),
        s.len() <= 6,
    ensures
        digits_val(s) < 1_000_000,
{
    lemma_digits_lt_pow(s, 6);
    assert(pow10(6) == 1_000_000) by {
        reveal_with_fuel(pow10, 8);
    }
}

} // verus!
