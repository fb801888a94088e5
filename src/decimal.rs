//! Exact conversion of a decimal literal such as `"1.25"` into a whole
//! number of base units at a given scale.
use vstd::arithmetic::div_mod::lemma_fundamental_div_mod;
use vstd::prelude::*;

verus! {

/// Why a decimal literal could not be turned into an amount.
#[derive(Debug, Clone, PartialEq, Eq)]
pub enum DecimalNumberParsingError {
    /// The literal is not a run of digits with at most one dot; holds the literal.
    InvalidNumber(String),
    /// The amount does not fit in a `u64`; holds the digits before the dot.
    LongWhole(String),
    /// More digits after the dot than the scale can hold exactly; holds them.
    LongFractional(String),
}

pub open spec fn is_digit(c: char) -> bool {
    '0' <= c && c <= '9'
}

pub open spec fn digit_value(c: char) -> nat {
    (c as int - '0' as int) as nat
}

pub open spec fn all_digits(s: Seq<char>) -> bool {
    forall|i: int| 0 <= i < s.len() ==> is_digit(#[trigger] s[i])
}

/// The number that a run of digits stands for, most significant first.
pub open spec fn digits_value(s: Seq<char>) -> nat
    decreases s.len(),
{
    if s.len() == 0 {
        0
    } else {
        digits_value(s.drop_last()) * 10 + digit_value(s.last())
    }
}

pub open spec fn pow10(n: nat) -> nat
    decreases n,
{
    if n == 0 {
        1
    } else {
        10 * pow10((n - 1) as nat)
    }
}

/// How many zeros end `n` written in decimal (none for zero).
pub open spec fn trailing_zeros(n: nat) -> nat
    decreases n,
{
    if n == 0 || n % 10 != 0 {
        0
    } else {
        1 + trailing_zeros(n / 10)
    }
}

/// Position of the first dot in `s`, or `s.len()` where it has none.
pub open spec fn dot_index(s: Seq<char>) -> int
    decreases s.len(),
{
    if s.len() == 0 || s[0] == '.' {
        0
    } else {
        1 + dot_index(s.drop_first())
    }
}

/// What stands before the first dot.
pub open spec fn whole_part(s: Seq<char>) -> Seq<char> {
    s.subrange(0, dot_index(s))
}

/// What stands after the first dot; empty where there is no dot.
pub open spec fn fractional_part(s: Seq<char>) -> Seq<char> {
    if dot_index(s) < s.len() {
        s.subrange(dot_index(s) + 1, s.len() as int)
    } else {
        Seq::empty()
    }
}

/// `s` is digits, optionally a dot and more digits, with at least one digit
/// in all: `12`, `1.5`, `.5` and `5.` are literals; `.`, `1.2.3`, `-1`,
/// `1. 0` are not.
pub open spec fn is_literal(s: Seq<char>) -> bool {
    all_digits(whole_part(s)) && all_digits(fractional_part(s)) && whole_part(s).len()
        + fractional_part(s).len() > 0
}

/// The digits after the dot can be scaled by `scale` without losing any.
pub open spec fn fits_scale(s: Seq<char>, scale: u64) -> bool {
    fractional_part(s).len() <= trailing_zeros(scale as nat)
}

/// The literal `s` times `scale`, for a literal that fits the scale.
pub open spec fn literal_value(s: Seq<char>, scale: u64) -> nat {
    let unit = scale as nat / pow10(fractional_part(s).len());
    digits_value(whole_part(s)) * (scale as nat) + digits_value(fractional_part(s)) * unit
}

proof fn lemma_pow10_positive(n: nat)
    ensures
        pow10(n) >= n + 1,
    decreases n,
{
    if n > 0 {
        lemma_pow10_positive((n - 1) as nat);
    }
}

proof fn lemma_pow10_monotonic(a: nat, b: nat)
    requires
        a <= b,
    ensures
        pow10(a) <= pow10(b),
    decreases b,
{
    if a < b {
        lemma_pow10_monotonic(a, (b - 1) as nat);
        lemma_pow10_positive((b - 1) as nat);
    }
}

proof fn lemma_digits_value_bound(s: Seq<char>)
    requires
        all_digits(s),
    ensures
        digits_value(s) < pow10(s.len()),
    decreases s.len(),
{
    if s.len() > 0 {
        let t = s.drop_last();
        assert(all_digits(t)) by {
            assert forall|i: int| 0 <= i < t.len() implies is_digit(#[trigger] t[i]) by {
                assert(t[i] == s[i]);
            }
        }
        lemma_digits_value_bound(t);
        let a = digits_value(t);
        let p = pow10(t.len());
        let d = digit_value(s.last());
        assert(is_digit(s[s.len() - 1]));
        assert(d <= 9);
        assert(a * 10 + d < 10 * p) by (nonlinear_arith)
            requires
                a < p,
                d <= 9,
        ;
    }
}

/// Whether every character of `s` from `from` up to `to` is a digit.
pub(crate) fn digits_between(s: &str, from: usize, to: usize) -> (r: bool)
    requires
        from <= to <= s@.len(),
    ensures
        r == all_digits(s@.subrange(from as int, to as int)),
{
    let mut i: usize = from;
    while i < to
        invariant
            from <= i <= to <= s@.len(),
            all_digits(s@.subrange(from as int, i as int)),
        decreases to - i,
    {
        let c = s.get_char(i);
        if !('0' <= c && c <= '9') {
            assert(s@.subrange(from as int, to as int)[i - from] == c);
            return false;
        }
        assert(forall|k: int|
            0 <= k < i + 1 - from ==> #[trigger] s@.subrange(from as int, i + 1)[k] == s@[from + k]);
        assert(forall|k: int|
            0 <= k < i - from ==> #[trigger] s@.subrange(from as int, i as int)[k] == s@[from + k]);
        i = i + 1;
    }
    assert(forall|k: int|
        0 <= k < to - from ==> #[trigger] s@.subrange(from as int, to as int)[k] == s@[from + k]);
    assert(forall|k: int|
        0 <= k < i - from ==> #[trigger] s@.subrange(from as int, i as int)[k] == s@[from + k]);
    true
}

/// The number that the digits of `s` from `from` up to `to` stand for, or
/// `None` where it does not fit in a `u64`.
pub(crate) fn digits_number(s: &str, from: usize, to: usize) -> (r: Option<u64>)
    requires
        from <= to <= s@.len(),
        all_digits(s@.subrange(from as int, to as int)),
    ensures
        match r {
            Some(v) => v == digits_value(s@.subrange(from as int, to as int)),
            None => digits_value(s@.subrange(from as int, to as int)) > u64::MAX,
        },
{
    let ghost run = s@.subrange(from as int, to as int);
    let mut acc: u64 = 0;
    let mut too_big = false;
    let mut i: usize = from;
    while i < to
        invariant
            from <= i <= to <= s@.len(),
            run == s@.subrange(from as int, to as int),
            all_digits(run),
            !too_big ==> acc == digits_value(s@.subrange(from as int, i as int)),
            too_big ==> digits_value(s@.subrange(from as int, i as int)) > u64::MAX,
        decreases to - i,
    {
        let c = s.get_char(i);
        assert(run[i - from] == c);
        let d = (c as u32 - '0' as u32) as u64;
        let ghost prev = s@.subrange(from as int, i as int);
        let ghost next = s@.subrange(from as int, i + 1);
        assert(next.drop_last() =~= prev);
        assert(next.last() == c);
        assert(digits_value(next) == digits_value(prev) * 10 + d);
        if !too_big {
            match acc.checked_mul(10) {
                Some(t) => match t.checked_add(d) {
                    Some(v) => {
                        acc = v;
                    },
                    None => {
                        too_big = true;
                    },
                },
                None => {
                    too_big = true;
                },
            }
        }
        i = i + 1;
    }
    if too_big {
        None
    } else {
        Some(acc)
    }
}

/// What `parse_decimal_number` returns for the literal `s` at `scale`.
pub open spec fn decimal_outcome(
    s: Seq<char>,
    scale: u64,
    r: Result<u64, DecimalNumberParsingError>,
) -> bool {
    match r {
        Ok(v) => is_literal(s) && fits_scale(s, scale) && v == literal_value(s, scale),
        Err(DecimalNumberParsingError::InvalidNumber(t)) => !is_literal(s) && t@ == s,
        Err(DecimalNumberParsingError::LongFractional(t)) => is_literal(s) && !fits_scale(s, scale)
            && t@ == fractional_part(s),
        Err(DecimalNumberParsingError::LongWhole(t)) => is_literal(s) && fits_scale(s, scale)
            && literal_value(s, scale) > u64::MAX && t@ == whole_part(s),
    }
}

/// Turns the decimal literal `s` into the whole number `s × pref_const`,
/// exactly.
///
/// `s` is digits with at most one dot and at least one digit; anything else
/// (a sign, a space, a second dot) is an `InvalidNumber`. There may be no
/// more digits after the dot than `pref_const` has trailing zeros, else the
/// result is a `LongFractional`, even where those digits are zeros. Where the
/// result does not fit in a `u64` it is a `LongWhole`.
pub fn parse_decimal_number(s: &str, pref_const: u64) -> (r: Result<
    u64,
    DecimalNumberParsingError,
>)
    ensures
        decimal_outcome(s@, pref_const, r),
{
    let n = s.unicode_len();
    // Find the first dot.
    let mut d: usize = 0;
    assert(s@.subrange(0, n as int) =~= s@);
    while d < n && s.get_char(d) != '.'
        invariant
            0 <= d <= n,
            n == s@.len(),
            dot_index(s@) == d + dot_index(s@.subrange(d as int, n as int)),
        decreases n - d,
    {
        assert(s@.subrange(d as int, n as int).drop_first() =~= s@.subrange(d + 1, n as int));
        d = d + 1;
    }
    assert(dot_index(s@) == d);
    let frac_start = if d < n {
        d + 1
    } else {
        n
    };
    proof {
        assert(whole_part(s@) == s@.subrange(0, d as int));
        assert(fractional_part(s@) =~= s@.subrange(frac_start as int, n as int));
    }
    let whole_ok = digits_between(s, 0, d);
    let frac_ok = digits_between(s, frac_start, n);
    if !whole_ok || !frac_ok || d + (n - frac_start) == 0 {
        return Err(DecimalNumberParsingError::InvalidNumber(String::from_str(s)));
    }
    // How many digits after the dot the scale can take.
    let mut m: u64 = pref_const;
    let mut zeros: u64 = 0;
    assert(pow10(0) == 1);
    while m != 0 && m % 10 == 0
        invariant
            trailing_zeros(pref_const as nat) == zeros + trailing_zeros(m as nat),
            m * pow10(zeros as nat) == pref_const,
            pref_const > 0 ==> m > 0,
        decreases m,
    {
        let ghost p = pow10(zeros as nat);
        proof {
            lemma_pow10_positive(zeros as nat);
            assert(p <= pref_const) by (nonlinear_arith)
                requires
                    m * p == pref_const,
                    m > 0,
            ;
            lemma_pow10_positive(zeros as nat + 1);
        }
        let ghost m0 = m;
        m = m / 10;
        zeros = zeros + 1;
        assert(m * pow10(zeros as nat) == pref_const) by (nonlinear_arith)
            requires
                m0 % 10 == 0,
                m == m0 / 10,
                pow10(zeros as nat) == 10 * p,
                m0 * p == pref_const,
        ;
    }
    let frac_len = n - frac_start;
    if frac_len as u64 > zeros {
        return Err(DecimalNumberParsingError::LongFractional(String::from_str(s.substring_char(frac_start, n))));
    }
    if pref_const == 0 {
        let ghost unit = 0nat / pow10(fractional_part(s@).len());
        assert(digits_value(whole_part(s@)) * 0 == 0);
        assert(digits_value(fractional_part(s@)) * unit == 0);
        return Ok(0);
    }
    // 10 to the number of digits after the dot; it divides the scale.
    let mut p: u64 = 1;
    let mut k: usize = 0;
    proof {
        lemma_pow10_monotonic(frac_len as nat, zeros as nat);
        assert(pow10(zeros as nat) <= pref_const) by (nonlinear_arith)
            requires
                m * pow10(zeros as nat) == pref_const,
                m > 0,
        ;
    }
    while k < frac_len
        invariant
            k <= frac_len,
            p == pow10(k as nat),
            pow10(frac_len as nat) <= u64::MAX,
        decreases frac_len - k,
    {
        proof {
            lemma_pow10_monotonic(k as nat + 1, frac_len as nat);
        }
        p = p * 10;
        k = k + 1;
    }
    let whole = match digits_number(s, 0, d) {
        Some(v) => v,
        None => {
            assert(literal_value(s@, pref_const) > u64::MAX) by (nonlinear_arith)
                requires
                    literal_value(s@, pref_const) >= digits_value(whole_part(s@)) * pref_const,
                    digits_value(whole_part(s@)) > u64::MAX,
                    pref_const >= 1,
            ;
            return Err(DecimalNumberParsingError::LongWhole(String::from_str(s.substring_char(0, d))));
        },
    };
    proof {
        lemma_digits_value_bound(fractional_part(s@));
    }
    let frac = match digits_number(s, frac_start, n) {
        Some(v) => v,
        None => {
            return Err(DecimalNumberParsingError::LongWhole(String::from_str(s.substring_char(0, d))));
        },
    };
    let unit = pref_const / p;
    proof {
        lemma_fundamental_div_mod(pref_const as int, p as int);
        assert(frac * unit <= pref_const) by (nonlinear_arith)
            requires
                frac < p,
                pref_const == p * unit + pref_const % p,
                pref_const % p >= 0,
        ;
    }
    let frac_scaled = frac * unit;
    match whole.checked_mul(pref_const) {
        Some(w) => match w.checked_add(frac_scaled) {
            Some(v) => Ok(v),
            None => Err(DecimalNumberParsingError::LongWhole(String::from_str(s.substring_char(0, d)))),
        },
        None => Err(DecimalNumberParsingError::LongWhole(String::from_str(s.substring_char(0, d)))),
    }
}

} // verus!
