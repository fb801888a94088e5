//! Reading an amount of gas written with a unit, such as `"1.5 TGas"`.
use crate::decimal::{decimal_outcome, parse_decimal_number};
use crate::{NearGas, NearGasError, ONE_GIGA_GAS, ONE_TERA_GAS};
use vstd::prelude::*;

verus! {

/// The characters with the Unicode `White_Space` property, which
/// `str::trim` takes off both ends.
pub open spec fn is_white_space(c: char) -> bool {
    ('\u{9}' <= c && c <= '\u{d}') || c == ' ' || c == '\u{85}' || c == '\u{a0}' || c
        == '\u{1680}' || ('\u{2000}' <= c && c <= '\u{200a}') || c == '\u{2028}' || c == '\u{2029}'
        || c == '\u{202f}' || c == '\u{205f}' || c == '\u{3000}'
}

fn is_white_space_char(c: char) -> (r: bool)
    ensures
        r == is_white_space(c),
{
    ('\u{9}' <= c && c <= '\u{d}') || c == ' ' || c == '\u{85}' || c == '\u{a0}' || c
        == '\u{1680}' || ('\u{2000}' <= c && c <= '\u{200a}') || c == '\u{2028}' || c == '\u{2029}'
        || c == '\u{202f}' || c == '\u{205f}' || c == '\u{3000}'
}

/// `s` without the white space at its start.
pub open spec fn trim_front(s: Seq<char>) -> Seq<char>
    decreases s.len(),
{
    if s.len() > 0 && is_white_space(s[0]) {
        trim_front(s.drop_first())
    } else {
        s
    }
}

/// `s` without the white space at its end.
pub open spec fn trim_back(s: Seq<char>) -> Seq<char>
    decreases s.len(),
{
    if s.len() > 0 && is_white_space(s.last()) {
        trim_back(s.drop_last())
    } else {
        s
    }
}

/// `s` without the white space at either end.
pub open spec fn trim(s: Seq<char>) -> Seq<char> {
    trim_back(trim_front(s))
}

pub open spec fn is_ascii_letter(c: char) -> bool {
    ('a' <= c && c <= 'z') || ('A' <= c && c <= 'Z')
}

/// Position of the first ASCII letter in `s`, or `s.len()` where it has none.
pub open spec fn letter_index(s: Seq<char>) -> int
    decreases s.len(),
{
    if s.len() == 0 || is_ascii_letter(s[0]) {
        0
    } else {
        1 + letter_index(s.drop_first())
    }
}

/// `c` with an ASCII lower-case letter made upper-case.
pub open spec fn to_upper(c: char) -> char {
    if 'a' <= c && c <= 'z' {
        (c as int - 32) as char
    } else {
        c
    }
}

pub open spec fn upper(s: Seq<char>) -> Seq<char> {
    s.map_values(|c: char| to_upper(c))
}

/// The gas in one of `unit`, matched without regard to ASCII case; `None`
/// for an unknown unit.
pub open spec fn unit_scale(unit: Seq<char>) -> Option<u64> {
    let u = upper(unit);
    if u == seq!['T', 'G', 'A', 'S'] || u == seq!['T', 'E', 'R', 'A', 'G', 'A', 'S'] {
        Some(ONE_TERA_GAS)
    } else if u == seq!['G', 'G', 'A', 'S'] || u == seq!['G', 'I', 'G', 'A', 'G', 'A', 'S'] {
        Some(ONE_GIGA_GAS)
    } else {
        None
    }
}

/// The number written before the unit, without surrounding white space.
pub open spec fn number_text(s: Seq<char>) -> Seq<char> {
    let t = trim(s);
    trim(t.subrange(0, letter_index(t)))
}

/// The unit: everything from the first ASCII letter on.
pub open spec fn unit_text(s: Seq<char>) -> Seq<char> {
    let t = trim(s);
    t.subrange(letter_index(t), t.len() as int)
}

/// What reading `s` as an amount with a unit gives: an `IncorrectUnit`
/// holding the whole input where the unit is unknown, and otherwise the
/// outcome of converting the number text at the unit's scale.
pub open spec fn parse_outcome(s: Seq<char>, r: Result<NearGas, NearGasError>) -> bool {
    match r {
        Ok(g) => unit_scale(unit_text(s)) is Some && decimal_outcome(
            number_text(s),
            unit_scale(unit_text(s))->0,
            Ok(g@),
        ),
        Err(NearGasError::IncorrectNumber(e)) => unit_scale(unit_text(s)) is Some
            && decimal_outcome(number_text(s), unit_scale(unit_text(s))->0, Err(e)),
        Err(NearGasError::IncorrectUnit(t)) => unit_scale(unit_text(s)) is None && t@ == s,
    }
}

/// `s` without the white space at either end.
fn trim_str<'a>(s: &'a str) -> (r: &'a str)
    ensures
        r@ == trim(s@),
{
    let n = s.unicode_len();
    let mut a: usize = 0;
    assert(s@.subrange(0, n as int) =~= s@);
    while a < n && is_white_space_char(s.get_char(a))
        invariant
            a <= n,
            n == s@.len(),
            trim_front(s@) == trim_front(s@.subrange(a as int, n as int)),
        decreases n - a,
    {
        assert(s@.subrange(a as int, n as int).drop_first() =~= s@.subrange(a + 1, n as int));
        a = a + 1;
    }
    assert(trim_front(s@) == s@.subrange(a as int, n as int));
    let mut b: usize = n;
    while b > a && is_white_space_char(s.get_char(b - 1))
        invariant
            a <= b <= n,
            n == s@.len(),
            trim(s@) == trim_back(s@.subrange(a as int, b as int)),
        decreases b - a,
    {
        assert(s@.subrange(a as int, b as int).drop_last() =~= s@.subrange(a as int, b - 1));
        b = b - 1;
    }
    s.substring_char(a, b)
}

/// Whether `unit` is `name` once its ASCII letters are made upper-case;
/// `name` is made of upper-case ASCII letters.
fn unit_is(unit: &str, name: &str) -> (r: bool)
    requires
        forall|i: int| 0 <= i < name@.len() ==> 'A' <= #[trigger] name@[i] <= 'Z',
    ensures
        r == (upper(unit@) == name@),
{
    let n = unit.unicode_len();
    if n != name.unicode_len() {
        return false;
    }
    let mut i: usize = 0;
    while i < n
        invariant
            i <= n,
            n == unit@.len(),
            n == name@.len(),
            forall|k: int| 0 <= k < name@.len() ==> 'A' <= #[trigger] name@[k] <= 'Z',
            forall|k: int| 0 <= k < i ==> to_upper(#[trigger] unit@[k]) == name@[k],
        decreases n - i,
    {
        let c = unit.get_char(i);
        let u = name.get_char(i);
        if !(c == u || c as u32 == u as u32 + 32) {
            assert(upper(unit@)[i as int] != name@[i as int]);
            return false;
        }
        i = i + 1;
    }
    assert(upper(unit@) =~= name@);
    true
}

/// The gas in one of `unit`, or `None` for an unknown unit.
fn scale_of(unit: &str) -> (r: Option<u64>)
    ensures
        r == unit_scale(unit@),
{
    proof {
        reveal_strlit("TGAS");
        reveal_strlit("TERAGAS");
        reveal_strlit("GGAS");
        reveal_strlit("GIGAGAS");
        assert("TGAS"@ =~= seq!['T', 'G', 'A', 'S']);
        assert("TERAGAS"@ =~= seq!['T', 'E', 'R', 'A', 'G', 'A', 'S']);
        assert("GGAS"@ =~= seq!['G', 'G', 'A', 'S']);
        assert("GIGAGAS"@ =~= seq!['G', 'I', 'G', 'A', 'G', 'A', 'S']);
    }
    if unit_is(unit, "TGAS") || unit_is(unit, "TERAGAS") {
        Some(ONE_TERA_GAS)
    } else if unit_is(unit, "GGAS") || unit_is(unit, "GIGAGAS") {
        Some(ONE_GIGA_GAS)
    } else {
        None
    }
}

impl NearGas {
    /// Reads an amount of gas written as a decimal number followed by a unit:
    /// `TGas` or `TeraGas` (10^12 gas), `GGas` or `GigaGas` (10^9 gas), in
    /// any ASCII case. White space around the whole and between number and
    /// unit is ignored.
    ///
    /// The unit starts at the first ASCII letter. Where there is none, or the
    /// unit is not one of those, the error is an `IncorrectUnit` holding the
    /// whole input. Otherwise the number is converted exactly by
    /// `parse_decimal_number`, whose errors come back as `IncorrectNumber`.
    pub fn parse(s: &str) -> (r: Result<NearGas, NearGasError>)
        ensures
            parse_outcome(s@, r),
    {
        let t = trim_str(s);
        let n = t.unicode_len();
        let mut k: usize = 0;
        assert(t@.subrange(0, n as int) =~= t@);
        while k < n && !is_ascii_letter_char(t.get_char(k))
            invariant
                k <= n,
                n == t@.len(),
                letter_index(t@) == k + letter_index(t@.subrange(k as int, n as int)),
            decreases n - k,
        {
            assert(t@.subrange(k as int, n as int).drop_first() =~= t@.subrange(k + 1, n as int));
            k = k + 1;
        }
        assert(letter_index(t@) == k);
        let unit = t.substring_char(k, n);
        let scale = match scale_of(unit) {
            Some(v) => v,
            None => {
                return Err(NearGasError::IncorrectUnit(String::from_str(s)));
            },
        };
        let number = trim_str(t.substring_char(0, k));
        match parse_decimal_number(number, scale) {
            Ok(v) => Ok(NearGas::from_gas(v)),
            Err(e) => Err(NearGasError::IncorrectNumber(e)),
        }
    }
}

fn is_ascii_letter_char(c: char) -> (r: bool)
    ensures
        r == is_ascii_letter(c),
{
    ('a' <= c && c <= 'z') || ('A' <= c && c <= 'Z')
}

impl std::str::FromStr for NearGas {
    type Err = NearGasError;

    /// Reads an amount of gas with a unit, as `NearGas::parse` does.
    fn from_str(s: &str) -> (r: Result<NearGas, NearGasError>)
        ensures
            parse_outcome(s@, r),
    {
        NearGas::parse(s)
    }
}

} // verus!
