//! The plain decimal form of an amount of gas (`"1000000"`: digits only, no
//! unit), used where amounts are stored or exchanged as strings.
use crate::decimal::{all_digits, digits_between, digits_number, digits_value};
use crate::NearGas;
use vstd::prelude::*;

verus! {

pub open spec fn digit_char(d: nat) -> char {
    ('0' as int + d) as char
}

/// `n` written in decimal, most significant digit first, with no leading
/// zero (zero is `"0"`).
pub open spec fn decimal_digits(n: nat) -> Seq<char>
    decreases n,
{
    if n < 10 {
        seq![digit_char(n)]
    } else {
        decimal_digits(n / 10).push(digit_char(n % 10))
    }
}

/// Writing an amount in decimal and reading the digits back gives the
/// amount again: the digits are a non-empty run of decimal digits whose
/// value is the amount.
pub proof fn lemma_decimal_round_trip(n: u64)
    ensures
        decimal_digits(n as nat).len() > 0,
        all_digits(decimal_digits(n as nat)),
        digits_value(decimal_digits(n as nat)) == n,
{
    lemma_digits_of(n as nat);
}

proof fn lemma_digits_of(n: nat)
    ensures
        decimal_digits(n).len() > 0,
        all_digits(decimal_digits(n)),
        digits_value(decimal_digits(n)) == n,
    decreases n,
{
    let s = decimal_digits(n);
    if n < 10 {
        assert(s.drop_last() =~= Seq::<char>::empty());
        assert(digits_value(s) == digits_value(s.drop_last()) * 10 + n);
    } else {
        let p = decimal_digits(n / 10);
        lemma_digits_of(n / 10);
        assert(s.drop_last() =~= p);
        assert(s.last() == digit_char(n % 10));
        assert(digits_value(s) == (n / 10) * 10 + n % 10);
        assert(forall|i: int| 0 <= i < p.len() ==> #[trigger] s[i] == p[i]);
    }
}

impl NearGas {
    /// The amount in gas units written in decimal, digits only.
    pub fn to_decimal_string(self) -> (r: String)
        ensures
            r@ == decimal_digits(self@ as nat),
    {
        let digits = "0123456789";
        proof {
            reveal_strlit("0123456789");
        }
        let n = self.as_gas();
        let d = (n % 10) as usize;
        let mut acc = String::from_str(digits.substring_char(d, d + 1));
        let mut m = n / 10;
        assert(acc@ =~= seq![digit_char(n as nat % 10)]);
        while m > 0
            invariant
                digits@.len() == 10,
                forall|i: int| 0 <= i < 10 ==> #[trigger] digits@[i] == digit_char(i as nat),
                m > 0 ==> decimal_digits(n as nat) == decimal_digits(m as nat) + acc@,
                m == 0 ==> decimal_digits(n as nat) == acc@,
            decreases m,
        {
            let d = (m % 10) as usize;
            let digit = digits.substring_char(d, d + 1);
            assert(digit@ =~= seq![digit_char(m as nat % 10)]);
            let ghost before = acc@;
            acc = String::from_str(digit).concat(acc.as_str());
            if m >= 10 {
                assert(decimal_digits(m as nat) == decimal_digits(m as nat / 10).push(
                    digit_char(m as nat % 10),
                ));
                assert(decimal_digits(m as nat) + before =~= decimal_digits(m as nat / 10)
                    + acc@);
            } else {
                assert(decimal_digits(m as nat) + before =~= acc@);
            }
            m = m / 10;
        }
        acc
    }

    /// Reads an amount in gas units written in decimal, digits only; `None`
    /// where `s` is empty, holds anything but digits, or is more than
    /// `u64::MAX`.
    pub fn from_decimal_str(s: &str) -> (r: Option<NearGas>)
        ensures
            r is Some <==> s@.len() > 0 && all_digits(s@) && digits_value(s@) <= u64::MAX,
            r is Some ==> r->0@ == digits_value(s@),
    {
        let n = s.unicode_len();
        assert(s@.subrange(0, n as int) =~= s@);
        if n == 0 || !digits_between(s, 0, n) {
            return None;
        }
        match digits_number(s, 0, n) {
            Some(v) => Some(NearGas::from_gas(v)),
            None => None,
        }
    }
}

} // verus!
