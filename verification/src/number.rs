//! Decimal numbers in text.

use vstd::prelude::*;
use crate::text::chars_of;

verus! {

/// The character of a decimal digit.
pub open spec fn digit_char(d: int) -> char {
    (48 + d) as u8 as char
}

/// Whether a character is one of the ten ASCII digits.
pub open spec fn is_digit(c: char) -> bool {
    0x30 <= c as u32 <= 0x39
}

/// Whether a text is made of ASCII digits only.
pub open spec fn all_digits(s: Seq<char>) -> bool {
    forall|i: int| 0 <= i < s.len() ==> is_digit(#[trigger] s[i])
}

/// A number in decimal, without leading zeros.
pub open spec fn decimal(n: nat) -> Seq<char>
    decreases n,
{
    if n < 10 {
        seq![digit_char(n as int)]
    } else {
        decimal(n / 10).push(digit_char((n % 10) as int))
    }
}

/// The number that a row of digits stands for.
pub open spec fn number_of(s: Seq<char>) -> nat
    decreases s.len(),
{
    if s.len() == 0 {
        0
    } else {
        10 * number_of(s.drop_last()) + (s.last() as u32 - 0x30) as nat
    }
}

/// The number that `str::parse` reads from a text as a `u32`: decimal digits after an
/// optional plus sign, at least one of them, with a value that a `u32` holds.
pub open spec fn u32_text(s: Seq<char>) -> Option<u32> {
    let digits = if s.len() > 0 && s[0] == '+' {
        s.skip(1)
    } else {
        s
    };
    if digits.len() > 0 && all_digits(digits) && number_of(digits) <= u32::MAX {
        Some(number_of(digits) as u32)
    } else {
        None
    }
}

/// A number in decimal, without leading zeros.
pub(crate) fn decimal_text(n: u64) -> (r: String)
    ensures
        r@ == decimal(n as nat),
    decreases n,
{
    if n < 10 {
        let mut out = String::new();
        out.push((48 + n as u8) as char);
        assert(out@ =~= seq![digit_char(n as int)]);
        out
    } else {
        let mut out = decimal_text(n / 10);
        out.push((48 + (n % 10) as u8) as char);
        out
    }
}

/// The number that a text stands for, as `u32_text` says.
pub(crate) fn parse_u32(s: &str) -> (r: Option<u32>)
    ensures
        r == u32_text(s@),
{
    let v = chars_of(s);
    let start: usize = if v.len() > 0 && v[0] == '+' {
        1
    } else {
        0
    };
    let ghost digits = v@.skip(start as int);
    assert(start == 0 ==> digits =~= v@);
    if start == v.len() {
        return None;
    }
    let mut i: usize = start;
    let mut value: u64 = 0;
    let mut fits: bool = true;
    assert(digits.take(0) =~= Seq::empty());
    while i < v.len()
        invariant
            start <= i <= v@.len(),
            v@ == s@,
            digits == v@.skip(start as int),
            all_digits(digits.take(i - start)),
            fits ==> value == number_of(digits.take(i - start)) && value <= u32::MAX,
            !fits ==> number_of(digits.take(i - start)) > u32::MAX,
            start == (if v@.len() > 0 && v@[0] == '+' {
                1int
            } else {
                0
            }),
            start == 0 ==> digits == v@,
        decreases v@.len() - i,
    {
        let c = v[i];
        let u: u32 = c as u32;
        let ghost k = i - start;
        assert(digits[k] == c);
        if u < 0x30 || u > 0x39 {
            assert(!is_digit(digits[k]));
            assert(!all_digits(digits));
            return None;
        }
        assert(digits.take(k + 1).drop_last() =~= digits.take(k));
        assert(digits.take(k + 1).last() == c);
        assert(all_digits(digits.take(k + 1))) by {
            assert forall|j: int| 0 <= j < k + 1 implies is_digit(#[trigger] digits.take(k + 1)[j]) by {
                if j < k {
                    assert(digits.take(k + 1)[j] == digits.take(k)[j]);
                }
            }
        }
        if fits {
            value = 10 * value + (u - 0x30) as u64;
            if value > u32::MAX as u64 {
                fits = false;
            }
        }
        i += 1;
    }
    assert(digits.take(i - start) =~= digits);
    if fits {
        Some(value as u32)
    } else {
        None
    }
}

/// Reading back a number from its decimal text gives the number.
pub proof fn decimal_reads_back(n: nat)
    ensures
        all_digits(decimal(n)),
        decimal(n).len() > 0,
        number_of(decimal(n)) == n,
    decreases n,
{
    if n < 10 {
        let d = decimal(n);
        assert(d.drop_last() =~= Seq::empty());
        assert(number_of(d.drop_last()) == 0);
    } else {
        decimal_reads_back(n / 10);
        let d = decimal(n);
        assert(d.drop_last() =~= decimal(n / 10));
        assert forall|i: int| 0 <= i < d.len() implies is_digit(#[trigger] d[i]) by {
            if i < d.len() - 1 {
                assert(d[i] == decimal(n / 10)[i]);
            }
        }
    }
}

/// A number comes back from its decimal text, with and without a plus sign before it; a text with
/// anything else than digits, or without any, is no number.
pub proof fn only_digits_are_a_number(n: u32, s: Seq<char>, i: int)
    ensures
        u32_text(decimal(n as nat)) == Some(n),
        u32_text(seq!['+'] + decimal(n as nat)) == Some(n),
        0 < i < s.len() && !is_digit(s[i]) ==> u32_text(s) is None,
        s.len() > 0 && !is_digit(s[0]) && s[0] != '+' ==> u32_text(s) is None,
        u32_text(Seq::empty()) is None,
{
    decimal_reads_back(n as nat);
    let d = decimal(n as nat);
    assert(is_digit(d[0]));
    assert((seq!['+'] + d).skip(1) =~= d);
    if 0 < i < s.len() && !is_digit(s[i]) {
        assert(s.skip(1)[i - 1] == s[i]);
    }
}

/// A decimal text has no leading zero, and different numbers have different texts.
pub proof fn decimal_texts_are_unique(n: nat, m: nat)
    ensures
        n > 0 ==> decimal(n)[0] != '0',
        decimal(0) == seq!['0'],
        decimal(n) == decimal(m) ==> n == m,
    decreases n,
{
    decimal_reads_back(n);
    decimal_reads_back(m);
    if n >= 10 {
        decimal_texts_are_unique(n / 10, m);
        decimal_reads_back(n / 10);
        assert(decimal(n)[0] == decimal(n / 10)[0]);
    }
}

} // verus!
