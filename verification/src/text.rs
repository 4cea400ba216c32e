//! Comparing text, and reading a number from it.

use vstd::prelude::*;

verus! {

/// Whether two strings hold the same characters. This is `==` on `str`,
/// which std documents as equality of the two strings' contents; the
/// contract is taken from that and not proved here.
#[verifier::external_body]
pub(crate) fn same_text(a: &str, b: &str) -> (r: bool)
    ensures
        r == (a@ == b@),
{
    a == b
}

/// Whether a character is one of the ten decimal digits.
pub open spec fn is_digit(c: char) -> bool {
    '0' <= c && c <= '9'
}

/// The number a run of decimal digits stands for; 0 for the empty run.
pub open spec fn digits_value(digits: Seq<char>) -> int
    decreases digits.len(),
{
    if digits.len() == 0 {
        0
    } else {
        digits_value(digits.drop_last()) * 10 + (digits.last() as int - '0' as int)
    }
}

/// Whether a text is one or more decimal digits and nothing else.
pub open spec fn is_number(digits: Seq<char>) -> bool {
    digits.len() > 0 && forall|i: int| 0 <= i < digits.len() ==> is_digit(#[trigger] digits[i])
}

/// The integer a text stands for in decimal notation: an optional sign,
/// `+` or `-`, then one or more digits, and nothing before, between or
/// after. `None` for any other text.
pub open spec fn decimal_value(text: Seq<char>) -> Option<int> {
    if text.len() > 0 && text[0] == '-' {
        if is_number(text.skip(1)) {
            Some(-digits_value(text.skip(1)))
        } else {
            None
        }
    } else if text.len() > 0 && text[0] == '+' {
        if is_number(text.skip(1)) {
            Some(digits_value(text.skip(1)))
        } else {
            None
        }
    } else if is_number(text) {
        Some(digits_value(text))
    } else {
        None
    }
}

/// The 64-bit signed integer a text stands for in decimal notation, if it
/// stands for an integer and that integer fits.
pub open spec fn decimal_i64(text: Seq<char>) -> Option<i64> {
    match decimal_value(text) {
        Some(v) => if i64::MIN <= v <= i64::MAX {
            Some(v as i64)
        } else {
            None
        },
        None => None,
    }
}

/// A run of digits stands for no less than any run it starts with.
pub proof fn lemma_digits_grow(digits: Seq<char>, n: int)
    requires
        0 <= n <= digits.len(),
        forall|i: int| 0 <= i < digits.len() ==> is_digit(#[trigger] digits[i]),
    ensures
        0 <= digits_value(digits.take(n)) <= digits_value(digits),
    decreases digits.len() - n,
{
    if n == digits.len() {
        assert(digits.take(n) =~= digits);
        lemma_digits_nonnegative(digits);
    } else {
        lemma_digits_grow(digits, n + 1);
        let longer = digits.take(n + 1);
        assert(longer.drop_last() =~= digits.take(n));
        assert(longer.last() == digits[n]);
        lemma_digits_nonnegative(digits.take(n));
    }
}

/// A run of digits stands for a number that is not negative.
pub proof fn lemma_digits_nonnegative(digits: Seq<char>)
    requires
        forall|i: int| 0 <= i < digits.len() ==> is_digit(#[trigger] digits[i]),
    ensures
        0 <= digits_value(digits),
    decreases digits.len(),
{
    if digits.len() > 0 {
        lemma_digits_nonnegative(digits.drop_last());
        assert(is_digit(digits[digits.len() - 1]));
    }
}

/// Reads a 64-bit signed integer in decimal notation: an optional sign,
/// then one or more digits. Returns `None` for a text of any other form,
/// and for a number that does not fit.
pub fn parse_i64(text: &str) -> (r: Option<i64>)
    ensures
        r == decimal_i64(text@),
{
    let len = text.unicode_len();
    if len == 0 {
        return None;
    }
    let first = text.get_char(0);
    let negative = first == '-';
    let start: usize = if first == '-' || first == '+' {
        1
    } else {
        0
    };
    if start == len {
        return None;
    }
    let ghost digits = text@.skip(start as int);
    assert(digits.len() > 0);
    let limit: u128 = 9223372036854775808;
    let mut magnitude: u128 = 0;
    let mut i: usize = start;
    while i < len
        invariant
            start <= i <= len,
            len == text@.len(),
            first == text@[0],
            negative == (first == '-'),
            start == if first == '-' || first == '+' { 1usize } else { 0usize },
            start == 0 ==> digits =~= text@,
            digits == text@.skip(start as int),
            digits.len() == len - start,
            limit == 9223372036854775808,
            magnitude <= limit,
            magnitude == digits_value(digits.take(i - start)),
            forall|j: int| 0 <= j < i - start ==> is_digit(#[trigger] digits[j]),
        decreases len - i,
    {
        let c = text.get_char(i);
        if c < '0' || c > '9' {
            assert(!is_digit(digits[i - start]));
            return None;
        }
        let digit: u128 = (c as u32 - '0' as u32) as u128;
        magnitude = magnitude * 10 + digit;
        proof {
            let longer = digits.take(i + 1 - start);
            assert(longer.drop_last() =~= digits.take(i - start));
            assert(longer.last() == digits[i - start]);
        }
        if magnitude > limit {
            proof {
                if is_number(digits) {
                    lemma_digits_grow(digits, i + 1 - start);
                }
            }
            return None;
        }
        i += 1;
    }
    proof {
        assert(digits.take(len - start) =~= digits);
        assert(is_number(digits));
    }
    if negative {
        if magnitude == limit {
            Some(i64::MIN)
        } else {
            Some(-(magnitude as i64))
        }
    } else if magnitude == limit {
        None
    } else {
        Some(magnitude as i64)
    }
}

} // verus!
