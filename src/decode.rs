//! Reading a numeral of a given base into a native unsigned integer.
use crate::digit::{digit_of, is_digit_in, map_char};
use crate::error::ConvertError;
use vstd::prelude::*;

verus! {

/// The value of the digits `d` in base `base`, most significant first.
pub open spec fn value_of(d: Seq<char>, base: nat) -> nat
    decreases d.len(),
{
    if d.len() == 0 {
        0
    } else {
        value_of(d.drop_last(), base) * base + digit_of(d.last()).unwrap_or(0)
    }
}

/// Whether every character of `d` is a digit below `base`.
pub open spec fn all_digits_in(d: Seq<char>, base: nat) -> bool {
    forall|i: int| 0 <= i < d.len() ==> is_digit_in(#[trigger] d[i], base)
}

/// The index of the first character of `d` that is not a digit below `base`,
/// or the length of `d` when there is none.
pub open spec fn first_invalid(d: Seq<char>, base: nat) -> nat
    decreases d.len(),
{
    if d.len() == 0 || !is_digit_in(d[0], base) {
        0
    } else {
        1 + first_invalid(d.drop_first(), base)
    }
}

/// What is wrong with `d` as the digits of a numeral in base `base`, if
/// anything: it holds a character that is no such digit.
pub open spec fn digit_check(d: Seq<char>, base: nat) -> Result<(), ConvertError> {
    if !all_digits_in(d, base) {
        Err(ConvertError::InvalidDigit(d[first_invalid(d, base) as int]))
    } else {
        Ok(())
    }
}

/// The outcome of summing the digits `d` of base `base` into a `usize`; no
/// digits at all sum to 0.
pub open spec fn digits_value(d: Seq<char>, base: nat) -> Result<usize, ConvertError> {
    match digit_check(d, base) {
        Err(e) => Err(e),
        Ok(_) => if value_of(d, base) <= usize::MAX {
            Ok(value_of(d, base) as usize)
        } else {
            Err(ConvertError::Overflow)
        },
    }
}

/// The outcome of reading the digits `d` of base `base` into a `usize`,
/// where at least one digit is owed.
pub open spec fn decode_digits(d: Seq<char>, base: nat) -> Result<usize, ConvertError> {
    if d.len() == 0 {
        Err(ConvertError::EmptyValue)
    } else {
        digits_value(d, base)
    }
}

/// The outcome of reading the numeral `s` of base `base` into a `usize`: an
/// empty numeral is refused, and a radix prefix is dropped before the rest
/// is summed, so that a prefix alone reads as 0.
pub open spec fn decode_numeral(s: Seq<char>, base: nat) -> Result<usize, ConvertError> {
    if s.len() == 0 {
        Err(ConvertError::EmptyValue)
    } else {
        digits_value(strip_radix_prefix(s), base)
    }
}

/// Whether `s` begins with one of the radix prefixes `0x`, `0b` or `0o`.
pub open spec fn has_radix_prefix(s: Seq<char>) -> bool {
    &&& s.len() >= 2
    &&& s[0] == '0'
    &&& (s[1] == 'x' || s[1] == 'b' || s[1] == 'o')
}

/// `s` without its radix prefix, if it has one.
pub open spec fn strip_radix_prefix(s: Seq<char>) -> Seq<char> {
    if has_radix_prefix(s) {
        s.subrange(2, s.len() as int)
    } else {
        s
    }
}

/// Where `d` holds valid digits up to `i` and an invalid one at `i`, that is
/// the first invalid one.
proof fn lemma_first_invalid_at(d: Seq<char>, base: nat, i: int)
    requires
        0 <= i < d.len(),
        forall|j: int| 0 <= j < i ==> is_digit_in(#[trigger] d[j], base),
        !is_digit_in(d[i], base),
    ensures
        first_invalid(d, base) == i,
    decreases i,
{
    if i > 0 {
        lemma_first_invalid_at(d.drop_first(), base, i - 1);
    }
}

/// Appending a digit never makes the value of a numeral smaller.
proof fn lemma_value_of_prefix(d: Seq<char>, base: nat, i: int)
    requires
        base >= 1,
        0 <= i <= d.len(),
    ensures
        value_of(d.take(i), base) <= value_of(d, base),
    decreases d.len() - i,
{
    if i < d.len() {
        lemma_value_of_prefix(d, base, i + 1);
        let t = d.take(i + 1);
        assert(t.drop_last() =~= d.take(i));
        assert(value_of(d.take(i), base) <= value_of(d.take(i), base) * base) by (nonlinear_arith)
            requires
                base >= 1,
        ;
    } else {
        assert(d.take(i) =~= d);
    }
}

/// Finds the first character of `s` that is not a digit below `base`.
pub(crate) fn check_digits(s: &str, base: usize) -> (r: Result<(), ConvertError>)
    ensures
        r == digit_check(s@, base as nat),
{
    let n = s.unicode_len();
    let mut i: usize = 0;
    while i < n
        invariant
            n == s@.len(),
            i <= n,
            forall|j: int| 0 <= j < i ==> is_digit_in(#[trigger] s@[j], base as nat),
        decreases n - i,
    {
        let c = s.get_char(i);
        match map_char(c) {
            Some(v) if (v as usize) < base => {},
            _ => {
                proof {
                    lemma_first_invalid_at(s@, base as nat, i as int);
                }
                return Err(ConvertError::InvalidDigit(c));
            },
        }
        i += 1;
    }
    Ok(())
}

/// Sums the digits `s` of base `base`, most significant first; no digits
/// sum to 0.
fn sum_digits(s: &str, base: usize) -> (r: Result<usize, ConvertError>)
    requires
        2 <= base <= 36,
    ensures
        r == digits_value(s@, base as nat),
{
    match check_digits(s, base) {
        Err(e) => {
            return Err(e);
        },
        Ok(_) => {},
    }
    let n = s.unicode_len();
    let mut acc: usize = 0;
    let mut i: usize = 0;
    while i < n
        invariant
            n == s@.len(),
            i <= n,
            2 <= base <= 36,
            all_digits_in(s@, base as nat),
            acc as nat == value_of(s@.take(i as int), base as nat),
        decreases n - i,
    {
        let c = s.get_char(i);
        let v = match map_char(c) {
            Some(v) => v,
            None => {
                assert(is_digit_in(s@[i as int], base as nat));
                return Err(ConvertError::InvalidDigit(c));
            },
        };
        proof {
            assert(s@.take(i + 1).drop_last() =~= s@.take(i as int));
            lemma_value_of_prefix(s@, base as nat, i + 1);
        }
        let next = match acc.checked_mul(base) {
            Some(m) => m.checked_add(v as usize),
            None => None,
        };
        match next {
            Some(a) => {
                acc = a;
            },
            None => {
                return Err(ConvertError::Overflow);
            },
        }
        i += 1;
    }
    proof {
        assert(s@.take(n as int) =~= s@);
    }
    Ok(acc)
}

} // verus!

verus! {

/// Reads `s` as digits of base `base`, most significant first, with no prefix
/// and no sign. At least one digit is owed.
pub fn parse_digits(s: &str, base: usize) -> (r: Result<usize, ConvertError>)
    requires
        2 <= base <= 36,
    ensures
        r == decode_digits(s@, base as nat),
{
    if s.unicode_len() == 0 {
        return Err(ConvertError::EmptyValue);
    }
    sum_digits(s, base)
}

/// Strips a radix prefix from `s`, if it has one.
pub(crate) fn without_radix_prefix(s: &str) -> (r: &str)
    ensures
        r@ == strip_radix_prefix(s@),
{
    let n = s.unicode_len();
    if n >= 2 {
        let c0 = s.get_char(0);
        let c1 = s.get_char(1);
        if c0 == '0' && (c1 == 'x' || c1 == 'b' || c1 == 'o') {
            return s.substring_char(2, n);
        }
    }
    s
}

/// Reads the numeral `in_val` of base `base` into a `usize`. A leading
/// `0x`, `0b` or `0o` is dropped whatever the base, and such a prefix with
/// nothing after it reads as 0.
pub fn base_to_dec(in_val: &str, base: usize) -> (r: Result<usize, ConvertError>)
    requires
        2 <= base <= 36,
    ensures
        r == decode_numeral(in_val@, base as nat),
        has_radix_prefix(in_val@) && in_val@.len() == 2 ==> r == Ok::<usize, ConvertError>(0),
{
    if in_val.unicode_len() == 0 {
        return Err(ConvertError::EmptyValue);
    }
    sum_digits(without_radix_prefix(in_val), base)
}

} // verus!
