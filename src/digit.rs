//! The digit codec: digit values 0 to 35 and their characters.
use vstd::prelude::*;

verus! {

/// The value of `c` read as a digit: `0`-`9` are 0-9, and `a`-`z` or
/// `A`-`Z` are 10-35.
pub open spec fn digit_of(c: char) -> Option<nat> {
    if '0' <= c && c <= '9' {
        Some((c as u32 - '0' as u32) as nat)
    } else if 'a' <= c && c <= 'z' {
        Some((c as u32 - 'a' as u32 + 10) as nat)
    } else if 'A' <= c && c <= 'Z' {
        Some((c as u32 - 'A' as u32 + 10) as nat)
    } else {
        None
    }
}

/// The lowercase character of the digit value `d`, for `d < 36`.
pub open spec fn digit_char(d: nat) -> char
    recommends
        d < 36,
{
    if d < 10 {
        (d + '0' as u32) as char
    } else {
        (d - 10 + 'a' as u32) as char
    }
}

/// Whether `c` is a digit whose value is below `base`.
pub open spec fn is_digit_in(c: char, base: nat) -> bool {
    &&& digit_of(c) is Some
    &&& digit_of(c)->0 < base
}

/// The character of the digit value `i`, or `None` when `i` is above 35.
pub fn char_map(i: u8) -> (r: Option<char>)
    ensures
        r == (if i < 36 {
            Some(digit_char(i as nat))
        } else {
            None
        }),
{
    if i < 10 {
        Some((i + 48) as char)
    } else if i < 36 {
        Some((i + 87) as char)
    } else {
        None
    }
}

/// The value of the digit `c`, in either case, or `None` when `c` is not an
/// ASCII letter or decimal digit.
pub fn map_char(c: char) -> (r: Option<u8>)
    ensures
        r matches Some(v) ==> digit_of(c) == Some(v as nat),
        r is None <==> digit_of(c) is None,
{
    if '0' <= c && c <= '9' {
        Some((c as u32 - 48) as u8)
    } else if 'a' <= c && c <= 'z' {
        Some((c as u32 - 87) as u8)
    } else if 'A' <= c && c <= 'Z' {
        Some((c as u32 - 55) as u8)
    } else {
        None
    }
}

/// Reading back the character of a digit value gives that value.
pub proof fn law_digit_round_trip(d: nat)
    requires
        d < 36,
    ensures
        digit_of(digit_char(d)) == Some(d),
{
}

} // verus!
