//! Writing a native unsigned integer as a numeral of a given base.
use crate::digit::{char_map, digit_char};
use vstd::prelude::*;

verus! {

/// The numeral of `n` in base `base`: lowercase digits, most significant
/// first, with no leading zero but the one of `0` itself.
pub open spec fn encode(n: nat, base: nat) -> Seq<char>
    recommends
        2 <= base <= 36,
    decreases n,
    via encode_decreases
{
    if n < base || base < 2 {
        seq![digit_char(n)]
    } else {
        encode(n / base, base).push(digit_char(n % base))
    }
}

#[via_fn]
proof fn encode_decreases(n: nat, base: nat) {
    if !(n < base || base < 2) {
        assert(n / base < n) by (nonlinear_arith)
            requires
                n >= base,
                base >= 2,
        ;
    }
}

/// Relies on `String::push`: the character is appended at the end.
#[verifier::external_body]
pub(crate) fn push_char(s: &mut String, c: char)
    ensures
        final(s)@ == old(s)@.push(c),
{
    s.push(c);
}

/// Writes `in_dec` as a numeral of base `base`.
pub fn dec_to_base(in_dec: usize, base: usize) -> (r: String)
    requires
        2 <= base <= 36,
    ensures
        r@ == encode(in_dec as nat, base as nat),
{
    // Digits are gathered least significant first, then written out in
    // reverse.
    let mut rev: Vec<char> = Vec::new();
    let mut cur: usize = in_dec;
    while cur >= base
        invariant
            2 <= base <= 36,
            encode(in_dec as nat, base as nat) == encode(cur as nat, base as nat) + rev@.reverse(),
        decreases cur,
    {
        let d = char_map((cur % base) as u8).unwrap();
        proof {
            assert(rev@.push(d).reverse() =~= seq![d] + rev@.reverse());
            assert(encode(cur as nat, base as nat) + rev@.reverse() =~= encode(
                (cur / base) as nat,
                base as nat,
            ) + rev@.push(d).reverse());
        }
        rev.push(d);
        cur = cur / base;
    }
    let d = char_map(cur as u8).unwrap();
    proof {
        assert(rev@.push(d).reverse() =~= seq![d] + rev@.reverse());
    }
    rev.push(d);
    let mut out = String::new();
    let mut i: usize = rev.len();
    while i > 0
        invariant
            i <= rev@.len(),
            encode(in_dec as nat, base as nat) == rev@.reverse(),
            out@ =~= rev@.subrange(i as int, rev@.len() as int).reverse(),
        decreases i,
    {
        i -= 1;
        proof {
            assert(rev@.subrange(i as int, rev@.len() as int).reverse() =~= rev@.subrange(
                i + 1,
                rev@.len() as int,
            ).reverse().push(rev@[i as int]));
        }
        push_char(&mut out, rev[i]);
    }
    proof {
        assert(rev@.subrange(0, rev@.len() as int) =~= rev@);
    }
    out
}

} // verus!
