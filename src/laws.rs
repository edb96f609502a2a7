//! Laws that tie the decoder, the encoder and the conversion together.
use crate::convert::{convert_spec, is_negative, magnitude, magnitude_digits, value_check};
use crate::decode::{all_digits_in, decode_numeral, has_radix_prefix, value_of};
use crate::digit::{digit_char, digit_of, is_digit_in, law_digit_round_trip};
use crate::encode::encode;
use crate::error::ConvertError;
use vstd::prelude::*;

verus! {

/// The numeral that `encode` writes is not empty, holds only digits of its
/// base, reads back as the number it was made from, and starts with `0` only
/// where that number is zero.
proof fn lemma_encode_reads_back(n: nat, base: nat)
    requires
        2 <= base <= 36,
    ensures
        encode(n, base).len() >= 1,
        all_digits_in(encode(n, base), base),
        value_of(encode(n, base), base) == n,
        n > 0 ==> encode(n, base)[0] != '0',
        encode(n, base).len() >= 2 ==> n >= base,
    decreases n,
{
    let e = encode(n, base);
    if n < base {
        law_digit_round_trip(n);
        assert(e.drop_last() =~= Seq::<char>::empty());
        assert(value_of(e.drop_last(), base) == 0);
        assert(0 * base == 0);
    } else {
        let q = n / base;
        let r = n % base;
        assert(q < n && q > 0 && r < base && n == q * base + r) by (nonlinear_arith)
            requires
                n >= base,
                base >= 2,
                q == n / base,
                r == n % base,
        ;
        lemma_encode_reads_back(q, base);
        law_digit_round_trip(r);
        assert(e.drop_last() =~= encode(q, base));
        assert(e.last() == digit_char(r));
        assert(value_of(e, base) == q * base + r);
        assert forall|i: int| 0 <= i < e.len() implies is_digit_in(#[trigger] e[i], base) by {
            if i < e.len() - 1 {
                assert(e[i] == encode(q, base)[i]);
            }
        }
    }
}

/// Zero is written `0` in every base.
pub proof fn law_zero_encodes(base: nat)
    requires
        2 <= base <= 36,
    ensures
        encode(0, base) == seq!['0'],
{
}

/// Decoding what the encoder wrote for `m` in a base gives `m` back.
pub proof fn law_round_trip(m: usize, base: nat)
    requires
        2 <= base <= 36,
    ensures
        decode_numeral(encode(m as nat, base), base) == Ok::<
            usize,
            ConvertError,
        >(m),
{
    lemma_encode_reads_back(m as nat, base);
    assert(!has_radix_prefix(encode(m as nat, base)));
}

/// Converting a numeral with a minus sign gives the conversion of the
/// numeral without it, with the sign put back; an error stays the same.
pub proof fn law_sign_preserved(src: nat, dst: nat, v: Seq<char>)
    requires
        2 <= src <= 36,
        2 <= dst <= 36,
        !is_negative(v),
    ensures
        convert_spec(src, dst, seq!['-'] + v) == match convert_spec(src, dst, v) {
            Ok(s) => Ok(seq!['-'] + s),
            Err(e) => Err::<Seq<char>, ConvertError>(e),
        },
{
    let w = seq!['-'] + v;
    assert(is_negative(w));
    assert(magnitude(w) =~= v);
    assert(magnitude(v) == v);
}

/// In base 36 a value passes the digit check exactly when every character
/// after its sign and radix prefix is an ASCII letter or decimal digit.
pub proof fn law_base36_takes_alphanumerics(v: Seq<char>)
    ensures
        value_check(v, 36) is Ok <==> forall|i: int|
            0 <= i < magnitude_digits(v, 36).len() ==> (#[trigger] digit_of(
                magnitude_digits(v, 36)[i],
            )) is Some,
{
    let d = magnitude_digits(v, 36);
    assert forall|i: int| 0 <= i < d.len() implies (is_digit_in(#[trigger] d[i], 36) <==> digit_of(
        d[i],
    ) is Some) by {}
}

} // verus!
