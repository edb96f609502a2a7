//! Converting a signed numeral from one base to another, and checking the
//! three arguments that ask for it.
use crate::decode::{
    base_to_dec, check_digits, decode_digits, decode_numeral, digit_check, parse_digits,
    strip_radix_prefix, without_radix_prefix,
};
use crate::encode::{dec_to_base, encode, push_char};
use crate::error::ConvertError;
use vstd::prelude::*;

verus! {

/// Whether the numeral `v` carries a minus sign.
pub open spec fn is_negative(v: Seq<char>) -> bool {
    v.len() > 0 && v[0] == '-'
}

/// The numeral `v` without its sign.
pub open spec fn magnitude(v: Seq<char>) -> Seq<char> {
    if is_negative(v) {
        v.drop_first()
    } else {
        v
    }
}

/// The digits of the numeral `v` of base `src`: a decimal one is read as it
/// stands, any other loses its radix prefix.
pub open spec fn magnitude_digits(v: Seq<char>, src: nat) -> Seq<char> {
    if src == 10 {
        magnitude(v)
    } else {
        strip_radix_prefix(magnitude(v))
    }
}

/// The outcome of reading the numeral `v` of base `src`, without its sign,
/// into a `usize`. A decimal numeral is read as it stands; one of any other
/// base may carry a radix prefix.
pub open spec fn decode_magnitude(v: Seq<char>, src: nat) -> Result<usize, ConvertError> {
    if src == 10 {
        decode_digits(magnitude(v), src)
    } else {
        decode_numeral(magnitude(v), src)
    }
}

/// The numeral `v` of base `src` written in base `dst`, sign kept, or why
/// it cannot be.
pub open spec fn convert_spec(src: nat, dst: nat, v: Seq<char>) -> Result<Seq<char>, ConvertError> {
    match decode_magnitude(v, src) {
        Err(e) => Err(e),
        Ok(n) => Ok(
            if is_negative(v) {
                seq!['-'] + encode(n as nat, dst)
            } else {
                encode(n as nat, dst)
            },
        ),
    }
}

/// What is wrong with the numeral `v` of base `src`, if anything: a
/// character after its sign (and, for a base other than 10, after its radix
/// prefix) is not a digit of `src`.
pub open spec fn value_check(v: Seq<char>, src: nat) -> Result<(), ConvertError> {
    digit_check(magnitude_digits(v, src), src)
}

/// The digits of a base argument: the argument without one leading `+`.
pub open spec fn unsigned_digits(s: Seq<char>) -> Seq<char> {
    if s.len() > 0 && s[0] == '+' {
        s.drop_first()
    } else {
        s
    }
}

/// The value of a base argument: a decimal integer from 2 to 36, written
/// with decimal digits after an optional `+`.
pub open spec fn base_arg(s: Seq<char>) -> Option<usize> {
    match decode_digits(unsigned_digits(s), 10) {
        Ok(b) => if 2 <= b <= 36 {
            Some(b)
        } else {
            None
        },
        Err(_) => None,
    }
}

/// Splits a leading minus sign off `val`.
fn split_sign(val: &str) -> (r: (bool, &str))
    ensures
        r.0 == is_negative(val@),
        r.1@ == magnitude(val@),
{
    let n = val.unicode_len();
    if n > 0 && val.get_char(0) == '-' {
        proof {
            assert(val@.subrange(1, n as int) =~= val@.drop_first());
        }
        (true, val.substring_char(1, n))
    } else {
        (false, val)
    }
}

/// Converts the numeral `val` from base `bases.0` to base `bases.1`. A
/// leading `-` is kept. A numeral of any base but 10 may carry a radix
/// prefix, which is dropped.
pub fn convert_value(bases: (usize, usize), val: &str) -> (r: Result<String, ConvertError>)
    requires
        2 <= bases.0 <= 36,
        2 <= bases.1 <= 36,
    ensures
        match r {
            Ok(s) => convert_spec(bases.0 as nat, bases.1 as nat, val@) == Ok::<
                Seq<char>,
                ConvertError,
            >(s@),
            Err(e) => convert_spec(bases.0 as nat, bases.1 as nat, val@) == Err::<
                Seq<char>,
                ConvertError,
            >(e),
        },
{
    let (is_neg, use_val) = split_sign(val);
    let dec = if bases.0 == 10 {
        parse_digits(use_val, 10)
    } else {
        base_to_dec(use_val, bases.0)
    };
    let n = match dec {
        Ok(n) => n,
        Err(e) => {
            return Err(e);
        },
    };
    let conv_val = dec_to_base(n, bases.1);
    if is_neg {
        let mut out = String::new();
        push_char(&mut out, '-');
        out.append(conv_val.as_str());
        Ok(out)
    } else {
        Ok(conv_val)
    }
}

/// Reads one base argument.
fn parse_base(s: &String) -> (r: Result<usize, ConvertError>)
    ensures
        match base_arg(s@) {
            Some(b) => r == Ok::<usize, ConvertError>(b),
            None => r matches Err(ConvertError::InvalidBase(t)) && t@ == s@,
        },
{
    let t = s.as_str();
    let n = t.unicode_len();
    let digits = if n > 0 && t.get_char(0) == '+' {
        proof {
            assert(t@.subrange(1, n as int) =~= t@.drop_first());
        }
        t.substring_char(1, n)
    } else {
        t
    };
    match parse_digits(digits, 10) {
        Ok(b) => if 2 <= b && b <= 36 {
            return Ok(b);
        },
        Err(_) => {},
    }
    Err(ConvertError::InvalidBase(s.clone()))
}

/// Checks the arguments source base, destination base and value, and
/// returns the two bases. A base may carry one leading `+`. In the value, a
/// leading `-`, and for a source base other than 10 a radix prefix after it,
/// are skipped; each character that is left must be a digit below the source
/// base. An empty value passes: its conversion reports it.
pub fn check_args(args: &Vec<String>) -> (r: Result<(usize, usize), ConvertError>)
    ensures
        args@.len() != 3 <==> r == Err::<(usize, usize), ConvertError>(ConvertError::Usage),
        args@.len() == 3 && base_arg(args@[0]@) is None ==> (r matches Err(
            ConvertError::InvalidBase(t),
        ) && t@ == args@[0]@),
        args@.len() == 3 && base_arg(args@[0]@) is Some && base_arg(args@[1]@) is None ==> (r matches Err(
            ConvertError::InvalidBase(t),
        ) && t@ == args@[1]@),
        args@.len() == 3 && base_arg(args@[0]@) is Some && base_arg(args@[1]@) is Some ==> {
            let src = base_arg(args@[0]@)->0;
            let dst = base_arg(args@[1]@)->0;
            match value_check(args@[2]@, src as nat) {
                Ok(_) => r == Ok::<(usize, usize), ConvertError>((src, dst)),
                Err(e) => r == Err::<(usize, usize), ConvertError>(e),
            }
        },
{
    if args.len() != 3 {
        return Err(ConvertError::Usage);
    }
    let src = match parse_base(&args[0]) {
        Ok(b) => b,
        Err(e) => {
            return Err(e);
        },
    };
    let dst = match parse_base(&args[1]) {
        Ok(b) => b,
        Err(e) => {
            return Err(e);
        },
    };
    let (_, use_val) = split_sign(args[2].as_str());
    let digits = if src == 10 {
        use_val
    } else {
        without_radix_prefix(use_val)
    };
    match check_digits(digits, src) {
        Ok(_) => Ok((src, dst)),
        Err(e) => Err(e),
    }
}

} // verus!
