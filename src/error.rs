//! Why a conversion or its arguments are refused.
use vstd::prelude::*;

verus! {

/// A failed conversion, with what the message about it needs.
#[derive(Debug, PartialEq, Eq)]
pub enum ConvertError {
    /// The number of arguments is not three.
    Usage,
    /// The base argument, as given, is not an integer from 2 to 36.
    InvalidBase(String),
    /// This character is not a digit of the source base.
    InvalidDigit(char),
    /// There are no digits to read.
    EmptyValue,
    /// The value does not fit in a `usize`.
    Overflow,
}

} // verus!
