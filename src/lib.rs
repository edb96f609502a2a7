//! Conversion of textual numerals between positional bases 2 to 36.
pub mod decode;
pub mod convert;
pub mod digit;
pub mod encode;
pub mod error;
pub mod laws;
