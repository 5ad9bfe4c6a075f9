//! Identifier synthesis for extracted lazy-load boundaries: classifies lexical
//! path segments and derives deterministic display, symbol and file names with
//! a stable fingerprint.
use vstd::prelude::*;

pub mod component;
pub mod segment;

verus! {

/// True for the ASCII decimal digits `0` through `9`.
pub open spec fn is_ascii_digit_char(c: char) -> bool {
    48 <= c as u32 && c as u32 <= 57
}

/// True for ASCII letters and digits, the characters sanitization keeps.
pub open spec fn is_alnum_char(c: char) -> bool {
    (48 <= c as u32 && c as u32 <= 57)
    || (65 <= c as u32 && c as u32 <= 90)
    || (97 <= c as u32 && c as u32 <= 122)
}

} // verus!
