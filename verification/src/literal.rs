//! Integer literals of the host language, read by the `syn` crate.

use vstd::prelude::*;
use crate::model::{DeclaredOffset, LayoutError};

verus! {

/// The value of `text` where it is one integer literal of the host language
/// that fits 64 bits; `None` for any other text.
pub uninterp spec fn literal_value(text: Seq<char>) -> Option<u64>;

/// Reads `text` as one integer literal.
///
/// Trusted: the body calls `syn::parse_str::<syn::LitInt>` on the text and
/// `syn::LitInt::base10_parse::<u64>` on the literal it gives. The contract
/// claims only that the outcome depends on the text alone, and calls it
/// `literal_value`; either call failing gives `None`.
#[verifier::external_body]
pub(crate) fn parse_literal(text: &str) -> (r: Option<u64>)
    ensures
        r == literal_value(text@),
{
    match syn::parse_str::<syn::LitInt>(text) {
        Ok(literal) => match literal.base10_parse::<u64>() {
            Ok(value) => Some(value),
            Err(_) => None,
        },
        Err(_) => None,
    }
}

/// The offset that a literal declares: its value where it was read and fits
/// the address space.
pub open spec fn offset_of_literal(parsed: Option<u64>) -> DeclaredOffset {
    match parsed {
        Some(value) => if value <= usize::MAX {
            DeclaredOffset::At(value as usize)
        } else {
            DeclaredOffset::Malformed
        },
        None => DeclaredOffset::Malformed,
    }
}

/// Turns what reading an offset literal gave into the declared offset.
pub fn offset_from_literal(parsed: Option<u64>) -> (r: DeclaredOffset)
    ensures
        r == offset_of_literal(parsed),
{
    match parsed {
        Some(value) => {
            if value <= usize::MAX as u64 {
                DeclaredOffset::At(value as usize)
            } else {
                DeclaredOffset::Malformed
            }
        },
        None => DeclaredOffset::Malformed,
    }
}

/// The total size that a literal asks for: its value where it was read and
/// fits the address space.
pub open spec fn size_of_literal(parsed: Option<u64>) -> Result<usize, LayoutError> {
    match parsed {
        Some(value) => if value <= usize::MAX {
            Ok(value as usize)
        } else {
            Err(LayoutError::MalformedSize)
        },
        None => Err(LayoutError::MalformedSize),
    }
}

/// Turns what reading a size literal gave into the desired total size.
pub fn size_from_literal(parsed: Option<u64>) -> (r: Result<usize, LayoutError>)
    ensures
        r == size_of_literal(parsed),
{
    match parsed {
        Some(value) => {
            if value <= usize::MAX as u64 {
                Ok(value as usize)
            } else {
                Err(LayoutError::MalformedSize)
            }
        },
        None => Err(LayoutError::MalformedSize),
    }
}

} // verus!
