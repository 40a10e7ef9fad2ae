//! Fresh ids for new rows.

use vstd::prelude::*;

verus! {

/// Whether `c` is a digit of Crockford's base 32: a decimal digit or an upper
/// case letter other than `I`, `L`, `O` and `U`.
pub open spec fn is_crockford_digit(c: char) -> bool {
    ||| '0' <= c <= '9'
    ||| ('A' <= c <= 'Z' && c != 'I' && c != 'L' && c != 'O' && c != 'U')
}

/// Whether `text` has the shape of a row id: 26 digits of Crockford's base 32.
pub open spec fn is_row_id(text: Seq<char>) -> bool {
    &&& text.len() == 26
    &&& forall|i: int| 0 <= i < text.len() ==> is_crockford_digit(#[trigger] text[i])
}

/// A fresh row id.
///
/// Calls `ulid::Ulid::new` and `Ulid::to_string`.  The id is made of the
/// system time and random bits, so only its shape is claimed: `to_string`
/// encodes the 128 bits as 26 digits of Crockford's base 32.
#[verifier::external_body]
pub(crate) fn new_row_id() -> (id: String)
    ensures
        is_row_id(id@),
{
    ulid::Ulid::new().to_string()
}

} // verus!
