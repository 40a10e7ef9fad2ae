//! Tidying the text that a page hands back.
//!
//! A page's value arrives as the text of a JSON string: in double quotes,
//! and often with blanks around what matters.

use vstd::prelude::*;

verus! {

/// The text without the double quotes around it, where it both starts and
/// ends with one.  A lone double quote is both, and leaves nothing.
pub open spec fn unquoted(text: Seq<char>) -> Seq<char> {
    if text.len() > 0 && text.first() == '"' && text.last() == '"' {
        if text.len() >= 2 {
            text.subrange(1, text.len() - 1)
        } else {
            Seq::empty()
        }
    } else {
        text
    }
}

/// What `str::trim` makes of a text: the text without the white space at its
/// start and at its end.
pub uninterp spec fn trimmed(text: Seq<char>) -> Seq<char>;

/// The text without the white space at its start and at its end.
///
/// Calls `str::trim`.  Which characters count as white space is Unicode's
/// matter, so the result goes by the name `trimmed`.
#[verifier::external_body]
pub(crate) fn trim<'a>(text: &'a str) -> (inner: &'a str)
    ensures
        inner@ == trimmed(text@),
{
    text.trim()
}

/// Takes the double quotes off a text that both starts and ends with one.
pub fn strip_quotes(text: &str) -> (inner: String)
    ensures
        inner@ == unquoted(text@),
{
    let len = text.unicode_len();
    if len > 0 && text.get_char(0) == '"' && text.get_char(len - 1) == '"' {
        if len >= 2 {
            text.substring_char(1, len - 1).to_owned()
        } else {
            String::new()
        }
    } else {
        text.to_owned()
    }
}

/// The value in a page's raw text: the text without the double quotes around
/// it, and then without the white space around what is left.
pub fn clean_value(raw: &str) -> (value: String)
    ensures
        value@ == trimmed(unquoted(raw@)),
{
    let inner = strip_quotes(raw);
    trim(inner.as_str()).to_owned()
}

} // verus!
