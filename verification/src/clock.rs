//! The wall clock.

use vstd::prelude::*;

verus! {

/// The local date and time of this moment, such as `Mar 07 14:05:09 2025`.
///
/// Calls `chrono::Local::now` and formats what it returns with
/// `%b %d %H:%M:%S %Y`.  Nothing is claimed of the text: it is read from the
/// system clock and the machine's time zone.  chrono does not return where
/// the system clock stands before 1970.
#[verifier::external_body]
pub(crate) fn get_current_date_time() -> (now: String) {
    chrono::Local::now().format("%b %d %H:%M:%S %Y").to_string()
}

} // verus!
