//! The one time source of the library: the current moment as a Unix
//! timestamp. Document types store timestamps as plain epoch seconds.

use vstd::prelude::*;

verus! {

/// Relies on `chrono::Utc::now` (converted with `DateTime::timestamp`) for
/// the current time. Nothing is promised of the value: it depends on the
/// clock, not on any argument.
#[verifier::external_body]
pub(crate) fn now_epoch_seconds() -> i64 {
    chrono::Utc::now().timestamp()
}

} // verus!
