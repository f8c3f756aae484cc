//! The wall clock, as the store stamps its rows.

use vstd::prelude::*;

verus! {

/// The current time in UTC as an RFC 3339 text, from `chrono::Utc::now` and
/// `chrono::DateTime::to_rfc3339`. Nothing is claimed of the text: it differs
/// from call to call. The call panics where the system clock stands before
/// 1970.
#[verifier::external_body]
pub(crate) fn utc_now() -> (now: String) {
    chrono::Utc::now().to_rfc3339()
}

} // verus!
