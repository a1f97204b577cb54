//! The one place the current time enters the library.

use vstd::prelude::*;

verus! {

/// Relies on `chrono::Utc::now`: the current Unix time in seconds.
/// Nothing is assumed of the value.
#[verifier::external_body]
pub fn now_timestamp() -> i64 {
    chrono::Utc::now().timestamp()
}

} // verus!
