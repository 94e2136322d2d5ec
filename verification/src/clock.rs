//! The wall clock.

use vstd::prelude::*;

verus! {

/// Reads the wall clock through `chrono::Utc::now` and gives the instant as
/// microseconds since the Unix epoch (`DateTime::timestamp_micros`).
///
/// Nothing is claimed of the value: two readings may differ in either
/// direction.
#[verifier::external_body]
pub(crate) fn now_micros() -> (now: i64) {
    chrono::Utc::now().timestamp_micros()
}

} // verus!
