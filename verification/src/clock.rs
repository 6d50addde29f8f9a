//! The wall clock. Instants are milliseconds since the Unix epoch (UTC).

use vstd::prelude::*;

verus! {

/// `chrono::Utc::now().timestamp_millis()`: the current instant. Nothing is
/// claimed of it: it depends on the time of the call.
#[verifier::external_body]
pub fn now_millis() -> i64 {
    chrono::Utc::now().timestamp_millis()
}

/// An instant the clock can read: a value a call of `now_millis` can
/// return. Nothing else makes one.
pub open spec fn clock_reading(t: i64) -> bool {
    call_ensures(now_millis, (), t)
}

} // verus!
