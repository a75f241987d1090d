//! The two points where the library reads the host environment: the clock
//! and the random identifier source. Both are trusted wrappers; nothing is
//! promised of their results, and every caller must hold for all outcomes.

use vstd::prelude::*;

verus! {

/// Relies on chrono::Utc::now for the current wall-clock time, reported as
/// milliseconds since the Unix epoch. Nothing is promised of the value: the
/// clock is the environment's.
#[verifier::external_body]
pub fn now_ms() -> u64 {
    chrono::Utc::now().timestamp_millis() as u64
}

/// Relies on uuid::Uuid::new_v4 for a freshly drawn random identifier,
/// carried as its 128-bit value. Nothing is promised of the value: it is
/// random.
#[verifier::external_body]
pub fn fresh_id() -> u128 {
    uuid::Uuid::new_v4().as_u128()
}

} // verus!
