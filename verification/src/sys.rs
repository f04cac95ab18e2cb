//! Trusted access to the machine's clock and to the random token source. Both
//! results depend on the environment, so nothing names them: callers state
//! what holds of every outcome.

use vstd::prelude::*;

verus! {

/// Lower bound of any timestamp the time crate can represent (year -9999).
pub const MIN_UNIX_TIME: i64 = -377_705_116_800;

/// Upper bound of any timestamp the time crate can represent (year 9999).
pub const MAX_UNIX_TIME: i64 = 253_402_300_799;

/// Reads the current time as whole seconds since the Unix epoch.
///
/// Relies on time's `OffsetDateTime::now_utc` and `unix_timestamp`: without
/// the large-dates feature every representable instant lies between the years
/// -9999 and 9999 inclusive, so the timestamp lies within those bounds.
#[verifier::external_body]
pub fn now_unix() -> (r: i64)
    ensures
        MIN_UNIX_TIME <= r <= MAX_UNIX_TIME,
{
    time::OffsetDateTime::now_utc().unix_timestamp()
}

/// Draws a fresh random opaque identifier, used for uids and session tokens.
///
/// Relies on uuid's `Uuid::new_v4` and its `Display`: a version-4 UUID is
/// full-entropy random (122 bits) and renders in hyphenated lowercase form,
/// which is exactly 36 characters long. Randomness gives no uniqueness
/// guarantee, so callers must check for collisions themselves.
#[verifier::external_body]
pub fn fresh_uuid() -> (r: String)
    ensures
        r@.len() == 36,
{
    uuid::Uuid::new_v4().to_string()
}

} // verus!
