//! What the library takes from the outside world: the time of day and fresh
//! random identifiers. Nothing in this file is proved; each function states
//! what its crate's source shows of every result.

use vstd::prelude::*;

use crate::post::Timestamp;

verus! {

/// Whether `bits`, read as a UUID in big-endian order, carries version 4 in
/// its version field and `10` in the two highest bits of its variant field.
pub open spec fn is_random_uuid(bits: u128) -> bool {
    bits & 0xF000_C000_0000_0000_0000u128 == 0x4000_8000_0000_0000_0000u128
}

/// Draws a random UUID with `uuid::Uuid::new_v4` and packs its sixteen bytes
/// into an integer with `Uuid::as_u128`.
///
/// `new_v4` takes 128 bits from the operating system's generator, clears the
/// version and variant fields and sets them to version 4 and variant `10`;
/// the contract claims those two fields and nothing of the other 122 bits.
/// `new_v4` panics when the operating system cannot supply random bytes.
#[verifier::external_body]
pub(crate) fn random_uuid() -> (bits: u128)
    ensures
        is_random_uuid(bits),
{
    uuid::Uuid::new_v4().as_u128()
}

/// Reads the clock with `chrono::Utc::now` and takes the reading apart with
/// `DateTime::timestamp` and `DateTime::timestamp_subsec_nanos`, the pair
/// from which chrono rebuilds the same `DateTime<Utc>`.
///
/// Nothing is claimed of the reading: two calls may return any two instants.
/// `Utc::now` panics when the system clock stands before 1970.
#[verifier::external_body]
pub(crate) fn utc_now() -> (now: Timestamp) {
    let now = chrono::Utc::now();
    Timestamp { secs: now.timestamp(), nanos: now.timestamp_subsec_nanos() }
}

} // verus!
