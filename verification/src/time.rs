//! Conversion of the reactor's millisecond clock into calendar timestamps.

use vstd::prelude::*;

verus! {

#[verifier::external_type_specification]
#[verifier::external_body]
pub struct ExNaiveDateTime(chrono::NaiveDateTime);

/// Relies on chrono's `DateTime::from_timestamp_millis` (read here in UTC,
/// so the naive timestamp is the value itself): it documents a timestamp for
/// every millisecond count within roughly 262,000 years of the common era,
/// and `None` only outside that range; the bound claimed here stays well
/// inside it.
#[verifier::external_body]
pub(crate) fn datetime_from_millis(millis: i64) -> (r: Option<chrono::NaiveDateTime>)
    ensures
        -8_000_000_000_000_000 <= millis <= 8_000_000_000_000_000 ==> r is Some,
{
    match chrono::DateTime::from_timestamp_millis(millis) {
        Some(dt) => Some(dt.naive_utc()),
        None => None,
    }
}

} // verus!
