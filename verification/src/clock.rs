//! Timestamps.
//!
//! All times in the engine are UNIX timestamps in whole seconds, held as
//! `i64`. The chrono crate decides which timestamps denote representable
//! instants; the library refers to that decision only through the name
//! `unix_ts_in_range`.

use vstd::prelude::*;

verus! {

/// Whether `chrono::DateTime::<Utc>::from_timestamp(secs, 0)` returns
/// `Some`: the timestamp denotes a representable instant.
pub uninterp spec fn unix_ts_in_range(secs: i64) -> bool;

/// Relies on `chrono::DateTime::<Utc>::from_timestamp` and
/// `DateTime::timestamp`: the former succeeds exactly on the representable
/// range, and the latter gives back the seconds it was built from.
#[verifier::external_body]
pub fn unix_ts_validate(secs: i64) -> (r: Option<i64>)
    ensures
        r is Some <==> unix_ts_in_range(secs),
        r matches Some(v) ==> v == secs,
{
    chrono::DateTime::<chrono::Utc>::from_timestamp(secs, 0).map(|d| d.timestamp())
}

/// Relies on `chrono::Utc::now`: the current time; nothing is assumed of
/// the value.
#[verifier::external_body]
pub fn now_unix_ts() -> i64 {
    chrono::Utc::now().timestamp()
}

} // verus!
