//! Instants and RFC3339 timestamps.
//!
//! The credential record carries its absolute expiry as an RFC3339 text,
//! while the reuse policy compares instants.  Instants are modelled as
//! whole seconds since the Unix epoch; the conversions between epoch
//! seconds and RFC3339 text are done by the `chrono` crate behind the
//! trusted items below.

use vstd::prelude::*;

use chrono::{DateTime, Utc};

verus! {

/// The instant that an RFC3339 timestamp text denotes, in whole seconds
/// since the Unix epoch, or nothing when the text is not a valid RFC3339
/// timestamp.  The result depends on the text alone.
pub uninterp spec fn rfc3339_epoch(s: Seq<char>) -> Option<i64>;

/// The largest epoch second this library will format: the last second of
/// year 9999, safely inside the range `chrono` can represent.
pub const MAX_FORMAT_EPOCH: i64 = 253402300799;

/// Relies on chrono's `DateTime::parse_from_rfc3339` and
/// `DateTime::timestamp`: parsing is a pure function of the text, and the
/// timestamp of the parsed value is its instant in epoch seconds.
#[verifier::external_body]
pub fn parse_rfc3339(s: &str) -> (r: Option<i64>)
    ensures
        r == rfc3339_epoch(s@),
{
    match DateTime::parse_from_rfc3339(s) {
        Ok(dt) => Some(dt.timestamp()),
        Err(_) => None,
    }
}

/// Relies on chrono's `DateTime::from_timestamp` (defined on every epoch
/// second up to [`MAX_FORMAT_EPOCH`]), `DateTime::to_rfc3339` (which
/// renders the instant as a valid RFC3339 text), and
/// `DateTime::parse_from_rfc3339` with `DateTime::timestamp` (which read
/// that text back as the same instant).
#[verifier::external_body]
pub fn format_rfc3339(epoch: i64) -> (r: String)
    requires
        0 <= epoch <= MAX_FORMAT_EPOCH,
    ensures
        rfc3339_epoch(r@) == Some(epoch),
        r@.len() > 0,
{
    let dt: DateTime<Utc> = DateTime::from_timestamp(epoch, 0).unwrap();
    dt.to_rfc3339()
}

/// Relies on chrono's `Utc::now` and `DateTime::timestamp`: the current
/// instant in epoch seconds.  Nothing is promised of the clock's value.
#[verifier::external_body]
pub fn now_epoch() -> i64 {
    Utc::now().timestamp()
}

} // verus!
