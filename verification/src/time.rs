//! Instants as the database stores them: RFC 3339 text, read and written
//! with `chrono`.

use vstd::prelude::*;

use crate::text::opt_view;

verus! {

/// An instant: whole seconds since the Unix epoch and the nanoseconds past
/// them (above 999,999,999 only during a leap second, as `chrono` counts).
#[derive(Clone, Copy, PartialEq, Eq, Structural)]
pub struct Timestamp {
    pub unix_seconds: i64,
    pub nanos: u32,
}

/// The instant `chrono::DateTime::parse_from_rfc3339` reads from `text`,
/// taken in UTC; `None` when it rejects the text.
pub uninterp spec fn spec_parse_rfc3339(text: Seq<char>) -> Option<Timestamp>;

/// The text `chrono::DateTime::<Utc>::to_rfc3339` writes for the instant
/// that `chrono::DateTime::from_timestamp` builds from `ts`; `None` when
/// `from_timestamp` rejects it.
pub uninterp spec fn spec_format_rfc3339(ts: Timestamp) -> Option<Seq<char>>;

/// Parses `text` with `chrono::DateTime::parse_from_rfc3339` and reads the
/// instant's `timestamp()` and `timestamp_subsec_nanos()`. The result is only
/// tied to the name `spec_parse_rfc3339`.
#[verifier::external_body]
fn parse_rfc3339(text: &str) -> (res: Option<Timestamp>)
    ensures
        res == spec_parse_rfc3339(text@),
{
    match chrono::DateTime::parse_from_rfc3339(text) {
        Ok(dt) => Some(Timestamp { unix_seconds: dt.timestamp(), nanos: dt.timestamp_subsec_nanos() }),
        Err(_) => None,
    }
}

/// Builds the UTC instant with `chrono::DateTime::from_timestamp` and writes
/// it with `to_rfc3339`. The result is only tied to the name
/// `spec_format_rfc3339`.
#[verifier::external_body]
fn format_rfc3339(ts: Timestamp) -> (res: Option<String>)
    ensures
        opt_view(res) == spec_format_rfc3339(ts),
{
    match chrono::DateTime::from_timestamp(ts.unix_seconds, ts.nanos) {
        Some(dt) => Some(dt.to_rfc3339()),
        None => None,
    }
}

/// Reads a stored instant; `None` when the text is not RFC 3339.
pub fn parse_time(text: &str) -> (res: Option<Timestamp>)
    ensures
        res == spec_parse_rfc3339(text@),
{
    parse_rfc3339(text)
}

/// The text an instant is stored as; `None` for an instant outside
/// `chrono`'s range.
pub fn encode_time(ts: Timestamp) -> (res: Option<String>)
    ensures
        opt_view(res) == spec_format_rfc3339(ts),
{
    format_rfc3339(ts)
}

} // verus!
