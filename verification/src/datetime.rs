//! Timestamps.  A document's datetime is kept as the raw text the
//! author wrote plus the instant it denotes; the instant orders the
//! page index.  Parsing the two accepted notations is an outside
//! capability of the calendar library.

use vstd::prelude::*;

verus! {

/// The instant — seconds since the epoch and the nanosecond remainder —
/// that a datetime string in the offset notation denotes, or `None`
/// when it does not parse.  The parse depends on the string alone.
pub uninterp spec fn rfc3339_instant(s: Seq<char>) -> Option<(i64, u32)>;

/// The instant a datetime string in the space-separated notation
/// `YYYY-MM-DD HH:MM:SS +ZZZZ` denotes, or `None`.  The parse depends
/// on the string alone.
pub uninterp spec fn legacy_instant(s: Seq<char>) -> Option<(i64, u32)>;

/// Relies on chrono's `DateTime::parse_from_rfc3339`, with `timestamp`
/// and `timestamp_subsec_nanos` converting the parsed value to plain
/// numbers: the result is a function of the string alone.
#[verifier::external_body]
fn chrono_parse_rfc3339(s: &str) -> (r: Option<(i64, u32)>)
    ensures
        r == rfc3339_instant(s@),
{
    match chrono::DateTime::parse_from_rfc3339(s) {
        Ok(d) => Some((d.timestamp(), d.timestamp_subsec_nanos())),
        Err(_) => None,
    }
}

/// Relies on chrono's `DateTime::parse_from_str` with the fixed format
/// string `%Y-%m-%d %H:%M:%S %z`: the result is a function of the
/// datetime string alone.
#[verifier::external_body]
fn chrono_parse_legacy(s: &str) -> (r: Option<(i64, u32)>)
    ensures
        r == legacy_instant(s@),
{
    match chrono::DateTime::parse_from_str(s, "%Y-%m-%d %H:%M:%S %z") {
        Ok(d) => Some((d.timestamp(), d.timestamp_subsec_nanos())),
        Err(_) => None,
    }
}

/// A parsed timestamp: the raw text as written, and the instant it
/// denotes.
#[derive(Debug, Clone)]
pub struct Timestamp {
    pub raw: String,
    pub epoch_secs: i64,
    pub nanos: u32,
}

impl Timestamp {
    /// The instant really is what the raw text denotes, in one of the
    /// two accepted notations.
    pub open spec fn wf(self) -> bool {
        rfc3339_instant(self.raw@) == Some((self.epoch_secs, self.nanos)) || legacy_instant(
            self.raw@,
        ) == Some((self.epoch_secs, self.nanos))
    }

    /// Parses a datetime written in the offset notation.
    pub fn parse(raw: String) -> (r: Option<Timestamp>)
        ensures
            r matches Some(t) ==> t.wf() && t.raw@ == raw@ && rfc3339_instant(raw@) == Some(
                (t.epoch_secs, t.nanos),
            ),
            r is None <==> rfc3339_instant(raw@) is None,
    {
        match chrono_parse_rfc3339(raw.as_str()) {
            Some((secs, nanos)) => Some(Timestamp { raw, epoch_secs: secs, nanos }),
            None => None,
        }
    }

    /// Parses a datetime written in the space-separated notation.
    pub fn parse_legacy(raw: String) -> (r: Option<Timestamp>)
        ensures
            r matches Some(t) ==> t.wf() && t.raw@ == raw@ && legacy_instant(raw@) == Some(
                (t.epoch_secs, t.nanos),
            ),
            r is None <==> legacy_instant(raw@) is None,
    {
        match chrono_parse_legacy(raw.as_str()) {
            Some((secs, nanos)) => Some(Timestamp { raw, epoch_secs: secs, nanos }),
            None => None,
        }
    }

    /// The instant as an ordering key.
    pub open spec fn key(self) -> (int, int) {
        (self.epoch_secs as int, self.nanos as int)
    }
}

/// `a` denotes an instant at or after `b`: the order in which the page
/// index lists two timestamps.
pub open spec fn at_or_after(a: Timestamp, b: Timestamp) -> bool {
    a.epoch_secs > b.epoch_secs || (a.epoch_secs == b.epoch_secs && a.nanos >= b.nanos)
}

/// Executable form of `at_or_after`.
pub fn cmp_at_or_after(a: &Timestamp, b: &Timestamp) -> (r: bool)
    ensures
        r == at_or_after(*a, *b),
{
    a.epoch_secs > b.epoch_secs || (a.epoch_secs == b.epoch_secs && a.nanos >= b.nanos)
}

} // verus!
