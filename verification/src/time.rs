//! Instants, and their textual form in requests.

use vstd::prelude::*;

verus! {

/// An instant on the UTC time line: whole seconds since
/// 1970-01-01T00:00:00Z, and the nanoseconds into that second.
#[derive(Clone, Copy, Debug, PartialEq, Eq, PartialOrd, Ord)]
pub struct Timestamp {
    pub secs: i64,
    pub nanos: u32,
}

/// The ISO 8601 text of the instant `secs`, `nanos` in UTC, with a trailing
/// `Z`, or `None` if the calendar cannot represent the instant.
pub uninterp spec fn utc_text(secs: i64, nanos: u32) -> Option<Seq<char>>;

/// Calls `chrono::DateTime::<Utc>::from_timestamp` and renders the instant
/// with chrono's `Debug` implementation.  The contract only names the
/// outcome: it is `utc_text` of the two numbers, absent exactly when chrono
/// rejects them.
#[verifier::external_body]
pub(crate) fn render_utc(secs: i64, nanos: u32) -> (r: Option<String>)
    ensures
        r.deep_view() == utc_text(secs, nanos),
{
    match chrono::DateTime::from_timestamp(secs, nanos) {
        Some(instant) => Some(format!("{:?}", instant)),
        None => None,
    }
}

impl Timestamp {
    /// The text of this instant as a request parameter carries it.
    pub open spec fn text(&self) -> Option<Seq<char>> {
        utc_text(self.secs, self.nanos)
    }

    /// Renders the instant for use in a request; `None` if it lies outside
    /// the calendar.
    pub fn render(&self) -> (r: Option<String>)
        ensures
            r.deep_view() == self.text(),
    {
        render_utc(self.secs, self.nanos)
    }
}

} // verus!
