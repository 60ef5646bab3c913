//! The wall clock, and the ISO-8601 text of an instant.

use vstd::prelude::*;
use crate::model::{opt_text, Timestamp};

verus! {

/// The RFC 3339 text that `chrono` writes for the UTC instant `micros`
/// microseconds after the Unix epoch, or `None` where `chrono` has no date
/// for that instant.
pub uninterp spec fn rfc3339_text(micros: int) -> Option<Seq<char>>;

/// `chrono::Utc::now`, read as microseconds since the Unix epoch with
/// `DateTime::timestamp_micros`. Nothing is claimed of the result: it is
/// whatever the clock of the machine says. Where that clock stands before
/// 1970, `chrono` panics.
#[verifier::external_body]
fn utc_now_micros() -> (micros: i64) {
    chrono::Utc::now().timestamp_micros()
}

/// `chrono::DateTime::from_timestamp_micros` followed by
/// `DateTime::to_rfc3339`. Believed, not proved: the result depends on
/// `micros` alone, and is `None` exactly where `chrono` has no date for it.
#[verifier::external_body]
fn rfc3339_of_micros(micros: i64) -> (text: Option<String>)
    ensures
        opt_text(text) == rfc3339_text(micros as int),
{
    match chrono::DateTime::from_timestamp_micros(micros) {
        Some(t) => Some(t.to_rfc3339()),
        None => None,
    }
}

impl Timestamp {
    /// The present instant, as the clock of the machine has it. Nothing
    /// can be said of it beforehand, nor of how two readings compare.
    pub fn now() -> (t: Timestamp) {
        Timestamp { micros: utc_now_micros() }
    }

    /// The instant as ISO-8601 text with its time zone, such as
    /// `2022-09-11T18:34:48+00:00`.
    pub fn to_rfc3339(&self) -> (text: Option<String>)
        ensures
            opt_text(text) == rfc3339_text(self.micros as int),
    {
        rfc3339_of_micros(self.micros)
    }

    /// The stamp that a change at the instant `now` leaves on a record last
    /// changed at this instant: `now` where that is later, else the very
    /// next microsecond, so that each change moves the stamp forward even
    /// while the clock stands still or is set back.
    pub open spec fn spec_stamp_after(self, now: Timestamp) -> Timestamp {
        if now.micros > self.micros {
            now
        } else if self.micros < i64::MAX {
            Timestamp { micros: (self.micros + 1) as i64 }
        } else {
            self
        }
    }

    /// The stamp that a change at the instant `now` leaves on a record last
    /// changed at this instant.
    pub fn stamp_after(self, now: Timestamp) -> (t: Timestamp)
        ensures
            t == self.spec_stamp_after(now),
            t.micros >= self.micros,
            self.micros < i64::MAX ==> t.micros > self.micros,
    {
        if now.micros > self.micros {
            now
        } else if self.micros < i64::MAX {
            Timestamp { micros: self.micros + 1 }
        } else {
            self
        }
    }
}

} // verus!
