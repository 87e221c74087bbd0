//! The time of day, as the events are stamped with it.

use vstd::prelude::*;

verus! {

/// `time::OffsetDateTime`, a time with its offset from UTC. Nothing of what
/// it holds is seen here.
#[verifier::external_type_specification]
#[verifier::external_body]
pub struct ExOffsetDateTime(time::OffsetDateTime);

/// `time::error::IndeterminateOffset`, the error of a local offset that
/// cannot be found. It holds nothing.
#[verifier::external_type_specification]
#[verifier::external_body]
pub struct ExIndeterminateOffset(time::error::IndeterminateOffset);

/// `time::OffsetDateTime::now_local`. It reads the clock and asks the system
/// for the offset of the local time zone, so nothing is stated of what it
/// returns: the time with that offset, or an error where the offset cannot be
/// had.
pub assume_specification[ time::OffsetDateTime::now_local ]() -> (r: Result<
    time::OffsetDateTime,
    time::error::IndeterminateOffset,
>)
;

/// `time::OffsetDateTime::now_utc`. It reads the clock, so nothing is stated
/// of the time that it returns.
pub assume_specification[ time::OffsetDateTime::now_utc ]() -> (r: time::OffsetDateTime)
;

/// What RFC 3339 writes of a time, as the `time` crate has it; `None` for a
/// time that RFC 3339 cannot write.
pub uninterp spec fn rfc3339_text(at: time::OffsetDateTime) -> Option<Seq<char>>;

/// A text that may be missing, as the sequence of its characters.
pub open spec fn text_of(text: Option<String>) -> Option<Seq<char>> {
    match text {
        Some(text) => Some(text@),
        None => None,
    }
}

/// `time::OffsetDateTime::format` with the description
/// `time::format_description::well_known::Rfc3339`: the time as RFC 3339
/// writes it, or `None` where the call fails, as it does for a time that
/// RFC 3339 cannot write. The text depends on the time alone; what it holds
/// is not stated.
#[verifier::external_body]
fn rfc3339(at: time::OffsetDateTime) -> (r: Option<String>)
    ensures
        text_of(r) == rfc3339_text(at),
{
    at.format(&time::format_description::well_known::Rfc3339).ok()
}

/// What is written in place of a time that could not be had.
pub open spec fn unknown_time() -> Seq<char> {
    "<unknown time>"@
}

/// The time as it is written: the text of the time, or a mark in its place
/// where there is none.
pub open spec fn stamp(time: &Option<String>) -> Seq<char> {
    match *time {
        Some(text) => text@,
        None => unknown_time(),
    }
}

/// A clock that tells the local time and, where the local offset cannot be
/// found, the time in UTC.
#[derive(Clone, Copy, Debug)]
pub struct UtcOffsetTime;

impl UtcOffsetTime {
    /// The time now as RFC 3339 writes it; `None` where the time cannot be
    /// written so. The time is the local time where the clock gave one, and
    /// the time in UTC where it did not.
    pub fn format_time(&self) -> (r: Option<String>)
        ensures
            exists|at: time::OffsetDateTime| text_of(r) == #[trigger] rfc3339_text(at),
    {
        let ts = Self::local_or_utc(time::OffsetDateTime::now_local());
        rfc3339(ts)
    }

    /// The time to write, when `local` is what the clock gave for the local
    /// time: that time, where there is one. Where the local offset could not
    /// be found, the clock is read again for the time in UTC.
    pub fn local_or_utc(
        local: Result<time::OffsetDateTime, time::error::IndeterminateOffset>,
    ) -> (r: time::OffsetDateTime)
        ensures
            local matches Ok(at) ==> r == at,
    {
        match local {
            Ok(at) => at,
            Err(_) => time::OffsetDateTime::now_utc(),
        }
    }
}

} // verus!
