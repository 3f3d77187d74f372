//! The time of an update, and the serial text that stands for it.

use vstd::prelude::*;

verus! {

/// A point in time: whole seconds since 1970-01-01 00:00:00 UTC, and the
/// nanoseconds since the last whole second.
#[derive(Clone, Copy, Debug, PartialEq, Eq, Structural)]
pub struct Timestamp {
    pub secs: i64,
    pub nanos: u32,
}

/// The text that chrono displays for the UTC date and time that lies `secs`
/// seconds and `nanos` nanoseconds after the epoch, where its calendar can
/// hold that time.
pub uninterp spec fn utc_display(secs: i64, nanos: u32) -> Option<Seq<char>>;

/// Calls `chrono::NaiveDateTime::from_timestamp_opt` and displays the result
/// as a `chrono::DateTime<UTC>`. The text is the one that chrono gives for
/// these two numbers, and there is none where chrono has no such date.
#[verifier::external_body]
pub(crate) fn format_utc(secs: i64, nanos: u32) -> (text: Option<String>)
    ensures
        text matches Some(t) ==> utc_display(secs, nanos) == Some(t@),
        text is None ==> utc_display(secs, nanos) is None,
{
    match chrono::NaiveDateTime::from_timestamp_opt(secs, nanos) {
        Some(naive) => Some(
            format!("{}", chrono::DateTime::<chrono::UTC>::from_utc(naive, chrono::UTC)),
        ),
        None => None,
    }
}

/// Calls `chrono::UTC::now`. Nothing is known of the time that it reads.
#[verifier::external_body]
pub(crate) fn utc_now() -> Timestamp {
    let now = chrono::UTC::now();
    Timestamp { secs: now.timestamp(), nanos: now.timestamp_subsec_nanos() }
}

impl Timestamp {
    /// The time `secs` seconds and `nanos` nanoseconds after the epoch.
    pub fn new(secs: i64, nanos: u32) -> (time: Timestamp)
        ensures
            time == (Timestamp { secs, nanos }),
    {
        Timestamp { secs, nanos }
    }

    /// The serial of this time: its date and time of day in UTC as text.
    /// There is none for a time that the calendar cannot hold.
    pub fn serial(&self) -> (text: Option<String>)
        ensures
            text matches Some(t) ==> utc_display(self.secs, self.nanos) == Some(t@),
            text is None ==> utc_display(self.secs, self.nanos) is None,
    {
        format_utc(self.secs, self.nanos)
    }
}

} // verus!
