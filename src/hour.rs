//! Hour instants, counted from the Unix epoch, and their `YYYY-MM-DD-HH` label.

use vstd::prelude::*;

verus! {

/// Seconds in one hour.
pub const SECS_PER_HOUR: i64 = 3600;

/// First hour that the library handles: 0000-01-01T00 (UTC-naive).
pub const MIN_HOUR: i64 = -17268672;

/// Last hour that the library handles: 9999-12-31T23 (UTC-naive).
pub const MAX_HOUR: i64 = 70389527;

/// An hour-aligned instant: the number of whole hours since 1970-01-01T00:00.
///
/// Its calendar year lies in 0000..=9999, the years that a four-digit label
/// can name.
#[derive(Clone, Copy, Debug, PartialEq, Eq, Structural)]
pub struct Hour {
    pub index: i64,
}

/// The label `YYYY-MM-DD-HH` of the UTC-naive instant `secs` seconds after the
/// Unix epoch, as chrono formats it.
pub uninterp spec fn ymdh_label(secs: int) -> Seq<char>;

/// Relies on chrono's `DateTime::from_timestamp` and its `%Y-%m-%d-%H` format:
/// the timestamp is out of chrono's range only outside years -262143..=262142,
/// so it is representable for every year 0000..=9999.
#[verifier::external_body]
fn format_ymdh(secs: i64) -> (r: Option<String>)
    ensures
        r matches Some(s) ==> s@ == ymdh_label(secs as int),
        -62167219200 <= secs <= 253402300799 ==> r is Some,
{
    match chrono::DateTime::from_timestamp(secs, 0) {
        Some(t) => Some(t.format("%Y-%m-%d-%H").to_string()),
        None => None,
    }
}

impl Hour {
    /// The hour lies in the handled years.
    pub open spec fn wf(self) -> bool {
        MIN_HOUR <= self.index <= MAX_HOUR
    }

    /// The first second of the hour, counted from the Unix epoch.
    pub open spec fn secs(self) -> int {
        self.index * 3600
    }

    /// The label of this hour, `YYYY-MM-DD-HH`.
    pub open spec fn label(self) -> Seq<char> {
        ymdh_label(self.secs())
    }

    /// The hour that holds the instant `secs` seconds after the Unix epoch
    /// (the timestamp truncated to its hour), or `None` where that hour lies
    /// outside the handled years.
    pub fn from_timestamp(secs: i64) -> (r: Option<Hour>)
        ensures
            match r {
                Some(h) => h.wf() && h.index == secs as int / 3600,
                None => !(MIN_HOUR <= secs as int / 3600 <= MAX_HOUR),
            },
    {
        if secs < MIN_HOUR * SECS_PER_HOUR || secs >= (MAX_HOUR + 1) * SECS_PER_HOUR {
            return None;
        }
        let index: i64 = if secs >= 0 {
            secs / SECS_PER_HOUR
        } else {
            let up: i64 = (-secs + (SECS_PER_HOUR - 1)) / SECS_PER_HOUR;
            -up
        };
        Some(Hour { index })
    }

    /// The hour that follows this one.
    pub fn next(self) -> (r: Hour)
        requires
            self.index < MAX_HOUR,
        ensures
            r.index == self.index + 1,
            r.wf() <== self.wf(),
    {
        Hour { index: self.index + 1 }
    }

    /// The first second of the hour, counted from the Unix epoch.
    pub fn timestamp(self) -> (r: i64)
        requires
            self.wf(),
        ensures
            r == self.secs(),
    {
        self.index * SECS_PER_HOUR
    }
}

/// The label `YYYY-MM-DD-HH` of `date`, as the archive API and the output
/// files name it.
pub fn to_ymdh(date: &Hour) -> (r: String)
    requires
        date.wf(),
    ensures
        r@ == date.label(),
{
    let secs = date.timestamp();
    match format_ymdh(secs) {
        Some(s) => s,
        // Not reached: every handled hour is within chrono's range.
        None => String::new(),
    }
}

} // verus!
