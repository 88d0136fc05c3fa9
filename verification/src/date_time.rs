//! Second-precision UTC timestamps bounded to year 9999, rendered as
//! RFC3339 text of exactly 25 characters with a numeric offset.

use vstd::prelude::*;

verus! {

/// The last second of year 9999: `9999-12-31T23:59:59Z`.
pub const MAX_DATE_TIME_SECS: u64 = 253402300799;

pub const MICROS_IN_SECOND: u64 = 1_000_000;

/// The RFC3339 rendering, at second precision with a numeric offset, of a
/// timestamp given in seconds since the epoch.
pub uninterp spec fn rfc3339_of(secs: u64) -> Seq<char>;

/// A UTC timestamp at second precision, bounded to year 9999.
#[derive(Debug, Clone, Copy, PartialEq, Eq, Structural, PartialOrd, Ord)]
pub struct DateTime {
    pub secs: u64,
}

impl DateTime {
    /// Timestamps stay within year 9999.
    pub open spec fn wf(&self) -> bool {
        self.secs <= MAX_DATE_TIME_SECS
    }

    /// The seconds since the epoch of this timestamp.
    pub open spec fn spec_secs(&self) -> u64 {
        self.secs
    }

    /// The RFC3339 text of this timestamp.
    pub open spec fn spec_text(&self) -> Seq<char> {
        rfc3339_of(self.secs)
    }

    /// Builds a timestamp from seconds since the epoch; rejects times
    /// beyond year 9999.
    pub fn new(secs: u64) -> (r: Result<DateTime, String>)
        ensures
            r is Ok <==> secs <= MAX_DATE_TIME_SECS,
            r is Ok ==> r.unwrap().secs == secs && r.unwrap().wf(),
            r is Err ==> r->Err_0@ == "Failed to convert timestamp to date time"@,
    {
        if secs <= MAX_DATE_TIME_SECS {
            Ok(DateTime { secs })
        } else {
            Err(String::from_str("Failed to convert timestamp to date time"))
        }
    }

    /// Builds a timestamp from microseconds since the epoch, truncating to
    /// whole seconds; rejects times beyond year 9999.
    pub fn from_timestamp_micros(micros: u64) -> (r: Result<DateTime, String>)
        ensures
            r is Ok <==> micros / MICROS_IN_SECOND <= MAX_DATE_TIME_SECS,
            r is Ok ==> r.unwrap().secs == micros / MICROS_IN_SECOND && r.unwrap().wf(),
            r is Err ==> r->Err_0@ == "Failed to convert timestamp to date time"@,
    {
        Self::new(micros / MICROS_IN_SECOND)
    }

    /// The microseconds since the epoch of this timestamp.
    pub fn timestamp_micros(&self) -> (r: u64)
        requires
            self.wf(),
        ensures
            r == self.secs * MICROS_IN_SECOND,
    {
        self.secs * MICROS_IN_SECOND
    }

    /// The epoch.
    pub fn min() -> (r: DateTime)
        ensures
            r.secs == 0,
            r.wf(),
    {
        DateTime { secs: 0 }
    }

    /// The last representable timestamp, in year 9999.
    pub fn max() -> (r: Result<DateTime, String>)
        ensures
            r is Ok,
            r.unwrap().secs == MAX_DATE_TIME_SECS,
            r.unwrap().wf(),
    {
        Ok(DateTime { secs: MAX_DATE_TIME_SECS })
    }

    /// The RFC3339 text of this timestamp: 25 ASCII characters.
    pub fn to_string(&self) -> (s: String)
        requires
            self.wf(),
        ensures
            s@ == rfc3339_of(self.secs),
            s@.len() == 25,
            vstd::utf8::is_ascii_chars(s@),
    {
        format_rfc3339(self.secs)
    }
}

/// Relies on chrono: `DateTime::from_timestamp` followed by
/// `to_rfc3339_opts` at second precision with a numeric offset renders a
/// timestamp within year 9999 as exactly 25 ASCII characters, a function
/// of the timestamp alone.
#[verifier::external_body]
fn format_rfc3339(secs: u64) -> (s: String)
    requires
        secs <= MAX_DATE_TIME_SECS,
    ensures
        s@ == rfc3339_of(secs),
        s@.len() == 25,
        vstd::utf8::is_ascii_chars(s@),
{
    chrono::DateTime::<chrono::Utc>::from_timestamp(secs as i64, 0).unwrap().to_rfc3339_opts(
        chrono::SecondsFormat::Secs,
        false,
    )
}

} // verus!
