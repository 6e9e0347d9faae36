//! Points in time.
use vstd::prelude::*;
use vstd::string::*;

verus! {

/// A point in time: seconds since the start of 1970 in UTC, and nanoseconds.
#[derive(Clone, Copy, Debug, PartialEq, Eq, Structural)]
pub struct Instant {
    pub seconds: i64,
    pub nanos: u32,
}

impl Instant {
    /// Whether chrono has a date for a number of seconds: the years from -262143
    /// to 262142.
    pub open spec fn in_range(seconds: int) -> bool {
        -8334601228800 <= seconds <= 8210266876799
    }

    /// Whether this is a point in time that chrono can hold. More than a second's
    /// worth of nanoseconds stands for a leap second.
    pub open spec fn valid(self) -> bool {
        &&& Self::in_range(self.seconds as int)
        &&& self.nanos < 1_000_000_000 || (self.nanos < 2_000_000_000 && self.seconds % 60 == 59)
    }

    /// Whether the year is one of the four digits from 0000 to 9999.
    pub open spec fn ordinary(self) -> bool {
        -62167219200 <= self.seconds <= 253402300799
    }
}

/// The point in time that a text in the form of RFC 3339 names.
pub uninterp spec fn rfc3339_instant(text: Seq<char>) -> Option<Instant>;

/// The text in the form of RFC 3339 for a point in time, in UTC.
pub uninterp spec fn rfc3339_text(seconds: i64, nanos: u32) -> Seq<char>;

/// `chrono::DateTime::parse_from_rfc3339`, moved to UTC with `with_timezone`.
#[verifier::external_body]
pub(crate) fn parse_rfc3339(text: &str) -> (r: Option<Instant>)
    ensures
        r == rfc3339_instant(text@),
        r matches Some(t) ==> t.valid(),
{
    let parsed = chrono::DateTime::parse_from_rfc3339(text).ok()?;
    let utc = parsed.with_timezone(&chrono_tz::UTC);
    Some(Instant { seconds: utc.timestamp(), nanos: utc.timestamp_subsec_nanos() })
}

/// `chrono::DateTime::to_rfc3339` of a time in UTC. Where the year is one
/// from 0000 to 9999, `parse_from_rfc3339` reads the same time back; a leap second is
/// written and read as second 60.
#[verifier::external_body]
pub(crate) fn format_rfc3339(t: Instant) -> (r: String)
    requires
        t.valid(),
    ensures
        r@ == rfc3339_text(t.seconds, t.nanos),
        t.ordinary() ==> rfc3339_instant(r@) == Some(t),
{
    let utc = chrono::DateTime::from_timestamp(t.seconds, t.nanos).unwrap();
    utc.with_timezone(&chrono_tz::UTC).to_rfc3339()
}

/// `TimeZone::timestamp_opt` of `chrono::Utc` with no nanoseconds: the time so many
/// seconds after the start of 1970, and `None` outside chrono's years.
#[verifier::external_body]
pub(crate) fn instant_of_seconds(seconds: i64) -> (r: Option<Instant>)
    ensures
        r == (if Instant::in_range(seconds as int) {
            Some(Instant { seconds, nanos: 0 })
        } else {
            None
        }),
{
    let utc = chrono::TimeZone::timestamp_opt(&chrono::Utc, seconds, 0).single()?;
    let utc = utc.with_timezone(&chrono_tz::UTC);
    Some(Instant { seconds: utc.timestamp(), nanos: utc.timestamp_subsec_nanos() })
}

/// `chrono::Utc::now`, in whole seconds since the start of 1970. Nothing is
/// promised of what the clock says.
#[verifier::external_body]
pub(crate) fn seconds_now() -> i64 {
    chrono::Utc::now().timestamp()
}

}
