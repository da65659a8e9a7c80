//! Instants on the UTC timeline, and the calendar days they fall on.

use vstd::prelude::*;

verus! {

/// Length of one UTC calendar day, in seconds.
pub const SECONDS_PER_DAY: i64 = 86_400;

/// The first instant of the supported calendar: midnight that begins
/// 1 January of the year -262143.
pub const MIN_SECONDS: i64 = -8_334_601_228_800;

/// The last instant of the supported calendar: the final second of
/// 31 December of the year 262142.
pub const MAX_SECONDS: i64 = 8_210_266_876_799;

/// Whether `secs` seconds after the Unix epoch lies within the supported
/// calendar.
pub open spec fn in_calendar(secs: int) -> bool {
    MIN_SECONDS <= secs <= MAX_SECONDS
}

/// The number of the UTC calendar day that holds the instant `secs`, counted
/// from the day of the Unix epoch (day 0). Days before the epoch are negative.
pub open spec fn day_of(secs: int) -> int {
    secs / (SECONDS_PER_DAY as int)
}

/// The instant one calendar day after `secs`, computed by chrono's
/// `DateTime::<Utc>::from_timestamp` and `DateTime::checked_add_days` with
/// `Days::new(1)`, and read back with `DateTime::timestamp`.
///
/// Trusted: on the UTC timeline chrono moves the date forward by one and keeps
/// the time of day, which is `SECONDS_PER_DAY` seconds later; it yields
/// nothing when `secs` or the day after it lies outside its calendar, whose
/// bounds are `MIN_SECONDS` and `MAX_SECONDS`.
#[verifier::external_body]
fn add_calendar_day(secs: i64) -> (r: Option<i64>)
    ensures
        r == (if in_calendar(secs as int) && in_calendar(secs + SECONDS_PER_DAY) {
            Some((secs + SECONDS_PER_DAY) as i64)
        } else {
            None
        }),
{
    let start = chrono::DateTime::from_timestamp(secs, 0)?;
    let next = start.checked_add_days(chrono::Days::new(1))?;
    Some(next.timestamp())
}

/// The instant `days` calendar days before `secs`, computed by chrono's
/// `DateTime::<Utc>::from_timestamp` and `DateTime::checked_sub_days`, and
/// read back with `DateTime::timestamp`.
///
/// Trusted: on the UTC timeline chrono moves the date back by `days` and
/// keeps the time of day, which is `days * SECONDS_PER_DAY` seconds earlier;
/// it yields nothing when `secs` or the result lies outside its calendar.
#[verifier::external_body]
fn sub_calendar_days(secs: i64, days: u64) -> (r: Option<i64>)
    ensures
        r == (if in_calendar(secs as int) && in_calendar(secs - days * SECONDS_PER_DAY) {
            Some((secs - days * SECONDS_PER_DAY) as i64)
        } else {
            None
        }),
{
    let start = chrono::DateTime::from_timestamp(secs, 0)?;
    let earlier = start.checked_sub_days(chrono::Days::new(days))?;
    Some(earlier.timestamp())
}

/// The text that chrono's `DateTime::<Utc>::to_rfc3339` gives for the instant
/// `secs` seconds after the Unix epoch: its date and time of day in UTC as
/// RFC 3339 writes them.
pub uninterp spec fn rfc3339_text(secs: int) -> Seq<char>;

/// The instant `secs` written by chrono's `DateTime::<Utc>::to_rfc3339`,
/// after `DateTime::from_timestamp`.
///
/// Trusted: the text is a function of the instant alone, and there is one
/// for every instant of the calendar and for no other.
#[verifier::external_body]
fn format_rfc3339(secs: i64) -> (r: Option<String>)
    ensures
        match r {
            Some(text) => in_calendar(secs as int) && text@ == rfc3339_text(secs as int),
            None => !in_calendar(secs as int),
        },
{
    let instant = chrono::DateTime::from_timestamp(secs, 0)?;
    Some(instant.to_rfc3339())
}

/// A point in time: whole seconds since the Unix epoch, UTC, within the
/// supported calendar.
#[derive(Clone, Copy, Debug, PartialEq, Eq, Structural, PartialOrd, Ord, Hash)]
pub struct Timestamp {
    secs: i64,
}

impl View for Timestamp {
    type V = int;

    closed spec fn view(&self) -> int {
        self.secs as int
    }
}

/// The view of an instant that may be absent.
pub open spec fn instant_view(instant: Option<Timestamp>) -> Option<int> {
    match instant {
        Some(t) => Some(t@),
        None => None,
    }
}

/// Two instants with the same view are the same instant.
pub proof fn lemma_same_view_same_instant(a: Timestamp, b: Timestamp)
    requires
        a@ == b@,
    ensures
        a == b,
{
}

impl Timestamp {
    #[verifier::type_invariant]
    spec fn within_calendar(self) -> bool {
        in_calendar(self.secs as int)
    }

    /// The instant `secs` seconds after the Unix epoch, or `None` when that
    /// lies outside the supported calendar.
    pub fn from_secs(secs: i64) -> (r: Option<Timestamp>)
        ensures
            in_calendar(secs as int) ==> (r matches Some(t) && t@ == secs),
            !in_calendar(secs as int) ==> r is None,
    {
        if MIN_SECONDS <= secs && secs <= MAX_SECONDS {
            Some(Timestamp { secs })
        } else {
            None
        }
    }

    /// Seconds since the Unix epoch.
    pub fn secs(&self) -> (s: i64)
        ensures
            s == self@,
            in_calendar(self@),
    {
        proof {
            use_type_invariant(self);
        }
        self.secs
    }

    /// The same time of day on the next calendar day, or `None` when that
    /// lies past the end of the supported calendar.
    pub fn next_day(&self) -> (r: Option<Timestamp>)
        ensures
            in_calendar(self@ + SECONDS_PER_DAY) ==> (r matches Some(t) && t@ == self@
                + SECONDS_PER_DAY),
            !in_calendar(self@ + SECONDS_PER_DAY) ==> r is None,
    {
        proof {
            use_type_invariant(self);
        }
        match add_calendar_day(self.secs) {
            Some(secs) => Some(Timestamp { secs }),
            None => None,
        }
    }

    /// The same time of day `days` calendar days earlier, or `None` when
    /// that lies before the start of the supported calendar.
    pub fn days_before(&self, days: u64) -> (r: Option<Timestamp>)
        ensures
            in_calendar(self@ - days * SECONDS_PER_DAY) ==> (r matches Some(t) && t@ == self@ - days
                * SECONDS_PER_DAY),
            !in_calendar(self@ - days * SECONDS_PER_DAY) ==> r is None,
    {
        proof {
            use_type_invariant(self);
        }
        match sub_calendar_days(self.secs, days) {
            Some(secs) => Some(Timestamp { secs }),
            None => None,
        }
    }

    /// This instant as RFC 3339 writes it, in UTC.
    pub fn to_rfc3339(&self) -> (text: String)
        ensures
            text@ == rfc3339_text(self@),
    {
        proof {
            use_type_invariant(self);
        }
        match format_rfc3339(self.secs) {
            Some(text) => text,
            None => String::new(),
        }
    }

    /// The number of the calendar day that holds this instant.
    pub fn day(&self) -> (d: i64)
        ensures
            d == day_of(self@),
            in_calendar(self@),
    {
        proof {
            use_type_invariant(self);
        }
        match self.secs.checked_div_euclid(SECONDS_PER_DAY) {
            Some(d) => d,
            None => 0,
        }
    }
}

} // verus!
