//! Points in time: seconds since the Unix epoch together with the offset of
//! the local clock from UTC. `chrono` is the authority on which values are
//! dates at all, and the source of the current time.

use vstd::prelude::*;

verus! {

/// What a [`Timestamp`] stands for.
pub struct Instant {
    /// Seconds since 1970-01-01T00:00:00Z, ignoring leap seconds.
    pub epoch: int,
    /// Seconds to add to the local time to reach UTC.
    pub utc_minus_local: int,
}

impl Instant {
    /// The day on which the moment falls on the local clock, counted from
    /// the first of January 1970.
    pub open spec fn local_day(self) -> int {
        (self.epoch - self.utc_minus_local) / 86_400
    }
}

/// The first second of `chrono`'s calendar: midnight before the first of
/// January of the year -262143, in seconds since the Unix epoch.
pub const FIRST_SECOND: i64 = -8_334_601_228_800;

/// The last second of `chrono`'s calendar: the one before midnight after the
/// last of December of the year 262142, in seconds since the Unix epoch.
pub const LAST_SECOND: i64 = 8_210_266_876_799;

/// Whether `chrono` can represent `secs` seconds since the Unix epoch as a
/// date and time, that is, whether `DateTime::from_timestamp(secs, 0)` is
/// `Some`: the seconds of the days that `chrono::NaiveDate` has.
pub open spec fn in_calendar(secs: int) -> bool {
    FIRST_SECOND <= secs <= LAST_SECOND
}

/// Whether `secs` is an offset from UTC that `chrono::FixedOffset` accepts:
/// strictly less than a day in either direction.
pub open spec fn offset_in_range(secs: int) -> bool {
    -86_400 < secs < 86_400
}

impl Instant {
    /// Whether this is a moment that `chrono` has a date and an offset for.
    pub open spec fn is_moment(self) -> bool {
        in_calendar(self.epoch) && offset_in_range(self.utc_minus_local)
    }
}

/// A point in time with second precision, as seen from a clock at a fixed
/// offset from UTC.
#[derive(Clone, Copy, Debug, PartialEq, Eq, Structural)]
pub struct Timestamp {
    secs: i64,
    utc_minus_local: i32,
}

impl View for Timestamp {
    type V = Instant;

    closed spec fn view(&self) -> Instant {
        Instant { epoch: self.secs as int, utc_minus_local: self.utc_minus_local as int }
    }
}

/// Asks `chrono::DateTime::from_timestamp` whether `secs` whole seconds since
/// the epoch is a date in its calendar. Its source takes the day that the
/// seconds fall on and admits the days from `NaiveDate::MIN` to
/// `NaiveDate::MAX`, whose seconds are those from `FIRST_SECOND` to
/// `LAST_SECOND`.
#[verifier::external_body]
fn calendar_holds(secs: i64) -> (ok: bool)
    ensures
        ok == in_calendar(secs as int),
{
    chrono::DateTime::from_timestamp(secs, 0).is_some()
}

/// Asks `chrono::FixedOffset::west_opt` whether it accepts `secs`. Its source
/// admits exactly the offsets strictly between -86400 and 86400 seconds.
#[verifier::external_body]
fn offset_holds(secs: i32) -> (ok: bool)
    ensures
        ok == offset_in_range(secs as int),
{
    chrono::FixedOffset::west_opt(secs).is_some()
}

/// Reads the local clock through `chrono::Local::now` and keeps the whole
/// seconds and the offset from UTC. Which time is read is not known. What
/// is claimed holds of any: `chrono` makes the time read with
/// `from_timestamp` from these very seconds, so that the seconds are in its
/// calendar, and gives its offset as a `FixedOffset`, which is never a day or
/// more. `chrono` panics when the system clock is set before 1970.
#[verifier::external_body]
fn local_now() -> (t: Timestamp)
    ensures
        in_calendar(t.secs as int),
        offset_in_range(t.utc_minus_local as int),
{
    let now = chrono::Local::now();
    Timestamp { secs: now.timestamp(), utc_minus_local: now.offset().utc_minus_local() }
}

impl Timestamp {
    /// The timestamp `secs` seconds after the epoch on a clock `utc_minus_local`
    /// seconds behind UTC, if `chrono` has such a date and such an offset.
    pub fn new(secs: i64, utc_minus_local: i32) -> (t: Option<Timestamp>)
        ensures
            t.is_some() <==> in_calendar(secs as int) && offset_in_range(utc_minus_local as int),
            t matches Some(t) ==> t@ == (Instant {
                epoch: secs as int,
                utc_minus_local: utc_minus_local as int,
            }) && t@.is_moment(),
    {
        if calendar_holds(secs) && offset_holds(utc_minus_local) {
            Some(Timestamp { secs, utc_minus_local })
        } else {
            None
        }
    }

    /// The seconds of a timestamp fit in 64 bits and its offset in 32, so that
    /// they can be read off its view as such integers.
    pub proof fn view_in_range(&self)
        ensures
            i64::MIN <= self@.epoch <= i64::MAX,
            i32::MIN <= self@.utc_minus_local <= i32::MAX,
            self@.epoch as i64 == self@.epoch,
            self@.utc_minus_local as i32 == self@.utc_minus_local,
    {
    }

    /// The current time on the local clock: whatever the clock says, a
    /// moment that `chrono` has a date and an offset for.
    pub fn now() -> (now: Timestamp)
        ensures
            now@.is_moment(),
    {
        local_now()
    }

    /// Seconds since the Unix epoch.
    pub fn epoch_secs(&self) -> (secs: i64)
        ensures
            secs == self@.epoch,
    {
        self.secs
    }

    /// The day on which the moment falls on the local clock, counted from
    /// the first of January 1970.
    pub fn local_day(&self) -> (day: i64)
        ensures
            day == self@.local_day(),
    {
        let local: i128 = self.secs as i128 - self.utc_minus_local as i128;
        if local >= 0 {
            let days: u128 = local as u128 / 86_400;
            days as i64
        } else {
            let back: u128 = (-local) as u128;
            let days: u128 = (back + 86_399) / 86_400;
            -(days as i64)
        }
    }

    /// Seconds to add to the local time to reach UTC.
    pub fn utc_offset(&self) -> (secs: i32)
        ensures
            secs == self@.utc_minus_local,
    {
        self.utc_minus_local
    }
}

} // verus!
