//! Sums of tracked time: per project over a span of days, and day by day.
//! A record counts for the day on which it started on its own clock.

use crate::clock::Timestamp;
use crate::project::Project;
use crate::record::{Record, RecordView};
use vstd::prelude::*;

verus! {

/// Whether `record` started on one of the days from `first` to `last`.
pub open spec fn counted(record: RecordView, first: int, last: int) -> bool {
    first <= record.start.local_day() <= last
}

/// The seconds that `record` adds to a sum over the days from `first` to
/// `last`, where an open record is measured up to `now`.
pub open spec fn share(record: RecordView, first: int, last: int, now: int) -> int {
    if counted(record, first, last) {
        record.elapsed_at(now)
    } else {
        0
    }
}

/// The seconds tracked by those of `records` that started on one of the
/// days from `first` to `last`.
pub open spec fn total(records: Seq<RecordView>, first: int, last: int, now: int) -> int
    decreases records.len(),
{
    if records.len() == 0 {
        0
    } else {
        total(records.drop_last(), first, last, now) + share(records.last(), first, last, now)
    }
}

/// A sum of seconds as far as 64 bits hold it.
pub open spec fn capped(secs: int) -> int {
    if secs > u64::MAX {
        u64::MAX as int
    } else {
        secs
    }
}

/// The seconds tracked on one day.
#[derive(Debug, Clone, Copy, PartialEq, Eq, Structural)]
pub struct DayTotal {
    /// The day, counted from the first of January 1970.
    pub day: i64,
    /// The seconds tracked by the records that started on it.
    pub seconds: u64,
}

/// The sums of `records` day by day: one for each run of records that
/// started on the same day, if that day is one from `first` to `last`.
pub open spec fn daily(records: Seq<RecordView>, first: int, last: int, now: int) -> Seq<
    (int, int),
>
    decreases records.len(),
{
    if records.len() == 0 {
        Seq::empty()
    } else {
        let before = daily(records.drop_last(), first, last, now);
        let record = records.last();
        let day = record.start.local_day();
        if !counted(record, first, last) {
            before
        } else if records.len() >= 2 && records[records.len() - 2].start.local_day() == day {
            before.update(
                before.len() - 1,
                (day, capped(before.last().1 + record.elapsed_at(now))),
            )
        } else {
            before.push((day, capped(record.elapsed_at(now))))
        }
    }
}

/// Sums are not negative.
proof fn total_not_negative(records: Seq<RecordView>, first: int, last: int, now: int)
    ensures
        total(records, first, last, now) >= 0,
    decreases records.len(),
{
    if records.len() > 0 {
        total_not_negative(records.drop_last(), first, last, now);
    }
}

/// While the last record counts, the daily sums end with its day.
proof fn daily_ends_with_last_day(records: Seq<RecordView>, first: int, last: int, now: int)
    requires
        records.len() > 0,
        counted(records.last(), first, last),
    ensures
        daily(records, first, last, now).len() > 0,
        daily(records, first, last, now).last().0 == records.last().start.local_day(),
        0 <= daily(records, first, last, now).last().1 <= u64::MAX,
    decreases records.len(),
{
    let day = records.last().start.local_day();
    if records.len() >= 2 && records[records.len() - 2].start.local_day() == day {
        let shorter = records.drop_last();
        assert(shorter.last() == records[records.len() - 2]);
        daily_ends_with_last_day(shorter, first, last, now);
    }
}

/// The seconds tracked in `project` by the records that started on one of
/// the days from `first` to `last`, as far as 64 bits hold them. A record
/// that is still open is measured up to `now`.
pub fn total_in(project: &Project, first: i64, last: i64, now: Timestamp) -> (secs: u64)
    ensures
        secs == capped(total(project@.records, first as int, last as int, now@.epoch)),
{
    let records = project.records();
    let ghost views = project@.records;
    let mut secs: u64 = 0;
    let mut at: usize = 0;
    while at < records.len()
        invariant
            at <= records.len(),
            views == records@.map_values(|r: Record| r@),
            secs == capped(total(views.take(at as int), first as int, last as int, now@.epoch)),
        decreases records.len() - at,
    {
        let record = &records[at];
        proof {
            let upto = views.take(at + 1);
            assert(upto.drop_last() =~= views.take(at as int));
            assert(upto.last() == record@);
            total_not_negative(views.take(at as int), first as int, last as int, now@.epoch);
        }
        let day = record.start().local_day();
        if first <= day && day <= last {
            secs = secs.saturating_add(record.duration_at(now));
        }
        at += 1;
    }
    assert(views.take(at as int) =~= views);
    secs
}

/// The seconds tracked in `project` day by day, for the days from `first`
/// to `last`: records that follow each other and started on the same day
/// are summed up, as far as 64 bits hold the sum.
pub fn daily_totals(project: &Project, first: i64, last: i64, now: Timestamp) -> (days: Vec<
    DayTotal,
>)
    ensures
        days@.map_values(|d: DayTotal| (d.day as int, d.seconds as int)) == daily(
            project@.records,
            first as int,
            last as int,
            now@.epoch,
        ),
{
    let records = project.records();
    let ghost views = project@.records;
    let mut days: Vec<DayTotal> = Vec::new();
    let mut at: usize = 0;
    let mut previous: Option<i64> = None;
    while at < records.len()
        invariant
            at <= records.len(),
            views == records@.map_values(|r: Record| r@),
            days@.map_values(|d: DayTotal| (d.day as int, d.seconds as int)) == daily(
                views.take(at as int),
                first as int,
                last as int,
                now@.epoch,
            ),
            at == 0 ==> previous is None,
            at > 0 ==> previous == Some(views[at - 1].start.local_day() as i64),
            at > 0 ==> views[at - 1].start.local_day() == views[at - 1].start.local_day() as i64,
        decreases records.len() - at,
    {
        let record = &records[at];
        let ghost upto = views.take(at + 1);
        let ghost sofar = views.take(at as int);
        proof {
            assert(upto.drop_last() =~= sofar);
            assert(upto.last() == record@);
            if at > 0 {
                assert(upto[upto.len() - 2] == views[at - 1]);
                assert(sofar.last() == views[at - 1]);
            }
        }
        let day = record.start().local_day();
        let elapsed = record.duration_at(now);
        if first <= day && day <= last {
            let joins = match previous {
                Some(before) => before == day,
                None => false,
            };
            if joins {
                proof {
                    daily_ends_with_last_day(sofar, first as int, last as int, now@.epoch);
                }
                let count = days.len();
                let sum = days[count - 1].seconds.saturating_add(elapsed);
                days[count - 1] = DayTotal { day, seconds: sum };
                assert(days@.map_values(|d: DayTotal| (d.day as int, d.seconds as int)) =~= daily(
                    upto,
                    first as int,
                    last as int,
                    now@.epoch,
                ));
            } else {
                days.push(DayTotal { day, seconds: elapsed });
                assert(days@.map_values(|d: DayTotal| (d.day as int, d.seconds as int)) =~= daily(
                    upto,
                    first as int,
                    last as int,
                    now@.epoch,
                ));
            }
        }
        previous = Some(day);
        at += 1;
    }
    assert(views.take(at as int) =~= views);
    days
}

/// A span of days that a report can cover.
#[derive(Debug, Clone, Copy, PartialEq, Eq, Structural)]
pub enum Period {
    /// All days.
    Ever,
    /// The day of the report.
    Today,
    /// The day before.
    Yesterday,
    /// From Monday to the day of the report.
    Week,
    /// From Monday to Sunday of the week before.
    LastWeek,
    /// From the first of the month to the day of the report.
    Month,
    /// The month before, from its first day to its last.
    LastMonth,
}

/// How many days after a Monday the day `day` is, where days are counted
/// from the first of January 1970, a Thursday.
pub open spec fn weekday(day: int) -> int {
    (day + 3) % 7
}

/// A day number as far as 64 bits hold it.
pub open spec fn clipped(day: int) -> int {
    if day < i64::MIN {
        i64::MIN as int
    } else if day > i64::MAX {
        i64::MAX as int
    } else {
        day
    }
}

/// The first and the last day of `period` for a report made on the day
/// `today`, where `month_first` is the first day of the month of `today`,
/// and `previous_month_first` that of the month before.
pub open spec fn days_of(period: Period, today: int, month_first: int, previous_month_first: int)
    -> (int, int) {
    match period {
        Period::Ever => (i64::MIN as int, i64::MAX as int),
        Period::Today => (today, today),
        Period::Yesterday => (clipped(today - 1), clipped(today - 1)),
        Period::Week => (clipped(today - weekday(today)), today),
        Period::LastWeek => (
            clipped(today - weekday(today) - 7),
            clipped(today - weekday(today) - 1),
        ),
        Period::Month => (month_first, today),
        Period::LastMonth => (previous_month_first, clipped(month_first - 1)),
    }
}

/// `day - back`, as far as 64 bits hold it.
fn days_before(day: i64, back: i64) -> (earlier: i64)
    requires
        0 <= back <= 13,
    ensures
        earlier == clipped(day - back),
{
    let wide: i128 = day as i128 - back as i128;
    if wide < i64::MIN as i128 {
        i64::MIN
    } else {
        wide as i64
    }
}

/// How many days after a Monday the day `day` is.
pub fn days_since_monday(day: i64) -> (days: i64)
    ensures
        days == weekday(day as int),
        0 <= days < 7,
{
    let shifted: i128 = day as i128 + 3 + 7 * 0x2000_0000_0000_0000;
    let rest: u128 = shifted as u128 % 7;
    rest as i64
}

impl Period {
    /// The first and the last day of the period for a report made on the day
    /// `today`, where `month_first` is the first day of the month of `today`,
    /// and `previous_month_first` that of the month before.
    pub fn days(self, today: i64, month_first: i64, previous_month_first: i64) -> (span: (
        i64,
        i64,
    ))
        ensures
            (span.0 as int, span.1 as int) == days_of(
                self,
                today as int,
                month_first as int,
                previous_month_first as int,
            ),
    {
        match self {
            Period::Ever => (i64::MIN, i64::MAX),
            Period::Today => (today, today),
            Period::Yesterday => (days_before(today, 1), days_before(today, 1)),
            Period::Week => (days_before(today, days_since_monday(today)), today),
            Period::LastWeek => {
                let monday = days_since_monday(today);
                (days_before(today, monday + 7), days_before(today, monday + 1))
            },
            Period::Month => (month_first, today),
            Period::LastMonth => (previous_month_first, days_before(month_first, 1)),
        }
    }
}

} // verus!
