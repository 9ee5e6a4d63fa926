//! A record is one work session: the moment it started, the moment it ended
//! if it has, and whether it is billable. A record is closed once, and may
//! afterwards only be shortened.

use crate::clock::{Instant, Timestamp};
use std::cmp::Ordering;
use vstd::prelude::*;

verus! {

/// What closing or correcting a record did to it.
#[derive(Debug, Clone, Copy, PartialEq, Eq, Structural)]
pub enum RecordEnded {
    /// The record was already closed no later than the proposed end.
    Noop,
    /// The record was closed, and its end was moved back.
    Cropped,
    /// The record was open, and is now closed.
    Ended,
}

/// Why a proposed end was refused.
#[derive(Debug, Clone, Copy, PartialEq, Eq, Structural)]
pub enum IllegalStateError {
    /// The proposed end lies before the start.
    NegativeDuration,
    /// The proposed end is the start itself.
    NoDuration,
}

pub type RResult = Result<RecordEnded, IllegalStateError>;

/// What a [`Record`] stands for.
pub struct RecordView {
    pub start: Instant,
    pub end: Option<Instant>,
    pub billable: bool,
}

impl RecordView {
    /// A closed record spans a positive amount of time.
    pub open spec fn wf(self) -> bool {
        self.end matches Some(end) ==> self.start.epoch < end.epoch
    }

    /// The record that starts at `start` and has not ended.
    pub open spec fn open_at(start: Instant) -> RecordView {
        RecordView { start, end: None, billable: true }
    }

    pub open spec fn is_on_going(self) -> bool {
        self.end is None
    }

    /// Seconds from the start to `until`, zero where `until` comes first.
    pub open spec fn seconds_until(self, until: int) -> int {
        if until < self.start.epoch {
            0
        } else {
            until - self.start.epoch
        }
    }

    /// The length of a closed record in seconds; an open record has none yet.
    pub open spec fn span(self) -> Option<int> {
        match self.end {
            Some(end) => Some(self.seconds_until(end.epoch)),
            None => None,
        }
    }

    /// Seconds from the start to the end, or to `now` while the record is open;
    /// zero where that would be negative.
    pub open spec fn elapsed_at(self, now: int) -> int {
        match self.span() {
            Some(secs) => secs,
            None => self.seconds_until(now),
        }
    }

    /// The verdict on `new_end` as the end of this record.
    pub open spec fn crop_outcome(self, new_end: Instant) -> RResult {
        if new_end.epoch < self.start.epoch {
            Err(IllegalStateError::NegativeDuration)
        } else if new_end.epoch == self.start.epoch {
            Err(IllegalStateError::NoDuration)
        } else {
            match self.end {
                None => Ok(RecordEnded::Ended),
                Some(end) => if new_end.epoch < end.epoch {
                    Ok(RecordEnded::Cropped)
                } else {
                    Ok(RecordEnded::Noop)
                },
            }
        }
    }

    /// This record once `new_end` has been proposed as its end: closed there
    /// if that ends or shortens it, unchanged otherwise.
    pub open spec fn cropped(self, new_end: Instant) -> RecordView {
        match self.crop_outcome(new_end) {
            Ok(RecordEnded::Ended) | Ok(RecordEnded::Cropped) => RecordView {
                end: Some(new_end),
                ..self
            },
            _ => self,
        }
    }
}

/// Closing a fresh record after its start ends it, and from then on it spans
/// the time from its start to that end, whenever it is asked.
pub proof fn fresh_record_ends(start: Instant, end: Instant, now: int)
    requires
        start.epoch < end.epoch,
    ensures
        RecordView::open_at(start).crop_outcome(end) == Ok::<RecordEnded, IllegalStateError>(
            RecordEnded::Ended,
        ),
        RecordView::open_at(start).cropped(end).elapsed_at(now) == end.epoch - start.epoch,
{
}

/// No record, open or closed, accepts its own start as its end, nor a moment
/// before its start; a refused end leaves the record as it was.
pub proof fn end_not_after_start_refused(record: RecordView, new_end: Instant)
    requires
        new_end.epoch <= record.start.epoch,
    ensures
        new_end.epoch == record.start.epoch ==> record.crop_outcome(new_end) == Err::<
            RecordEnded,
            IllegalStateError,
        >(IllegalStateError::NoDuration),
        new_end.epoch < record.start.epoch ==> record.crop_outcome(new_end) == Err::<
            RecordEnded,
            IllegalStateError,
        >(IllegalStateError::NegativeDuration),
        record.cropped(new_end) == record,
{
}

/// A closed record is shortened by an end before its own, and then spans the
/// time up to that end; an end at or after its own changes nothing. Either
/// way it stays closed, starts where it did and spans no more than before.
pub proof fn closed_record_only_shrinks(record: RecordView, new_end: Instant, now: int)
    requires
        record.wf(),
        record.end is Some,
        record.start.epoch < new_end.epoch,
    ensures
        new_end.epoch < record.end->0.epoch ==> {
            &&& record.crop_outcome(new_end) == Ok::<RecordEnded, IllegalStateError>(
                RecordEnded::Cropped,
            )
            &&& record.cropped(new_end).elapsed_at(now) == new_end.epoch - record.start.epoch
        },
        new_end.epoch >= record.end->0.epoch ==> {
            &&& record.crop_outcome(new_end) == Ok::<RecordEnded, IllegalStateError>(
                RecordEnded::Noop,
            )
            &&& record.cropped(new_end) == record
        },
        record.cropped(new_end).elapsed_at(now) <= record.elapsed_at(now),
        record.cropped(new_end).end is Some,
        record.cropped(new_end).start == record.start,
        record.cropped(new_end).wf(),
{
}

/// One tracked interval of time.
#[derive(Debug, Clone, Copy)]
pub struct Record {
    start: Timestamp,
    end: Option<Timestamp>,
    billable: bool,
}

impl View for Record {
    type V = RecordView;

    closed spec fn view(&self) -> RecordView {
        RecordView {
            start: self.start@,
            end: match self.end {
                Some(end) => Some(end@),
                None => None,
            },
            billable: self.billable,
        }
    }
}

/// Seconds from `start` to `until`, zero if `until` comes first.
fn seconds_between(start: i64, until: i64) -> (secs: u64)
    ensures
        secs == if until < start {
            0
        } else {
            until - start
        },
{
    if until < start {
        0
    } else {
        let wide: i128 = until as i128 - start as i128;
        wide as u64
    }
}

impl Record {
    /// A record that starts now and has not ended.
    pub fn new() -> (record: Record)
        ensures
            record@ == RecordView::open_at(record@.start),
            record@.start.is_moment(),
            record@.is_on_going(),
            record@.billable,
            record@.wf(),
    {
        Record::started_on(Record::now())
    }

    /// A record that started at `start` and has not ended.
    pub fn started_on(start: Timestamp) -> (record: Record)
        ensures
            record@ == RecordView::open_at(start@),
            record@.wf(),
    {
        Record { start, end: None, billable: true }
    }

    pub fn start(&self) -> (start: Timestamp)
        ensures
            start@ == self@.start,
    {
        self.start
    }

    /// The end of the record, once it is closed.
    pub fn end(&self) -> (end: Option<Timestamp>)
        ensures
            end is Some <==> self@.end is Some,
            end matches Some(end) ==> Some(end@) == self@.end,
    {
        self.end
    }

    pub fn is_on_going(&self) -> (on_going: bool)
        ensures
            on_going == self@.is_on_going(),
    {
        self.end.is_none()
    }

    /// The time the record spans in seconds, where a record that is still
    /// open is measured up to `now`.
    pub fn duration_at(&self, now: Timestamp) -> (secs: u64)
        ensures
            secs == self@.elapsed_at(now@.epoch),
    {
        let until = match self.end {
            Some(end) => end.epoch_secs(),
            None => now.epoch_secs(),
        };
        seconds_between(self.start.epoch_secs(), until)
    }

    /// The time the record spans in seconds. A record that is still open is
    /// measured up to the moment of the call, read from the local clock.
    pub fn duration(&self) -> (secs: u64)
        ensures
            exists|now: Instant| now.is_moment() && secs == self@.elapsed_at(#[trigger] now.epoch),
            !self@.is_on_going() ==> forall|now: int| secs == self@.elapsed_at(now),
    {
        let now = Record::now();
        self.duration_at(now)
    }

    /// Closes the record at `new_end`, or moves its end back to `new_end`.
    /// An end at or before the start is refused and leaves the record as it
    /// was; so does an end at or after the one the record has.
    pub fn crop(&mut self, new_end: Timestamp) -> (verdict: RResult)
        ensures
            verdict == old(self)@.crop_outcome(new_end@),
            final(self)@ == old(self)@.cropped(new_end@),
            old(self)@.wf() ==> final(self)@.wf(),
    {
        let start = self.start.epoch_secs();
        let proposed = new_end.epoch_secs();
        if proposed < start {
            Err(IllegalStateError::NegativeDuration)
        } else if proposed == start {
            Err(IllegalStateError::NoDuration)
        } else {
            match self.end {
                None => {
                    self.end = Some(new_end);
                    Ok(RecordEnded::Ended)
                },
                Some(end) => {
                    if proposed < end.epoch_secs() {
                        self.end = Some(new_end);
                        Ok(RecordEnded::Cropped)
                    } else {
                        Ok(RecordEnded::Noop)
                    }
                },
            }
        }
    }

    pub fn is_billable(&self) -> (billable: bool)
        ensures
            billable == self@.billable,
    {
        self.billable
    }

    /// The current time on the local clock: whatever the clock says, a
    /// moment that `chrono` has a date and an offset for.
    pub fn now() -> (now: Timestamp)
        ensures
            now@.is_moment(),
    {
        Timestamp::now()
    }
}

/// Two records are equal when they start at the same moment, are both open
/// or both closed, span the same time and agree on being billable. The
/// clocks' offsets from UTC play no part.
impl PartialEq for Record {
    fn eq(&self, other: &Record) -> (equal: bool) {
        let same_start = self.start.epoch_secs() == other.start.epoch_secs();
        let same_span = match (self.end, other.end) {
            (Some(mine), Some(theirs)) => self.duration_at(mine) == other.duration_at(theirs),
            (None, None) => true,
            _ => false,
        };
        same_start && same_span && self.billable == other.billable
    }
}

impl vstd::std_specs::cmp::PartialEqSpecImpl for Record {
    open spec fn obeys_eq_spec() -> bool {
        true
    }

    open spec fn eq_spec(&self, other: &Record) -> bool {
        &&& self@.start.epoch == other@.start.epoch
        &&& self@.span() == other@.span()
        &&& self@.billable == other@.billable
    }
}

impl Eq for Record {

}

/// Records are ordered by the moment they start, and by nothing else.
impl PartialOrd for Record {
    fn partial_cmp(&self, other: &Record) -> (order: Option<Ordering>) {
        let mine = self.start.epoch_secs();
        let theirs = other.start.epoch_secs();
        if mine < theirs {
            Some(Ordering::Less)
        } else if mine == theirs {
            Some(Ordering::Equal)
        } else {
            Some(Ordering::Greater)
        }
    }
}

impl vstd::std_specs::cmp::PartialOrdSpecImpl for Record {
    open spec fn obeys_partial_cmp_spec() -> bool {
        true
    }

    open spec fn partial_cmp_spec(&self, other: &Record) -> Option<Ordering> {
        if self@.start.epoch < other@.start.epoch {
            Some(Ordering::Less)
        } else if self@.start.epoch == other@.start.epoch {
            Some(Ordering::Equal)
        } else {
            Some(Ordering::Greater)
        }
    }
}

impl Default for Record {
    fn default() -> (record: Record)
        ensures
            record@ == RecordView::open_at(record@.start),
            record@.start.is_moment(),
            record@.is_on_going(),
            record@.billable,
            record@.wf(),
    {
        Record::new()
    }
}

} // verus!
