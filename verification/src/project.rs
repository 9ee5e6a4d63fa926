//! A project is a name and the records tracked under it, in the order in
//! which they started. Only the last record may still be open.

use crate::clock::{Instant, Timestamp};
use crate::key::{lowercase, ProjectKey};
use crate::record::{IllegalStateError, RResult, Record, RecordEnded, RecordView};
use vstd::prelude::*;

verus! {

/// What adding a record did to the record before it.
#[derive(Debug, Clone, Copy, PartialEq, Eq, Structural)]
pub enum RecordAdded {
    /// Nothing: there was no record before.
    Started,
    /// The record before ends no later than the new one starts: it was open
    /// and was closed there, or it had ended by then and stays as it was.
    Switched,
    /// The record before ran past the start of the new one and was shortened
    /// to end there.
    Cropped,
}

pub type AdditionResult = Result<RecordAdded, IllegalStateError>;

/// What a [`Project`] stands for.
pub struct ProjectView {
    pub name: Seq<char>,
    pub records: Seq<RecordView>,
}

impl ProjectView {
    /// The project called `name`, with nothing tracked yet.
    pub open spec fn empty(name: Seq<char>) -> ProjectView {
        ProjectView { name, records: Seq::empty() }
    }

    /// The key under which the project is kept.
    pub open spec fn key(self) -> Seq<char> {
        lowercase(self.name)
    }

    /// Every record spans positive time, and each record but the last has
    /// ended no later than the next one starts.
    pub open spec fn wf(self) -> bool {
        &&& forall|i: int| 0 <= i < self.records.len() ==> (#[trigger] self.records[i]).wf()
        &&& forall|i: int|
            0 <= i < self.records.len() - 1 ==> match (#[trigger] self.records[i]).end {
                Some(end) => end.epoch <= self.records[i + 1].start.epoch,
                None => false,
            }
    }

    /// Whether the last record is still open.
    pub open spec fn in_flight(self) -> bool {
        self.records.len() > 0 && self.records.last().is_on_going()
    }

    /// The verdict on adding `record`: the last record, if there is one, has
    /// to accept the start of the new one as its end.
    pub open spec fn add_outcome(self, record: RecordView) -> AdditionResult {
        if self.records.len() == 0 {
            Ok(RecordAdded::Started)
        } else {
            match self.records.last().crop_outcome(record.start) {
                Ok(RecordEnded::Noop) => Ok(RecordAdded::Switched),
                Ok(RecordEnded::Ended) => Ok(RecordAdded::Switched),
                Ok(RecordEnded::Cropped) => Ok(RecordAdded::Cropped),
                Err(refusal) => Err(refusal),
            }
        }
    }

    /// The project with its last record closed or corrected at `end`.
    pub open spec fn ended_at(self, end: Instant) -> ProjectView {
        ProjectView {
            records: self.records.update(
                self.records.len() - 1,
                self.records.last().cropped(end),
            ),
            ..self
        }
    }

    /// The project once `record` has been offered to it: unchanged if the
    /// record is refused, else with its last record closed or corrected at
    /// the start of the new one, and the new one after it.
    pub open spec fn with_record(self, record: RecordView) -> ProjectView {
        if self.add_outcome(record) is Err {
            self
        } else if self.records.len() == 0 {
            ProjectView { records: self.records.push(record), ..self }
        } else {
            ProjectView { records: self.ended_at(record.start).records.push(record), ..self }
        }
    }
}

/// A record offered to a project without records starts it. After a record
/// that began earlier and is still open, or had ended by the time the new
/// one starts, it is a switch: an open record is closed where the new one
/// starts, a closed one stays as it was. After a closed record that began
/// earlier and runs past the start of the new one, it is a crop. A record
/// that starts no later than the one before it is refused.
pub proof fn add_outcome_by_cases(project: ProjectView, record: RecordView)
    ensures
        project.records.len() == 0 ==> project.add_outcome(record) == Ok::<
            RecordAdded,
            IllegalStateError,
        >(RecordAdded::Started),
        project.records.len() > 0 && project.records.last().start.epoch < record.start.epoch
            ==> project.add_outcome(record) == Ok::<RecordAdded, IllegalStateError>(
            match project.records.last().end {
                None => RecordAdded::Switched,
                Some(end) => if record.start.epoch < end.epoch {
                    RecordAdded::Cropped
                } else {
                    RecordAdded::Switched
                },
            },
        ),
        project.records.len() > 0 && project.records.last().wf() ==> match project.records.last().end {
            Some(end) => end.epoch <= record.start.epoch ==> {
                &&& project.add_outcome(record) == Ok::<RecordAdded, IllegalStateError>(
                    RecordAdded::Switched,
                )
                &&& project.with_record(record).records == project.records.push(record)
            },
            None => true,
        },
        project.records.len() > 0 && project.records.last().start.epoch == record.start.epoch
            ==> project.add_outcome(record) == Err::<RecordAdded, IllegalStateError>(
            IllegalStateError::NoDuration,
        ),
        project.records.len() > 0 && project.records.last().start.epoch > record.start.epoch
            ==> project.add_outcome(record) == Err::<RecordAdded, IllegalStateError>(
            IllegalStateError::NegativeDuration,
        ),
        project.add_outcome(record) == Ok::<RecordAdded, IllegalStateError>(RecordAdded::Started)
            <==> project.records.len() == 0,
{
    if project.records.len() > 0 {
        if let Some(end) = project.records.last().end {
            if end.epoch <= record.start.epoch && project.records.last().wf() {
                assert(project.ended_at(record.start).records =~= project.records);
            }
        }
    }
}

/// Closing or correcting the last record of a well-formed project leaves it
/// well-formed: no other record changes, and the last one keeps its start.
pub proof fn ended_at_keeps_order(project: ProjectView, end: Instant)
    requires
        project.wf(),
        project.records.len() > 0,
    ensures
        project.ended_at(end).wf(),
        project.ended_at(end).name == project.name,
        project.ended_at(end).records.len() == project.records.len(),
        forall|i: int|
            0 <= i < project.records.len() - 1 ==> project.ended_at(end).records[i]
                == project.records[i],
{
    let ended = project.ended_at(end);
    assert forall|i: int| 0 <= i < ended.records.len() implies (#[trigger] ended.records[i]).wf() by {
        if i < project.records.len() - 1 {
            assert(ended.records[i] == project.records[i]);
        }
    }
    assert forall|i: int| 0 <= i < ended.records.len() - 1 implies match (
    #[trigger] ended.records[i]).end {
        Some(e) => e.epoch <= ended.records[i + 1].start.epoch,
        None => false,
    } by {
        assert(ended.records[i] == project.records[i]);
        assert(ended.records[i + 1].start == project.records[i + 1].start);
    }
}

/// Offering a record to a well-formed project leaves it well-formed. Where
/// the record is accepted it comes last, and the records before it stay as
/// they were, but that the one before it may have been closed or shortened.
/// No record is removed, and none changes its place.
pub proof fn with_record_keeps_order(project: ProjectView, record: RecordView)
    requires
        project.wf(),
        record.wf(),
    ensures
        project.with_record(record).wf(),
        project.with_record(record).name == project.name,
        project.add_outcome(record) is Err ==> project.with_record(record) == project,
        project.add_outcome(record) is Ok ==> {
            let after = project.with_record(record);
            &&& after.records.len() == project.records.len() + 1
            &&& after.records.last() == record
            &&& forall|i: int|
                0 <= i < project.records.len() - 1 ==> after.records[i] == project.records[i]
            &&& project.records.len() > 0 ==> after.records[project.records.len() - 1]
                == project.records.last().cropped(record.start)
        },
{
    let after = project.with_record(record);
    if project.add_outcome(record) is Ok && project.records.len() > 0 {
        let n = project.records.len() as int;
        let closed = project.records.last().cropped(record.start);
        assert forall|i: int| 0 <= i < after.records.len() implies (
        #[trigger] after.records[i]).wf() by {
            if i < n - 1 {
                assert(after.records[i] == project.records[i]);
            }
        }
        assert forall|i: int| 0 <= i < after.records.len() - 1 implies match (
        #[trigger] after.records[i]).end {
            Some(end) => end.epoch <= after.records[i + 1].start.epoch,
            None => false,
        } by {
            if i < n - 1 {
                assert(after.records[i] == project.records[i]);
                assert(after.records[i + 1].start == project.records[i + 1].start);
            } else {
                assert(after.records[i] == closed);
            }
        }
    }
}

/// A named, ordered collection of records.
#[derive(Debug, Clone)]
pub struct Project {
    name: String,
    key: ProjectKey,
    records: Vec<Record>,
}

impl View for Project {
    type V = ProjectView;

    closed spec fn view(&self) -> ProjectView {
        ProjectView { name: self.name@, records: self.records@.map_values(|r: Record| r@) }
    }
}

impl Project {
    /// The key that the project carries.
    pub closed spec fn carried_key(&self) -> Seq<char> {
        self.key@
    }

    /// The project's records are in order, and it carries the key of its name.
    pub open spec fn wf(&self) -> bool {
        &&& self@.wf()
        &&& self.carried_key() == self@.key()
    }

    /// The project called `name`, with nothing tracked yet.
    pub fn new(name: String) -> (project: Project)
        ensures
            project@ == ProjectView::empty(name@),
            project.wf(),
    {
        let key = ProjectKey::new(name.as_str());
        let project = Project { name, key, records: Vec::new() };
        assert(project@.records =~= Seq::empty());
        project
    }

    pub fn name(&self) -> (name: &str)
        ensures
            name@ == self@.name,
    {
        self.name.as_str()
    }

    /// The key under which the project is kept: its name in lower case.
    pub fn key(&self) -> (key: &ProjectKey)
        ensures
            key@ == self.carried_key(),
    {
        &self.key
    }

    /// The records in the order in which they started.
    pub fn records(&self) -> (records: &Vec<Record>)
        ensures
            records@.map_values(|r: Record| r@) == self@.records,
    {
        &self.records
    }

    /// Starts tracking now: adds a record that starts at the moment read from
    /// the local clock.
    pub fn start(&mut self) -> (added: AdditionResult)
        ensures
            exists|now: Instant|
                {
                    &&& now.is_moment()
                    &&& added == old(self)@.add_outcome(#[trigger] RecordView::open_at(now))
                    &&& final(self)@ == old(self)@.with_record(RecordView::open_at(now))
                },
            final(self).carried_key() == old(self).carried_key(),
            old(self).wf() ==> final(self).wf(),
    {
        let record = Record::new();
        proof {
            assert(record@ == RecordView::open_at(record@.start));
        }
        self.add_record(record)
    }

    /// Adds `record` after the records there are. A last record that is open,
    /// or that runs past the start of the new one, is first closed or
    /// shortened to end where the new one starts. If the new record starts at
    /// or before the start of the last one, it is refused and nothing changes.
    /// The first record of a project is a start; a later one is a switch, or
    /// a crop where the record before it had to be shortened.
    pub fn add_record(&mut self, record: Record) -> (added: AdditionResult)
        ensures
            added == old(self)@.add_outcome(record@),
            final(self)@ == old(self)@.with_record(record@),
            final(self).carried_key() == old(self).carried_key(),
            old(self).wf() && record@.wf() ==> final(self).wf(),
    {
        proof {
            if old(self).wf() && record@.wf() {
                with_record_keeps_order(old(self)@, record@);
            }
        }
        let count = self.records.len();
        if count == 0 {
            self.records.push(record);
            assert(self@.records =~= old(self)@.records.push(record@));
            Ok(RecordAdded::Started)
        } else {
            let verdict = self.records[count - 1].crop(record.start());
            match verdict {
                Ok(ended) => {
                    self.records.push(record);
                    assert(self@.records =~= old(self)@.ended_at(record@.start).records.push(
                        record@,
                    ));
                    match ended {
                        RecordEnded::Noop => Ok(RecordAdded::Switched),
                        RecordEnded::Ended => Ok(RecordAdded::Switched),
                        RecordEnded::Cropped => Ok(RecordAdded::Cropped),
                    }
                },
                Err(refusal) => {
                    assert(self@.records =~= old(self)@.records);
                    Err(refusal)
                },
            }
        }
    }

    /// Closes the last record at `end`, or moves its end back to `end`.
    pub fn end_at(&mut self, end: Timestamp) -> (verdict: RResult)
        requires
            old(self)@.records.len() > 0,
        ensures
            verdict == old(self)@.records.last().crop_outcome(end@),
            final(self)@ == old(self)@.ended_at(end@),
            final(self).carried_key() == old(self).carried_key(),
            old(self).wf() ==> final(self).wf(),
    {
        proof {
            if old(self).wf() {
                ended_at_keeps_order(old(self)@, end@);
            }
        }
        let count = self.records.len();
        let verdict = self.records[count - 1].crop(end);
        assert(self@.records =~= old(self)@.ended_at(end@).records);
        verdict
    }

    /// Whether the last record is still open.
    pub fn in_flight(&self) -> (in_flight: bool)
        ensures
            in_flight == self@.in_flight(),
    {
        let count = self.records.len();
        if count == 0 {
            false
        } else {
            self.records[count - 1].is_on_going()
        }
    }

    /// The last record, if there is one.
    pub fn last_record(&self) -> (last: Option<&Record>)
        ensures
            last is Some <==> self@.records.len() > 0,
            last matches Some(record) ==> record@ == self@.records.last(),
    {
        let count = self.records.len();
        if count == 0 {
            None
        } else {
            Some(&self.records[count - 1])
        }
    }
}

} // verus!
