//! The database: the ledger as it is held in memory, rebuilt from the log
//! when it is opened and changed only by actions that the log holds.

use crate::action::{Action, ActionView, Outcome};
use crate::clock::Timestamp;
use crate::key::ProjectKey;
use crate::ledger::{pointer_after, replayed, DbErrorKind, LedgerView, Plan};
use crate::project::Project;
use crate::registry::{is_listing, Projects};
use crate::wal::{entries, ReplayLog};
use vstd::prelude::*;
use vstd::string::StringExecFns;

verus! {

/// A refusal by the database.
#[derive(Debug, Clone, Copy, PartialEq, Eq, Structural)]
pub struct SomeDbError {
    /// Why it refused.
    pub kind: DbErrorKind,
}

impl SomeDbError {
    /// A refusal for the reason `kind`.
    pub fn new(kind: DbErrorKind) -> (error: SomeDbError)
        ensures
            error.kind == kind,
    {
        SomeDbError { kind }
    }

    /// Why the database refused.
    pub fn kind(&self) -> (kind: DbErrorKind)
        ensures
            kind == self.kind,
    {
        self.kind
    }

    /// The refusal as it is shown to the user: one text for every refusal.
    pub fn message(&self) -> (text: String)
        ensures
            text@ == "Some error to be clearly identified at some point!"@,
    {
        String::from_str("Some error to be clearly identified at some point!")
    }
}

/// The key as a pointer holds it.
pub open spec fn held(pointer: Option<ProjectKey>) -> Option<Seq<char>> {
    match pointer {
        Some(key) => Some(key@),
        None => None,
    }
}

/// Moves the pointer to the project being worked on as `outcome` asks.
fn repoint(pointer: &mut Option<ProjectKey>, outcome: &Outcome)
    ensures
        held(*final(pointer)) == pointer_after(held(*old(pointer)), outcome@),
{
    match outcome {
        Outcome::Added(_) => {},
        Outcome::Removed(project) => {
            let gone = match &*pointer {
                Some(key) => key.same(project.key()),
                None => false,
            };
            if gone {
                *pointer = None;
            }
        },
        Outcome::Started(key, _) => {
            *pointer = Some(key.duplicate());
        },
        Outcome::Stopped(_, _) => {
            *pointer = None;
        },
    }
}

/// The ledger in memory.
#[derive(Debug)]
pub struct Database {
    projects: Projects,
    last_project: Option<ProjectKey>,
}

impl View for Database {
    type V = LedgerView;

    closed spec fn view(&self) -> LedgerView {
        LedgerView {
            projects: self.projects@,
            active: held(self.last_project),
        }
    }
}

impl Database {
    /// The projects are held in order, and the ledger is well-formed.
    pub closed spec fn wf(&self) -> bool {
        &&& self.projects.wf()
        &&& self@.wf()
    }

    /// A well-formed database holds a well-formed ledger.
    pub proof fn wf_ledger(&self)
        requires
            self.wf(),
        ensures
            self@.wf(),
    {
    }

    /// The database without projects.
    pub fn new() -> (database: Database)
        ensures
            database@ == LedgerView::empty(),
            database.wf(),
    {
        Database { projects: Projects::new(), last_project: None }
    }

    /// Forgets every project, and that any was being worked on.
    pub fn clear(&mut self)
        ensures
            final(self)@ == LedgerView::empty(),
            final(self).wf(),
    {
        self.projects = Projects::new();
        self.last_project = None;
    }

    /// Applies `action` as [`LedgerView::apply`] says: when replaying the
    /// log, and once the log holds the action. A refused action changes
    /// nothing.
    pub fn apply(&mut self, action: Action) -> (done: Result<Outcome, SomeDbError>)
        requires
            old(self).wf(),
        ensures
            final(self).wf(),
            final(self)@ == old(self)@.after(action@),
            match old(self)@.apply(action@) {
                Ok((_, effect)) => done matches Ok(outcome) && outcome@ == effect,
                Err(kind) => done matches Err(error) && error.kind == kind,
            },
    {
        let ghost before = self@;
        let active = match &self.last_project {
            Some(key) => Some(key),
            None => None,
        };
        proof {
            crate::ledger::apply_keeps_wf(before, action@);
            crate::ledger::apply_moves_pointer(before, action@);
            assert(before == (LedgerView {
                projects: self.projects@,
                active: crate::action::pointed(active),
            }));
        }
        let done = action.apply(&mut self.projects, active);
        if let Ok(outcome) = &done {
            repoint(&mut self.last_project, outcome);
        }
        done
    }

    /// All projects, ordered by their names in lower case.
    pub fn list_projects(&self) -> (list: Vec<&Project>)
        requires
            self.wf(),
        ensures
            is_listing(self@.projects, list@.map_values(|p: &Project| p@)),
    {
        proof {
            self.projects.wf_listing();
        }
        self.projects.list()
    }

    /// The project kept under `key`.
    pub fn project(&self, key: &ProjectKey) -> (project: Option<&Project>)
        requires
            self.wf(),
        ensures
            project is Some <==> self@.projects.dom().contains(key@),
            project matches Some(project) ==> project@ == self@.projects[key@],
    {
        self.projects.get(key)
    }

    /// The project being worked on.
    pub fn current_project(&self) -> (project: Option<&Project>)
        requires
            self.wf(),
        ensures
            project is Some <==> self@.current() is Some,
            project matches Some(project) ==> Some(project@) == self@.current(),
    {
        match &self.last_project {
            Some(key) => self.projects.get(key),
            None => None,
        }
    }

    /// Tells whether `action` would be accepted, without applying it.
    pub fn check(&self, action: &Action) -> (verdict: Result<(), SomeDbError>)
        requires
            self.wf(),
        ensures
            crate::action::foretold(self@.apply(action@), verdict),
    {
        let active = match &self.last_project {
            Some(key) => Some(key),
            None => None,
        };
        assert(self@ == (LedgerView {
            projects: self.projects@,
            active: crate::action::pointed(active),
        }));
        action.check(&self.projects, active)
    }

    /// Rebuilds the database from the bytes of its log, replaying every
    /// finished entry from the start. A log with an entry that cannot be read
    /// or applied yields no database.
    pub fn open(log: &[u8]) -> (opened: Result<Database, SomeDbError>)
        ensures
            opening_of(log@, opened),
    {
        load_all(Database::new(), log)
    }

    /// Asks to have `action` appended, if the database accepts it, with
    /// `follow_up` to follow.
    fn request(&self, action: Action, follow_up: Option<Action>) -> (step: Step)
        requires
            self.wf(),
        ensures
            step@ == self@.request(action@, given(follow_up)),
    {
        match self.check(&action) {
            Ok(()) => Step::Append(Pending { action, follow_up }),
            Err(error) => Step::Failed(error),
        }
    }

    /// The first step of adding the project called `name`: to append the
    /// action that adds it, unless a project is kept under its key already.
    pub fn add_project(&self, name: String) -> (step: Step)
        requires
            self.wf(),
        ensures
            step@ == self@.add_project(name@),
    {
        self.request(Action::ProjectAdd { name }, None)
    }

    /// The first step of removing the project called `name`: to append the
    /// action that deletes it, unless no project is kept under its key.
    pub fn remove_project(&self, name: String) -> (step: Step)
        requires
            self.wf(),
        ensures
            step@ == self@.remove_project(name@),
    {
        self.request(Action::ProjectDel { name }, None)
    }

    /// The first step of starting work on the project called `name` at `now`.
    /// Work on another project is stopped first, at the same moment. The
    /// seconds and the offset of `now` are those of its view, which fit their
    /// types ([`Timestamp::view_in_range`]).
    pub fn start_on(&self, name: String, now: Timestamp) -> (step: Step)
        requires
            self.wf(),
        ensures
            step@ == self@.start_on(name@, now@.epoch as i64, now@.utc_minus_local as i32),
    {
        let ts = now.epoch_secs();
        let tz = now.utc_offset();
        let start = Action::RecordStart { name, ts, tz };
        if self.last_project.is_some() {
            self.request(Action::RecordStop { ts, tz }, Some(start))
        } else {
            self.request(start, None)
        }
    }

    /// The first step of stopping work at `now`. It fails if no project is
    /// being worked on.
    pub fn stop(&self, now: Timestamp) -> (step: Step)
        requires
            self.wf(),
        ensures
            step@ == self@.stop(now@.epoch as i64, now@.utc_minus_local as i32),
    {
        self.request(
            Action::RecordStop { ts: now.epoch_secs(), tz: now.utc_offset() },
            None,
        )
    }

    /// The step after the append of `pending` was tried. If it failed,
    /// nothing changes and the operation has failed. If it succeeded, the
    /// action is applied, and the operation is complete or goes on with the
    /// action that was to follow.
    pub fn resume(&mut self, pending: Pending, appended: bool) -> (step: Step)
        requires
            old(self).wf(),
        ensures
            final(self).wf(),
            (final(self)@, step@) == old(self)@.resume(pending@.0, pending@.1, appended),
    {
        if !appended {
            return Step::Failed(SomeDbError { kind: DbErrorKind::Storage });
        }
        let Pending { action, follow_up } = pending;
        match self.apply(action) {
            Err(error) => Step::Failed(error),
            Ok(outcome) => match follow_up {
                None => Step::Done(outcome),
                Some(following) => self.request(following, None),
            },
        }
    }

    /// Carries `step` through with a log that is held in memory: the entries
    /// that the operation asks for are appended to `log`, which cannot fail,
    /// and the operation is resumed until it is complete.
    pub fn run(&mut self, step: Step, log: &mut Vec<u8>) -> (done: Result<Outcome, SomeDbError>)
        requires
            old(self).wf(),
        ensures
            final(self).wf(),
            final(self)@ == old(self)@.finish(step@).0,
            final(log)@ == old(log)@ + old(self)@.finish(step@).1,
            match old(self)@.finish(step@).2 {
                Ok(effect) => done matches Ok(outcome) && outcome@ == effect,
                Err(kind) => done matches Err(error) && error.kind == kind,
            },
    {
        let first = match step {
            Step::Done(outcome) => {
                assert(log@ =~= old(log)@ + Seq::<u8>::empty());
                return Ok(outcome);
            },
            Step::Failed(error) => {
                assert(log@ =~= old(log)@ + Seq::<u8>::empty());
                return Err(error);
            },
            Step::Append(pending) => pending,
        };
        let mut entry = first.action().to_bytes();
        log.append(&mut entry);
        let second = match self.resume(first, true) {
            Step::Done(outcome) => {
                return Ok(outcome);
            },
            Step::Failed(error) => {
                return Err(error);
            },
            Step::Append(pending) => pending,
        };
        let mut entry = second.action().to_bytes();
        log.append(&mut entry);
        assert(log@ =~= old(log)@ + (first@.0.encoding() + second@.0.encoding()));
        match self.resume(second, true) {
            Step::Done(outcome) => Ok(outcome),
            Step::Failed(error) => Err(error),
            Step::Append(_) => Err(SomeDbError { kind: DbErrorKind::Storage }),
        }
    }
}

/// Whether `opened` is what opening a database on the log `log` comes to:
/// the ledger that replaying the entries of the log makes of the empty one,
/// or the failure that ends the replay.
pub open spec fn opening_of(log: Seq<u8>, opened: Result<Database, SomeDbError>) -> bool {
    match replayed(LedgerView::empty(), entries(log)) {
        Ok(ledger) => opened matches Ok(database) && database@ == ledger && database.wf(),
        Err(kind) => opened matches Err(error) && error.kind == kind,
    }
}

/// Opening a database twice on the same log gives the same projects and the
/// same project being worked on, or the same failure.
pub proof fn reopening_gives_the_same(
    log: Seq<u8>,
    first: Result<Database, SomeDbError>,
    second: Result<Database, SomeDbError>,
)
    requires
        opening_of(log, first),
        opening_of(log, second),
    ensures
        first is Ok <==> second is Ok,
        first matches Ok(one) ==> second matches Ok(other) && one@.projects == other@.projects
            && one@.active == other@.active,
        first matches Err(one) ==> second matches Err(other) && one == other,
{
}

/// The action that `follow_up` holds, if it holds one.
pub open spec fn given(follow_up: Option<Action>) -> Option<ActionView> {
    match follow_up {
        Some(action) => Some(action@),
        None => None,
    }
}

/// An action that is to be appended to the log before it is applied.
#[derive(Debug)]
pub struct Pending {
    action: Action,
    follow_up: Option<Action>,
}

impl View for Pending {
    type V = (ActionView, Option<ActionView>);

    closed spec fn view(&self) -> (ActionView, Option<ActionView>) {
        (self.action@, given(self.follow_up))
    }
}

impl Pending {
    /// The action to append.
    pub fn action(&self) -> (action: &Action)
        ensures
            action@ == self@.0,
    {
        &self.action
    }

    /// The entry to append to the log.
    pub fn entry(&self) -> (bytes: Vec<u8>)
        ensures
            bytes@ == self@.0.encoding(),
    {
        self.action.to_bytes()
    }
}

/// What the caller of a live operation has to do next.
#[derive(Debug)]
pub enum Step {
    /// Append the entry of this action to the log, flush, and report the
    /// outcome through [`Database::resume`].
    Append(Pending),
    /// Nothing: the operation is complete.
    Done(Outcome),
    /// Nothing: the operation has failed.
    Failed(SomeDbError),
}

impl View for Step {
    type V = Plan;

    open spec fn view(&self) -> Plan {
        match *self {
            Step::Append(pending) => Plan::Append { action: pending@.0, follow_up: pending@.1 },
            Step::Done(outcome) => Plan::Done(outcome@),
            Step::Failed(error) => Plan::Failed(error.kind),
        }
    }
}

/// Replays the bytes of a log onto `database`: every finished entry is read
/// and applied in turn. The first entry that cannot be read or applied ends
/// the replay with its failure.
pub fn load_all(database: Database, log: &[u8]) -> (loaded: Result<Database, SomeDbError>)
    requires
        database.wf(),
    ensures
        match replayed(database@, entries(log@)) {
            Ok(ledger) => loaded matches Ok(after) && after@ == ledger && after.wf(),
            Err(kind) => loaded matches Err(error) && error.kind == kind,
        },
{
    let mut current = database;
    let mut reader = ReplayLog::new(log);
    loop
        invariant
            current.wf(),
            replayed(database@, entries(log@)) == replayed(
                current@,
                entries(reader.remaining()),
            ),
        decreases reader.remaining().len(),
    {
        let ghost left = entries(reader.remaining());
        let ghost before = current@;
        match reader.next() {
            None => {
                return Ok(current);
            },
            Some(Err(_)) => {
                return Err(SomeDbError { kind: DbErrorKind::Malformed });
            },
            Some(Ok((_, action))) => {
                match current.apply(action) {
                    Ok(_) => {
                        assert(replayed(before, left) == replayed(current@, left.drop_first()));
                    },
                    Err(error) => {
                        return Err(error);
                    },
                }
            },
        }
    }
}

} // verus!
