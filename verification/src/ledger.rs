//! What the ledger is, apart from how it is held: a map from keys to
//! projects with a pointer to the project being worked on, and what each
//! action makes of it. Replay and live operation both go by these rules.

use crate::action::{decoding, ActionView, END_OF_ENTRY};
use crate::clock::Instant;
use crate::key::lowercase;
use crate::project::{ProjectView, RecordAdded};
use crate::record::{IllegalStateError, RecordEnded, RecordView};
use crate::wal::{complete, entries};
use vstd::prelude::*;

verus! {

/// Why the ledger refused something.
#[derive(Debug, Clone, Copy, PartialEq, Eq, Structural)]
pub enum DbErrorKind {
    /// A project is already kept under that key.
    AlreadyExists,
    /// No project is kept under that key.
    NotFound,
    /// No project is being worked on.
    NothingActive,
    /// The timestamp or the offset from UTC is none that a date can have.
    InvalidTime,
    /// The record would not span positive time.
    Interval(IllegalStateError),
    /// A log entry could not be read.
    Malformed,
    /// The log could not be appended to.
    Storage,
}

/// The moment that a timestamp and an offset from UTC name.
pub open spec fn instant(ts: i64, tz: i32) -> Instant {
    Instant { epoch: ts as int, utc_minus_local: tz as int }
}

/// Whether a timestamp and an offset from UTC name a moment at all.
pub open spec fn is_moment(ts: i64, tz: i32) -> bool {
    instant(ts, tz).is_moment()
}

/// What an action did.
pub enum Effect {
    /// The project with this key was created.
    Added(Seq<char>),
    /// The project with this key was discarded; this is what it held.
    Removed(Seq<char>, ProjectView),
    /// A record was started in the project with this key.
    Started(Seq<char>, RecordAdded),
    /// The running record of the project with this key was stopped.
    Stopped(Seq<char>, RecordEnded),
}

/// What a ledger stands for.
pub struct LedgerView {
    /// The projects by key.
    pub projects: Map<Seq<char>, ProjectView>,
    /// The key of the project being worked on.
    pub active: Option<Seq<char>>,
}

impl LedgerView {
    /// The ledger without projects.
    pub open spec fn empty() -> LedgerView {
        LedgerView { projects: Map::empty(), active: None }
    }

    /// Every project is kept under the key of its name and is well-formed,
    /// and the project being worked on exists and has a record running.
    pub open spec fn wf(self) -> bool {
        &&& forall|key: Seq<char>|
            self.projects.dom().contains(key) ==> (#[trigger] self.projects[key]).wf()
                && self.projects[key].key() == key
        &&& self.active matches Some(key) ==> self.projects.dom().contains(key)
            && self.projects[key].in_flight()
    }

    /// The project being worked on.
    pub open spec fn current(self) -> Option<ProjectView> {
        match self.active {
            Some(key) => if self.projects.dom().contains(key) {
                Some(self.projects[key])
            } else {
                None
            },
            None => None,
        }
    }

    /// What `action` does to the ledger, or why it is refused.
    ///
    /// Adding needs the key to be free; deleting needs it to be taken, and
    /// ends the work on the project if it was the one being worked on.
    /// Starting needs the project to exist, the time to be a moment, and the
    /// project to accept a record that starts then; the project becomes the
    /// one being worked on. Stopping needs a project being worked on, with a
    /// record running that accepts the time as its end; afterwards no project
    /// is being worked on.
    pub open spec fn apply(self, action: ActionView) -> Result<(LedgerView, Effect), DbErrorKind> {
        match action {
            ActionView::ProjectAdd { name } => {
                let key = lowercase(name);
                if self.projects.dom().contains(key) {
                    Err(DbErrorKind::AlreadyExists)
                } else {
                    Ok(
                        (
                            LedgerView {
                                projects: self.projects.insert(key, ProjectView::empty(name)),
                                ..self
                            },
                            Effect::Added(key),
                        ),
                    )
                }
            },
            ActionView::ProjectDel { name } => {
                let key = lowercase(name);
                if !self.projects.dom().contains(key) {
                    Err(DbErrorKind::NotFound)
                } else {
                    Ok(
                        (
                            LedgerView {
                                projects: self.projects.remove(key),
                                active: if self.active == Some(key) {
                                    None
                                } else {
                                    self.active
                                },
                            },
                            Effect::Removed(key, self.projects[key]),
                        ),
                    )
                }
            },
            ActionView::RecordStart { name, ts, tz } => {
                let key = lowercase(name);
                if !self.projects.dom().contains(key) {
                    Err(DbErrorKind::NotFound)
                } else if !is_moment(ts, tz) {
                    Err(DbErrorKind::InvalidTime)
                } else {
                    let project = self.projects[key];
                    let record = RecordView::open_at(instant(ts, tz));
                    match project.add_outcome(record) {
                        Err(refusal) => Err(DbErrorKind::Interval(refusal)),
                        Ok(added) => Ok(
                            (
                                LedgerView {
                                    projects: self.projects.insert(
                                        key,
                                        project.with_record(record),
                                    ),
                                    active: Some(key),
                                },
                                Effect::Started(key, added),
                            ),
                        ),
                    }
                }
            },
            ActionView::RecordStop { ts, tz } => {
                match self.active {
                    None => Err(DbErrorKind::NothingActive),
                    Some(key) => {
                        if !self.projects.dom().contains(key) {
                            Err(DbErrorKind::NotFound)
                        } else if !self.projects[key].in_flight() {
                            Err(DbErrorKind::NothingActive)
                        } else if !is_moment(ts, tz) {
                            Err(DbErrorKind::InvalidTime)
                        } else {
                            let project = self.projects[key];
                            match project.records.last().crop_outcome(instant(ts, tz)) {
                                Err(refusal) => Err(DbErrorKind::Interval(refusal)),
                                Ok(ended) => Ok(
                                    (
                                        LedgerView {
                                            projects: self.projects.insert(
                                                key,
                                                project.ended_at(instant(ts, tz)),
                                            ),
                                            active: None,
                                        },
                                        Effect::Stopped(key, ended),
                                    ),
                                ),
                            }
                        }
                    },
                }
            },
        }
    }

    /// The ledger after `action`; the ledger itself where it is refused.
    pub open spec fn after(self, action: ActionView) -> LedgerView {
        match self.apply(action) {
            Ok((next, _)) => next,
            Err(_) => self,
        }
    }
}

/// The project being worked on once an action has had `effect`: the one in
/// which a record was started; none after a stop, or when that project was
/// discarded; else the one it was.
pub open spec fn pointer_after(active: Option<Seq<char>>, effect: Effect) -> Option<Seq<char>> {
    match effect {
        Effect::Added(_) => active,
        Effect::Removed(key, _) => if active == Some(key) {
            None
        } else {
            active
        },
        Effect::Started(key, _) => Some(key),
        Effect::Stopped(_, _) => None,
    }
}

/// The pointer moves with the effect of an action, as `pointer_after` says.
pub proof fn apply_moves_pointer(ledger: LedgerView, action: ActionView)
    ensures
        ledger.apply(action) matches Ok((next, effect)) ==> next.active == pointer_after(
            ledger.active,
            effect,
        ),
{
}

/// No action breaks a well-formed ledger.
pub proof fn apply_keeps_wf(ledger: LedgerView, action: ActionView)
    requires
        ledger.wf(),
    ensures
        ledger.after(action).wf(),
{
    let next = ledger.after(action);
    if ledger.apply(action) is Ok {
        match action {
            ActionView::ProjectAdd { name } => {
                assert forall|key: Seq<char>| next.projects.dom().contains(key) implies (
                #[trigger] next.projects[key]).wf() && next.projects[key].key() == key by {
                    if key != lowercase(name) {
                        assert(next.projects[key] == ledger.projects[key]);
                    }
                }
            },
            ActionView::ProjectDel { name } => {
                assert forall|key: Seq<char>| next.projects.dom().contains(key) implies (
                #[trigger] next.projects[key]).wf() && next.projects[key].key() == key by {
                    assert(next.projects[key] == ledger.projects[key]);
                }
            },
            ActionView::RecordStart { name, ts, tz } => {
                let own = lowercase(name);
                let record = RecordView::open_at(instant(ts, tz));
                crate::project::with_record_keeps_order(ledger.projects[own], record);
                assert forall|key: Seq<char>| next.projects.dom().contains(key) implies (
                #[trigger] next.projects[key]).wf() && next.projects[key].key() == key by {
                    if key != own {
                        assert(next.projects[key] == ledger.projects[key]);
                    }
                }
            },
            ActionView::RecordStop { ts, tz } => {
                let own = ledger.active->0;
                let before = ledger.projects[own];
                crate::project::ended_at_keeps_order(before, instant(ts, tz));
                assert forall|key: Seq<char>| next.projects.dom().contains(key) implies (
                #[trigger] next.projects[key]).wf() && next.projects[key].key() == key by {
                    if key != own {
                        assert(next.projects[key] == ledger.projects[key]);
                    }
                }
            },
        }
    }
}

/// The ledger that replaying `entries` makes of `ledger`: each entry is read
/// and applied in turn. The first entry that cannot be read, or whose action
/// is refused, ends the replay with its failure.
pub open spec fn replayed(ledger: LedgerView, entries: Seq<Seq<u8>>) -> Result<
    LedgerView,
    DbErrorKind,
>
    decreases entries.len(),
{
    if entries.len() == 0 {
        Ok(ledger)
    } else {
        match decoding(entries[0]) {
            None => Err(DbErrorKind::Malformed),
            Some((_, action)) => match ledger.apply(action) {
                Err(kind) => Err(kind),
                Ok((next, _)) => replayed(next, entries.drop_first()),
            },
        }
    }
}

/// Replaying whatever entries makes a well-formed ledger of a well-formed
/// one.
pub proof fn replay_keeps_wf(ledger: LedgerView, entries: Seq<Seq<u8>>)
    requires
        ledger.wf(),
    ensures
        replayed(ledger, entries) matches Ok(last) ==> last.wf(),
    decreases entries.len(),
{
    if entries.len() > 0 {
        if let Some((_, action)) = decoding(entries[0]) {
            apply_keeps_wf(ledger, action);
            if ledger.apply(action) is Ok {
                replay_keeps_wf(ledger.after(action), entries.drop_first());
            }
        }
    }
}

/// Replaying the entries of a log and then one more is replaying the first
/// and applying the action of the last.
pub proof fn replay_one_more(ledger: LedgerView, entries: Seq<Seq<u8>>, action: ActionView)
    ensures
        replayed(ledger, entries.push(action.entry())) == match replayed(ledger, entries) {
            Ok(last) => match last.apply(action) {
                Ok((next, _)) => Ok::<LedgerView, DbErrorKind>(next),
                Err(kind) => Err(kind),
            },
            Err(kind) => Err(kind),
        },
    decreases entries.len(),
{
    let more = entries.push(action.entry());
    if entries.len() == 0 {
        crate::action::decode_inverts_encode(action);
        assert(more[0] == action.entry());
        assert(more.drop_first() =~= Seq::<Seq<u8>>::empty());
        assert(replayed(ledger, entries) == Ok::<LedgerView, DbErrorKind>(ledger));
        if let Ok((next, _)) = ledger.apply(action) {
            assert(replayed(next, more.drop_first()) == Ok::<LedgerView, DbErrorKind>(next));
        }
    } else {
        assert(more[0] == entries[0]);
        assert(more.drop_first() =~= entries.drop_first().push(action.entry()));
        if let Some((_, first)) = decoding(entries[0]) {
            if let Ok((next, _)) = ledger.apply(first) {
                replay_one_more(next, entries.drop_first(), action);
            }
        }
    }
}

/// What the caller of a live operation has to do next.
pub enum Plan {
    /// Append `action` to the log, then report whether that succeeded. If
    /// `follow_up` holds an action, it is the one to come after.
    Append { action: ActionView, follow_up: Option<ActionView> },
    /// Nothing: the operation is complete.
    Done(Effect),
    /// Nothing: the operation failed.
    Failed(DbErrorKind),
}

impl LedgerView {
    /// The plan to have `action` appended and, once it is, carried out, with
    /// `follow_up` to follow: made only if the ledger accepts `action` as it
    /// stands, so that no action is logged that replay would refuse.
    pub open spec fn request(self, action: ActionView, follow_up: Option<ActionView>) -> Plan {
        match self.apply(action) {
            Ok(_) => Plan::Append { action, follow_up },
            Err(kind) => Plan::Failed(kind),
        }
    }

    /// The first step of adding the project called `name`.
    pub open spec fn add_project(self, name: Seq<char>) -> Plan {
        self.request(ActionView::ProjectAdd { name }, None)
    }

    /// The first step of removing the project called `name`.
    pub open spec fn remove_project(self, name: Seq<char>) -> Plan {
        self.request(ActionView::ProjectDel { name }, None)
    }

    /// The first step of stopping work at the given time.
    pub open spec fn stop(self, ts: i64, tz: i32) -> Plan {
        self.request(ActionView::RecordStop { ts, tz }, None)
    }

    /// The first step of starting work on the project called `name` at the
    /// given time: if a project is being worked on, that work is stopped
    /// first, at the same time, and the start follows.
    pub open spec fn start_on(self, name: Seq<char>, ts: i64, tz: i32) -> Plan {
        let start = ActionView::RecordStart { name, ts, tz };
        if self.active is Some {
            self.request(ActionView::RecordStop { ts, tz }, Some(start))
        } else {
            self.request(start, None)
        }
    }

    /// The ledger and the next step once the append of `action` has been
    /// tried. If it failed, nothing changes and the operation fails. If it
    /// succeeded, the action is applied; the operation is then complete, or
    /// goes on with the action that was to follow.
    pub open spec fn resume(self, action: ActionView, follow_up: Option<ActionView>, appended: bool) -> (
        LedgerView,
        Plan,
    ) {
        if !appended {
            (self, Plan::Failed(DbErrorKind::Storage))
        } else {
            match self.apply(action) {
                Err(kind) => (self, Plan::Failed(kind)),
                Ok((next, effect)) => match follow_up {
                    None => (next, Plan::Done(effect)),
                    Some(following) => (next, next.request(following, None)),
                },
            }
        }
    }
}

impl Plan {
    /// How a plan that asks for nothing more has ended.
    pub open spec fn ended(self) -> Result<Effect, DbErrorKind> {
        match self {
            Plan::Done(effect) => Ok(effect),
            Plan::Failed(kind) => Err(kind),
            Plan::Append { .. } => Err(DbErrorKind::Storage),
        }
    }
}

impl LedgerView {
    /// What comes of `plan` when every append succeeds: the ledger in the
    /// end, the bytes appended to the log, and how the operation ended.
    pub open spec fn finish(self, plan: Plan) -> (LedgerView, Seq<u8>, Result<Effect, DbErrorKind>) {
        match plan {
            Plan::Append { action, follow_up } => {
                let (next, second) = self.resume(action, follow_up, true);
                match second {
                    Plan::Append { action: following, follow_up: after } => {
                        let (last, third) = next.resume(following, after, true);
                        (last, action.encoding() + following.encoding(), third.ended())
                    },
                    _ => (next, action.encoding(), second.ended()),
                }
            },
            _ => (self, Seq::empty(), plan.ended()),
        }
    }
}

/// Without a successful append nothing changes: asking for an action leaves
/// the ledger as it is, and so does an append that failed.
pub proof fn nothing_changes_without_append(
    ledger: LedgerView,
    action: ActionView,
    follow_up: Option<ActionView>,
)
    ensures
        ledger.resume(action, follow_up, false) == (ledger, Plan::Failed(DbErrorKind::Storage)),
        ledger.finish(ledger.request(action, follow_up)).1.len() > 0 ==> ledger.apply(action)
            is Ok,
{
}

/// An action that a plan asks to append is one that the ledger accepts, so
/// the step after a successful append does not fail on it.
pub proof fn requested_actions_apply(ledger: LedgerView, action: ActionView, follow_up: Option<
    ActionView,
>)
    ensures
        ledger.request(action, follow_up) is Append ==> ledger.apply(action) is Ok,
        ledger.request(action, follow_up) is Append ==> !(ledger.resume(action, follow_up, true).1
            matches Plan::Failed(kind) && ledger.apply(action) is Err),
{
}

/// Whether `entry` holds no byte that would end it early.
pub open spec fn unbroken(entry: Seq<u8>) -> bool {
    forall|i: int| 0 <= i < entry.len() ==> entry[i] != END_OF_ENTRY
}

/// The log keeps up with the ledger. If a complete log replays to `ledger`,
/// and an operation that asks first for an action which the ledger accepts
/// runs to its end with every append succeeding, then the log with what was
/// appended replays to the ledger that the operation left, and is complete
/// again. This holds as long as no entry that was appended holds a line
/// feed, which the format does not rule out.
pub proof fn log_keeps_up(
    log: Seq<u8>,
    ledger: LedgerView,
    action: ActionView,
    follow_up: Option<ActionView>,
)
    requires
        complete(log),
        replayed(LedgerView::empty(), entries(log)) == Ok::<LedgerView, DbErrorKind>(ledger),
        ledger.apply(action) is Ok,
        unbroken(action.entry()),
        follow_up matches Some(following) ==> unbroken(following.entry()),
    ensures
        ({
            let (last, appended, _) = ledger.finish(Plan::Append { action, follow_up });
            &&& replayed(LedgerView::empty(), entries(log + appended)) == Ok::<
                LedgerView,
                DbErrorKind,
            >(last)
            &&& complete(log + appended)
        }),
{
    let (next, second) = ledger.resume(action, follow_up, true);
    let once = log + action.encoding();
    crate::wal::appended_entry_read_back(log, action.entry());
    replay_one_more(LedgerView::empty(), entries(log), action);
    assert(replayed(LedgerView::empty(), entries(once)) == Ok::<LedgerView, DbErrorKind>(next));
    if let Plan::Append { action: following, follow_up: after } = second {
        assert(follow_up == Some(following));
        crate::wal::appended_entry_read_back(once, following.entry());
        replay_one_more(LedgerView::empty(), entries(once), following);
        assert(once + following.encoding() =~= log + (action.encoding() + following.encoding()));
    }
}

} // verus!
