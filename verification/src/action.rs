//! Actions are the durable unit of change: what is appended to the log and
//! replayed from it. Each has a fixed encoding in bytes: a tag, the payload,
//! and a line feed that ends the entry.

use crate::clock::Timestamp;
use crate::database::SomeDbError;
use crate::key::{lowercase, ProjectKey};
use crate::ledger::{DbErrorKind, Effect, LedgerView};
use crate::project::{Project, ProjectView, RecordAdded};
use crate::record::{Record, RecordEnded};
use crate::registry::Projects;
use crate::wire::{
    i32_from_le, i32_le, i32_round_trip, i64_from_le, i64_le, i64_round_trip, push_i32, push_i64,
    read_i32, read_i64,
};
use vstd::prelude::*;
use vstd::slice::slice_subrange;
use vstd::utf8::{decode_utf8, encode_utf8, valid_utf8};

verus! {

/// The tag of an entry that adds a project.
pub const TAG_PROJECT_ADD: u8 = 127;

/// The tag of an entry that deletes a project.
pub const TAG_PROJECT_DEL: u8 = 126;

/// The tag of an entry that starts a record.
pub const TAG_RECORD_START: u8 = 125;

/// The tag of an entry that stops the running record.
pub const TAG_RECORD_STOP: u8 = 124;

/// The byte that ends an entry.
pub const END_OF_ENTRY: u8 = 10;

/// The text that `String::from_utf8_lossy` makes of bytes that are not
/// UTF-8: the text of the parts that are, with a replacement character for
/// each part that is not.
pub uninterp spec fn lossy_text(bytes: Seq<u8>) -> Seq<char>;

/// The text that bytes are read as: the text they encode where they are
/// UTF-8, and a repaired text where they are not.
pub open spec fn text_of(bytes: Seq<u8>) -> Seq<char> {
    if valid_utf8(bytes) {
        decode_utf8(bytes)
    } else {
        lossy_text(bytes)
    }
}

/// Calls `String::from_utf8_lossy` and takes the result as a `String`. Bytes
/// that are UTF-8 come back as the text they encode, which std documents;
/// what other bytes come back as is only named.
#[verifier::external_body]
fn read_text(data: &[u8]) -> (text: String)
    ensures
        valid_utf8(data@) ==> text@ == decode_utf8(data@),
        !valid_utf8(data@) ==> text@ == lossy_text(data@),
{
    String::from_utf8_lossy(data).into_owned()
}

/// A change to the ledger.
#[derive(Debug, Clone, PartialEq, Eq)]
pub enum Action {
    /// Create the project called `name`.
    ProjectAdd { name: String },
    /// Discard the project called `name` with all its records.
    ProjectDel { name: String },
    /// Start a record in the project called `name`, at `ts` seconds after the
    /// epoch on a clock `tz` seconds behind UTC.
    RecordStart { name: String, ts: i64, tz: i32 },
    /// Stop the record that is running, in whichever project that is.
    RecordStop { ts: i64, tz: i32 },
}

/// What an [`Action`] stands for.
pub enum ActionView {
    ProjectAdd { name: Seq<char> },
    ProjectDel { name: Seq<char> },
    RecordStart { name: Seq<char>, ts: i64, tz: i32 },
    RecordStop { ts: i64, tz: i32 },
}

impl View for Action {
    type V = ActionView;

    open spec fn view(&self) -> ActionView {
        match *self {
            Action::ProjectAdd { name } => ActionView::ProjectAdd { name: name@ },
            Action::ProjectDel { name } => ActionView::ProjectDel { name: name@ },
            Action::RecordStart { name, ts, tz } => ActionView::RecordStart { name: name@, ts, tz },
            Action::RecordStop { ts, tz } => ActionView::RecordStop { ts, tz },
        }
    }
}

impl ActionView {
    /// The key of the project that the action names; stopping names none.
    pub open spec fn key(self) -> Option<Seq<char>> {
        match self {
            ActionView::ProjectAdd { name } => Some(lowercase(name)),
            ActionView::ProjectDel { name } => Some(lowercase(name)),
            ActionView::RecordStart { name, .. } => Some(lowercase(name)),
            ActionView::RecordStop { .. } => None,
        }
    }

    /// The entry without the byte that ends it: the tag, then eight bytes of
    /// timestamp and four of offset where the action has them, then the name
    /// in UTF-8 where it has one.
    pub open spec fn entry(self) -> Seq<u8> {
        match self {
            ActionView::ProjectAdd { name } => seq![TAG_PROJECT_ADD] + encode_utf8(name),
            ActionView::ProjectDel { name } => seq![TAG_PROJECT_DEL] + encode_utf8(name),
            ActionView::RecordStart { name, ts, tz } => seq![TAG_RECORD_START] + i64_le(ts)
                + i32_le(tz) + encode_utf8(name),
            ActionView::RecordStop { ts, tz } => seq![TAG_RECORD_STOP] + i64_le(ts) + i32_le(tz),
        }
    }

    /// The entry as it stands in the log.
    pub open spec fn encoding(self) -> Seq<u8> {
        self.entry().push(END_OF_ENTRY)
    }
}

/// What an entry, taken without the byte that ends it, is read as: the key
/// of the project it names and the action, or nothing where the entry is
/// empty, its tag unknown, or too short for the timestamp and offset that
/// its tag announces.
pub open spec fn decoding(entry: Seq<u8>) -> Option<(Option<Seq<char>>, ActionView)> {
    if entry.len() == 0 {
        None
    } else if entry[0] == TAG_PROJECT_ADD {
        let name = text_of(entry.skip(1));
        Some((Some(lowercase(name)), ActionView::ProjectAdd { name }))
    } else if entry[0] == TAG_PROJECT_DEL {
        let name = text_of(entry.skip(1));
        Some((Some(lowercase(name)), ActionView::ProjectDel { name }))
    } else if entry[0] == TAG_RECORD_START && entry.len() >= 13 {
        let name = text_of(entry.skip(13));
        Some(
            (
                Some(lowercase(name)),
                ActionView::RecordStart {
                    name,
                    ts: i64_from_le(entry.subrange(1, 9)) as i64,
                    tz: i32_from_le(entry.subrange(9, 13)) as i32,
                },
            ),
        )
    } else if entry[0] == TAG_RECORD_STOP && entry.len() >= 13 {
        Some(
            (
                None,
                ActionView::RecordStop {
                    ts: i64_from_le(entry.subrange(1, 9)) as i64,
                    tz: i32_from_le(entry.subrange(9, 13)) as i32,
                },
            ),
        )
    } else {
        None
    }
}

/// Reading an entry back gives the action that was written and the key of
/// the project it names: for every action, whatever the name, the timestamp
/// and the offset.
pub proof fn decode_inverts_encode(action: ActionView)
    ensures
        decoding(action.entry()) == Some((action.key(), action)),
        action.encoding().drop_last() == action.entry(),
{
    let entry = action.entry();
    assert(action.encoding().drop_last() =~= entry);
    match action {
        ActionView::ProjectAdd { name } => {
            vstd::utf8::encode_utf8_valid_utf8(name);
            vstd::utf8::encode_utf8_decode_utf8(name);
            assert(entry.skip(1) =~= encode_utf8(name));
        },
        ActionView::ProjectDel { name } => {
            vstd::utf8::encode_utf8_valid_utf8(name);
            vstd::utf8::encode_utf8_decode_utf8(name);
            assert(entry.skip(1) =~= encode_utf8(name));
        },
        ActionView::RecordStart { name, ts, tz } => {
            vstd::utf8::encode_utf8_valid_utf8(name);
            vstd::utf8::encode_utf8_decode_utf8(name);
            i64_round_trip(ts);
            i32_round_trip(tz);
            assert(entry.subrange(1, 9) =~= i64_le(ts));
            assert(entry.subrange(9, 13) =~= i32_le(tz));
            assert(entry.skip(13) =~= encode_utf8(name));
        },
        ActionView::RecordStop { ts, tz } => {
            i64_round_trip(ts);
            i32_round_trip(tz);
            assert(entry.subrange(1, 9) =~= i64_le(ts));
            assert(entry.subrange(9, 13) =~= i32_le(tz));
        },
    }
}

/// Appends `bytes` to `buffer`.
fn push_all(buffer: &mut Vec<u8>, bytes: &[u8])
    ensures
        final(buffer)@ == old(buffer)@ + bytes@,
{
    let mut at: usize = 0;
    while at < bytes.len()
        invariant
            at <= bytes.len(),
            buffer@ == old(buffer)@ + bytes@.take(at as int),
        decreases bytes.len() - at,
    {
        buffer.push(bytes[at]);
        at += 1;
        assert(buffer@ =~= old(buffer)@ + bytes@.take(at as int));
    }
    assert(bytes@.take(at as int) =~= bytes@);
}

/// An empty buffer with room for `payload` bytes, a tag, a timestamp, an
/// offset and the byte that ends the entry.
fn entry_buffer(payload: usize) -> (buffer: Vec<u8>)
    ensures
        buffer@.len() == 0,
{
    match payload.checked_add(14) {
        Some(room) => Vec::with_capacity(room),
        None => Vec::new(),
    }
}

impl Action {
    /// The key of the project that the action names; stopping names none.
    pub fn key(&self) -> (key: Option<ProjectKey>)
        ensures
            key is Some <==> self@.key() is Some,
            key matches Some(key) ==> Some(key@) == self@.key(),
    {
        match self {
            Action::ProjectAdd { name } => Some(ProjectKey::new(name.as_str())),
            Action::ProjectDel { name } => Some(ProjectKey::new(name.as_str())),
            Action::RecordStart { name, ts: _, tz: _ } => Some(ProjectKey::new(name.as_str())),
            Action::RecordStop { ts: _, tz: _ } => None,
        }
    }

    /// The entry for this action as it is appended to the log.
    pub fn to_bytes(&self) -> (bytes: Vec<u8>)
        ensures
            bytes@ == self@.encoding(),
    {
        match self {
            Action::ProjectAdd { name } => {
                let raw = name.as_str().as_bytes();
                let mut buffer = entry_buffer(raw.len());
                buffer.push(TAG_PROJECT_ADD);
                push_all(&mut buffer, raw);
                buffer.push(END_OF_ENTRY);
                assert(buffer@ =~= self@.encoding());
                buffer
            },
            Action::ProjectDel { name } => {
                let raw = name.as_str().as_bytes();
                let mut buffer = entry_buffer(raw.len());
                buffer.push(TAG_PROJECT_DEL);
                push_all(&mut buffer, raw);
                buffer.push(END_OF_ENTRY);
                assert(buffer@ =~= self@.encoding());
                buffer
            },
            Action::RecordStart { name, ts, tz } => {
                let raw = name.as_str().as_bytes();
                let mut buffer = entry_buffer(raw.len());
                buffer.push(TAG_RECORD_START);
                push_i64(&mut buffer, *ts);
                push_i32(&mut buffer, *tz);
                push_all(&mut buffer, raw);
                buffer.push(END_OF_ENTRY);
                assert(buffer@ =~= self@.encoding());
                buffer
            },
            Action::RecordStop { ts, tz } => {
                let mut buffer = entry_buffer(0);
                buffer.push(TAG_RECORD_STOP);
                push_i64(&mut buffer, *ts);
                push_i32(&mut buffer, *tz);
                buffer.push(END_OF_ENTRY);
                assert(buffer@ =~= self@.encoding());
                buffer
            },
        }
    }

    /// Reads one entry, given without the byte that ends it. Succeeds on
    /// exactly the entries that `decoding` reads, with its reading.
    pub fn from_bytes(data: &[u8]) -> (read: Result<(Option<ProjectKey>, Action), ()>)
        ensures
            read is Ok <==> decoding(data@) is Some,
            read matches Ok((key, action)) ==> {
                &&& decoding(data@) matches Some((read_key, read_action))
                &&& action@ == read_action
                &&& key is Some <==> read_key is Some
                &&& key matches Some(key) ==> Some(key@) == read_key
            },
    {
        if data.len() == 0 {
            return Err(());
        }
        let tag = data[0];
        if tag == TAG_PROJECT_ADD {
            let rest = slice_subrange(data, 1, data.len());
            assert(rest@ =~= data@.skip(1));
            let name = read_text(rest);
            Ok((Some(ProjectKey::new(name.as_str())), Action::ProjectAdd { name }))
        } else if tag == TAG_PROJECT_DEL {
            let rest = slice_subrange(data, 1, data.len());
            assert(rest@ =~= data@.skip(1));
            let name = read_text(rest);
            Ok((Some(ProjectKey::new(name.as_str())), Action::ProjectDel { name }))
        } else if tag == TAG_RECORD_START && data.len() >= 13 {
            let rest = slice_subrange(data, 13, data.len());
            assert(rest@ =~= data@.skip(13));
            let name = read_text(rest);
            let ts = read_i64(data, 1);
            let tz = read_i32(data, 9);
            Ok((Some(ProjectKey::new(name.as_str())), Action::RecordStart { name, ts, tz }))
        } else if tag == TAG_RECORD_STOP && data.len() >= 13 {
            let ts = read_i64(data, 1);
            let tz = read_i32(data, 9);
            Ok((None, Action::RecordStop { ts, tz }))
        } else {
            Err(())
        }
    }
}

/// What applying an action did, with what it touched.
#[derive(Debug)]
pub enum Outcome {
    /// The project with this key was created.
    Added(ProjectKey),
    /// This project was discarded.
    Removed(Project),
    /// A record was started in the project with this key.
    Started(ProjectKey, RecordAdded),
    /// The running record of the project with this key was stopped.
    Stopped(ProjectKey, RecordEnded),
}

impl View for Outcome {
    type V = Effect;

    open spec fn view(&self) -> Effect {
        match *self {
            Outcome::Added(key) => Effect::Added(key@),
            Outcome::Removed(project) => Effect::Removed(project.carried_key(), project@),
            Outcome::Started(key, added) => Effect::Started(key@, added),
            Outcome::Stopped(key, ended) => Effect::Stopped(key@, ended),
        }
    }
}

/// The key that `active` points to, if it points to one.
pub open spec fn pointed(active: Option<&ProjectKey>) -> Option<Seq<char>> {
    match active {
        Some(key) => Some(key@),
        None => None,
    }
}

/// Whether `done` and the projects after it are what `expected` asks for,
/// given the projects before.
pub open spec fn carried_out(
    expected: Result<(LedgerView, Effect), DbErrorKind>,
    before: Map<Seq<char>, ProjectView>,
    after: Map<Seq<char>, ProjectView>,
    done: Result<Outcome, SomeDbError>,
) -> bool {
    match expected {
        Ok((next, effect)) => {
            &&& done matches Ok(outcome)
            &&& outcome@ == effect
            &&& after == next.projects
        },
        Err(kind) => {
            &&& done matches Err(error)
            &&& error.kind == kind
            &&& after == before
        },
    }
}

/// Creates the project called `name`.
fn add_project(name: String, projects: &mut Projects, active: Option<&ProjectKey>) -> (done:
    Result<Outcome, SomeDbError>)
    requires
        old(projects).wf(),
    ensures
        final(projects).wf(),
        carried_out(
            (LedgerView { projects: old(projects)@, active: pointed(active) }).apply(
                ActionView::ProjectAdd { name: name@ },
            ),
            old(projects)@,
            final(projects)@,
            done,
        ),
{
    let project = Project::new(name);
    let key = project.key().duplicate();
    if projects.insert(project) {
        Ok(Outcome::Added(key))
    } else {
        Err(SomeDbError { kind: DbErrorKind::AlreadyExists })
    }
}

/// Discards the project called `name`.
fn delete_project(name: String, projects: &mut Projects, active: Option<&ProjectKey>) -> (done:
    Result<Outcome, SomeDbError>)
    requires
        old(projects).wf(),
    ensures
        final(projects).wf(),
        carried_out(
            (LedgerView { projects: old(projects)@, active: pointed(active) }).apply(
                ActionView::ProjectDel { name: name@ },
            ),
            old(projects)@,
            final(projects)@,
            done,
        ),
{
    proof {
        projects.wf_listing();
    }
    let key = ProjectKey::new(name.as_str());
    match projects.remove(&key) {
        Some(project) => Ok(Outcome::Removed(project)),
        None => {
            assert(projects@ =~= old(projects)@);
            Err(SomeDbError { kind: DbErrorKind::NotFound })
        },
    }
}

/// Starts a record in the project called `name`.
fn start_record(
    name: String,
    ts: i64,
    tz: i32,
    projects: &mut Projects,
    active: Option<&ProjectKey>,
) -> (done: Result<Outcome, SomeDbError>)
    requires
        old(projects).wf(),
    ensures
        final(projects).wf(),
        carried_out(
            (LedgerView { projects: old(projects)@, active: pointed(active) }).apply(
                ActionView::RecordStart { name: name@, ts, tz },
            ),
            old(projects)@,
            final(projects)@,
            done,
        ),
{
    let key = ProjectKey::new(name.as_str());
    if !projects.contains(&key) {
        return Err(SomeDbError { kind: DbErrorKind::NotFound });
    }
    let start = match Timestamp::new(ts, tz) {
        Some(start) => start,
        None => {
            return Err(SomeDbError { kind: DbErrorKind::InvalidTime });
        },
    };
    match projects.add_record(&key, Record::started_on(start)) {
        Some(Ok(added)) => Ok(Outcome::Started(key, added)),
        Some(Err(refusal)) => {
            assert(projects@ =~= old(projects)@);
            Err(SomeDbError { kind: DbErrorKind::Interval(refusal) })
        },
        None => Err(SomeDbError { kind: DbErrorKind::NotFound }),
    }
}

/// Stops the running record of the project that `active` points to.
fn stop_record(ts: i64, tz: i32, projects: &mut Projects, active: Option<&ProjectKey>) -> (done:
    Result<Outcome, SomeDbError>)
    requires
        old(projects).wf(),
    ensures
        final(projects).wf(),
        carried_out(
            (LedgerView { projects: old(projects)@, active: pointed(active) }).apply(
                ActionView::RecordStop { ts, tz },
            ),
            old(projects)@,
            final(projects)@,
            done,
        ),
{
    let key = match active {
        Some(key) => key,
        None => {
            return Err(SomeDbError { kind: DbErrorKind::NothingActive });
        },
    };
    match projects.get(key) {
        None => {
            return Err(SomeDbError { kind: DbErrorKind::NotFound });
        },
        Some(project) => {
            if !project.in_flight() {
                return Err(SomeDbError { kind: DbErrorKind::NothingActive });
            }
        },
    }
    let end = match Timestamp::new(ts, tz) {
        Some(end) => end,
        None => {
            return Err(SomeDbError { kind: DbErrorKind::InvalidTime });
        },
    };
    match projects.end_at(key, end) {
        Some(Ok(ended)) => Ok(Outcome::Stopped(key.duplicate(), ended)),
        Some(Err(refusal)) => {
            proof {
                let before = old(projects)@[key@];
                assert(before.ended_at(end@).records =~= before.records);
                assert(projects@ =~= old(projects)@);
            }
            Err(SomeDbError { kind: DbErrorKind::Interval(refusal) })
        },
        None => Err(SomeDbError { kind: DbErrorKind::NothingActive }),
    }
}

/// Whether `verdict` tells what `expected` would come to: nothing but its
/// failure, if it fails.
pub open spec fn foretold(
    expected: Result<(LedgerView, Effect), DbErrorKind>,
    verdict: Result<(), SomeDbError>,
) -> bool {
    match expected {
        Ok(_) => verdict is Ok,
        Err(kind) => verdict matches Err(error) && error.kind == kind,
    }
}

/// Whether a record starting at `start` could be added to `project`.
fn check_start(project: &Project, start: Timestamp) -> (verdict: Result<(), SomeDbError>)
    ensures
        match project@.add_outcome(crate::record::RecordView::open_at(start@)) {
            Ok(_) => verdict is Ok,
            Err(refusal) => verdict matches Err(error) && error.kind == DbErrorKind::Interval(
                refusal,
            ),
        },
{
    match project.last_record() {
        None => Ok(()),
        Some(last) => {
            let mut trial = *last;
            match trial.crop(start) {
                Ok(_) => Ok(()),
                Err(refusal) => Err(SomeDbError { kind: DbErrorKind::Interval(refusal) }),
            }
        },
    }
}

/// Whether starting a record in the project called `name` would be accepted.
fn check_start_record(
    name: &String,
    ts: i64,
    tz: i32,
    projects: &Projects,
    active: Option<&ProjectKey>,
) -> (verdict: Result<(), SomeDbError>)
    requires
        projects.wf(),
    ensures
        foretold(
            (LedgerView { projects: projects@, active: pointed(active) }).apply(
                ActionView::RecordStart { name: name@, ts, tz },
            ),
            verdict,
        ),
{
    let key = ProjectKey::new(name.as_str());
    let project = match projects.get(&key) {
        Some(project) => project,
        None => {
            return Err(SomeDbError { kind: DbErrorKind::NotFound });
        },
    };
    match Timestamp::new(ts, tz) {
        Some(start) => check_start(project, start),
        None => Err(SomeDbError { kind: DbErrorKind::InvalidTime }),
    }
}

/// Whether stopping the running record of the project that `active` points
/// to would be accepted.
fn check_stop_record(ts: i64, tz: i32, projects: &Projects, active: Option<&ProjectKey>) -> (verdict:
    Result<(), SomeDbError>)
    requires
        projects.wf(),
    ensures
        foretold(
            (LedgerView { projects: projects@, active: pointed(active) }).apply(
                ActionView::RecordStop { ts, tz },
            ),
            verdict,
        ),
{
    let key = match active {
        Some(key) => key,
        None => {
            return Err(SomeDbError { kind: DbErrorKind::NothingActive });
        },
    };
    let project = match projects.get(key) {
        Some(project) => project,
        None => {
            return Err(SomeDbError { kind: DbErrorKind::NotFound });
        },
    };
    let last = match project.last_record() {
        Some(last) => last,
        None => {
            return Err(SomeDbError { kind: DbErrorKind::NothingActive });
        },
    };
    if !last.is_on_going() {
        return Err(SomeDbError { kind: DbErrorKind::NothingActive });
    }
    match Timestamp::new(ts, tz) {
        Some(end) => {
            let mut trial = *last;
            match trial.crop(end) {
                Ok(_) => Ok(()),
                Err(refusal) => Err(SomeDbError { kind: DbErrorKind::Interval(refusal) }),
            }
        },
        None => Err(SomeDbError { kind: DbErrorKind::InvalidTime }),
    }
}

impl Action {
    /// Tells whether the action would be accepted by `projects`, where
    /// `active` is the key of the project being worked on, without applying
    /// it: the failure is the one that [`Action::apply`] would report.
    pub fn check(&self, projects: &Projects, active: Option<&ProjectKey>) -> (verdict: Result<
        (),
        SomeDbError,
    >)
        requires
            projects.wf(),
        ensures
            foretold(
                (LedgerView { projects: projects@, active: pointed(active) }).apply(self@),
                verdict,
            ),
    {
        match self {
            Action::ProjectAdd { name } => {
                if projects.contains(&ProjectKey::new(name.as_str())) {
                    Err(SomeDbError { kind: DbErrorKind::AlreadyExists })
                } else {
                    Ok(())
                }
            },
            Action::ProjectDel { name } => {
                if projects.contains(&ProjectKey::new(name.as_str())) {
                    Ok(())
                } else {
                    Err(SomeDbError { kind: DbErrorKind::NotFound })
                }
            },
            Action::RecordStart { name, ts, tz } => {
                check_start_record(name, *ts, *tz, projects, active)
            },
            Action::RecordStop { ts, tz } => check_stop_record(*ts, *tz, projects, active),
        }
    }
}

impl Action {
    /// Applies the action to `projects`, where `active` is the key of the
    /// project being worked on: the one that stopping refers to. What is
    /// done, and when the action is refused, is what [`LedgerView::apply`]
    /// says; a refused action changes nothing.
    pub fn apply(self, projects: &mut Projects, active: Option<&ProjectKey>) -> (done: Result<
        Outcome,
        SomeDbError,
    >)
        requires
            old(projects).wf(),
        ensures
            final(projects).wf(),
            carried_out(
                (LedgerView { projects: old(projects)@, active: pointed(active) }).apply(self@),
                old(projects)@,
                final(projects)@,
                done,
            ),
    {
        match self {
            Action::ProjectAdd { name } => add_project(name, projects, active),
            Action::ProjectDel { name } => delete_project(name, projects, active),
            Action::RecordStart { name, ts, tz } => start_record(name, ts, tz, projects, active),
            Action::RecordStop { ts, tz } => stop_record(ts, tz, projects, active),
        }
    }
}

} // verus!
