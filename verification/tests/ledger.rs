use timeknight::action::{Action, Outcome};
use timeknight::clock::Timestamp;
use timeknight::database::{load_all, Database, SomeDbError, Step};
use timeknight::key::ProjectKey;
use timeknight::ledger::DbErrorKind;
use timeknight::project::RecordAdded;
use timeknight::record::{IllegalStateError, RecordEnded};
use timeknight::registry::Projects;
use timeknight::wal::ReplayLog;

fn at(secs: i64) -> Timestamp {
    Timestamp::new(secs, -3600).unwrap()
}

fn names(database: &Database) -> Vec<String> {
    database.list_projects().iter().map(|p| p.name().to_string()).collect()
}

fn fails(done: Result<Outcome, SomeDbError>, kind: DbErrorKind) {
    match done {
        Err(error) => assert_eq!(error.kind(), kind),
        Ok(outcome) => panic!("expected {:?}, got {:?}", kind, outcome),
    }
}

fn add(database: &mut Database, log: &mut Vec<u8>, name: &str) -> Result<Outcome, SomeDbError> {
    let step = database.add_project(name.to_string());
    database.run(step, log)
}

fn remove(database: &mut Database, log: &mut Vec<u8>, name: &str) -> Result<Outcome, SomeDbError> {
    let step = database.remove_project(name.to_string());
    database.run(step, log)
}

fn start(
    database: &mut Database,
    log: &mut Vec<u8>,
    name: &str,
    now: i64,
) -> Result<Outcome, SomeDbError> {
    let step = database.start_on(name.to_string(), at(now));
    database.run(step, log)
}

fn stop(database: &mut Database, log: &mut Vec<u8>, now: i64) -> Result<Outcome, SomeDbError> {
    let step = database.stop(at(now));
    database.run(step, log)
}

fn same_ledger(one: &Database, other: &Database) {
    let left = one.list_projects();
    let right = other.list_projects();
    assert_eq!(left.len(), right.len());
    for (a, b) in left.iter().zip(right.iter()) {
        assert_eq!(a.name(), b.name());
        assert_eq!(a.key(), b.key());
        assert_eq!(a.records().len(), b.records().len());
        for (x, y) in a.records().iter().zip(b.records().iter()) {
            assert_eq!(x.start(), y.start());
            assert_eq!(x.end(), y.end());
            assert_eq!(x.is_billable(), y.is_billable());
        }
    }
    assert_eq!(
        one.current_project().map(|p| p.key().clone()),
        other.current_project().map(|p| p.key().clone())
    );
}

#[test]
fn tracking_one_project_from_start_to_stop() {
    let mut database = Database::new();
    let mut log = Vec::new();
    match add(&mut database, &mut log, "Foo") {
        Ok(Outcome::Added(key)) => assert_eq!(key, ProjectKey::new("foo")),
        other => panic!("{:?}", other),
    }
    match start(&mut database, &mut log, "foo", 1_000) {
        Ok(Outcome::Started(key, added)) => {
            assert_eq!(key.as_str(), "foo");
            assert_eq!(added, RecordAdded::Started);
        }
        other => panic!("{:?}", other),
    }
    assert_eq!(database.current_project().unwrap().name(), "Foo");
    match stop(&mut database, &mut log, 4_600) {
        Ok(Outcome::Stopped(key, ended)) => {
            assert_eq!(key.as_str(), "foo");
            assert_eq!(ended, RecordEnded::Ended);
        }
        other => panic!("{:?}", other),
    }
    assert!(database.current_project().is_none());
    let project = database.project(&ProjectKey::new("FOO")).unwrap();
    assert_eq!(project.name(), "Foo");
    assert_eq!(project.records().len(), 1);
    assert!(!project.records()[0].is_on_going());
    assert_eq!(project.records()[0].duration(), 3_600);
    assert_eq!(project.records()[0].start(), at(1_000));
    let expected: Vec<u8> = [
        Action::ProjectAdd { name: "Foo".to_string() }.to_bytes(),
        Action::RecordStart { name: "foo".to_string(), ts: 1_000, tz: -3600 }.to_bytes(),
        Action::RecordStop { ts: 4_600, tz: -3600 }.to_bytes(),
    ]
    .concat();
    assert_eq!(log, expected);
}

#[test]
fn starting_another_project_stops_the_first() {
    let mut database = Database::new();
    let mut log = Vec::new();
    add(&mut database, &mut log, "A").unwrap();
    add(&mut database, &mut log, "B").unwrap();
    start(&mut database, &mut log, "A", 500).unwrap();
    match start(&mut database, &mut log, "B", 800) {
        Ok(Outcome::Started(key, added)) => {
            assert_eq!(key.as_str(), "b");
            assert_eq!(added, RecordAdded::Started);
        }
        other => panic!("{:?}", other),
    }
    let a = database.project(&ProjectKey::new("a")).unwrap();
    assert_eq!(a.records().len(), 1);
    assert!(!a.in_flight());
    assert_eq!(a.records()[0].end(), Some(at(800)));
    assert_eq!(a.records()[0].duration(), 300);
    let b = database.project(&ProjectKey::new("b")).unwrap();
    assert_eq!(b.records().len(), 1);
    assert!(b.in_flight());
    assert_eq!(b.records()[0].start(), at(800));
    assert_eq!(database.current_project().unwrap().name(), "B");
    let tail: Vec<u8> = [
        Action::RecordStop { ts: 800, tz: -3600 }.to_bytes(),
        Action::RecordStart { name: "B".to_string(), ts: 800, tz: -3600 }.to_bytes(),
    ]
    .concat();
    assert!(log.ends_with(&tail));
}

#[test]
fn restarting_the_running_project_closes_and_reopens() {
    let mut database = Database::new();
    let mut log = Vec::new();
    add(&mut database, &mut log, "A").unwrap();
    start(&mut database, &mut log, "A", 500).unwrap();
    match start(&mut database, &mut log, "a", 900) {
        Ok(Outcome::Started(_, added)) => assert_eq!(added, RecordAdded::Switched),
        other => panic!("{:?}", other),
    }
    let a = database.current_project().unwrap();
    assert_eq!(a.records().len(), 2);
    assert_eq!(a.records()[0].end(), Some(at(900)));
    assert!(a.in_flight());
}

#[test]
fn removing_a_project_forgets_it() {
    let mut database = Database::new();
    let mut log = Vec::new();
    add(&mut database, &mut log, "Keep").unwrap();
    add(&mut database, &mut log, "Drop").unwrap();
    match remove(&mut database, &mut log, "DROP") {
        Ok(Outcome::Removed(project)) => {
            assert_eq!(project.name(), "Drop");
            assert_eq!(project.records().len(), 0);
        }
        other => panic!("{:?}", other),
    }
    assert!(database.current_project().is_none());
    assert_eq!(names(&database), vec!["Keep".to_string()]);
    assert!(database.project(&ProjectKey::new("drop")).is_none());
    fails(remove(&mut database, &mut log, "Drop"), DbErrorKind::NotFound);
    fails(remove(&mut database, &mut log, "never"), DbErrorKind::NotFound);
}

#[test]
fn removing_the_running_project_ends_the_work_on_it() {
    let mut database = Database::new();
    let mut log = Vec::new();
    add(&mut database, &mut log, "A").unwrap();
    add(&mut database, &mut log, "B").unwrap();
    start(&mut database, &mut log, "A", 11).unwrap();
    remove(&mut database, &mut log, "a").unwrap();
    assert!(database.current_project().is_none());
    fails(stop(&mut database, &mut log, 20), DbErrorKind::NothingActive);
    start(&mut database, &mut log, "B", 30).unwrap();
    assert_eq!(database.current_project().unwrap().name(), "B");
    let replayed = Database::open(&log).unwrap();
    same_ledger(&database, &replayed);
}

#[test]
fn each_refusal_has_its_reason() {
    let mut database = Database::new();
    let mut log = Vec::new();
    add(&mut database, &mut log, "Foo").unwrap();
    let logged = log.clone();
    fails(add(&mut database, &mut log, "FOO"), DbErrorKind::AlreadyExists);
    fails(start(&mut database, &mut log, "bar", 10), DbErrorKind::NotFound);
    fails(stop(&mut database, &mut log, 10), DbErrorKind::NothingActive);
    assert_eq!(log, logged);
    start(&mut database, &mut log, "foo", 100).unwrap();
    let logged = log.clone();
    fails(stop(&mut database, &mut log, 100), DbErrorKind::Interval(IllegalStateError::NoDuration));
    fails(
        stop(&mut database, &mut log, 99),
        DbErrorKind::Interval(IllegalStateError::NegativeDuration),
    );
    fails(
        start(&mut database, &mut log, "foo", 100),
        DbErrorKind::Interval(IllegalStateError::NoDuration),
    );
    assert_eq!(log, logged);
    assert!(database.current_project().unwrap().in_flight());
    fails(
        database.apply(Action::RecordStart { name: "foo".to_string(), ts: i64::MAX, tz: 0 }),
        DbErrorKind::InvalidTime,
    );
    fails(
        database.apply(Action::RecordStop { ts: 200, tz: 86_400 }),
        DbErrorKind::InvalidTime,
    );
    assert_eq!(
        database.check(&Action::RecordStop { ts: 200, tz: 0 }),
        Ok(())
    );
    assert_eq!(
        database.check(&Action::ProjectAdd { name: "Foo".to_string() }),
        Err(SomeDbError::new(DbErrorKind::AlreadyExists))
    );
}

#[test]
fn a_refusal_has_its_text() {
    for kind in [DbErrorKind::NotFound, DbErrorKind::AlreadyExists, DbErrorKind::Storage] {
        assert_eq!(
            SomeDbError::new(kind).message(),
            "Some error to be clearly identified at some point!"
        );
    }
}

#[test]
fn a_log_entry_of_a_given_time_starts_a_record() {
    let mut log = Action::ProjectAdd { name: "Foo".to_string() }.to_bytes();
    log.extend_from_slice(
        &Action::RecordStart { name: "foo".to_string(), ts: 1648417054, tz: 14400 }.to_bytes(),
    );
    let database = Database::open(&log).unwrap();
    let project = database.current_project().unwrap();
    assert_eq!(project.records().len(), 1);
    assert_eq!(project.records()[0].start().epoch_secs(), 1648417054);
    assert_eq!(project.records()[0].start().utc_offset(), 14400);
}

#[test]
fn a_failed_append_changes_nothing() {
    let mut database = Database::new();
    let mut log = Vec::new();
    add(&mut database, &mut log, "Foo").unwrap();
    let pending = match database.start_on("foo".to_string(), at(10)) {
        Step::Append(pending) => pending,
        other => panic!("{:?}", other),
    };
    assert_eq!(
        pending.entry(),
        Action::RecordStart { name: "foo".to_string(), ts: 10, tz: -3600 }.to_bytes()
    );
    assert_eq!(pending.action(), &Action::RecordStart { name: "foo".to_string(), ts: 10, tz: -3600 });
    match database.resume(pending, false) {
        Step::Failed(error) => assert_eq!(error.kind(), DbErrorKind::Storage),
        other => panic!("{:?}", other),
    }
    assert!(database.current_project().is_none());
    assert_eq!(database.project(&ProjectKey::new("foo")).unwrap().records().len(), 0);
}

#[test]
fn a_switch_is_two_appends() {
    let mut database = Database::new();
    let mut log = Vec::new();
    add(&mut database, &mut log, "A").unwrap();
    add(&mut database, &mut log, "B").unwrap();
    start(&mut database, &mut log, "A", 500).unwrap();
    let first = match database.start_on("B".to_string(), at(800)) {
        Step::Append(pending) => pending,
        other => panic!("{:?}", other),
    };
    assert_eq!(first.action(), &Action::RecordStop { ts: 800, tz: -3600 });
    let second = match database.resume(first, true) {
        Step::Append(pending) => pending,
        other => panic!("{:?}", other),
    };
    assert!(database.current_project().is_none());
    assert_eq!(second.action(), &Action::RecordStart { name: "B".to_string(), ts: 800, tz: -3600 });
    match database.resume(second, false) {
        Step::Failed(error) => assert_eq!(error.kind(), DbErrorKind::Storage),
        other => panic!("{:?}", other),
    }
    assert!(database.current_project().is_none());
    assert!(!database.project(&ProjectKey::new("a")).unwrap().in_flight());
    assert_eq!(database.project(&ProjectKey::new("b")).unwrap().records().len(), 0);
}

#[test]
fn starting_a_missing_project_still_stops_the_running_one() {
    let mut database = Database::new();
    let mut log = Vec::new();
    add(&mut database, &mut log, "A").unwrap();
    start(&mut database, &mut log, "A", 500).unwrap();
    fails(start(&mut database, &mut log, "nowhere", 800), DbErrorKind::NotFound);
    assert!(database.current_project().is_none());
    assert_eq!(
        database.project(&ProjectKey::new("a")).unwrap().records()[0].end(),
        Some(at(800))
    );
    assert!(log.ends_with(&Action::RecordStop { ts: 800, tz: -3600 }.to_bytes()));
}

#[test]
fn projects_are_listed_by_name_whatever_the_case() {
    let mut database = Database::new();
    let mut log = Vec::new();
    for name in ["delta", "Alpha", "charlie", "BRAVO", "échelon", "Zulu", "alpha2"] {
        add(&mut database, &mut log, name).unwrap();
    }
    assert_eq!(
        names(&database),
        vec!["Alpha", "alpha2", "BRAVO", "charlie", "delta", "Zulu", "échelon"]
    );
    remove(&mut database, &mut log, "CHARLIE").unwrap();
    assert_eq!(names(&database), vec!["Alpha", "alpha2", "BRAVO", "delta", "Zulu", "échelon"]);
    let mut sorted = names(&database);
    sorted.sort_by_key(|name| name.to_lowercase());
    assert_eq!(names(&database), sorted);
}

#[test]
fn replaying_a_log_twice_gives_the_same_ledger() {
    let mut database = Database::new();
    let mut log = Vec::new();
    add(&mut database, &mut log, "One").unwrap();
    add(&mut database, &mut log, "Two").unwrap();
    start(&mut database, &mut log, "one", 100).unwrap();
    start(&mut database, &mut log, "two", 250).unwrap();
    stop(&mut database, &mut log, 300).unwrap();
    start(&mut database, &mut log, "two", 280).unwrap();
    remove(&mut database, &mut log, "One").unwrap();
    start(&mut database, &mut log, "TWO", 1_000).unwrap();
    let first = Database::open(&log).unwrap();
    let second = Database::open(&log).unwrap();
    same_ledger(&first, &second);
    same_ledger(&first, &database);
    assert_eq!(first.current_project().unwrap().name(), "Two");
    let two = first.project(&ProjectKey::new("two")).unwrap();
    assert_eq!(two.records().len(), 3);
    assert_eq!(two.records()[0].end(), Some(at(280)));
    assert_eq!(two.records()[1].end(), Some(at(1_000)));
    assert!(two.records()[2].is_on_going());
}

#[test]
fn an_empty_log_opens_an_empty_database() {
    let database = Database::open(&[]).unwrap();
    assert!(database.list_projects().is_empty());
    assert!(database.current_project().is_none());
}

#[test]
fn an_unfinished_last_entry_is_not_replayed() {
    let mut log = Action::ProjectAdd { name: "Foo".to_string() }.to_bytes();
    log.extend_from_slice(&[127, b'B', b'a', b'r']);
    let database = Database::open(&log).unwrap();
    assert_eq!(names(&database), vec!["Foo".to_string()]);
}

#[test]
fn a_corrupt_log_opens_nothing() {
    let good = Action::ProjectAdd { name: "Foo".to_string() }.to_bytes();
    let mut bad_tag = good.clone();
    bad_tag.extend_from_slice(&[1, 2, 3, 10]);
    assert_eq!(Database::open(&bad_tag).err().map(|e| e.kind()), Some(DbErrorKind::Malformed));
    let mut empty_entry = good.clone();
    empty_entry.push(10);
    assert_eq!(Database::open(&empty_entry).err().map(|e| e.kind()), Some(DbErrorKind::Malformed));
    let mut short = good.clone();
    short.extend_from_slice(&[124, 1, 2, 10]);
    assert_eq!(Database::open(&short).err().map(|e| e.kind()), Some(DbErrorKind::Malformed));
    let mut stray_stop = good.clone();
    stray_stop.extend_from_slice(&Action::RecordStop { ts: 5, tz: 0 }.to_bytes());
    assert_eq!(
        Database::open(&stray_stop).err().map(|e| e.kind()),
        Some(DbErrorKind::NothingActive)
    );
    let mut twice = good.clone();
    twice.extend_from_slice(&good);
    assert_eq!(Database::open(&twice).err().map(|e| e.kind()), Some(DbErrorKind::AlreadyExists));
    let mut unknown = good.clone();
    unknown.extend_from_slice(&Action::RecordStart { name: "bar".to_string(), ts: 5, tz: 0 }.to_bytes());
    assert_eq!(Database::open(&unknown).err().map(|e| e.kind()), Some(DbErrorKind::NotFound));
    let mut backwards = good.clone();
    backwards.extend_from_slice(&Action::RecordStart { name: "foo".to_string(), ts: 50, tz: 0 }.to_bytes());
    backwards.extend_from_slice(&Action::RecordStop { ts: 40, tz: 0 }.to_bytes());
    assert_eq!(
        Database::open(&backwards).err().map(|e| e.kind()),
        Some(DbErrorKind::Interval(IllegalStateError::NegativeDuration))
    );
    let mut out_of_calendar = good.clone();
    out_of_calendar.extend_from_slice(
        &Action::RecordStart { name: "foo".to_string(), ts: i64::MAX - 256, tz: 0 }.to_bytes(),
    );
    assert_eq!(
        Database::open(&out_of_calendar).err().map(|e| e.kind()),
        Some(DbErrorKind::InvalidTime)
    );
}

#[test]
fn replay_goes_on_from_a_database() {
    let mut log = Vec::new();
    let mut database = Database::new();
    add(&mut database, &mut log, "Foo").unwrap();
    let more = Action::RecordStart { name: "FOO".to_string(), ts: 7, tz: 0 }.to_bytes();
    let database = load_all(database, &more).unwrap();
    assert_eq!(database.current_project().unwrap().name(), "Foo");
    assert_eq!(database.current_project().unwrap().records().len(), 1);
}

#[test]
fn the_reader_yields_each_finished_entry_once() {
    let mut log = Action::ProjectAdd { name: "a".to_string() }.to_bytes();
    log.extend_from_slice(&[9, 9, 10]);
    log.extend_from_slice(&Action::RecordStop { ts: 3, tz: 4 }.to_bytes());
    log.extend_from_slice(&[127, b'x']);
    let mut reader = ReplayLog::new(&log);
    assert_eq!(
        reader.next(),
        Some(Ok((Some(ProjectKey::new("a")), Action::ProjectAdd { name: "a".to_string() })))
    );
    assert_eq!(reader.next(), Some(Err(())));
    assert_eq!(reader.next(), Some(Ok((None, Action::RecordStop { ts: 3, tz: 4 }))));
    assert_eq!(reader.next(), None);
    assert_eq!(reader.next(), None);
}

#[test]
fn a_line_feed_inside_an_entry_splits_it() {
    let entry = Action::RecordStop { ts: 10, tz: 0 }.to_bytes();
    assert_eq!(entry[1], 10);
    let mut reader = ReplayLog::new(&entry);
    assert_eq!(reader.next(), Some(Err(())));
}

#[test]
fn applying_an_action_to_projects_alone() {
    let mut projects = Projects::new();
    assert_eq!(projects.len(), 0);
    let added = Action::ProjectAdd { name: "Foo".to_string() }.apply(&mut projects, None);
    assert!(matches!(added, Ok(Outcome::Added(_))));
    let key = ProjectKey::new("foo");
    assert!(projects.contains(&key));
    let started = Action::RecordStart { name: "FOO".to_string(), ts: 10, tz: 0 }
        .apply(&mut projects, None);
    assert!(matches!(started, Ok(Outcome::Started(_, RecordAdded::Started))));
    let stray = Action::RecordStop { ts: 20, tz: 0 }.apply(&mut projects, None);
    assert_eq!(stray.err().map(|e| e.kind()), Some(DbErrorKind::NothingActive));
    let lost = Action::RecordStop { ts: 20, tz: 0 }.apply(&mut projects, Some(&ProjectKey::new("bar")));
    assert_eq!(lost.err().map(|e| e.kind()), Some(DbErrorKind::NotFound));
    let stopped = Action::RecordStop { ts: 20, tz: 0 }.apply(&mut projects, Some(&key));
    assert!(matches!(stopped, Ok(Outcome::Stopped(_, RecordEnded::Ended))));
    let again = Action::RecordStop { ts: 30, tz: 0 }.apply(&mut projects, Some(&key));
    assert_eq!(again.err().map(|e| e.kind()), Some(DbErrorKind::NothingActive));
    assert_eq!(projects.get(&key).unwrap().records()[0].duration(), 10);
    assert_eq!(projects.list().len(), 1);
    let removed = Action::ProjectDel { name: "foo".to_string() }.apply(&mut projects, None);
    assert!(matches!(removed, Ok(Outcome::Removed(_))));
    assert_eq!(projects.len(), 0);
}
