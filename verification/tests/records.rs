use chrono::{FixedOffset, TimeZone, Utc};
use std::time::Duration;
use timeknight::clock::Timestamp;
use timeknight::project::{Project, RecordAdded};
use timeknight::record::{IllegalStateError, Record, RecordEnded};

fn at(secs: i64) -> Timestamp {
    Timestamp::new(secs, 0).unwrap()
}

#[test]
fn new_record_has_proper_defaults() {
    let record = Record::new();
    assert_eq!(record.start().epoch_secs() - Record::now().epoch_secs(), 0);
    assert_eq!(Duration::from_secs(record.duration()), Duration::ZERO);
    assert!(record.is_billable());
    assert!(record.is_on_going());
}

#[test]
fn duration_math_works() {
    let now = Record::now();
    let start = Timestamp::new(now.epoch_secs() - 2, now.utc_offset()).unwrap();
    let record = Record::started_on(start);
    assert_eq!(record.start(), start);
    assert_eq!(Duration::from_secs(record.duration()), Duration::from_secs(2));
    assert!(record.is_billable());
    assert!(record.is_on_going());
}

#[test]
fn negative_duration_is_zero() {
    let now = Record::now();
    let start = Timestamp::new(now.epoch_secs() + 2, now.utc_offset()).unwrap();
    let record = Record::started_on(start);
    assert_eq!(record.start(), start);
    assert_eq!(Duration::from_secs(record.duration()), Duration::ZERO);
    assert!(record.is_billable());
    assert!(record.is_on_going());
}

#[test]
fn deconstruct() {
    let now = Record::now();
    let ts = now.epoch_secs();
    let tz = now.utc_offset();
    let utc = Utc.timestamp_opt(ts, 0).unwrap();
    let offset = FixedOffset::west_opt(tz).unwrap();
    let other = utc.with_timezone(&offset);
    println!("{} == {}", ts, other.to_rfc3339());
    assert_eq!(tz, other.offset().utc_minus_local());
    assert_eq!(ts, other.timestamp());
    assert_eq!(Timestamp::new(other.timestamp(), other.offset().utc_minus_local()), Some(now));
}

#[test]
fn now_agrees_with_chrono() {
    let before = chrono::Local::now();
    let now = Timestamp::now();
    let after = chrono::Local::now();
    assert!(before.timestamp() <= now.epoch_secs());
    assert!(now.epoch_secs() <= after.timestamp());
    assert_eq!(now.utc_offset(), before.offset().utc_minus_local());
}

#[test]
fn timestamps_are_what_chrono_can_represent() {
    let max = chrono::DateTime::<chrono::Utc>::MAX_UTC.timestamp();
    let min = chrono::DateTime::<chrono::Utc>::MIN_UTC.timestamp();
    assert_eq!(max, 8_210_266_876_799);
    assert_eq!(min, -8_334_601_228_800);
    assert!(Timestamp::new(max, 0).is_some());
    assert!(Timestamp::new(max + 1, 0).is_none());
    assert!(Timestamp::new(min, 0).is_some());
    assert!(Timestamp::new(min - 1, 0).is_none());
    assert!(Timestamp::new(i64::MAX, 0).is_none());
    assert!(Timestamp::new(i64::MIN, 0).is_none());
    assert!(Timestamp::new(0, 86_399).is_some());
    assert!(Timestamp::new(0, 86_400).is_none());
    assert!(Timestamp::new(0, -86_399).is_some());
    assert!(Timestamp::new(0, -86_400).is_none());
    let stamp = Timestamp::new(1648417054, 14400).unwrap();
    assert_eq!(stamp.epoch_secs(), 1648417054);
    assert_eq!(stamp.utc_offset(), 14400);
}

#[test]
fn closing_a_fresh_record_ends_it() {
    for (start, end) in [(0i64, 1i64), (100, 4_000), (-50, 50), (1648417054, 1648420654)] {
        let mut record = Record::started_on(at(start));
        assert_eq!(record.crop(at(end)), Ok(RecordEnded::Ended));
        assert!(!record.is_on_going());
        assert_eq!(record.end(), Some(at(end)));
        assert_eq!(record.duration() as i64, end - start);
        assert_eq!(record.duration_at(at(end + 1_000)) as i64, end - start);
    }
}

#[test]
fn an_end_at_or_before_the_start_is_refused() {
    let mut open = Record::started_on(at(100));
    assert_eq!(open.crop(at(100)), Err(IllegalStateError::NoDuration));
    assert_eq!(open.crop(at(99)), Err(IllegalStateError::NegativeDuration));
    assert!(open.is_on_going());
    let mut closed = Record::started_on(at(100));
    assert_eq!(closed.crop(at(200)), Ok(RecordEnded::Ended));
    assert_eq!(closed.crop(at(100)), Err(IllegalStateError::NoDuration));
    assert_eq!(closed.crop(at(-5)), Err(IllegalStateError::NegativeDuration));
    assert_eq!(closed.end(), Some(at(200)));
    assert_eq!(closed.duration(), 100);
}

#[test]
fn a_closed_record_only_shrinks() {
    let mut record = Record::started_on(at(100));
    assert_eq!(record.crop(at(200)), Ok(RecordEnded::Ended));
    assert_eq!(record.crop(at(150)), Ok(RecordEnded::Cropped));
    assert_eq!(record.duration(), 50);
    assert_eq!(record.crop(at(150)), Ok(RecordEnded::Noop));
    assert_eq!(record.crop(at(500)), Ok(RecordEnded::Noop));
    assert_eq!(record.duration(), 50);
    assert_eq!(record.end(), Some(at(150)));
}

#[test]
fn open_records_are_measured_up_to_the_given_moment() {
    let record = Record::started_on(at(1_000));
    assert_eq!(record.duration_at(at(1_000)), 0);
    assert_eq!(record.duration_at(at(1_060)), 60);
    assert_eq!(record.duration_at(at(10)), 0);
}

#[test]
fn durations_do_not_overflow_at_the_ends_of_the_calendar() {
    let first = Timestamp::new(-8_334_601_228_800, 0).unwrap();
    let last = Timestamp::new(8_210_266_876_799, 0).unwrap();
    let mut record = Record::started_on(first);
    assert_eq!(record.duration_at(last), 16_544_868_105_599);
    assert_eq!(record.crop(last), Ok(RecordEnded::Ended));
    assert_eq!(record.duration(), 16_544_868_105_599);
}

#[test]
fn records_compare_by_start_and_equal_by_span() {
    let early = Record::started_on(at(10));
    let late = Record::started_on(at(20));
    assert!(early < late);
    assert!(late > early);
    assert!(early <= Record::started_on(Timestamp::new(10, 3600).unwrap()));
    assert!(early == Record::started_on(Timestamp::new(10, 3600).unwrap()));
    assert!(early != late);
    let mut closed = Record::started_on(at(10));
    closed.crop(at(15)).unwrap();
    assert!(closed != early);
    assert_eq!(closed.partial_cmp(&early), Some(std::cmp::Ordering::Equal));
    let mut same = Record::started_on(at(10));
    same.crop(at(15)).unwrap();
    assert!(closed == same);
    same.crop(at(12)).unwrap();
    assert!(closed != same);
}

#[test]
fn default_record_is_open_and_billable() {
    let record = Record::default();
    assert!(record.is_on_going());
    assert!(record.is_billable());
    assert_eq!(record.end(), None);
}

#[test]
fn adding_to_an_empty_project_starts() {
    let mut project = Project::new("Foo".to_string());
    assert_eq!(project.name(), "Foo");
    assert_eq!(project.key().as_str(), "foo");
    assert!(!project.in_flight());
    assert!(project.last_record().is_none());
    assert_eq!(project.add_record(Record::started_on(at(5))), Ok(RecordAdded::Started));
    assert!(project.in_flight());
    assert_eq!(project.records().len(), 1);
}

#[test]
fn adding_after_an_open_record_switches() {
    let mut project = Project::new("Foo".to_string());
    project.add_record(Record::started_on(at(5))).unwrap();
    assert_eq!(project.add_record(Record::started_on(at(9))), Ok(RecordAdded::Switched));
    assert_eq!(project.records().len(), 2);
    assert_eq!(project.records()[0].end(), Some(at(9)));
    assert_eq!(project.records()[0].duration(), 4);
    assert!(project.records()[1].is_on_going());
    assert!(project.in_flight());
}

#[test]
fn adding_inside_a_closed_record_crops() {
    let mut project = Project::new("Foo".to_string());
    project.add_record(Record::started_on(at(5))).unwrap();
    assert_eq!(project.end_at(at(50)), Ok(RecordEnded::Ended));
    assert!(!project.in_flight());
    assert_eq!(project.add_record(Record::started_on(at(20))), Ok(RecordAdded::Cropped));
    assert_eq!(project.records()[0].end(), Some(at(20)));
    assert_eq!(project.records()[1].start(), at(20));
}

#[test]
fn adding_after_a_closed_record_switches() {
    let mut project = Project::new("Foo".to_string());
    project.add_record(Record::started_on(at(5))).unwrap();
    project.end_at(at(50)).unwrap();
    assert_eq!(project.add_record(Record::started_on(at(50))), Ok(RecordAdded::Switched));
    assert_eq!(project.records().len(), 2);
    assert_eq!(project.records()[0].end(), Some(at(50)));
    assert_eq!(project.records()[0].start(), at(5));
    assert_eq!(project.records()[1].start(), at(50));
    assert!(project.in_flight());
    project.end_at(at(60)).unwrap();
    assert_eq!(project.add_record(Record::started_on(at(70))), Ok(RecordAdded::Switched));
    assert_eq!(project.records().len(), 3);
    assert_eq!(project.records()[1].end(), Some(at(60)));
    assert_eq!(project.add_record(Record::started_on(at(90))), Ok(RecordAdded::Switched));
    assert_eq!(project.records()[2].end(), Some(at(90)));
}

#[test]
fn a_record_that_starts_too_early_is_refused() {
    let mut project = Project::new("Foo".to_string());
    project.add_record(Record::started_on(at(5))).unwrap();
    assert_eq!(
        project.add_record(Record::started_on(at(5))),
        Err(IllegalStateError::NoDuration)
    );
    assert_eq!(
        project.add_record(Record::started_on(at(4))),
        Err(IllegalStateError::NegativeDuration)
    );
    assert_eq!(project.records().len(), 1);
    assert!(project.in_flight());
    assert_eq!(project.end_at(at(5)), Err(IllegalStateError::NoDuration));
    assert_eq!(project.end_at(at(1)), Err(IllegalStateError::NegativeDuration));
    assert!(project.in_flight());
}

#[test]
fn ending_corrects_the_last_record() {
    let mut project = Project::new("Foo".to_string());
    project.add_record(Record::started_on(at(5))).unwrap();
    assert_eq!(project.end_at(at(50)), Ok(RecordEnded::Ended));
    assert_eq!(project.end_at(at(40)), Ok(RecordEnded::Cropped));
    assert_eq!(project.end_at(at(45)), Ok(RecordEnded::Noop));
    assert_eq!(project.last_record().unwrap().duration(), 35);
}

#[test]
fn starting_now_adds_an_open_record() {
    let mut project = Project::new("Foo".to_string());
    assert_eq!(project.start(), Ok(RecordAdded::Started));
    assert!(project.in_flight());
    assert_eq!(project.records().len(), 1);
}
