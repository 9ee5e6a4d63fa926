use timeknight::clock::Timestamp;
use timeknight::phrase::display_duration;
use timeknight::project::Project;
use timeknight::record::Record;
use timeknight::report::{daily_totals, days_since_monday, total_in, DayTotal, Period};
use timeknight::storage::{Attempt, FileOp, Opening, StorageError, LOCK_FILE, WAL_FILE};

#[test]
fn durations_in_words() {
    assert_eq!(display_duration(0), "None");
    assert_eq!(display_duration(1), "one second");
    assert_eq!(display_duration(2), "2 seconds");
    assert_eq!(display_duration(59), "59 seconds");
    assert_eq!(display_duration(60), "one minute 0 second");
    assert_eq!(display_duration(61), "one minute one second");
    assert_eq!(display_duration(75), "one minute 15 second");
    assert_eq!(display_duration(120), "2 minutes 0 seconds");
    assert_eq!(display_duration(121), "2 minutes one second");
    assert_eq!(display_duration(3_599), "59 minutes 59 seconds");
    assert_eq!(display_duration(3_600), "an hour");
    assert_eq!(display_duration(3_659), "an hour");
    assert_eq!(display_duration(3_660), "an hour one minute");
    assert_eq!(display_duration(3_720), "one hour 2 minute");
    assert_eq!(display_duration(7_200), "2 hours 0 minutes");
    assert_eq!(display_duration(10 * 3_600 + 10 * 60 + 10), "10 hours 10 minutes");
    assert_eq!(display_duration(123_456 * 3_600 + 7 * 60), "123456 hours 7 minutes");
    assert_eq!(display_duration(u64::MAX), "5124095576030431 hours 0 minutes");
}

#[test]
fn local_days_follow_the_clock() {
    assert_eq!(Timestamp::new(0, 0).unwrap().local_day(), 0);
    assert_eq!(Timestamp::new(86_399, 0).unwrap().local_day(), 0);
    assert_eq!(Timestamp::new(86_400, 0).unwrap().local_day(), 1);
    assert_eq!(Timestamp::new(-1, 0).unwrap().local_day(), -1);
    assert_eq!(Timestamp::new(-86_400, 0).unwrap().local_day(), -1);
    assert_eq!(Timestamp::new(-86_401, 0).unwrap().local_day(), -2);
    assert_eq!(Timestamp::new(0, 3_600).unwrap().local_day(), -1);
    assert_eq!(Timestamp::new(0, -3_600).unwrap().local_day(), 0);
    assert_eq!(Timestamp::new(82_800, -3_600).unwrap().local_day(), 1);
    for (secs, offset) in [(1648417054i64, 14400i32), (-5, -7200), (8_210_266_876_799, 86_399)] {
        let stamp = Timestamp::new(secs, offset).unwrap();
        let date = chrono::DateTime::from_timestamp(secs, 0)
            .unwrap()
            .with_timezone(&chrono::FixedOffset::west_opt(offset).unwrap())
            .date_naive();
        let epoch = chrono::NaiveDate::from_ymd_opt(1970, 1, 1).unwrap();
        assert_eq!(stamp.local_day(), date.signed_duration_since(epoch).num_days());
    }
}

fn project_with(spans: &[(i64, Option<i64>)]) -> Project {
    let mut project = Project::new("Work".to_string());
    for (start, end) in spans {
        project
            .add_record(Record::started_on(Timestamp::new(*start, 0).unwrap()))
            .unwrap();
        if let Some(end) = end {
            project.end_at(Timestamp::new(*end, 0).unwrap()).unwrap();
        }
    }
    project
}

#[test]
fn totals_count_records_by_the_day_they_started() {
    let day = 86_400;
    let project = project_with(&[
        (100, Some(400)),
        (500, Some(1_000)),
        (day + 10, Some(day + 70)),
        (3 * day - 5, Some(3 * day + 5)),
        (5 * day, None),
    ]);
    let now = Timestamp::new(5 * day + 30, 0).unwrap();
    assert_eq!(total_in(&project, 0, 0, now), 800);
    assert_eq!(total_in(&project, 0, 1, now), 860);
    assert_eq!(total_in(&project, 2, 2, now), 10);
    assert_eq!(total_in(&project, 3, 4, now), 0);
    assert_eq!(total_in(&project, i64::MIN, i64::MAX, now), 900);
    assert_eq!(total_in(&project, 1, 0, now), 0);
    assert_eq!(
        daily_totals(&project, i64::MIN, i64::MAX, now),
        vec![
            DayTotal { day: 0, seconds: 800 },
            DayTotal { day: 1, seconds: 60 },
            DayTotal { day: 2, seconds: 10 },
            DayTotal { day: 5, seconds: 30 },
        ]
    );
    assert_eq!(daily_totals(&project, 1, 2, now), vec![
        DayTotal { day: 1, seconds: 60 },
        DayTotal { day: 2, seconds: 10 },
    ]);
    assert_eq!(daily_totals(&project, 7, 9, now), vec![]);
    assert_eq!(daily_totals(&Project::new("x".to_string()), 0, 9, now), vec![]);
}

#[test]
fn timestamps_keep_to_the_calendar_bounds() {
    assert_eq!(timeknight::clock::FIRST_SECOND, chrono::DateTime::<chrono::Utc>::MIN_UTC.timestamp());
    assert_eq!(timeknight::clock::LAST_SECOND, chrono::DateTime::<chrono::Utc>::MAX_UTC.timestamp());
    for secs in [
        timeknight::clock::FIRST_SECOND - 1,
        timeknight::clock::FIRST_SECOND,
        0,
        1648417054,
        timeknight::clock::LAST_SECOND,
        timeknight::clock::LAST_SECOND + 1,
    ] {
        assert_eq!(
            Timestamp::new(secs, 0).is_some(),
            timeknight::clock::FIRST_SECOND <= secs && secs <= timeknight::clock::LAST_SECOND
        );
        assert_eq!(
            Timestamp::new(secs, 0).is_some(),
            chrono::DateTime::from_timestamp(secs, 0).is_some()
        );
    }
}

#[test]
fn opening_storage_step_by_step() {
    assert_eq!(LOCK_FILE, ".lock");
    assert_eq!(WAL_FILE, "entries.wal");
    let start = Opening::start();
    assert_eq!(start, Opening::CheckDirectory);
    assert!(!start.is_settled());
    assert_eq!(start.wanted(), Some(FileOp::IsDirectory));
    assert_eq!(Opening::TakeLock.wanted(), Some(FileOp::CreateLock));
    assert_eq!(Opening::OpenLog.wanted(), Some(FileOp::OpenLog));
    assert_eq!(Opening::ReleaseLock.wanted(), Some(FileOp::RemoveLock));
    assert_eq!(Opening::Open.wanted(), None);
    assert_eq!(Opening::Failed(StorageError::AlreadyLocked).wanted(), None);
    assert_eq!(Opening::Failed(StorageError::NotADirectory).wanted(), None);
    assert_eq!(start.advance(Attempt::Failed), Opening::Failed(StorageError::NotADirectory));
    let lock = start.advance(Attempt::Succeeded);
    assert_eq!(lock, Opening::TakeLock);
    assert_eq!(lock.advance(Attempt::Exists), Opening::Failed(StorageError::AlreadyLocked));
    assert_eq!(lock.advance(Attempt::Failed), Opening::Failed(StorageError::Io));
    let log = lock.advance(Attempt::Succeeded);
    assert_eq!(log, Opening::OpenLog);
    assert_eq!(log.advance(Attempt::Succeeded), Opening::Open);
    assert!(Opening::Open.is_settled());
    let release = log.advance(Attempt::Failed);
    assert_eq!(release, Opening::ReleaseLock);
    assert_eq!(release.advance(Attempt::Succeeded), Opening::Failed(StorageError::Io));
    assert_eq!(release.advance(Attempt::Failed), Opening::Failed(StorageError::Io));
    assert!(Opening::Failed(StorageError::Io).is_settled());
    assert_eq!(Opening::Open.advance(Attempt::Failed), Opening::Open);
}

#[test]
fn weekdays_agree_with_the_calendar() {
    use_calendar(&[0, 1, 2, 3, 4, 5, 6, 7, -1, -2, -3, -4, -7, -8, 19_000, 19_078, -25_567, 2_932_896]);
    assert_eq!(days_since_monday(0), 3);
    assert_eq!(days_since_monday(4), 0);
    assert_eq!(days_since_monday(-3), 0);
    assert_eq!(days_since_monday(-4), 6);
    assert!((0..7).contains(&days_since_monday(i64::MIN)));
    assert!((0..7).contains(&days_since_monday(i64::MAX)));
}

fn use_calendar(days: &[i64]) {
    let epoch = chrono::NaiveDate::from_ymd_opt(1970, 1, 1).unwrap();
    for day in days {
        let date = epoch + chrono::TimeDelta::days(*day);
        assert_eq!(
            days_since_monday(*day),
            chrono::Datelike::weekday(&date).num_days_from_monday() as i64
        );
    }
}

#[test]
fn periods_cover_their_days() {
    // 2022-03-27, a Sunday, is day 19078; March began on day 19052, February on 19024.
    let (today, march, february) = (19_078, 19_052, 19_024);
    assert_eq!(Period::Ever.days(today, march, february), (i64::MIN, i64::MAX));
    assert_eq!(Period::Today.days(today, march, february), (19_078, 19_078));
    assert_eq!(Period::Yesterday.days(today, march, february), (19_077, 19_077));
    assert_eq!(Period::Week.days(today, march, february), (19_072, 19_078));
    assert_eq!(Period::LastWeek.days(today, march, february), (19_065, 19_071));
    assert_eq!(Period::Month.days(today, march, february), (19_052, 19_078));
    assert_eq!(Period::LastMonth.days(today, march, february), (19_024, 19_051));
    assert_eq!(Period::Week.days(19_072, march, february), (19_072, 19_072));
    assert_eq!(Period::LastWeek.days(19_072, march, february), (19_065, 19_071));
    assert_eq!(Period::Yesterday.days(i64::MIN, 0, 0), (i64::MIN, i64::MIN));
    assert_eq!(Period::LastMonth.days(0, i64::MIN, i64::MIN), (i64::MIN, i64::MIN));
}
