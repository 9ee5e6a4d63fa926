use timeknight::action::Action;
use timeknight::key::ProjectKey;

#[test]
fn action_record_start_serializes_alright() {
    let record_start = Action::RecordStart {
        name: "ourName".to_string(),
        ts: 321456789,
        tz: -123456,
    };
    let buffer: Vec<u8> = record_start.to_bytes();
    assert_eq!(21, buffer.len());
    assert_eq!(21, buffer.capacity());
    assert_eq!(
        [125, 149, 10, 41, 19, 0, 0, 0, 0, 192, 29, 254, 255, 111, 117, 114, 78, 97, 109, 101, 10],
        buffer.as_slice()
    );
    let (key, action) = Action::from_bytes(&buffer[..buffer.len() - 1]).unwrap();
    assert_eq!(key, Some(ProjectKey::new("OURNAME")));
    match action {
        Action::RecordStart { name, ts, tz } => {
            assert_eq!(name, "ourName");
            assert_eq!(ts, 321456789);
            assert_eq!(tz, -123456);
        }
        _ => assert!(false),
    }
}

#[test]
fn record_start_serializes_alright() {
    let time = chrono::DateTime::parse_from_rfc3339("2022-03-27T17:37:34.727018-04:00").unwrap();
    let record_start = Action::RecordStart {
        name: "ourName".to_string(),
        ts: time.timestamp(),
        tz: time.offset().utc_minus_local(),
    };
    let buffer: Vec<u8> = record_start.to_bytes();
    assert_eq!(21, buffer.len());
    assert_eq!(21, buffer.capacity());
    assert_eq!(
        buffer.as_slice(),
        [125, 30, 217, 64, 98, 0, 0, 0, 0, 64, 56, 0, 0, 111, 117, 114, 78, 97, 109, 101, 10],
    );
    let (key, action) = Action::from_bytes(&buffer[..buffer.len() - 1]).unwrap();
    assert_eq!(key, Some(ProjectKey::new("OURNAME")));
    match action {
        Action::RecordStart { name, ts, tz } => {
            assert_eq!(name, "ourName");
            assert_eq!(ts, 1648417054);
            assert_eq!(tz, 14400);
        }
        _ => assert!(false),
    }
}

fn round_trip(action: Action, key: Option<&str>) {
    let bytes = action.to_bytes();
    assert_eq!(bytes.last(), Some(&10u8));
    let (read_key, read) = Action::from_bytes(&bytes[..bytes.len() - 1]).unwrap();
    assert_eq!(read, action);
    assert_eq!(read_key, key.map(|k| ProjectKey::raw(k.to_string())));
    assert_eq!(read_key, action.key());
}

#[test]
fn project_add_round_trips() {
    round_trip(Action::ProjectAdd { name: "Foo".to_string() }, Some("foo"));
    round_trip(Action::ProjectAdd { name: String::new() }, Some(""));
}

#[test]
fn project_del_round_trips() {
    round_trip(Action::ProjectDel { name: "Grüße Ünïcode 東京".to_string() }, Some("grüße ünïcode 東京"));
}

#[test]
fn record_start_round_trips_with_negative_offset_and_wide_names() {
    round_trip(
        Action::RecordStart { name: "ÉCOLE 🚀".to_string(), ts: -1, tz: -86_399 },
        Some("école 🚀"),
    );
    round_trip(
        Action::RecordStart { name: "x".to_string(), ts: i64::MIN, tz: i32::MIN },
        Some("x"),
    );
    round_trip(
        Action::RecordStart { name: "x".to_string(), ts: i64::MAX, tz: i32::MAX },
        Some("x"),
    );
}

#[test]
fn record_stop_round_trips() {
    round_trip(Action::RecordStop { ts: 1648417054, tz: 14400 }, None);
    round_trip(Action::RecordStop { ts: -8_334_601_228_800, tz: -3600 }, None);
    round_trip(Action::RecordStop { ts: 0, tz: 0 }, None);
}

#[test]
fn encodings_are_byte_exact() {
    assert_eq!(Action::ProjectAdd { name: "ab".to_string() }.to_bytes(), vec![127, 97, 98, 10]);
    assert_eq!(Action::ProjectDel { name: "é".to_string() }.to_bytes(), vec![126, 0xc3, 0xa9, 10]);
    assert_eq!(
        Action::RecordStop { ts: 1, tz: -1 }.to_bytes(),
        vec![124, 1, 0, 0, 0, 0, 0, 0, 0, 255, 255, 255, 255, 10]
    );
    assert_eq!(
        Action::RecordStop { ts: -2, tz: 256 }.to_bytes(),
        vec![124, 254, 255, 255, 255, 255, 255, 255, 255, 0, 1, 0, 0, 10]
    );
}

#[test]
fn encodings_agree_with_the_integers_own_bytes() {
    for (ts, tz) in [(0i64, 0i32), (1, 1), (-1, -1), (i64::MIN, i32::MAX), (321456789, -123456)] {
        let bytes = Action::RecordStop { ts, tz }.to_bytes();
        assert_eq!(&bytes[1..9], &ts.to_le_bytes());
        assert_eq!(&bytes[9..13], &tz.to_le_bytes());
    }
}

#[test]
fn unknown_tags_and_short_entries_are_refused() {
    assert_eq!(Action::from_bytes(&[]), Err(()));
    assert_eq!(Action::from_bytes(&[0]), Err(()));
    assert_eq!(Action::from_bytes(&[123, 1, 2, 3]), Err(()));
    assert_eq!(Action::from_bytes(&[128]), Err(()));
    assert_eq!(Action::from_bytes(&[125, 0, 0, 0, 0, 0, 0, 0, 0, 0, 0, 0]), Err(()));
    assert_eq!(Action::from_bytes(&[124, 0, 0, 0, 0, 0, 0, 0, 0, 0, 0, 0]), Err(()));
    assert_eq!(
        Action::from_bytes(&[124, 0, 0, 0, 0, 0, 0, 0, 0, 0, 0, 0, 0]),
        Ok((None, Action::RecordStop { ts: 0, tz: 0 }))
    );
    assert_eq!(
        Action::from_bytes(&[125, 0, 0, 0, 0, 0, 0, 0, 0, 0, 0, 0, 0]),
        Ok((
            Some(ProjectKey::raw(String::new())),
            Action::RecordStart { name: String::new(), ts: 0, tz: 0 }
        ))
    );
}

#[test]
fn names_that_are_not_utf8_are_repaired() {
    let (key, action) = Action::from_bytes(&[127, b'A', 0xff, b'b']).unwrap();
    assert_eq!(action, Action::ProjectAdd { name: "A\u{fffd}b".to_string() });
    assert_eq!(key, Some(ProjectKey::raw("a\u{fffd}b".to_string())));
}

#[test]
fn keys_are_lower_cased_names() {
    assert_eq!(ProjectKey::new("OURNAME").as_str(), "ourname");
    assert_eq!(ProjectKey::new("ÀÉÎ").as_bytes(), "àéî".as_bytes());
    assert_eq!(ProjectKey::new("Foo"), ProjectKey::new("fOO"));
    assert_eq!(ProjectKey::raw("Foo".to_string()).as_str(), "Foo");
    assert!(ProjectKey::new("Foo").same(&ProjectKey::new("FOO")));
    assert!(!ProjectKey::new("Foo").same(&ProjectKey::new("bar")));
}
