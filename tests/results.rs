use cargo_suity::errors::SuityError;
use cargo_suity::results::{parse_test_results, Event, EventKind};

#[test]
fn suite_started() {
    let stdout = r#"{ "type": "suite", "event": "started", "test_count": 1 }"#;

    let expected = Event::new_suite(EventKind::Started).set_test_count(1);
    let event = parse_test_results(stdout).expect("Failed to parse stdout!");
    assert_eq!(vec![expected], event);
}

#[test]
fn suite_ended_ok() {
    let stdout = r#"{ "type": "suite", "event": "ok", "passed": 1, "failed": 0, "allowed_fail": 0, "ignored": 0, "measured": 0, "filtered_out": 40 }"#;

    let expected = Event::new_suite(EventKind::Passed)
        .set_passed(1)
        .set_failed(0)
        .set_allowed_fail(0)
        .set_ignored(0)
        .set_measured(0)
        .set_filtered_out(40);

    let event = parse_test_results(stdout).expect("Failed to parse stdout!");
    assert_eq!(vec![expected], event);
}

#[test]
fn suite_ended_bad() {
    let stdout = r#"{ "type": "suite", "event": "failed", "passed": 15, "failed": 2, "allowed_fail": 0, "ignored": 0, "measured": 0, "filtered_out": 0 }"#;

    let expected = Event::new_suite(EventKind::Failed)
        .set_passed(15)
        .set_failed(2)
        .set_allowed_fail(0)
        .set_ignored(0)
        .set_measured(0)
        .set_filtered_out(0);

    let event = parse_test_results(stdout).expect("Failed to parse stdout!");
    assert_eq!(vec![expected], event);
}

#[test]
fn test_stared() {
    let stdout = r#"{ "type": "test", "event": "started", "name": "test_zpool_scrub" }"#;

    let expected = Event::new_test(EventKind::Started, String::from("test_zpool_scrub"));

    let event = parse_test_results(stdout).expect("Failed to parse stdout!");
    assert_eq!(vec![expected], event);
}

#[test]
fn test_completed_ok() {
    let stdout = r#"{ "type": "test", "name": "test_zpool_scrub", "event": "ok" }"#;

    let expected = Event::new_test(EventKind::Passed, String::from("test_zpool_scrub"));

    let event = parse_test_results(stdout).expect("Failed to parse stdout!");
    assert_eq!(vec![expected], event);
}

#[test]
fn test_completed_bad() {
    let stdout = r#"{ "type": "test", "name": "test_status", "event": "failed", "stdout": "thread 'test_status' panicked at 'assertion failed: `(left == right)`\n  left: `CreateZpoolRequest { name: \"tests-13180141141555479701\", props: None, altroot: None, mount: None, create_mode: Gentle, vdevs: [SingleDisk(\"/vdevs/vdev0\")], caches: [], zil: None }`,\n right: `CreateZpoolRequest { name: \"tank\", props: None, altroot: None, mount: None, create_mode: Gentle, vdevs: [SingleDisk(\"/vdevs/vdev0\")], caches: [], zil: None }`', tests/test_zpool.rs:401:9\nthread 'test_status' panicked at 'called `Result::unwrap()` on an `Err` value: Any', src/libcore/result.rs:1009:5\n" }"#;

    let err = b"thread 'test_status' panicked at 'assertion failed: `(left == right)`\n  left: `CreateZpoolRequest { name: \"tests-13180141141555479701\", props: None, altroot: None, mount: None, create_mode: Gentle, vdevs: [SingleDisk(\"/vdevs/vdev0\")], caches: [], zil: None }`,\n right: `CreateZpoolRequest { name: \"tank\", props: None, altroot: None, mount: None, create_mode: Gentle, vdevs: [SingleDisk(\"/vdevs/vdev0\")], caches: [], zil: None }`', tests/test_zpool.rs:401:9\nthread 'test_status' panicked at 'called `Result::unwrap()` on an `Err` value: Any', src/libcore/result.rs:1009:5\n";
    let expected = Event::new_test(EventKind::Failed, String::from("test_status"))
        .set_stdout(String::from_utf8_lossy(err.as_ref()).into());

    let event = parse_test_results(stdout).expect("Failed to parse stdout!");
    assert_eq!(vec![expected], event);
}

#[test]
fn results_test_simple_output() {
    let stdout = r#"{ "type": "suite", "event": "started", "test_count": 1 }
{ "type": "test", "event": "started", "name": "parsers::test::test_zpools_on_single_zpool" }
{ "type": "test", "name": "parsers::test::test_zpools_on_single_zpool", "event": "ok" }
{ "type": "suite", "event": "ok", "passed": 1, "failed": 0, "allowed_fail": 0, "ignored": 0, "measured": 0, "filtered_out": 40 }"#;

    let mut expected = Vec::with_capacity(4);
    expected.push(Event::new_suite(EventKind::Started).set_test_count(1));
    expected.push(Event::new_test(
        EventKind::Started,
        String::from("parsers::test::test_zpools_on_single_zpool"),
    ));
    expected.push(Event::new_test(
        EventKind::Passed,
        String::from("parsers::test::test_zpools_on_single_zpool"),
    ));
    expected.push(
        Event::new_suite(EventKind::Passed)
            .set_passed(1)
            .set_failed(0)
            .set_allowed_fail(0)
            .set_ignored(0)
            .set_measured(0)
            .set_filtered_out(40),
    );

    let actual = parse_test_results(stdout).unwrap();
    assert_eq!(expected, actual);
}

#[test]
fn failed_test_without_output_does_not_decode() {
    let stdout = r#"{"type":"test","name":"t1","event":"failed"}"#;
    assert_eq!(
        parse_test_results(stdout),
        Err(SuityError::MalformedEvent { line: 1 })
    );
}

#[test]
fn blank_lines_are_skipped() {
    let stdout = "\n{\"type\":\"test\",\"event\":\"ok\",\"name\":\"a\"}\r\n\r\n\n{\"type\":\"test\",\"event\":\"ok\",\"name\":\"b\"}\n";
    let events = parse_test_results(stdout).unwrap();
    assert_eq!(
        events,
        vec![
            Event::new_test(EventKind::Passed, String::from("a")),
            Event::new_test(EventKind::Passed, String::from("b")),
        ]
    );
}

#[test]
fn empty_output_has_no_events() {
    assert_eq!(parse_test_results(""), Ok(vec![]));
}

#[test]
fn bad_line_is_reported_by_number() {
    let stdout = "{\"type\":\"suite\",\"event\":\"started\",\"test_count\":3}\n\nnot json\n";
    assert_eq!(
        parse_test_results(stdout),
        Err(SuityError::MalformedEvent { line: 3 })
    );
}

#[test]
fn started_suite_needs_test_count() {
    let stdout = r#"{"type":"suite","event":"started"}"#;
    assert_eq!(
        parse_test_results(stdout),
        Err(SuityError::MalformedEvent { line: 1 })
    );
}

#[test]
fn finished_suite_needs_failed_count() {
    let stdout = r#"{"type":"suite","event":"ok","passed":3}"#;
    assert_eq!(
        parse_test_results(stdout),
        Err(SuityError::MalformedEvent { line: 1 })
    );
}

#[test]
fn unknown_type_or_tag_does_not_decode() {
    assert!(parse_test_results(r#"{"type":"bench","event":"ok","name":"x"}"#).is_err());
    assert!(parse_test_results(r#"{"type":"test","event":"timeout","name":"x"}"#).is_err());
    assert!(parse_test_results(r#"{"type":"test","event":"ok"}"#).is_err());
    assert!(parse_test_results(r#"{"type":"suite","event":"started","test_count":-1}"#).is_err());
}

#[test]
fn extra_fields_and_null_counters_are_accepted() {
    let stdout = r#"{"type":"suite","event":"ignored","exec_time":0.5,"passed":null}"#;
    assert_eq!(
        parse_test_results(stdout).unwrap(),
        vec![Event::new_suite(EventKind::Ignored)]
    );
}

#[test]
fn finished_suite_needs_every_counter() {
    let stdout = r#"{"type":"suite","event":"ok","failed":0}"#;
    assert_eq!(
        parse_test_results(stdout),
        Err(SuityError::MalformedEvent { line: 1 })
    );
    let stdout = r#"{"type":"suite","event":"failed","passed":1,"failed":1,"allowed_fail":0,"ignored":0,"measured":0}"#;
    assert!(parse_test_results(stdout).is_err());
}
