use cargo_suity::errors::SuityError;
use cargo_suity::junit::{to_xml, write_as_xml, Failure, TestCase, TestSuite};
use cargo_suity::results::parse_test_results;

const TWO_TESTS: &str = r#"{ "type": "suite", "event": "started", "test_count": 2 }
{ "type": "test", "event": "started", "name": "parsers::test::test_zpools_on_single_zpool" }
{ "type": "test", "name": "parsers::test::test_zpools_on_single_zpool", "event": "ok" }
{ "type": "test", "event": "started", "name": "failed" }
{ "type": "test", "name": "failed", "event": "failed", "stdout": "idk dawg" }
{ "type": "suite", "event": "ok", "passed": 1, "failed": 1, "allowed_fail": 0, "ignored": 0, "measured": 0, "filtered_out": 40 }"#;

const SCENARIO_A: &str = "{\"type\":\"suite\",\"event\":\"started\",\"test_count\":1}\n{\"type\":\"test\",\"event\":\"started\",\"name\":\"t1\"}\n{\"type\":\"test\",\"name\":\"t1\",\"event\":\"ok\"}\n{\"type\":\"suite\",\"event\":\"ok\",\"passed\":1,\"failed\":0,\"allowed_fail\":0,\"ignored\":0,\"measured\":0,\"filtered_out\":0}";

const SCENARIO_B: &str = "{\"type\":\"suite\",\"event\":\"started\",\"test_count\":1}\n{\"type\":\"test\",\"event\":\"started\",\"name\":\"t1\"}\n{\"type\":\"test\",\"name\":\"t1\",\"event\":\"failed\",\"stdout\":\"boom\"}\n{\"type\":\"suite\",\"event\":\"ok\",\"passed\":0,\"failed\":1,\"allowed_fail\":0,\"ignored\":0,\"measured\":0,\"filtered_out\":0}";

#[test]
fn junit_test_simple_output() {
    let stdout = r#"{ "type": "suite", "event": "started", "test_count": 1 }
{ "type": "test", "event": "started", "name": "parsers::test::test_zpools_on_single_zpool" }
{ "type": "test", "name": "parsers::test::test_zpools_on_single_zpool", "event": "ok" }
{ "type": "suite", "event": "ok", "passed": 1, "failed": 0, "allowed_fail": 0, "ignored": 0, "measured": 0, "filtered_out": 40 }"#;

    let events = parse_test_results(stdout).unwrap();

    let name = String::from("Doc Tests");
    let test_name = String::from("parsers::test::test_zpools_on_single_zpool");
    let expected_test_case = TestCase {
        name: test_name.clone(),
        failure: None,
    };
    let expected = TestSuite {
        name: name.clone(),
        errors: 0,
        failures: 0,
        tests: 1,
        test_cases: vec![expected_test_case],
    };
    let suite = TestSuite::new(events, name).unwrap();

    assert_eq!(expected, suite);
}

#[test]
fn test_failed_output() {
    let events = parse_test_results(TWO_TESTS).unwrap();

    let name = String::from("Doc Tests");
    let expected_test_case = TestCase {
        name: String::from("parsers::test::test_zpools_on_single_zpool"),
        failure: None,
    };
    let expected_test_case2 = TestCase {
        name: String::from("failed"),
        failure: Some(Failure {
            message: String::from("idk dawg"),
        }),
    };
    let expected = TestSuite {
        name: name.clone(),
        errors: 0,
        failures: 1,
        tests: 2,
        test_cases: vec![expected_test_case, expected_test_case2],
    };
    let suite = TestSuite::new(events, name).unwrap();

    assert_eq!(expected, suite);
}

#[test]
fn test_generate_xml_no_error_single_testsuite() {
    let name = String::from("Doc Tests");
    let events = parse_test_results(TWO_TESTS).unwrap();
    let suite = TestSuite::new(events, name).unwrap();

    let suites = vec![suite];

    let mut output = Vec::with_capacity(128);

    write_as_xml(&suites, &mut output);
    let text = String::from_utf8(output).unwrap();
    assert_eq!(
        text,
        "<?xml version=\"1.0\" encoding=\"utf-8\" ?>\n<testsuites>\n  <testsuite name=\"Doc Tests\" errors=\"0\" failures=\"1\" tests=\"2\">\n    <testcase name=\"parsers::test::test_zpools_on_single_zpool\"></testcase>\n    <testcase name=\"failed\">\n      <failure message=\"idk dawg\"></failure></testcase></testsuite></testsuites>"
    );
}

#[test]
fn test_multiple_outputs() {
    let stdout = r#"{ "type": "suite", "event": "started", "test_count": 1 }
{ "type": "test", "event": "started", "name": "parsers::test::test_zpools_on_single_zpool" }
{ "type": "test", "name": "parsers::test::test_zpools_on_single_zpool", "event": "ok" }
{ "type": "suite", "event": "ok", "passed": 1, "failed": 0, "allowed_fail": 0, "ignored": 0, "measured": 0, "filtered_out": 40 }
{ "type": "suite", "event": "started", "test_count": 1 }
{ "type": "test", "event": "started", "name": "parsers::test::test_zpools_on_single_zpool" }
{ "type": "test", "name": "parsers::test::test_zpools_on_single_zpool", "event": "ok" }
{ "type": "suite", "event": "ok", "passed": 1, "failed": 0, "allowed_fail": 0, "ignored": 0, "measured": 0, "filtered_out": 40 }"#;
    let events = parse_test_results(stdout).unwrap();
    let suite = TestSuite::new(events, String::from("should fail"));
    assert!(suite.is_err());
}

#[test]
fn scenario_passing_run() {
    let events = parse_test_results(SCENARIO_A).unwrap();
    let suite = TestSuite::new(events, String::from("Doc Tests")).unwrap();
    assert_eq!(
        suite,
        TestSuite {
            name: String::from("Doc Tests"),
            errors: 0,
            failures: 0,
            tests: 1,
            test_cases: vec![TestCase { name: String::from("t1"), failure: None }],
        }
    );
}

fn scenario_b_report() -> TestSuite {
    let events = parse_test_results(SCENARIO_B).unwrap();
    TestSuite::new(events, String::from("Doc Tests")).unwrap()
}

#[test]
fn scenario_failing_run() {
    let suite = scenario_b_report();
    assert_eq!(suite.failures, 1);
    assert_eq!(suite.tests, 1);
    assert_eq!(
        suite.test_cases,
        vec![TestCase {
            name: String::from("t1"),
            failure: Some(Failure { message: String::from("boom") }),
        }]
    );
}

#[test]
fn scenario_failing_run_as_xml() {
    let xml = to_xml(&vec![scenario_b_report()]);
    assert!(xml.contains("<testsuite name=\"Doc Tests\" errors=\"0\" failures=\"1\" tests=\"1\">"));
    assert_eq!(xml.matches("<testcase ").count(), 1);
    assert_eq!(xml.matches("<failure ").count(), 1);
    assert!(xml.contains("<testcase name=\"t1\">\n      <failure message=\"boom\"></failure></testcase>"));
}

#[test]
fn scenario_two_runs_in_one_stream() {
    let stdout = format!("{}\n{}", SCENARIO_A, SCENARIO_A);
    let events = parse_test_results(&stdout).unwrap();
    assert_eq!(
        TestSuite::new(events, String::from("both")),
        Err(SuityError::MultipleTestRuns)
    );
}

#[test]
fn second_start_fails_whatever_follows() {
    let stdout = "{\"type\":\"suite\",\"event\":\"started\",\"test_count\":1}\n{\"type\":\"suite\",\"event\":\"started\",\"test_count\":5}\n{\"type\":\"test\",\"event\":\"ok\",\"name\":\"x\"}";
    let events = parse_test_results(stdout).unwrap();
    assert_eq!(
        TestSuite::new(events, String::from("x")),
        Err(SuityError::MultipleTestRuns)
    );
}

#[test]
fn serializing_twice_gives_same_bytes() {
    let suites = vec![scenario_b_report(), scenario_b_report()];
    let mut first = Vec::new();
    let mut second = Vec::new();
    write_as_xml(&suites, &mut first);
    write_as_xml(&suites, &mut second);
    assert_eq!(first, second);
    assert!(!first.is_empty());
}

#[test]
fn empty_stream_gives_empty_report() {
    let suite = TestSuite::new(vec![], String::from("none")).unwrap();
    assert_eq!(suite.tests, 0);
    assert_eq!(suite.failures, 0);
    assert!(suite.test_cases.is_empty());
}

#[test]
fn counts_come_from_suite_events() {
    let events = parse_test_results(TWO_TESTS).unwrap();
    let suite = TestSuite::new(events, String::from("n")).unwrap();
    assert_eq!(suite.tests, 2);
    assert_eq!(suite.failures, 1);
    assert_eq!(suite.test_cases.len(), 2);
    assert_eq!(suite.test_cases[0].name, "parsers::test::test_zpools_on_single_zpool");
    assert_eq!(suite.test_cases[1].name, "failed");
}

#[test]
fn attribute_text_is_escaped() {
    let suite = TestSuite {
        name: String::from("a&b"),
        errors: 0,
        failures: 12345,
        tests: 1234567890,
        test_cases: vec![TestCase {
            name: String::from("<t>"),
            failure: Some(Failure { message: String::from("say \"hi\" 'x' é") }),
        }],
    };
    let xml = to_xml(&vec![suite]);
    assert_eq!(
        xml,
        "<?xml version=\"1.0\" encoding=\"utf-8\" ?>\n<testsuites>\n  <testsuite name=\"a&amp;b\" errors=\"0\" failures=\"12345\" tests=\"1234567890\">\n    <testcase name=\"&lt;t&gt;\">\n      <failure message=\"say &quot;hi&quot; &apos;x&apos; é\"></failure></testcase></testsuite></testsuites>"
    );
}

#[test]
fn no_reports_give_empty_container() {
    assert_eq!(
        to_xml(&vec![]),
        "<?xml version=\"1.0\" encoding=\"utf-8\" ?>\n<testsuites></testsuites>"
    );
}

#[test]
fn largest_counter_is_written_in_full() {
    let suite = TestSuite {
        name: String::from("big"),
        errors: 0,
        failures: u64::MAX,
        tests: 0,
        test_cases: vec![],
    };
    let xml = to_xml(&vec![suite]);
    assert!(xml.contains("failures=\"18446744073709551615\" tests=\"0\"></testsuite>"));
}

#[test]
fn failed_test_without_output_gets_empty_message() {
    let events = vec![cargo_suity::results::Event::Test(cargo_suity::results::Test {
        event: cargo_suity::results::EventKind::Failed,
        name: String::from("t"),
        stdout: None,
    })];
    let suite = TestSuite::new(events, String::from("s")).unwrap();
    assert_eq!(
        suite.test_cases,
        vec![TestCase { name: String::from("t"), failure: Some(Failure { message: String::new() }) }]
    );
}

#[test]
fn line_breaks_in_messages_are_kept() {
    let suite = TestSuite {
        name: String::from("a\tb"),
        errors: 0,
        failures: 1,
        tests: 1,
        test_cases: vec![TestCase {
            name: String::from("t"),
            failure: Some(Failure { message: String::from("line one\nline two\r\n") }),
        }],
    };
    let xml = to_xml(&vec![suite]);
    assert!(xml.contains("<testsuite name=\"a&#9;b\""));
    assert!(xml.contains("<failure message=\"line one&#10;line two&#13;&#10;\"></failure>"));
    assert!(!xml.contains("line one\n"));
}
