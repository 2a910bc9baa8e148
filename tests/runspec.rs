use cargo_suity::configuration::{Configuration, Workflow};
use cargo_suity::errors::SuityError;
use cargo_suity::runspec::{
    add_common_args, filename_starts_with, parse_test_output, OutputFormat, Runspec, RunspecResult,
};

fn texts(v: &[&str]) -> Vec<String> {
    v.iter().map(|s| s.to_string()).collect()
}

#[test]
fn default_runspec_values() {
    let r = Runspec::default();
    assert_eq!(r.name, "default");
    assert!(r.features.is_empty());
    assert_eq!(r.format, OutputFormat::JUnit);
    assert_eq!(r.output, "test-results/");
    assert!(r.doc && r.lib);
    assert_eq!(r.integration, texts(&["*"]));
    assert_eq!(cargo_suity::defaults::name(), "default");
    assert_eq!(cargo_suity::defaults::integration(), texts(&["*"]));
    assert!(cargo_suity::defaults::doc());
}

#[test]
fn merge_prefers_workflow_settings() {
    let global = Runspec::default();
    let w = Workflow {
        name: None,
        features: Some(texts(&["a", "b"])),
        format: None,
        output: Some(String::from("out")),
        doc: Some(false),
        unit: None,
        integration: None,
    };
    let r = w.merge(String::from("ci"), &global);
    assert_eq!(r.name, "ci");
    assert_eq!(r.features, texts(&["a", "b"]));
    assert_eq!(r.output, "out");
    assert!(!r.doc);
    assert!(r.lib);
    assert_eq!(r.integration, texts(&["*"]));
}

#[test]
fn configuration_resolves_workflows() {
    let conf = Configuration::default();
    assert!(conf.is_well_formed());
    let specs = conf.get_runspecs();
    assert_eq!(specs.len(), 1);
    assert_eq!(specs[0].name, "default");

    let mut conf = Configuration::default();
    let mut w = Workflow::default();
    w.name = Some(String::from("renamed"));
    conf.workflow.push((String::from("nightly"), w));
    conf.workflow.push((String::from("default"), Workflow::default()));
    assert!(conf.is_well_formed());
    let specs = conf.get_runspecs();
    assert_eq!(specs.len(), 2);
    assert_eq!(specs[0].name, "renamed");
    assert_eq!(specs[1].name, "default");
    assert!(conf.get_runspec(&String::from("missing")).is_none());
    assert_eq!(conf.get_runspec(&String::from("nightly")).unwrap().name, "renamed");
    assert_eq!(conf.get_default().name, "default");
}

#[test]
fn cargo_arguments() {
    let mut r = Runspec::default();
    assert_eq!(r.get_shared_args(), texts(&["test"]));
    r.features = texts(&["x", "y", "z"]);
    assert_eq!(r.get_shared_args(), texts(&["test", "--features", "x y z"]));
    assert_eq!(r.compile_args(), texts(&["test", "--features", "x y z", "--no-run"]));
    assert_eq!(
        r.run_args("--lib"),
        texts(&["test", "--features", "x y z", "--lib", "--", "-Z", "unstable-options", "--format=json"])
    );
    let mut args = vec![];
    add_common_args(&mut args);
    assert_eq!(args, texts(&["-Z", "unstable-options", "--format=json"]));
}

#[test]
fn suite_names_and_targets() {
    let mut r = Runspec::default();
    r.name = String::from("ci");
    assert_eq!(r.suite_name("Lib-tests"), "[ci] Lib-tests");
    assert_eq!(r.integration_targets(&texts(&["a", "b"])), texts(&["a", "b"]));
    r.integration = texts(&["c", "*", "d"]);
    assert_eq!(r.integration_targets(&texts(&["a"])), texts(&["c", "d"]));
    r.integration = vec![];
    assert!(r.integration_targets(&texts(&["a"])).is_empty());
}

#[test]
fn output_file_path() {
    let mut r = Runspec::default();
    r.name = String::from("nightly");
    assert_eq!(r.get_output_file_path(), "test-results/nightly.xml");
    r.output = String::from("out");
    r.name = String::from("v1.2");
    assert_eq!(r.get_output_file_path(), "out/v1.xml");
}

#[test]
fn file_name_prefix() {
    assert!(filename_starts_with("target/debug/deps/zpool-1234", "zpool"));
    assert!(!filename_starts_with("zpool/other-1234", "zpool"));
    assert!(!filename_starts_with("/", "a"));
}

#[test]
fn exit_codes() {
    assert_eq!(RunspecResult::Success.as_exit_code(), 0);
    assert_eq!(RunspecResult::Errors(3).as_exit_code(), 3);
}

#[test]
fn output_without_tests_gives_no_report() {
    let out = "{\"type\":\"suite\",\"event\":\"started\",\"test_count\":0}\n{\"type\":\"suite\",\"event\":\"ok\",\"passed\":0,\"failed\":0,\"allowed_fail\":0,\"ignored\":0,\"measured\":0,\"filtered_out\":0}\n";
    assert_eq!(parse_test_output(String::from("x"), out), Ok(None));
    let out = "{\"type\":\"suite\",\"event\":\"started\",\"test_count\":1}\n{\"type\":\"test\",\"event\":\"ok\",\"name\":\"a\"}\n";
    let suite = parse_test_output(String::from("x"), out).unwrap().unwrap();
    assert_eq!(suite.tests, 1);
    assert_eq!(parse_test_output(String::from("x"), "oops"), Err(SuityError::MalformedEvent { line: 1 }));
}

#[test]
fn repeated_workflow_name_is_not_well_formed() {
    let mut conf = Configuration::default();
    conf.workflow.push((String::from("a"), Workflow::default()));
    conf.workflow.push((String::from("a"), Workflow::default()));
    assert!(!conf.is_well_formed());
}
