use mantra::collect_cfg::{WellKnownCoverageFormat, WellKnownTestFormat};
use mantra::test_runs::{FileLine, JunitReport, JunitTime};
use mantra::verification::TestCaseState;
use mantra::test_runs::FileRole;
use mantra::well_known::{junit_times_ok, try_well_known_file_role, well_known_patterns_valid, WellKnownError};

const JUNIT: &str = r#"<?xml version="1.0" encoding="UTF-8"?>
<testsuites name="my-run" tests="2" failures="1" errors="0" timestamp="2024-05-01T12:00:00.250+02:00">
  <testsuite name="suite-a" tests="2" disabled="0" errors="0" failures="1">
    <testcase name="mod::passes" classname="crate">
    </testcase>
    <testcase name="fails" classname="Class">
      <failure type="assert"/>
    </testcase>
  </testsuite>
</testsuites>
"#;

#[test]
fn junit_text_to_shallow_test_run() {
    let run = WellKnownTestFormat::Junit.to_shallow_test_run("xml", JUNIT).unwrap();
    assert_eq!(run.name, "my-run");
    let date = run.utc_date.unwrap();
    assert_eq!((date.secs, date.nanos), (1714557600, 250_000_000));
    assert_eq!(run.nr_of_test_cases, 2);
    assert_eq!(run.test_runs.len(), 1);
    let suite = &run.test_runs[0];
    assert_eq!(suite.name, "my-run/suite-a");
    assert_eq!(suite.utc_date, run.utc_date);
    assert_eq!(suite.test_cases.len(), 2);
    assert_eq!(suite.test_cases[0].name, "crate::mod::passes");
    assert_eq!(suite.test_cases[0].state, TestCaseState::Passed);
    assert_eq!(suite.test_cases[1].name, "Class/fails");
    assert_eq!(suite.test_cases[1].state, TestCaseState::Failed);
}

#[test]
fn junit_refused_inputs() {
    assert_eq!(
        WellKnownTestFormat::Junit.to_shallow_test_run("json", JUNIT).err(),
        Some(WellKnownError::UnsupportedExtension)
    );
    assert_eq!(
        WellKnownTestFormat::Junit.to_shallow_test_run("xml", "no xml at all").err(),
        Some(WellKnownError::Unreadable)
    );
}

#[test]
fn junit_timestamp_at_the_end_of_time() {
    let text = JUNIT.replace("2024-05-01T12:00:00.250+02:00", "9999-12-31T23:59:60.5+00:00");
    match WellKnownTestFormat::Junit.to_shallow_test_run("xml", &text) {
        Err(WellKnownError::TimestampOutOfRange) | Err(WellKnownError::Unreadable) => {},
        other => panic!("unexpected {:?}", other.map(|r| r.name)),
    }
}

#[test]
fn junit_times_checked() {
    let mut report = JunitReport {
        name: "r".to_string(),
        uuid: None,
        timestamp: Some(JunitTime { secs: 0, subsec_nanos: 0 }),
        time: None,
        tests: 0,
        test_suites: vec![],
    };
    assert!(junit_times_ok(&report));
    report.timestamp = Some(JunitTime { secs: 253_402_300_799, subsec_nanos: 1_500_000_000 });
    assert!(!junit_times_ok(&report));
    report.timestamp = Some(JunitTime { secs: 253_402_300_800, subsec_nanos: 1_500_000_000 });
    assert!(junit_times_ok(&report));
}

const COBERTURA_XML: &str = r#"<?xml version="1.0" ?>
<coverage version="1" timestamp="1700000000" lines-valid="2" lines-covered="1" line-rate="0.5">
  <packages>
    <package name="p">
      <classes>
        <class name="lib" filename="src/lib.rs">
          <methods/>
          <lines>
            <line number="3" hits="2"/>
            <line number="4" hits="0"/>
          </lines>
        </class>
        <class name="other" filename="/elsewhere/x.rs">
          <methods/>
          <lines/>
        </class>
      </classes>
    </package>
  </packages>
</coverage>
"#;

#[test]
fn cobertura_xml_text() {
    let data = WellKnownCoverageFormat::CoberturaLoose.to_well_known_coverage("/root/proj", "xml", COBERTURA_XML).unwrap();
    let t = data.timestamp.unwrap();
    assert_eq!((t.secs, t.nanos), (1_700_000_000, 0));
    assert_eq!(data.covered_files.len(), 1);
    assert_eq!(data.covered_files[0].filepath, "src/lib.rs");
    assert_eq!(
        data.covered_files[0].lines,
        vec![FileLine { nr: 3, hits: Some(2) }, FileLine { nr: 4, hits: Some(0) }]
    );
}

#[test]
fn cobertura_json5_text() {
    let text = r#"{
        version: "1",
        timestamp: "not a number",
        packages: { package: [{ name: "p", classes: { class: [
            { name: "c", filename: "/root/proj/src/main.rs", methods: {}, lines: { line: [{ number: 7 }] } },
        ] } }] },
    }"#;
    let data = WellKnownCoverageFormat::CoberturaLoose.to_well_known_coverage("/root/proj", "json5", text).unwrap();
    assert_eq!(data.timestamp, None);
    assert_eq!(data.covered_files.len(), 1);
    assert_eq!(data.covered_files[0].filepath, "src/main.rs");
    assert_eq!(data.covered_files[0].lines, vec![FileLine { nr: 7, hits: None }]);
}

#[test]
fn cobertura_refused_inputs() {
    let f = WellKnownCoverageFormat::CoberturaLoose;
    assert_eq!(f.to_well_known_coverage("/", "txt", COBERTURA_XML).err(), Some(WellKnownError::UnsupportedExtension));
    assert_eq!(f.to_well_known_coverage("/", "json", COBERTURA_XML).err(), Some(WellKnownError::Unreadable));
    assert_eq!(f.to_well_known_coverage("/", "xml", "{}").err(), Some(WellKnownError::Unreadable));
}

#[test]
fn well_known_roles_by_pattern() {
    let role = |general: Option<&str>, path: &str| try_well_known_file_role(general, "**/junit*.xml", "**/*cov*", path);
    assert_eq!(role(None, "out/junit-1.xml"), Some(Some(FileRole::Test)));
    assert_eq!(role(None, "out/coverage.json5"), Some(Some(FileRole::Coverage)));
    assert_eq!(role(None, "out/other.txt"), Some(None));
    assert_eq!(role(Some("other/**"), "out/junit-1.xml"), Some(None));
    assert_eq!(role(Some("out/**"), "out/junit-1.xml"), Some(Some(FileRole::Test)));
    assert_eq!(role(Some("[unclosed"), "out/junit-1.xml"), Some(Some(FileRole::Test)));
    assert_eq!(try_well_known_file_role(None, "[unclosed", "*", "a"), None);
    assert!(well_known_patterns_valid("*.xml", "**/*.json"));
    assert!(!well_known_patterns_valid("*.xml", "[oops"));
}
