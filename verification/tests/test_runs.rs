use mantra::test_runs::{
    assemble_well_known, cast_signed, cobertura_to_well_known_coverage, get_filepath, get_inner_test_run,
    junit_status_to_mantra_state, junit_test_case_name, junit_to_shallow_test_run, merge_well_known_coverage_data,
    to_offset_datetime, to_span, to_sub_test_runs, CoberturaClass, CoberturaCoverage, CoberturaLine,
    CoberturaPackage, ConvertError, CoveredFile, FileLine, JunitReport, JunitSpan, JunitStatus, JunitTestCase,
    JunitTestSuite, JunitTime, ShallowTestRun, Span, UtcTime, WellKnownCoverageData,
};
use mantra::collect_cfg::{WellKnownCoverageFormat, WellKnownTestFormat};
use mantra::test_runs::{coverage_decoding, file_role, test_decoding, Decoding, FileRole};
use mantra::text::parse_i64;
use mantra::verification::TestCaseState;

fn case(name: &str, class: Option<&str>, status: JunitStatus) -> JunitTestCase {
    JunitTestCase {
        name: name.to_string(),
        classname: class.map(|c| c.to_string()),
        status,
        timestamp: None,
        time: Some(JunitSpan { secs: 1, subsec_nanos: 5 }),
    }
}

fn shallow(name: &str, date: Option<UtcTime>, nr: u32) -> ShallowTestRun {
    ShallowTestRun { name: name.to_string(), utc_date: date, nr_of_test_cases: nr, duration: None, test_cases: vec![], test_runs: vec![] }
}

fn at(secs: i64) -> UtcTime {
    UtcTime { secs, nanos: 0 }
}

#[test]
fn junit_states() {
    assert_eq!(junit_status_to_mantra_state(JunitStatus::Success), TestCaseState::Passed);
    assert_eq!(junit_status_to_mantra_state(JunitStatus::NonSuccess), TestCaseState::Failed);
    assert_eq!(junit_status_to_mantra_state(JunitStatus::Skipped), TestCaseState::Skipped);
}

#[test]
fn junit_case_names() {
    assert_eq!(junit_test_case_name(&"mod::test".to_string(), &Some("crate".to_string())), "crate::mod::test");
    assert_eq!(junit_test_case_name(&"test".to_string(), &Some("Class".to_string())), "Class/test");
    assert_eq!(junit_test_case_name(&"plain".to_string(), &None), "plain");
}

#[test]
fn junit_times() {
    let t = to_offset_datetime(JunitTime { secs: 10, subsec_nanos: 1_500_000_000 }).unwrap();
    assert_eq!(t, UtcTime { secs: 11, nanos: 500_000_000 });
    assert_eq!(to_offset_datetime(JunitTime { secs: i64::MAX, subsec_nanos: 0 }), None);
    assert_eq!(to_span(JunitSpan { secs: 3, subsec_nanos: 7 }), Some(Span { secs: 3, nanos: 7 }));
    assert_eq!(to_span(JunitSpan { secs: u64::MAX, subsec_nanos: 0 }), None);
}

#[test]
fn junit_suite_conversion() {
    let suite = JunitTestSuite {
        name: "suite".to_string(),
        tests: 2,
        timestamp: None,
        time: None,
        test_cases: vec![case("a::b", Some("c"), JunitStatus::Success), case("x", None, JunitStatus::Skipped)],
    };
    let run = get_inner_test_run(&suite, "report", Some(at(5))).unwrap();
    assert_eq!(run.name, "report/suite");
    assert_eq!(run.utc_date, Some(at(5)));
    assert_eq!(run.nr_of_test_cases, 2);
    assert_eq!(run.test_cases.len(), 2);
    assert_eq!(run.test_cases[0].name, "c::a::b");
    assert_eq!(run.test_cases[1].state, TestCaseState::Skipped);
    assert_eq!(run.test_cases[1].duration, Some(Span { secs: 1, nanos: 5 }));

    let big = JunitTestSuite { name: "s".to_string(), tests: u32::MAX as usize + 1, timestamp: None, time: None, test_cases: vec![] };
    assert_eq!(get_inner_test_run(&big, "r", None).err(), Some(ConvertError::TooManyTests));
}

#[test]
fn nextest_reports_use_their_run_id() {
    let report = JunitReport {
        name: "nextest-run".to_string(),
        uuid: Some("1234".to_string()),
        timestamp: Some(JunitTime { secs: 100, subsec_nanos: 0 }),
        time: None,
        tests: 1,
        test_suites: vec![JunitTestSuite { name: "s".to_string(), tests: 1, timestamp: None, time: None, test_cases: vec![] }],
    };
    let run = junit_to_shallow_test_run(&report).unwrap();
    assert_eq!(run.name, "1234");
    assert_eq!(run.utc_date, Some(at(100)));
    assert_eq!(run.test_runs.len(), 1);
    assert_eq!(run.test_runs[0].name, "1234/s");
    assert_eq!(run.test_runs[0].utc_date, Some(at(100)));

    let other = JunitReport { name: "mine".to_string(), uuid: Some("1234".to_string()), timestamp: None, time: None, tests: 0, test_suites: vec![] };
    assert_eq!(junit_to_shallow_test_run(&other).unwrap().name, "mine");
}

#[test]
fn test_run_dates_fall_back_to_coverage() {
    let mut s = shallow("parent", None, 1);
    s.test_runs.push(shallow("child", None, 1));
    s.test_runs.push(shallow("dated-child", Some(at(3)), 1));
    let run = s.to_test_run(vec![], Some(at(9)));
    assert_eq!(run.utc_date, at(9));
    assert_eq!(run.test_runs[0].utc_date, at(9));
    assert_eq!(run.test_runs[1].utc_date, at(3));
}

#[test]
fn sub_test_runs_take_the_earliest_date() {
    let data = vec![
        ("a.xml".to_string(), shallow("a", Some(at(20)), 2)),
        ("b.xml".to_string(), shallow("b", None, 3)),
        ("c.xml".to_string(), shallow("c", Some(at(10)), 4)),
    ];
    let (names, date, nr, runs) = to_sub_test_runs(data, Some(at(50)));
    assert_eq!(names, vec!["a".to_string(), "b".to_string(), "c".to_string()]);
    assert_eq!(date, at(10));
    assert_eq!(nr, 9);
    assert_eq!(runs[1].1.utc_date, at(50));
    assert_eq!(runs[2].0, "c.xml");
}

fn coverage(ts: Option<UtcTime>, files: &[&str]) -> WellKnownCoverageData {
    WellKnownCoverageData {
        timestamp: ts,
        covered_files: files.iter().map(|f| CoveredFile { filepath: f.to_string(), lines: vec![] }).collect(),
    }
}

#[test]
fn coverage_data_merges_in_order() {
    let data = vec![
        ("c1.xml".to_string(), "h1".to_string(), coverage(None, &["x.rs"])),
        ("c2.xml".to_string(), "h2".to_string(), coverage(Some(at(7)), &["y.rs", "z.rs"])),
        ("c3.xml".to_string(), "h3".to_string(), coverage(Some(at(8)), &[])),
    ];
    let (sources, files, ts) = merge_well_known_coverage_data(data);
    assert_eq!(sources, vec![("c1.xml".to_string(), "h1".to_string()), ("c2.xml".to_string(), "h2".to_string()), ("c3.xml".to_string(), "h3".to_string())]);
    let paths: Vec<String> = files.iter().map(|f| f.filepath.clone()).collect();
    assert_eq!(paths, vec!["x.rs".to_string(), "y.rs".to_string(), "z.rs".to_string()]);
    assert_eq!(ts, Some(at(7)));
}

#[test]
fn well_known_single_run_takes_all_coverage() {
    let w = assemble_well_known(
        vec![("t.xml".to_string(), shallow("run", None, 1))],
        vec![("c.xml".to_string(), "h".to_string(), coverage(Some(at(4)), &["a.rs"]))],
        "combined".to_string(),
    )
    .unwrap();
    assert_eq!(w.test_run.name, "run");
    assert_eq!(w.test_run.utc_date, at(4));
    assert_eq!(w.test_run.covered_files.len(), 1);
    assert_eq!(w.data_files, vec![("run".to_string(), at(4), "t.xml".to_string()), ("run".to_string(), at(4), "c.xml".to_string())]);
    assert!(assemble_well_known(vec![], vec![], "x".to_string()).is_none());
}

#[test]
fn well_known_several_runs_are_nested() {
    let w = assemble_well_known(
        vec![("a.xml".to_string(), shallow("a", Some(at(2)), 1)), ("b.xml".to_string(), shallow("b", Some(at(1)), 2))],
        vec![],
        "combined".to_string(),
    )
    .unwrap();
    assert_eq!(w.test_run.name, "combined");
    assert_eq!(w.test_run.utc_date, at(1));
    assert_eq!(w.test_run.nr_of_test_cases, 3);
    assert_eq!(w.test_run.test_runs.len(), 2);
    assert_eq!(w.data_files, vec![("a".to_string(), at(2), "a.xml".to_string()), ("b".to_string(), at(1), "b.xml".to_string())]);
}

#[test]
fn cobertura_conversion() {
    let cov = CoberturaCoverage {
        timestamp: "1700000000".to_string(),
        packages: vec![CoberturaPackage {
            classes: vec![
                CoberturaClass { filename: "src/lib.rs".to_string(), lines: vec![CoberturaLine { number: 3, hits: Some(2) }] },
                CoberturaClass { filename: "/root/proj/src/main.rs".to_string(), lines: vec![CoberturaLine { number: u64::MAX, hits: None }] },
                CoberturaClass { filename: "/elsewhere/x.rs".to_string(), lines: vec![] },
            ],
        }],
    };
    let data = cobertura_to_well_known_coverage(&cov, "/root/proj");
    assert_eq!(data.timestamp, Some(at(1_700_000_000)));
    assert_eq!(data.covered_files.len(), 2);
    assert_eq!(data.covered_files[0].filepath, "src/lib.rs");
    assert_eq!(data.covered_files[0].lines, vec![FileLine { nr: 3, hits: Some(2) }]);
    assert_eq!(data.covered_files[1].filepath, "src/main.rs");
    assert_eq!(data.covered_files[1].lines, vec![FileLine { nr: -1, hits: None }]);

    let bad = CoberturaCoverage { timestamp: "soon".to_string(), packages: vec![] };
    assert_eq!(cobertura_to_well_known_coverage(&bad, "/").timestamp, None);
}

#[test]
fn signed_casts_and_paths() {
    assert_eq!(cast_signed(5), 5);
    assert_eq!(cast_signed(1u64 << 63), i64::MIN);
    assert_eq!(cast_signed(u64::MAX), -1);
    assert_eq!(get_filepath("/a/b/c.rs", "/a/b/"), Some("c.rs".to_string()));
    assert_eq!(get_filepath("/a/bc/d.rs", "/a/b"), None);
    assert_eq!(get_filepath("rel/d.rs", "/a"), Some("rel/d.rs".to_string()));
}

#[test]
fn integer_parsing() {
    assert_eq!(parse_i64("42"), Some(42));
    assert_eq!(parse_i64("-42"), Some(-42));
    assert_eq!(parse_i64("+7"), Some(7));
    assert_eq!(parse_i64("-9223372036854775808"), Some(i64::MIN));
    assert_eq!(parse_i64("9223372036854775807"), Some(i64::MAX));
    assert_eq!(parse_i64("9223372036854775808"), None);
    assert_eq!(parse_i64(""), None);
    assert_eq!(parse_i64("-"), None);
    assert_eq!(parse_i64("1 "), None);
    assert_eq!(parse_i64("12a"), None);
}

#[test]
fn well_known_file_rules() {
    assert_eq!(file_role(true, true), Some(FileRole::Test));
    assert_eq!(file_role(false, true), Some(FileRole::Coverage));
    assert_eq!(file_role(false, false), None);
    assert_eq!(test_decoding(WellKnownTestFormat::Junit, "xml"), Some(Decoding::JunitXml));
    assert_eq!(test_decoding(WellKnownTestFormat::Junit, "json"), None);
    assert_eq!(coverage_decoding(WellKnownCoverageFormat::CoberturaLoose, "xml"), Some(Decoding::CoberturaXml));
    assert_eq!(coverage_decoding(WellKnownCoverageFormat::CoberturaLoose, "json5"), Some(Decoding::CoberturaJson5));
    assert_eq!(coverage_decoding(WellKnownCoverageFormat::CoberturaLoose, "json"), Some(Decoding::CoberturaJson5));
    assert_eq!(coverage_decoding(WellKnownCoverageFormat::CoberturaLoose, "txt"), None);
}
