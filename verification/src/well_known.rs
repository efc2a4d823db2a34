//! Well-known test output (JUnit XML) and coverage data (Cobertura as XML, JSON or JSON5)
//! read from text into test runs and covered files.
use vstd::prelude::*;

use crate::collect_cfg::{WellKnownCoverageFormat, WellKnownTestFormat};
use crate::test_runs::{
    cobertura_model_view, cobertura_to_well_known_coverage, coverage_decoding, file_role, test_decoding, Decoding,
    FileRole, coverage_converted, CoberturaClass, CoberturaCoverage,
    CoberturaLine, CoberturaPackage, CoberturaView, WellKnownCoverageData, junit_report_ok, junit_to_shallow_test_run, junit_view_ok, report_converted, report_view, too_many_tests,
    JunitReport, JunitReportView, JunitSpan, JunitStatus, JunitTestCase, JunitTestSuite, JunitTime,
    ShallowTestRun,
};

verus! {

/// A JUnit report as quick-junit reads it.
#[verifier::external_type_specification]
#[verifier::external_body]
pub struct ExJunitReport(quick_junit::Report);

/// What `quick_junit::Report::deserialize_from_str` reads from a text, as plain data; `None`
/// where it refuses the text.
pub uninterp spec fn junit_report_of(text: Seq<char>) -> Option<JunitReportView>;

/// What a report that quick-junit read holds, as plain data: a report without a name has the
/// empty one.
pub uninterp spec fn junit_view(report: quick_junit::Report) -> JunitReportView;

/// `quick_junit::Report::deserialize_from_str`: the report a text holds, or `None` where the
/// text is not a JUnit report.
#[verifier::external_body]
fn parse_junit(text: &str) -> (res: Option<quick_junit::Report>)
    ensures
        match junit_report_of(text@) {
            Some(v) => res matches Some(r) && junit_view(r) == v,
            None => res is None,
        },
{
    quick_junit::Report::deserialize_from_str(text).ok()
}

/// The fields of a report (`name`, `uuid`, `timestamp`, `time`, `tests`) and the number of
/// its test suites. Timestamps are taken as chrono's Unix seconds and sub-second nanoseconds,
/// durations as whole seconds and nanoseconds.
#[verifier::external_body]
fn junit_head(r: &quick_junit::Report) -> (res: (
    Option<String>,
    Option<String>,
    Option<JunitTime>,
    Option<JunitSpan>,
    usize,
    usize,
))
    ensures
        match res.0 {
            Some(n) => junit_view(*r).name == n@,
            None => junit_view(*r).name == Seq::<char>::empty(),
        },
        junit_view(*r).uuid == crate::requirements::opt_text(res.1),
        junit_view(*r).timestamp == res.2,
        junit_view(*r).time == res.3,
        junit_view(*r).tests == res.4,
        junit_view(*r).test_suites.len() == res.5,
{
    (
        r.name.as_ref().map(|n| n.to_string()),
        r.uuid.as_ref().map(|u| u.to_string()),
        r.timestamp.map(|t| JunitTime { secs: t.timestamp(), subsec_nanos: t.timestamp_subsec_nanos() }),
        r.time.map(|d| JunitSpan { secs: d.as_secs(), subsec_nanos: d.subsec_nanos() }),
        r.tests,
        r.test_suites.len(),
    )
}

/// The fields of test suite `i` of a report (`name`, `tests`, `timestamp`, `time`) and the
/// number of its test cases.
#[verifier::external_body]
fn junit_suite(r: &quick_junit::Report, i: usize) -> (res: (
    String,
    usize,
    Option<JunitTime>,
    Option<JunitSpan>,
    usize,
))
    requires
        i < junit_view(*r).test_suites.len(),
    ensures
        junit_view(*r).test_suites[i as int].name == res.0@,
        junit_view(*r).test_suites[i as int].tests == res.1,
        junit_view(*r).test_suites[i as int].timestamp == res.2,
        junit_view(*r).test_suites[i as int].time == res.3,
        junit_view(*r).test_suites[i as int].test_cases.len() == res.4,
{
    let s = &r.test_suites[i];
    (
        s.name.to_string(),
        s.tests,
        s.timestamp.map(|t| JunitTime { secs: t.timestamp(), subsec_nanos: t.timestamp_subsec_nanos() }),
        s.time.map(|d| JunitSpan { secs: d.as_secs(), subsec_nanos: d.subsec_nanos() }),
        s.test_cases.len(),
    )
}

/// The fields of test case `j` of test suite `i` of a report (`name`, `classname`,
/// `timestamp`, `time`).
#[verifier::external_body]
fn junit_case_fields(r: &quick_junit::Report, i: usize, j: usize) -> (res: (
    String,
    Option<String>,
    Option<JunitTime>,
    Option<JunitSpan>,
))
    requires
        i < junit_view(*r).test_suites.len(),
        j < junit_view(*r).test_suites[i as int].test_cases.len(),
    ensures
        junit_view(*r).test_suites[i as int].test_cases[j as int].name == res.0@,
        junit_view(*r).test_suites[i as int].test_cases[j as int].classname == crate::requirements::opt_text(res.1),
        junit_view(*r).test_suites[i as int].test_cases[j as int].timestamp == res.2,
        junit_view(*r).test_suites[i as int].test_cases[j as int].time == res.3,
{
    let c = &r.test_suites[i].test_cases[j];
    (
        c.name.to_string(),
        c.classname.as_ref().map(|n| n.to_string()),
        c.timestamp.map(|t| JunitTime { secs: t.timestamp(), subsec_nanos: t.timestamp_subsec_nanos() }),
        c.time.map(|d| JunitSpan { secs: d.as_secs(), subsec_nanos: d.subsec_nanos() }),
    )
}

/// The status of test case `j` of test suite `i` of a report.
#[verifier::external_body]
fn junit_case_status(r: &quick_junit::Report, i: usize, j: usize) -> (res: JunitStatus)
    requires
        i < junit_view(*r).test_suites.len(),
        j < junit_view(*r).test_suites[i as int].test_cases.len(),
    ensures
        junit_view(*r).test_suites[i as int].test_cases[j as int].status == res,
{
    match r.test_suites[i].test_cases[j].status {
        quick_junit::TestCaseStatus::Success { .. } => JunitStatus::Success,
        quick_junit::TestCaseStatus::NonSuccess { .. } => JunitStatus::NonSuccess,
        quick_junit::TestCaseStatus::Skipped { .. } => JunitStatus::Skipped,
    }
}

/// The `n` test suites of a report.
fn junit_suites(r: &quick_junit::Report, n: usize) -> (res: Vec<JunitTestSuite>)
    requires
        n == junit_view(*r).test_suites.len(),
    ensures
        res@.map_values(|s: JunitTestSuite| crate::test_runs::suite_view(s)) == junit_view(*r).test_suites,
{
    let ghost v = junit_view(*r);
    let mut suites: Vec<JunitTestSuite> = Vec::new();
    for i in 0..n
        invariant
            n == v.test_suites.len(),
            v == junit_view(*r),
            suites@.len() == i,
            forall|k: int| 0 <= k < i ==> crate::test_runs::suite_view(#[trigger] suites@[k]) == v.test_suites[k],
    {
        let (name, tests, timestamp, time, m) = junit_suite(r, i);
        let mut cases: Vec<JunitTestCase> = Vec::new();
        for j in 0..m
            invariant
                n == v.test_suites.len(),
                v == junit_view(*r),
                i < n,
                m == v.test_suites[i as int].test_cases.len(),
                cases@.len() == j,
                forall|k: int|
                    0 <= k < j ==> crate::test_runs::case_view(#[trigger] cases@[k]) == v.test_suites[i as int].test_cases[k],
        {
            let (cname, classname, ctimestamp, ctime) = junit_case_fields(r, i, j);
            let status = junit_case_status(r, i, j);
            cases.push(JunitTestCase { name: cname, classname, status, timestamp: ctimestamp, time: ctime });
        }
        let suite = JunitTestSuite { name, tests, timestamp, time, test_cases: cases };
        assert(crate::test_runs::suite_view(suite).test_cases =~= v.test_suites[i as int].test_cases);
        suites.push(suite);
    }
    assert(suites@.map_values(|s: JunitTestSuite| crate::test_runs::suite_view(s)) =~= v.test_suites);
    suites
}

/// The report that quick-junit read, in the library's terms.
fn junit_report_from(r: &quick_junit::Report) -> (res: JunitReport)
    ensures
        report_view(res) == junit_view(*r),
{
    let (name, uuid, timestamp, time, tests, n) = junit_head(r);
    let test_suites = junit_suites(r, n);
    let name = match name {
        Some(s) => s,
        None => String::new(),
    };
    let res = JunitReport { name, uuid, timestamp, time, tests, test_suites };
    assert(report_view(res).test_suites == junit_view(*r).test_suites);
    res
}

/// Whether `time` can take the JUnit timestamp.
fn time_ok(t: Option<JunitTime>) -> (res: bool)
    ensures
        res == crate::test_runs::opt_time_ok(t),
{
    match t {
        None => true,
        Some(x) => {
            let in_range = -377_705_116_800i64 <= x.secs && x.secs <= 253_402_300_799i64;
            if !in_range {
                true
            } else {
                let carried = x.secs + (x.subsec_nanos / 1_000_000_000) as i64;
                -377_705_116_800i64 <= carried && carried <= 253_402_300_799i64
            }
        },
    }
}

/// Whether `time` can take every timestamp of the report.
pub fn junit_times_ok(r: &JunitReport) -> (res: bool)
    ensures
        res == junit_report_ok(*r),
{
    let ghost v = report_view(*r);
    if !time_ok(r.timestamp) {
        return false;
    }
    for i in 0..r.test_suites.len()
        invariant
            v == report_view(*r),
            crate::test_runs::opt_time_ok(r.timestamp),
            forall|k: int|
                #![trigger v.test_suites[k]]
                0 <= k < i ==> {
                    let s = v.test_suites[k];
                    &&& crate::test_runs::opt_time_ok(s.timestamp)
                    &&& forall|j: int| 0 <= j < s.test_cases.len() ==> crate::test_runs::opt_time_ok((#[trigger] s.test_cases[j]).timestamp)
                },
    {
        let s = &r.test_suites[i];
        assert(v.test_suites[i as int] == crate::test_runs::suite_view(*s));
        if !time_ok(s.timestamp) {
            return false;
        }
        for j in 0..s.test_cases.len()
            invariant
                v == report_view(*r),
                i < v.test_suites.len(),
                v.test_suites[i as int] == crate::test_runs::suite_view(*s),
                forall|q: int| 0 <= q < j ==> crate::test_runs::opt_time_ok((#[trigger] v.test_suites[i as int].test_cases[q]).timestamp),
        {
            assert(v.test_suites[i as int].test_cases[j as int] == crate::test_runs::case_view(s.test_cases@[j as int]));
            if !time_ok(s.test_cases[j].timestamp) {
                return false;
            }
        }
    }
    true
}

/// Reasons well-known test output or coverage data cannot be read.
#[derive(Debug, Clone, Copy, PartialEq, Eq, Structural)]
pub enum WellKnownError {
    /// The file extension is not one the format is read from.
    UnsupportedExtension,
    /// The text is not valid in the format.
    Unreadable,
    /// A timestamp lies so close to the end of what `time` represents that its sub-second
    /// nanoseconds carry past it.
    TimestampOutOfRange,
    /// A count of tests exceeds `u32`.
    TooManyTests,
}

/// The test run that JUnit text gives: `Ok` exactly where the text is a JUnit report whose
/// timestamps `time` can take and whose counts of tests fit `u32`.
pub open spec fn junit_outcome(content: Seq<char>, res: Result<ShallowTestRun, WellKnownError>) -> bool {
    match junit_report_of(content) {
        None => res == Err::<ShallowTestRun, WellKnownError>(WellKnownError::Unreadable),
        Some(v) => if !junit_view_ok(v) {
            res == Err::<ShallowTestRun, WellKnownError>(WellKnownError::TimestampOutOfRange)
        } else if too_many_tests(v) {
            res == Err::<ShallowTestRun, WellKnownError>(WellKnownError::TooManyTests)
        } else {
            res matches Ok(r) && report_converted(v, r)
        },
    }
}

impl WellKnownTestFormat {
    /// Reads test output of this format from the content of a file with the given extension:
    /// JUnit from `.xml` files only.
    pub fn to_shallow_test_run(&self, extension: &str, content: &str) -> (res: Result<ShallowTestRun, WellKnownError>)
        ensures
            extension@ != "xml"@ ==> res == Err::<ShallowTestRun, WellKnownError>(WellKnownError::UnsupportedExtension),
            extension@ == "xml"@ ==> junit_outcome(content@, res),
    {
        if test_decoding(*self, extension).is_none() {
            return Err(WellKnownError::UnsupportedExtension);
        }
        let parsed = match parse_junit(content) {
            Some(r) => r,
            None => {
                return Err(WellKnownError::Unreadable);
            },
        };
        let report = junit_report_from(&parsed);
        if !junit_times_ok(&report) {
            return Err(WellKnownError::TimestampOutOfRange);
        }
        match junit_to_shallow_test_run(&report) {
            Ok(run) => Ok(run),
            Err(_) => Err(WellKnownError::TooManyTests),
        }
    }
}

/// Cobertura coverage data as covcon reads it.
#[verifier::external_type_specification]
#[verifier::external_body]
pub struct ExCoberturaCoverage(covcon::cobertura::no_xml_loose::Coverage);

/// What covcon reads from Cobertura XML (`schema_loose::Coverage::try_from`, then into
/// `no_xml_loose::Coverage`), as plain data; `None` where it refuses the text.
pub uninterp spec fn cobertura_xml_of(text: Seq<char>) -> Option<CoberturaView>;

/// What `json5::from_str` reads from Cobertura data in JSON5 as covcon's
/// `no_xml_loose::Coverage`, as plain data; `None` where it refuses the text.
pub uninterp spec fn cobertura_json5_of(text: Seq<char>) -> Option<CoberturaView>;

/// What Cobertura data that covcon holds is, as plain data: its timestamp text, and per
/// package its classes, each as its file name and lines.
pub uninterp spec fn cobertura_view(coverage: covcon::cobertura::no_xml_loose::Coverage) -> CoberturaView;

/// `covcon::cobertura::schema_loose::Coverage::try_from` on XML text, converted into
/// `no_xml_loose::Coverage`; `None` where the text is not Cobertura XML.
#[verifier::external_body]
fn parse_cobertura_xml(text: &str) -> (res: Option<covcon::cobertura::no_xml_loose::Coverage>)
    ensures
        match cobertura_xml_of(text@) {
            Some(v) => res matches Some(c) && cobertura_view(c) == v,
            None => res is None,
        },
{
    covcon::cobertura::schema_loose::Coverage::try_from(text).ok().map(covcon::cobertura::no_xml_loose::Coverage::from)
}

/// `json5::from_str` into covcon's `no_xml_loose::Coverage`; `None` where the text is not
/// Cobertura data in JSON5.
#[verifier::external_body]
fn parse_cobertura_json5(text: &str) -> (res: Option<covcon::cobertura::no_xml_loose::Coverage>)
    ensures
        match cobertura_json5_of(text@) {
            Some(v) => res matches Some(c) && cobertura_view(c) == v,
            None => res is None,
        },
{
    json5::from_str::<covcon::cobertura::no_xml_loose::Coverage>(text).ok()
}

/// The timestamp text of Cobertura data and the number of its packages.
#[verifier::external_body]
fn cobertura_head(c: &covcon::cobertura::no_xml_loose::Coverage) -> (res: (String, usize))
    ensures
        cobertura_view(*c).timestamp == res.0@,
        cobertura_view(*c).packages.len() == res.1,
{
    (c.timestamp.clone(), c.packages.package.len())
}

/// The number of classes of package `i`.
#[verifier::external_body]
fn cobertura_class_count(c: &covcon::cobertura::no_xml_loose::Coverage, i: usize) -> (res: usize)
    requires
        i < cobertura_view(*c).packages.len(),
    ensures
        cobertura_view(*c).packages[i as int].len() == res,
{
    c.packages.package[i].classes.class.len()
}

/// The file name (as text) and the number of lines of class `j` of package `i`.
#[verifier::external_body]
fn cobertura_class(c: &covcon::cobertura::no_xml_loose::Coverage, i: usize, j: usize) -> (res: (String, usize))
    requires
        i < cobertura_view(*c).packages.len(),
        j < cobertura_view(*c).packages[i as int].len(),
    ensures
        cobertura_view(*c).packages[i as int][j as int].0 == res.0@,
        cobertura_view(*c).packages[i as int][j as int].1.len() == res.1,
{
    let class = &c.packages.package[i].classes.class[j];
    (class.filename.to_string_lossy().to_string(), class.lines.line.len())
}

/// Line `k` of class `j` of package `i`: its number and hits.
#[verifier::external_body]
fn cobertura_line(c: &covcon::cobertura::no_xml_loose::Coverage, i: usize, j: usize, k: usize) -> (res: CoberturaLine)
    requires
        i < cobertura_view(*c).packages.len(),
        j < cobertura_view(*c).packages[i as int].len(),
        k < cobertura_view(*c).packages[i as int][j as int].1.len(),
    ensures
        cobertura_view(*c).packages[i as int][j as int].1[k as int] == res,
{
    let line = &c.packages.package[i].classes.class[j].lines.line[k];
    CoberturaLine { number: line.number, hits: line.hits }
}

/// Cobertura data that covcon read, in the library's terms.
fn cobertura_from(c: &covcon::cobertura::no_xml_loose::Coverage) -> (res: CoberturaCoverage)
    ensures
        cobertura_model_view(res) == cobertura_view(*c),
{
    let ghost v = cobertura_view(*c);
    let (timestamp, n) = cobertura_head(c);
    let mut packages: Vec<CoberturaPackage> = Vec::new();
    for i in 0..n
        invariant
            v == cobertura_view(*c),
            n == v.packages.len(),
            packages@.len() == i,
            forall|q: int| 0 <= q < i ==> crate::test_runs::package_view(#[trigger] packages@[q]) == v.packages[q],
    {
        let m = cobertura_class_count(c, i);
        let mut classes: Vec<CoberturaClass> = Vec::new();
        for j in 0..m
            invariant
                v == cobertura_view(*c),
                n == v.packages.len(),
                i < n,
                m == v.packages[i as int].len(),
                classes@.len() == j,
                forall|q: int| 0 <= q < j ==> crate::test_runs::class_view(#[trigger] classes@[q]) == v.packages[i as int][q],
        {
            let (filename, l) = cobertura_class(c, i, j);
            let mut lines: Vec<CoberturaLine> = Vec::new();
            for k in 0..l
                invariant
                    v == cobertura_view(*c),
                    n == v.packages.len(),
                    i < n,
                    j < v.packages[i as int].len(),
                    l == v.packages[i as int][j as int].1.len(),
                    lines@ == v.packages[i as int][j as int].1.take(k as int),
            {
                let line = cobertura_line(c, i, j, k);
                lines.push(line);
                assert(v.packages[i as int][j as int].1.take(k + 1) == v.packages[i as int][j as int].1.take(k as int).push(line));
            }
            assert(v.packages[i as int][j as int].1.take(l as int) == v.packages[i as int][j as int].1);
            classes.push(CoberturaClass { filename, lines });
        }
        let p = CoberturaPackage { classes };
        assert(crate::test_runs::package_view(p) =~= v.packages[i as int]);
        packages.push(p);
    }
    let res = CoberturaCoverage { timestamp, packages };
    assert(cobertura_model_view(res).packages =~= v.packages);
    res
}

impl WellKnownCoverageFormat {
    /// Reads coverage data of this format from the content of a file with the given
    /// extension, with file paths taken relative to `root_path`: Cobertura from `.xml` files
    /// as XML and from `.json` and `.json5` files as JSON5.
    pub fn to_well_known_coverage(&self, root_path: &str, extension: &str, content: &str) -> (res: Result<
        WellKnownCoverageData,
        WellKnownError,
    >)
        ensures
            extension@ == "xml"@ ==> match cobertura_xml_of(content@) {
                Some(v) => res matches Ok(d) && coverage_converted(v, root_path@, d),
                None => res == Err::<WellKnownCoverageData, WellKnownError>(WellKnownError::Unreadable),
            },
            extension@ == "json"@ || extension@ == "json5"@ ==> match cobertura_json5_of(content@) {
                Some(v) => res matches Ok(d) && coverage_converted(v, root_path@, d),
                None => res == Err::<WellKnownCoverageData, WellKnownError>(WellKnownError::Unreadable),
            },
            extension@ != "xml"@ && extension@ != "json"@ && extension@ != "json5"@ ==> res == Err::<
                WellKnownCoverageData,
                WellKnownError,
            >(WellKnownError::UnsupportedExtension),
    {
        proof {
            reveal_strlit("xml");
            reveal_strlit("json");
            reveal_strlit("json5");
            assert("json"@.len() == 4 && "json5"@.len() == 5 && "xml"@.len() == 3);
        }
        let parsed = match coverage_decoding(*self, extension) {
            Some(Decoding::CoberturaXml) => parse_cobertura_xml(content),
            Some(_) => parse_cobertura_json5(content),
            None => {
                return Err(WellKnownError::UnsupportedExtension);
            },
        };
        match parsed {
            Some(c) => Ok(cobertura_to_well_known_coverage(&cobertura_from(&c), root_path)),
            None => Err(WellKnownError::Unreadable),
        }
    }
}

/// Whether `glob::Pattern::new` accepts a pattern.
pub uninterp spec fn glob_valid(pattern: Seq<char>) -> bool;

/// Whether the path matches the pattern (`glob::Pattern::matches`), for a pattern that
/// `glob` accepts.
pub uninterp spec fn glob_match(pattern: Seq<char>, path: Seq<char>) -> bool;

/// `glob::Pattern::new`: whether the pattern is valid.
#[verifier::external_body]
fn glob_pattern_ok(pattern: &str) -> (res: bool)
    ensures
        res == glob_valid(pattern@),
{
    glob::Pattern::new(pattern).is_ok()
}

/// `glob::Pattern::new(pattern)` and `matches(path)`: `None` where the pattern is invalid.
#[verifier::external_body]
fn glob_matches(pattern: &str, path: &str) -> (res: Option<bool>)
    ensures
        res is Some <==> glob_valid(pattern@),
        res matches Some(b) ==> b == glob_match(pattern@, path@),
{
    match glob::Pattern::new(pattern) {
        Ok(p) => Some(p.matches(path)),
        Err(_) => None,
    }
}

/// Whether both the test and the coverage pattern are valid glob patterns.
pub fn well_known_patterns_valid(test_pattern: &str, coverage_pattern: &str) -> (res: bool)
    ensures
        res == (glob_valid(test_pattern@) && glob_valid(coverage_pattern@)),
{
    glob_pattern_ok(test_pattern) && glob_pattern_ok(coverage_pattern)
}

/// What a file of well-known output at `path` is read as: nothing where a valid general
/// pattern does not match it (an invalid general pattern is ignored); else test output where
/// it matches the test pattern, coverage data where it matches the coverage pattern.
pub open spec fn well_known_role(
    general: Option<Seq<char>>,
    test_pattern: Seq<char>,
    coverage_pattern: Seq<char>,
    path: Seq<char>,
) -> Option<FileRole> {
    let filtered_out = match general {
        Some(g) => glob_valid(g) && !glob_match(g, path),
        None => false,
    };
    if filtered_out {
        None
    } else if glob_match(test_pattern, path) {
        Some(FileRole::Test)
    } else if glob_match(coverage_pattern, path) {
        Some(FileRole::Coverage)
    } else {
        None
    }
}

/// What the file at `path` is read as, given a general pattern and the test and coverage
/// patterns, which must be valid.
pub fn well_known_file_role(general: Option<&str>, test_pattern: &str, coverage_pattern: &str, path: &str) -> (res:
    Option<FileRole>)
    requires
        glob_valid(test_pattern@),
        glob_valid(coverage_pattern@),
    ensures
        res == well_known_role(
            match general {
                Some(g) => Some(g@),
                None => None,
            },
            test_pattern@,
            coverage_pattern@,
            path@,
        ),
{
    if let Some(g) = general {
        if let Some(false) = glob_matches(g, path) {
            return None;
        }
    }
    let t = match glob_matches(test_pattern, path) {
        Some(b) => b,
        None => false,
    };
    let c = match glob_matches(coverage_pattern, path) {
        Some(b) => b,
        None => false,
    };
    file_role(t, c)
}

/// What the file at `path` is read as, where the test and coverage patterns are valid;
/// `None` where one of them is not.
pub fn try_well_known_file_role(general: Option<&str>, test_pattern: &str, coverage_pattern: &str, path: &str) -> (res:
    Option<Option<FileRole>>)
    ensures
        !(glob_valid(test_pattern@) && glob_valid(coverage_pattern@)) ==> res is None,
        glob_valid(test_pattern@) && glob_valid(coverage_pattern@) ==> res == Some(
            well_known_role(
                match general {
                    Some(g) => Some(g@),
                    None => None,
                },
                test_pattern@,
                coverage_pattern@,
                path@,
            ),
        ),
{
    if well_known_patterns_valid(test_pattern, coverage_pattern) {
        Some(well_known_file_role(general, test_pattern, coverage_pattern, path))
    } else {
        None
    }
}

} // verus!
