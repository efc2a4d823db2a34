//! Test runs built from well-known test output (JUnit) and coverage data (Cobertura).
use vstd::prelude::*;

use crate::text::{chars_are, from_chars, to_chars};
use crate::verification::TestCaseState;

verus! {

/// A point in time, UTC: seconds since the Unix epoch and nanoseconds within that second.
#[derive(Debug, Clone, Copy, PartialEq, Eq, Structural)]
pub struct UtcTime {
    pub secs: i64,
    pub nanos: u32,
}

/// A time span: seconds and nanoseconds (`time::Duration`).
#[derive(Debug, Clone, Copy, PartialEq, Eq, Structural)]
pub struct Span {
    pub secs: i64,
    pub nanos: i32,
}

/// A JUnit timestamp as chrono gives it: `timestamp()` and `timestamp_subsec_nanos()`.
#[derive(Debug, Clone, Copy, PartialEq, Eq, Structural)]
pub struct JunitTime {
    pub secs: i64,
    pub subsec_nanos: u32,
}

/// A JUnit duration (`std::time::Duration`): whole seconds and nanoseconds.
#[derive(Debug, Clone, Copy, PartialEq, Eq, Structural)]
pub struct JunitSpan {
    pub secs: u64,
    pub subsec_nanos: u32,
}

/// Whether `time::OffsetDateTime::from_unix_timestamp` accepts the second: `time` (without its
/// `large-dates` feature) represents the instants from -9999-01-01 00:00:00 to
/// 9999-12-31 23:59:59 UTC.
pub open spec fn unix_in_range(secs: int) -> bool {
    -377_705_116_800 <= secs <= 253_402_300_799
}

/// `time::OffsetDateTime::from_unix_timestamp(secs)` plus `time::Duration::nanoseconds(nanos)`,
/// as Unix seconds and nanoseconds: `None` where the second is out of `time`'s range. The
/// addition carries whole seconds of `nanos` into the seconds; it panics where that leaves
/// the range, which `requires` rules out.
#[verifier::external_body]
fn utc_from_unix(secs: i64, nanos: u32) -> (res: Option<UtcTime>)
    requires
        !unix_in_range(secs as int) || unix_in_range(secs + nanos / 1_000_000_000),
    ensures
        res is Some <==> unix_in_range(secs as int),
        res matches Some(t) ==> t.secs * 1_000_000_000 + t.nanos == secs * 1_000_000_000 + nanos && t.nanos
            < 1_000_000_000,
{
    time::OffsetDateTime::from_unix_timestamp(secs).ok().map(|t| t + time::Duration::nanoseconds(nanos.into())).map(
        |t| UtcTime { secs: t.unix_timestamp(), nanos: t.nanosecond() },
    )
}

/// A JUnit timestamp that `time` can take: nanoseconds beyond a second (a leap second) never
/// carry past the last second `time` represents.
pub open spec fn junit_time_ok(t: JunitTime) -> bool {
    !unix_in_range(t.secs as int) || unix_in_range(t.secs + t.subsec_nanos / 1_000_000_000)
}

/// The instant of a JUnit timestamp, where `time` can represent it.
pub fn to_offset_datetime(t: JunitTime) -> (res: Option<UtcTime>)
    requires
        junit_time_ok(t),
    ensures
        res is Some <==> unix_in_range(t.secs as int),
        res matches Some(u) ==> u.secs * 1_000_000_000 + u.nanos == t.secs * 1_000_000_000 + t.subsec_nanos
            && u.nanos < 1_000_000_000,
{
    utc_from_unix(t.secs, t.subsec_nanos)
}

/// A JUnit duration as a `time` span: `None` where its seconds exceed `i64`.
pub open spec fn span_of(d: JunitSpan) -> Option<Span> {
    if d.secs <= i64::MAX && d.subsec_nanos <= i32::MAX {
        Some(Span { secs: d.secs as i64, nanos: d.subsec_nanos as i32 })
    } else {
        None
    }
}

/// Converts a JUnit duration (`time::Duration::try_from` a standard duration, whose
/// sub-second nanoseconds are below one second).
pub fn to_span(d: JunitSpan) -> (res: Option<Span>)
    ensures
        res == span_of(d),
{
    if d.secs <= i64::MAX as u64 && d.subsec_nanos <= i32::MAX as u32 {
        Some(Span { secs: d.secs as i64, nanos: d.subsec_nanos as i32 })
    } else {
        None
    }
}

/// The status of a JUnit test case (`quick_junit::TestCaseStatus`).
#[derive(Debug, Clone, Copy, PartialEq, Eq, Structural)]
pub enum JunitStatus {
    Success,
    NonSuccess,
    Skipped,
}

/// A JUnit test case.
pub struct JunitTestCase {
    pub name: String,
    pub classname: Option<String>,
    pub status: JunitStatus,
    pub timestamp: Option<JunitTime>,
    pub time: Option<JunitSpan>,
}

/// A JUnit test suite.
pub struct JunitTestSuite {
    pub name: String,
    pub tests: usize,
    pub timestamp: Option<JunitTime>,
    pub time: Option<JunitSpan>,
    pub test_cases: Vec<JunitTestCase>,
}

/// A JUnit report.
pub struct JunitReport {
    pub name: String,
    pub uuid: Option<String>,
    pub timestamp: Option<JunitTime>,
    pub time: Option<JunitSpan>,
    pub tests: usize,
    pub test_suites: Vec<JunitTestSuite>,
}

/// An optional JUnit timestamp that `time` can take, where there is one.
pub open spec fn opt_time_ok(t: Option<JunitTime>) -> bool {
    match t {
        Some(x) => junit_time_ok(x),
        None => true,
    }
}

/// A JUnit test case as plain data.
pub struct JunitCaseView {
    pub name: Seq<char>,
    pub classname: Option<Seq<char>>,
    pub status: JunitStatus,
    pub timestamp: Option<JunitTime>,
    pub time: Option<JunitSpan>,
}

/// A JUnit test suite as plain data.
pub struct JunitSuiteView {
    pub name: Seq<char>,
    pub tests: usize,
    pub timestamp: Option<JunitTime>,
    pub time: Option<JunitSpan>,
    pub test_cases: Seq<JunitCaseView>,
}

/// A JUnit report as plain data.
pub struct JunitReportView {
    pub name: Seq<char>,
    pub uuid: Option<Seq<char>>,
    pub timestamp: Option<JunitTime>,
    pub time: Option<JunitSpan>,
    pub tests: usize,
    pub test_suites: Seq<JunitSuiteView>,
}

/// The plain data of a JUnit test case.
pub open spec fn case_view(c: JunitTestCase) -> JunitCaseView {
    JunitCaseView {
        name: c.name@,
        classname: crate::requirements::opt_text(c.classname),
        status: c.status,
        timestamp: c.timestamp,
        time: c.time,
    }
}

/// The plain data of a JUnit test suite.
pub open spec fn suite_view(s: JunitTestSuite) -> JunitSuiteView {
    JunitSuiteView {
        name: s.name@,
        tests: s.tests,
        timestamp: s.timestamp,
        time: s.time,
        test_cases: s.test_cases@.map_values(|c: JunitTestCase| case_view(c)),
    }
}

/// The plain data of a JUnit report.
pub open spec fn report_view(r: JunitReport) -> JunitReportView {
    JunitReportView {
        name: r.name@,
        uuid: crate::requirements::opt_text(r.uuid),
        timestamp: r.timestamp,
        time: r.time,
        tests: r.tests,
        test_suites: r.test_suites@.map_values(|s: JunitTestSuite| suite_view(s)),
    }
}

/// Every timestamp of the report can be taken by `time`.
pub open spec fn junit_view_ok(r: JunitReportView) -> bool {
    &&& opt_time_ok(r.timestamp)
    &&& forall|i: int|
        #![trigger r.test_suites[i]]
        0 <= i < r.test_suites.len() ==> {
            let s = r.test_suites[i];
            &&& opt_time_ok(s.timestamp)
            &&& forall|j: int| 0 <= j < s.test_cases.len() ==> opt_time_ok((#[trigger] s.test_cases[j]).timestamp)
        }
}

/// Every timestamp of the report can be taken by `time`.
pub open spec fn junit_report_ok(r: JunitReport) -> bool {
    junit_view_ok(report_view(r))
}

/// A test case of a test run.
pub struct TestCase {
    pub name: String,
    pub state: TestCaseState,
    pub utc_date: Option<UtcTime>,
    pub duration: Option<Span>,
}

/// A test run whose date may still be missing: it is taken from coverage data later.
pub struct ShallowTestRun {
    pub name: String,
    pub utc_date: Option<UtcTime>,
    pub nr_of_test_cases: u32,
    pub duration: Option<Span>,
    pub test_cases: Vec<TestCase>,
    pub test_runs: Vec<ShallowTestRun>,
}

/// Maps a JUnit status to the state of a test case.
pub fn junit_status_to_mantra_state(status: JunitStatus) -> (state: TestCaseState)
    ensures
        state == match status {
            JunitStatus::Success => TestCaseState::Passed,
            JunitStatus::NonSuccess => TestCaseState::Failed,
            JunitStatus::Skipped => TestCaseState::Skipped,
        },
{
    match status {
        JunitStatus::Success => TestCaseState::Passed,
        JunitStatus::NonSuccess => TestCaseState::Failed,
        JunitStatus::Skipped => TestCaseState::Skipped,
    }
}

/// The name of a test case: `class::name` where the name already holds `::` (Rust), else
/// `class/name`; just the name without a class.
pub open spec fn test_case_name(name: Seq<char>, class: Option<Seq<char>>) -> Seq<char> {
    match class {
        Some(c) => if crate::text::find_from(name, "::"@, 0) is Some {
            c + "::"@ + name
        } else {
            c + "/"@ + name
        },
        None => name,
    }
}

/// The concatenation of two texts.
fn concat(a: &str, b: &str) -> (res: String)
    ensures
        res@ == a@ + b@,
{
    let mut v = to_chars(a);
    let w = to_chars(b);
    let ghost start = v@;
    for i in 0..w.len()
        invariant
            start == a@,
            w@ == b@,
            v@ == start + w@.take(i as int),
    {
        v.push(w[i]);
        assert(w@.take(i + 1) == w@.take(i as int).push(w@[i as int]));
    }
    assert(w@.take(w@.len() as int) == w@);
    from_chars(v.as_slice())
}

/// The name of a JUnit test case.
pub fn junit_test_case_name(name: &String, classname: &Option<String>) -> (res: String)
    ensures
        res@ == test_case_name(name@, crate::requirements::opt_text(*classname)),
{
    match classname {
        Some(class) => {
            proof {
                reveal_strlit("::");
            }
            let sep = to_chars("::");
            let found = crate::text::find_chars(&to_chars(name.as_str()), &sep);
            if found.is_some() {
                concat(concat(class.as_str(), "::").as_str(), name.as_str())
            } else {
                concat(concat(class.as_str(), "/").as_str(), name.as_str())
            }
        },
        None => from_chars(to_chars(name.as_str()).as_slice()),
    }
}

/// `u` is the instant of the JUnit timestamp `t`.
pub open spec fn instant_of(t: JunitTime, u: UtcTime) -> bool {
    u.secs * 1_000_000_000 + u.nanos == t.secs * 1_000_000_000 + t.subsec_nanos && u.nanos < 1_000_000_000
}

/// `u` is the instant of the optional JUnit timestamp `t`: none without a timestamp or where
/// `time` cannot take it.
pub open spec fn opt_instant(t: Option<JunitTime>, u: Option<UtcTime>) -> bool {
    match t {
        None => u is None,
        Some(t) => (u is Some <==> unix_in_range(t.secs as int)) && (u matches Some(x) ==> instant_of(t, x)),
    }
}

/// The instant of an optional JUnit timestamp.
fn opt_offset_datetime(t: Option<JunitTime>) -> (res: Option<UtcTime>)
    requires
        opt_time_ok(t),
    ensures
        opt_instant(t, res),
{
    match t {
        Some(x) => to_offset_datetime(x),
        None => None,
    }
}

/// The span of an optional JUnit duration.
pub open spec fn opt_span(d: Option<JunitSpan>) -> Option<Span> {
    match d {
        Some(d) => span_of(d),
        None => None,
    }
}

fn opt_to_span(d: Option<JunitSpan>) -> (res: Option<Span>)
    ensures
        res == opt_span(d),
{
    match d {
        Some(x) => to_span(x),
        None => None,
    }
}

/// Reasons a JUnit report cannot be converted.
#[derive(Debug, Clone, Copy, PartialEq, Eq, Structural)]
pub enum ConvertError {
    /// A count of tests exceeds `u32`.
    TooManyTests,
}

/// The test case converted from a JUnit test case.
pub open spec fn case_converted(c: JunitCaseView, t: TestCase) -> bool {
    &&& t.name@ == test_case_name(c.name, c.classname)
    &&& t.state == (match c.status {
        JunitStatus::Success => TestCaseState::Passed,
        JunitStatus::NonSuccess => TestCaseState::Failed,
        JunitStatus::Skipped => TestCaseState::Skipped,
    })
    &&& opt_instant(c.timestamp, t.utc_date)
    &&& t.duration == opt_span(c.time)
}

/// Converts a JUnit test case.
pub fn convert_test_case(c: &JunitTestCase) -> (t: TestCase)
    requires
        opt_time_ok(c.timestamp),
    ensures
        case_converted(case_view(*c), t),
{
    TestCase {
        name: junit_test_case_name(&c.name, &c.classname),
        state: junit_status_to_mantra_state(c.status),
        utc_date: opt_offset_datetime(c.timestamp),
        duration: opt_to_span(c.time),
    }
}

/// The shallow test run converted from a JUnit test suite of a report named `prefix`.
pub open spec fn suite_converted(s: JunitSuiteView, prefix: Seq<char>, timestamp: Option<UtcTime>, r: ShallowTestRun) -> bool {
    &&& r.name@ == prefix + "/"@ + s.name
    &&& r.nr_of_test_cases == s.tests
    &&& r.duration == opt_span(s.time)
    &&& r.test_runs@.len() == 0
    &&& r.test_cases@.len() == s.test_cases.len()
    &&& forall|j: int| 0 <= j < s.test_cases.len() ==> case_converted(s.test_cases[j], #[trigger] r.test_cases@[j])
    &&& match s.timestamp {
        Some(t) if unix_in_range(t.secs as int) => r.utc_date matches Some(u) && instant_of(t, u),
        _ => r.utc_date == timestamp,
    }
}

/// Converts a JUnit test suite into a test run named after the report and the suite; its
/// date is the suite's or else the report's.
pub fn get_inner_test_run(suite: &JunitTestSuite, name_prefix: &str, timestamp: Option<UtcTime>) -> (res: Result<
    ShallowTestRun,
    ConvertError,
>)
    requires
        opt_time_ok(suite.timestamp),
        forall|j: int|
            0 <= j < suite.test_cases@.len() ==> opt_time_ok((#[trigger] suite.test_cases@[j]).timestamp),
    ensures
        suite.tests > u32::MAX <==> res is Err,
        res matches Ok(r) ==> suite_converted(suite_view(*suite), name_prefix@, timestamp, r),
{
    let name = concat(concat(name_prefix, "/").as_str(), suite.name.as_str());
    let mut test_cases: Vec<TestCase> = Vec::new();
    for j in 0..suite.test_cases.len()
        invariant
            forall|k: int|
                0 <= k < suite.test_cases@.len() ==> opt_time_ok((#[trigger] suite.test_cases@[k]).timestamp),
            test_cases@.len() == j,
            forall|k: int| 0 <= k < j ==> case_converted(case_view(suite.test_cases@[k]), #[trigger] test_cases@[k]),
    {
        let c = convert_test_case(&suite.test_cases[j]);
        test_cases.push(c);
    }
    let utc_date = match opt_offset_datetime(suite.timestamp) {
        Some(u) => Some(u),
        None => timestamp,
    };
    if suite.tests > u32::MAX as usize {
        return Err(ConvertError::TooManyTests);
    }
    Ok(
        ShallowTestRun {
            name,
            utc_date,
            nr_of_test_cases: suite.tests as u32,
            duration: opt_to_span(suite.time),
            test_cases,
            test_runs: Vec::new(),
        },
    )
}

/// The name of the test run of a JUnit report: nextest names every report `nextest-run`, so
/// its run ID is taken where there is one.
pub open spec fn report_run_name(name: Seq<char>, uuid: Option<Seq<char>>) -> Seq<char> {
    if name == "nextest-run"@ {
        match uuid {
            Some(u) => u,
            None => name,
        }
    } else {
        name
    }
}

/// Some count of tests of the report exceeds `u32`.
pub open spec fn too_many_tests(v: JunitReportView) -> bool {
    v.tests > u32::MAX || exists|i: int| 0 <= i < v.test_suites.len() && (#[trigger] v.test_suites[i]).tests > u32::MAX
}

/// The shallow test run converted from a JUnit report: named after the report, dated by it,
/// with one nested run per test suite.
pub open spec fn report_converted(v: JunitReportView, r: ShallowTestRun) -> bool {
    &&& r.name@ == report_run_name(v.name, v.uuid)
    &&& opt_instant(v.timestamp, r.utc_date)
    &&& r.nr_of_test_cases == v.tests
    &&& r.duration == opt_span(v.time)
    &&& r.test_cases@.len() == 0
    &&& r.test_runs@.len() == v.test_suites.len()
    &&& forall|i: int|
        0 <= i < v.test_suites.len() ==> suite_converted(v.test_suites[i], r.name@, r.utc_date, #[trigger] r.test_runs@[i])
}

/// Converts a JUnit report into a shallow test run with one nested run per test suite.
pub fn junit_to_shallow_test_run(junit: &JunitReport) -> (res: Result<ShallowTestRun, ConvertError>)
    requires
        junit_report_ok(*junit),
    ensures
        res is Err <==> too_many_tests(report_view(*junit)),
        res matches Ok(r) ==> report_converted(report_view(*junit), r),
{
    let n = to_chars(junit.name.as_str());
    let name = if chars_are(n.as_slice(), "nextest-run") {
        match &junit.uuid {
            Some(u) => from_chars(to_chars(u.as_str()).as_slice()),
            None => from_chars(n.as_slice()),
        }
    } else {
        from_chars(n.as_slice())
    };
    let utc_date = opt_offset_datetime(junit.timestamp);
    let mut inner: Vec<ShallowTestRun> = Vec::new();
    for i in 0..junit.test_suites.len()
        invariant
            junit_report_ok(*junit),
            inner@.len() == i,
            forall|k: int| 0 <= k < i ==> (#[trigger] junit.test_suites@[k]).tests <= u32::MAX,
            forall|k: int|
                0 <= k < i ==> suite_converted(suite_view(junit.test_suites@[k]), name@, utc_date, #[trigger] inner@[k]),
    {
        let suite = &junit.test_suites[i];
        assert(junit.test_suites@[i as int] == *suite);
        let ghost sv = report_view(*junit).test_suites[i as int];
        assert(sv == suite_view(*suite));
        assert forall|j: int| 0 <= j < suite.test_cases@.len() implies opt_time_ok((#[trigger] suite.test_cases@[j]).timestamp) by {
            assert(sv.test_cases[j] == case_view(suite.test_cases@[j]));
        }
        match get_inner_test_run(suite, name.as_str(), utc_date) {
            Ok(r) => inner.push(r),
            Err(e) => {
                assert(report_view(*junit).test_suites[i as int].tests > u32::MAX);
                return Err(e);
            },
        }
    }
    proof {
        if too_many_tests(report_view(*junit)) && junit.tests <= u32::MAX {
            let k = choose|k: int| 0 <= k < report_view(*junit).test_suites.len() && (#[trigger] report_view(*junit).test_suites[k]).tests > u32::MAX;
            assert(report_view(*junit).test_suites[k] == suite_view(junit.test_suites@[k]));
        }
    }
    if junit.tests > u32::MAX as usize {
        return Err(ConvertError::TooManyTests);
    }
    Ok(
        ShallowTestRun {
            name,
            utc_date,
            nr_of_test_cases: junit.tests as u32,
            duration: opt_to_span(junit.time),
            test_cases: Vec::new(),
            test_runs: inner,
        },
    )
}

/// A line of a covered file: its number and hit count.
#[derive(Debug, Clone, Copy, PartialEq, Eq, Structural)]
pub struct FileLine {
    pub nr: i64,
    pub hits: Option<i64>,
}

/// The lines of one file that coverage data reports.
pub struct CoveredFile {
    pub filepath: String,
    pub lines: Vec<FileLine>,
}

/// A test run with its date, coverage and nested runs.
pub struct TestRun {
    pub name: String,
    pub utc_date: UtcTime,
    pub nr_of_test_cases: u32,
    pub duration: Option<Span>,
    pub test_cases: Vec<TestCase>,
    pub covered_files: Vec<CoveredFile>,
    pub test_runs: Vec<TestRun>,
}

/// `time::OffsetDateTime::now_utc()` as Unix seconds and nanoseconds. It depends on the
/// clock: nothing is stated of it but that its nanoseconds lie within a second.
#[verifier::external_body]
fn now_utc() -> (now: UtcTime)
    ensures
        now.nanos < 1_000_000_000,
{
    let t = time::OffsetDateTime::now_utc();
    UtcTime { secs: t.unix_timestamp(), nanos: t.nanosecond() }
}

/// The date of a shallow run, falling back to `date`.
pub open spec fn date_or(d: Option<UtcTime>, date: UtcTime) -> UtcTime {
    match d {
        Some(x) => x,
        None => date,
    }
}

/// The test run `r` is the shallow run `s` dated `date`, with the covered files `files`;
/// nested runs keep their own dates and otherwise take `date`, and have no coverage.
pub open spec fn run_matches(r: TestRun, s: ShallowTestRun, date: UtcTime, files: Seq<CoveredFile>) -> bool
    decreases s,
{
    &&& r.name == s.name
    &&& r.utc_date == date
    &&& r.nr_of_test_cases == s.nr_of_test_cases
    &&& r.duration == s.duration
    &&& r.test_cases == s.test_cases
    &&& r.covered_files@ == files
    &&& r.test_runs@.len() == s.test_runs@.len()
    &&& forall|k: int|
        0 <= k < s.test_runs@.len() ==> run_matches(
            #[trigger] r.test_runs@[k],
            s.test_runs@[k],
            date_or(s.test_runs@[k].utc_date, date),
            Seq::empty(),
        )
}

impl ShallowTestRun {
    /// The test run dated `utc_date`, with the covered files; nested runs without a date of
    /// their own take it.
    #[verifier::loop_isolation(false)]
    pub fn into_test_run(self, covered_files: Vec<CoveredFile>, utc_date: UtcTime) -> (r: TestRun)
        ensures
            run_matches(r, self, utc_date, covered_files@),
        decreases self,
    {
        let ghost orig = self;
        let ShallowTestRun { name, utc_date: _, nr_of_test_cases, duration, test_cases, test_runs } = self;
        let mut rest = test_runs;
        let mut runs: Vec<TestRun> = Vec::new();
        let n = rest.len();
        let mut k: usize = 0;
        while k < n
            invariant
                n == orig.test_runs@.len(),
                k <= n,
                rest@ == orig.test_runs@.skip(k as int),
                runs@.len() == k,
                forall|m: int|
                    0 <= m < k ==> run_matches(
                        #[trigger] runs@[m],
                        orig.test_runs@[m],
                        date_or(orig.test_runs@[m].utc_date, utc_date),
                        Seq::empty(),
                    ),
            decreases n - k,
        {
            let child = rest.remove(0);
            assert(child == orig.test_runs@[k as int]);
            assert(decreases_to!(orig => orig.test_runs));
            assert(decreases_to!(orig.test_runs => orig.test_runs@));
            assert(decreases_to!(orig.test_runs@ => orig.test_runs@[k as int]));
            assert(decreases_to!(orig => orig.test_runs@[k as int]));
            let date = match child.utc_date {
                Some(d) => d,
                None => utc_date,
            };
            let r = child.into_test_run(Vec::new(), date);
            runs.push(r);
            assert(rest@ =~= orig.test_runs@.skip(k + 1));
            k = k + 1;
        }
        TestRun { name, utc_date, nr_of_test_cases, duration, test_cases, covered_files, test_runs: runs }
    }

    /// The test run with the covered files, dated by the run itself, else by the coverage
    /// data, else by the clock.
    pub fn to_test_run(self, covered_files: Vec<CoveredFile>, coverage_timestamp: Option<UtcTime>) -> (r: TestRun)
        ensures
            match self.utc_date {
                Some(d) => run_matches(r, self, d, covered_files@),
                None => match coverage_timestamp {
                    Some(c) => run_matches(r, self, c, covered_files@),
                    None => run_matches(r, self, r.utc_date, covered_files@),
                },
            },
    {
        let date = match self.utc_date {
            Some(d) => d,
            None => match coverage_timestamp {
                Some(c) => c,
                None => now_utc(),
            },
        };
        self.into_test_run(covered_files, date)
    }
}

/// `a` is strictly before `b`.
pub open spec fn time_lt(a: UtcTime, b: UtcTime) -> bool {
    a.secs < b.secs || (a.secs == b.secs && a.nanos < b.nanos)
}

fn time_lt_exec(a: UtcTime, b: UtcTime) -> (res: bool)
    ensures
        res == time_lt(a, b),
{
    a.secs < b.secs || (a.secs == b.secs && a.nanos < b.nanos)
}

/// The earliest date among the runs that have one; the first of equal dates.
pub open spec fn earliest_date(runs: Seq<(String, ShallowTestRun)>) -> Option<UtcTime>
    decreases runs.len(),
{
    if runs.len() == 0 {
        None
    } else {
        let e = earliest_date(runs.drop_last());
        match runs.last().1.utc_date {
            Some(d) => if e is None || time_lt(d, e->0) {
                Some(d)
            } else {
                e
            },
            None => e,
        }
    }
}

/// The total number of test cases of the runs.
pub open spec fn total_tests(runs: Seq<(String, ShallowTestRun)>) -> int
    decreases runs.len(),
{
    if runs.len() == 0 {
        0
    } else {
        total_tests(runs.drop_last()) + runs.last().1.nr_of_test_cases
    }
}

proof fn lemma_total_tests_prefix(runs: Seq<(String, ShallowTestRun)>, i: int)
    requires
        0 <= i <= runs.len(),
    ensures
        0 <= total_tests(runs.take(i)) <= total_tests(runs),
    decreases runs.len() - i,
{
    if i < runs.len() {
        lemma_total_tests_prefix(runs, i + 1);
        assert(runs.take(i + 1).drop_last() == runs.take(i));
    } else {
        assert(runs.take(i) == runs);
    }
    lemma_total_tests_nonneg(runs.take(i));
}

proof fn lemma_total_tests_nonneg(runs: Seq<(String, ShallowTestRun)>)
    ensures
        total_tests(runs) >= 0,
    decreases runs.len(),
{
    if runs.len() > 0 {
        lemma_total_tests_nonneg(runs.drop_last());
    }
}

/// Several test runs gathered under one new run: their names in order, the earliest date
/// among them (else the coverage date, else the clock), their total number of test cases,
/// and each converted with its data file, dated by itself, else the coverage date, else the
/// clock.
pub fn to_sub_test_runs(shallow_test_run_data: Vec<(String, ShallowTestRun)>, coverage_timestamp: Option<UtcTime>) -> (res: (
    Vec<String>,
    UtcTime,
    u32,
    Vec<(String, TestRun)>,
))
    requires
        total_tests(shallow_test_run_data@) <= u32::MAX,
    ensures
        res.0@.len() == shallow_test_run_data@.len(),
        forall|k: int| 0 <= k < res.0@.len() ==> #[trigger] res.0@[k] == shallow_test_run_data@[k].1.name,
        match earliest_date(shallow_test_run_data@) {
            Some(d) => res.1 == d,
            None => match coverage_timestamp {
                Some(c) => res.1 == c,
                None => true,
            },
        },
        res.2 == total_tests(shallow_test_run_data@),
        res.3@.len() == shallow_test_run_data@.len(),
        forall|k: int|
            0 <= k < res.3@.len() ==> {
                let s = shallow_test_run_data@[k];
                &&& (#[trigger] res.3@[k]).0 == s.0
                &&& match s.1.utc_date {
                    Some(d) => run_matches(res.3@[k].1, s.1, d, Seq::empty()),
                    None => match coverage_timestamp {
                        Some(c) => run_matches(res.3@[k].1, s.1, c, Seq::empty()),
                        None => run_matches(res.3@[k].1, s.1, res.3@[k].1.utc_date, Seq::empty()),
                    },
                }
            },
{
    let ghost data = shallow_test_run_data@;
    let mut names: Vec<String> = Vec::new();
    let mut earliest: Option<UtcTime> = None;
    let mut nr_test_cases: u32 = 0;
    let mut runs: Vec<(String, TestRun)> = Vec::new();
    let mut rest = shallow_test_run_data;
    let n = rest.len();
    let mut k: usize = 0;
    while k < n
        invariant
            n == data.len(),
            k <= n,
            total_tests(data) <= u32::MAX,
            rest@ == data.skip(k as int),
            names@.len() == k,
            forall|m: int| 0 <= m < k ==> #[trigger] names@[m] == data[m].1.name,
            earliest == earliest_date(data.take(k as int)),
            nr_test_cases == total_tests(data.take(k as int)),
            runs@.len() == k,
            forall|m: int|
                0 <= m < k ==> {
                    let s = data[m];
                    &&& (#[trigger] runs@[m]).0 == s.0
                    &&& match s.1.utc_date {
                        Some(d) => run_matches(runs@[m].1, s.1, d, Seq::empty()),
                        None => match coverage_timestamp {
                            Some(c) => run_matches(runs@[m].1, s.1, c, Seq::empty()),
                            None => run_matches(runs@[m].1, s.1, runs@[m].1.utc_date, Seq::empty()),
                        },
                    }
                },
        decreases n - k,
    {
        let (path, shallow) = rest.remove(0);
        proof {
            assert(data.take(k + 1).drop_last() == data.take(k as int));
            assert(data.take(k + 1).last() == data[k as int]);
            lemma_total_tests_prefix(data, k + 1);
        }
        names.push(shallow.name.clone());
        nr_test_cases = nr_test_cases + shallow.nr_of_test_cases;
        if let Some(d) = shallow.utc_date {
            let take = match earliest {
                None => true,
                Some(e) => time_lt_exec(d, e),
            };
            if take {
                earliest = Some(d);
            }
        }
        let r = shallow.to_test_run(Vec::new(), coverage_timestamp);
        runs.push((path, r));
        assert(rest@ =~= data.skip(k + 1));
        k = k + 1;
    }
    assert(data.take(n as int) == data);
    let utc_date = match earliest {
        Some(d) => d,
        None => match coverage_timestamp {
            Some(c) => c,
            None => now_utc(),
        },
    };
    (names, utc_date, nr_test_cases, runs)
}

/// Coverage data read from one well-known coverage file.
pub struct WellKnownCoverageData {
    pub timestamp: Option<UtcTime>,
    pub covered_files: Vec<CoveredFile>,
}

/// All covered files of the coverage data, in order.
pub open spec fn all_covered_files(data: Seq<(String, String, WellKnownCoverageData)>) -> Seq<CoveredFile>
    decreases data.len(),
{
    if data.len() == 0 {
        Seq::empty()
    } else {
        all_covered_files(data.drop_last()) + data.last().2.covered_files@
    }
}

/// The first timestamp of the coverage data.
pub open spec fn first_timestamp(data: Seq<(String, String, WellKnownCoverageData)>) -> Option<UtcTime>
    decreases data.len(),
{
    if data.len() == 0 {
        None
    } else {
        match first_timestamp(data.drop_last()) {
            Some(t) => Some(t),
            None => data.last().2.timestamp,
        }
    }
}

/// Merges the coverage data of several files: their paths and hashes, all their covered
/// files in order, and the first timestamp among them.
pub fn merge_well_known_coverage_data(coverage_data: Vec<(String, String, WellKnownCoverageData)>) -> (res: (
    Vec<(String, String)>,
    Vec<CoveredFile>,
    Option<UtcTime>,
))
    ensures
        res.0@.len() == coverage_data@.len(),
        forall|k: int|
            0 <= k < coverage_data@.len() ==> (#[trigger] res.0@[k]).0 == coverage_data@[k].0 && res.0@[k].1
                == coverage_data@[k].1,
        res.1@ == all_covered_files(coverage_data@),
        res.2 == first_timestamp(coverage_data@),
{
    let ghost data = coverage_data@;
    let mut sources: Vec<(String, String)> = Vec::new();
    let mut covered_files: Vec<CoveredFile> = Vec::new();
    let mut timestamp: Option<UtcTime> = None;
    let mut rest = coverage_data;
    let n = rest.len();
    let mut k: usize = 0;
    while k < n
        invariant
            n == data.len(),
            k <= n,
            rest@ == data.skip(k as int),
            sources@.len() == k,
            forall|m: int| 0 <= m < k ==> (#[trigger] sources@[m]).0 == data[m].0 && sources@[m].1 == data[m].1,
            covered_files@ == all_covered_files(data.take(k as int)),
            timestamp == first_timestamp(data.take(k as int)),
        decreases n - k,
    {
        let (path, hash, mut cov) = rest.remove(0);
        proof {
            assert(data.take(k + 1).drop_last() == data.take(k as int));
            assert(data.take(k + 1).last() == data[k as int]);
        }
        sources.push((path, hash));
        let ghost before = covered_files@;
        covered_files.append(&mut cov.covered_files);
        if timestamp.is_none() {
            timestamp = cov.timestamp;
        }
        assert(rest@ =~= data.skip(k + 1));
        k = k + 1;
    }
    assert(data.take(n as int) == data);
    (sources, covered_files, timestamp)
}

/// A line of a Cobertura class.
#[derive(Debug, Clone, Copy, PartialEq, Eq, Structural)]
pub struct CoberturaLine {
    pub number: u64,
    pub hits: Option<u64>,
}

/// A Cobertura class: the file it covers and its lines.
pub struct CoberturaClass {
    pub filename: String,
    pub lines: Vec<CoberturaLine>,
}

/// A Cobertura package.
pub struct CoberturaPackage {
    pub classes: Vec<CoberturaClass>,
}

/// Cobertura coverage data.
pub struct CoberturaCoverage {
    /// Unix seconds, as text.
    pub timestamp: String,
    pub packages: Vec<CoberturaPackage>,
}

/// The bits of an unsigned number read as signed (`u64::cast_signed`).
pub open spec fn as_signed(n: u64) -> i64 {
    if n <= i64::MAX {
        n as i64
    } else {
        (n - 0x1_0000_0000_0000_0000) as i64
    }
}

/// The bits of an unsigned number read as signed.
pub fn cast_signed(n: u64) -> (r: i64)
    ensures
        r == as_signed(n),
{
    if n <= i64::MAX as u64 {
        n as i64
    } else {
        let m = (n - i64::MAX as u64 - 1) as i64;
        m + i64::MIN
    }
}

/// A file path relative to the directory `root`: a relative path stays as it is; an absolute
/// one must lie under `root`, which is then cut off.
pub open spec fn relative_to(file: Seq<char>, root: Seq<char>) -> Option<Seq<char>> {
    if !(file.len() > 0 && file[0] == '/') {
        Some(file)
    } else {
        let prefix = if root.len() > 0 && root.last() == '/' {
            root
        } else {
            root.push('/')
        };
        if prefix.len() <= file.len() && file.take(prefix.len() as int) == prefix {
            Some(file.skip(prefix.len() as int))
        } else {
            None
        }
    }
}

/// A file path relative to the directory `root`, where there is one.
pub fn get_filepath(filename: &str, root: &str) -> (res: Option<String>)
    ensures
        match relative_to(filename@, root@) {
            Some(p) => res is Some && res->0@ == p,
            None => res is None,
        },
{
    let f = to_chars(filename);
    if !(f.len() > 0 && f[0] == '/') {
        return Some(from_chars(f.as_slice()));
    }
    let mut prefix = to_chars(root);
    if !(prefix.len() > 0 && prefix[prefix.len() - 1] == '/') {
        prefix.push('/');
    }
    if prefix.len() <= f.len() {
        let head = crate::text::slice_chars(&f, 0, prefix.len());
        if crate::text::chars_eq(head.as_slice(), prefix.as_slice()) {
            let rest = crate::text::slice_chars(&f, prefix.len(), f.len());
            assert(head@ == f@.take(prefix@.len() as int));
            assert(rest@ == f@.skip(prefix@.len() as int));
            return Some(from_chars(rest.as_slice()));
        }
        assert(head@ == f@.take(prefix@.len() as int));
    }
    None
}

/// A Cobertura line as a covered line: number and hits read as signed.
pub open spec fn file_line_of(l: CoberturaLine) -> FileLine {
    FileLine {
        nr: as_signed(l.number),
        hits: match l.hits {
            Some(h) => Some(as_signed(h)),
            None => None,
        },
    }
}

/// Cobertura coverage data as plain data: the timestamp text, and per package its classes,
/// each as its file name and lines.
pub struct CoberturaView {
    pub timestamp: Seq<char>,
    pub packages: Seq<Seq<(Seq<char>, Seq<CoberturaLine>)>>,
}

/// A Cobertura class as plain data.
pub open spec fn class_view(c: CoberturaClass) -> (Seq<char>, Seq<CoberturaLine>) {
    (c.filename@, c.lines@)
}

/// The classes of a Cobertura package as plain data.
pub open spec fn package_view(p: CoberturaPackage) -> Seq<(Seq<char>, Seq<CoberturaLine>)> {
    p.classes@.map_values(|c: CoberturaClass| class_view(c))
}

/// Cobertura coverage data as plain data.
pub open spec fn cobertura_model_view(c: CoberturaCoverage) -> CoberturaView {
    CoberturaView {
        timestamp: c.timestamp@,
        packages: c.packages@.map_values(|p: CoberturaPackage| package_view(p)),
    }
}

/// The covered files of the classes, in order: one per class whose file has a path
/// relative to `root`; the others are left out.
pub open spec fn class_files(cs: Seq<(Seq<char>, Seq<CoberturaLine>)>, root: Seq<char>) -> Seq<(Seq<char>, Seq<FileLine>)>
    decreases cs.len(),
{
    if cs.len() == 0 {
        Seq::empty()
    } else {
        class_files(cs.drop_last(), root) + match relative_to(cs.last().0, root) {
            Some(p) => seq![(p, cs.last().1.map_values(|l: CoberturaLine| file_line_of(l)))],
            None => Seq::empty(),
        }
    }
}

/// The covered files of the packages, in order.
pub open spec fn package_files(ps: Seq<Seq<(Seq<char>, Seq<CoberturaLine>)>>, root: Seq<char>) -> Seq<(Seq<char>, Seq<FileLine>)>
    decreases ps.len(),
{
    if ps.len() == 0 {
        Seq::empty()
    } else {
        package_files(ps.drop_last(), root) + class_files(ps.last(), root)
    }
}

/// The timestamp of Cobertura data: its text read as Unix seconds, where it is a number and
/// `time` takes the second.
pub open spec fn coverage_timestamp(text: Seq<char>) -> Option<UtcTime> {
    match crate::text::i64_of(text) {
        Some(secs) => if unix_in_range(secs as int) {
            Some(UtcTime { secs, nanos: 0 })
        } else {
            None
        },
        None => None,
    }
}

/// The coverage data converted from Cobertura data, relative to `root`.
pub open spec fn coverage_converted(v: CoberturaView, root: Seq<char>, d: WellKnownCoverageData) -> bool {
    &&& d.timestamp == coverage_timestamp(v.timestamp)
    &&& files_view(d.covered_files@) == package_files(v.packages, root)
}

/// Covered files as plain data.
pub open spec fn files_view(v: Seq<CoveredFile>) -> Seq<(Seq<char>, Seq<FileLine>)> {
    v.map_values(|f: CoveredFile| (f.filepath@, f.lines@))
}

/// The covered lines of a Cobertura class.
fn convert_lines(lines: &Vec<CoberturaLine>) -> (res: Vec<FileLine>)
    ensures
        res@ == lines@.map_values(|l: CoberturaLine| file_line_of(l)),
{
    let mut out: Vec<FileLine> = Vec::new();
    for i in 0..lines.len()
        invariant
            out@ == lines@.take(i as int).map_values(|l: CoberturaLine| file_line_of(l)),
    {
        let l = lines[i];
        let hits = match l.hits {
            Some(h) => Some(cast_signed(h)),
            None => None,
        };
        out.push(FileLine { nr: cast_signed(l.number), hits });
        assert(lines@.take(i + 1).map_values(|l: CoberturaLine| file_line_of(l)) =~= lines@.take(i as int).map_values(
            |l: CoberturaLine| file_line_of(l),
        ).push(file_line_of(lines@[i as int])));
    }
    assert(lines@.take(lines@.len() as int) == lines@);
    out
}

/// Converts Cobertura coverage data: its timestamp, where it is a Unix second that `time`
/// takes, and the files of all classes that lie under `root_path`.
pub fn cobertura_to_well_known_coverage(cobertura: &CoberturaCoverage, root_path: &str) -> (res: WellKnownCoverageData)
    ensures
        coverage_converted(cobertura_model_view(*cobertura), root_path@, res),
{
    let ghost pv = cobertura_model_view(*cobertura).packages;
    let timestamp = match crate::text::parse_i64(cobertura.timestamp.as_str()) {
        Some(secs) => utc_from_unix(secs, 0),
        None => None,
    };
    let mut covered_files: Vec<CoveredFile> = Vec::new();
    let ps = &cobertura.packages;
    for i in 0..ps.len()
        invariant
            pv == cobertura_model_view(*cobertura).packages,
            ps == cobertura.packages,
            files_view(covered_files@) == package_files(pv.take(i as int), root_path@),
    {
        let cs = &ps[i].classes;
        let ghost cv = pv[i as int];
        proof {
            assert(pv.take(i + 1).drop_last() == pv.take(i as int));
            assert(pv.take(i + 1).last() == cv);
            assert(cv == package_view(ps@[i as int]));
        }
        for j in 0..cs.len()
            invariant
                cs == ps@[i as int].classes,
                cv == package_view(ps@[i as int]),
                files_view(covered_files@) == package_files(pv.take(i as int), root_path@) + class_files(
                    cv.take(j as int),
                    root_path@,
                ),
        {
            let c = &cs[j];
            proof {
                assert(cv.take(j + 1).drop_last() == cv.take(j as int));
                assert(cv.take(j + 1).last() == class_view(cs@[j as int]));
            }
            match get_filepath(c.filename.as_str(), root_path) {
                Some(filepath) => {
                    let lines = convert_lines(&c.lines);
                    let ghost prev = covered_files@;
                    let ghost entry = (filepath@, lines@);
                    covered_files.push(CoveredFile { filepath, lines });
                    assert(files_view(covered_files@) =~= files_view(prev).push(entry));
                },
                None => {},
            }
        }
        proof {
            assert(cv.take(cv.len() as int) == cv);
            assert(package_files(pv.take(i + 1), root_path@) == package_files(pv.take(i as int), root_path@) + class_files(cv, root_path@));
        }
    }
    assert(pv.take(pv.len() as int) == pv);
    WellKnownCoverageData { timestamp, covered_files }
}

/// A test run assembled from well-known test and coverage outputs, with the data files
/// that each run was read from.
pub struct WellKnownTestRun {
    pub test_run: TestRun,
    /// The name and date of a run and the path of a file it was read from.
    pub data_files: Vec<(String, UtcTime, String)>,
}

/// The date a run gets from its own date, else the coverage date; free (the clock) where it
/// has neither.
pub open spec fn dated(own: Option<UtcTime>, coverage: Option<UtcTime>, d: UtcTime) -> bool {
    match own {
        Some(x) => d == x,
        None => match coverage {
            Some(c) => d == c,
            None => true,
        },
    }
}

/// Assembles the test run of one collection of well-known outputs. Nothing without test
/// output. One test output becomes the run and gets all coverage; several become the nested
/// runs of a new run named `combined_name`, which gets all coverage, the earliest of their
/// dates and their total number of test cases. Each test output file is recorded for its
/// run, each coverage file for the top run.
pub fn assemble_well_known(
    shallow_test_run_data: Vec<(String, ShallowTestRun)>,
    coverage_data: Vec<(String, String, WellKnownCoverageData)>,
    combined_name: String,
) -> (res: Option<WellKnownTestRun>)
    requires
        total_tests(shallow_test_run_data@) <= u32::MAX,
    ensures
        res is None <==> shallow_test_run_data@.len() == 0,
        res matches Some(w) ==> {
            let runs = shallow_test_run_data@;
            let cov = coverage_data@;
            let top = w.test_run;
            let n = if runs.len() == 1 {
                1
            } else {
                runs.len()
            };
            &&& top.covered_files@ == all_covered_files(cov)
            &&& w.data_files@.len() == n + cov.len()
            &&& forall|k: int|
                0 <= k < cov.len() ==> (#[trigger] w.data_files@[n + k]).0 == top.name && w.data_files@[n + k].1
                    == top.utc_date && w.data_files@[n + k].2 == cov[k].0
            &&& runs.len() == 1 ==> {
                &&& dated(runs[0].1.utc_date, first_timestamp(cov), top.utc_date)
                &&& run_matches(top, runs[0].1, top.utc_date, all_covered_files(cov))
                &&& w.data_files@[0] == (top.name, top.utc_date, runs[0].0)
            }
            &&& runs.len() > 1 ==> {
                &&& top.name == combined_name
                &&& match earliest_date(runs) {
                    Some(d) => top.utc_date == d,
                    None => dated(None, first_timestamp(cov), top.utc_date),
                }
                &&& top.nr_of_test_cases == total_tests(runs)
                &&& top.duration is None
                &&& top.test_cases@.len() == 0
                &&& top.test_runs@.len() == runs.len()
                &&& forall|k: int|
                    0 <= k < runs.len() ==> {
                        let child = #[trigger] top.test_runs@[k];
                        &&& dated(runs[k].1.utc_date, first_timestamp(cov), child.utc_date)
                        &&& run_matches(child, runs[k].1, child.utc_date, Seq::empty())
                        &&& w.data_files@[k] == (child.name, child.utc_date, runs[k].0)
                    }
            }
        },
{
    let ghost runs = shallow_test_run_data@;
    let ghost cov = coverage_data@;
    if shallow_test_run_data.len() == 0 {
        return None;
    }
    let (sources, covered_files, coverage_timestamp) = merge_well_known_coverage_data(coverage_data);
    let mut data_files: Vec<(String, UtcTime, String)> = Vec::new();
    let test_run = if shallow_test_run_data.len() == 1 {
        let mut data = shallow_test_run_data;
        let (path, shallow) = data.remove(0);
        let run = shallow.to_test_run(covered_files, coverage_timestamp);
        data_files.push((run.name.clone(), run.utc_date, path));
        run
    } else {
        let n = shallow_test_run_data.len();
        let (_names, utc_date, nr_test_cases, runs_data) = to_sub_test_runs(shallow_test_run_data, coverage_timestamp);
        let mut children: Vec<TestRun> = Vec::new();
        let mut rest = runs_data;
        let ghost rd = rest@;
        let mut k: usize = 0;
        while k < n
            invariant
                n == rd.len(),
                n == runs.len(),
                k <= n,
                rest@ == rd.skip(k as int),
                children@.len() == k,
                data_files@.len() == k,
                forall|m: int|
                    0 <= m < k ==> #[trigger] children@[m] == rd[m].1 && data_files@[m] == (
                        rd[m].1.name,
                        rd[m].1.utc_date,
                        rd[m].0,
                    ),
            decreases n - k,
        {
            let (path, r) = rest.remove(0);
            data_files.push((r.name.clone(), r.utc_date, path));
            children.push(r);
            assert(rest@ =~= rd.skip(k + 1));
            k = k + 1;
        }
        TestRun {
            name: combined_name,
            utc_date,
            nr_of_test_cases: nr_test_cases,
            duration: None,
            test_cases: Vec::new(),
            covered_files,
            test_runs: children,
        }
    };
    let ghost head = data_files@;
    let m = sources.len();
    let mut rest_sources = sources;
    let ghost srcs = rest_sources@;
    let mut k: usize = 0;
    while k < m
        invariant
            m == srcs.len(),
            m == cov.len(),
            forall|j: int| 0 <= j < cov.len() ==> (#[trigger] srcs[j]).0 == cov[j].0,
            k <= m,
            rest_sources@ == srcs.skip(k as int),
            data_files@.len() == head.len() + k,
            forall|j: int| 0 <= j < head.len() ==> #[trigger] data_files@[j] == head[j],
            forall|j: int|
                0 <= j < k ==> (#[trigger] data_files@[head.len() + j]).0 == test_run.name && data_files@[head.len()
                    + j].1 == test_run.utc_date && data_files@[head.len() + j].2 == cov[j].0,
        decreases m - k,
    {
        let (path, _hash) = rest_sources.remove(0);
        data_files.push((test_run.name.clone(), test_run.utc_date, path));
        assert(rest_sources@ =~= srcs.skip(k + 1));
        k = k + 1;
    }
    Some(WellKnownTestRun { test_run, data_files })
}

/// What a file of well-known output is read as.
#[derive(Debug, Clone, Copy, PartialEq, Eq, Structural)]
pub enum FileRole {
    Test,
    Coverage,
}

/// A file matching the test pattern is test output; otherwise one matching the coverage
/// pattern is coverage data; other files are not read.
pub fn file_role(matches_test: bool, matches_coverage: bool) -> (res: Option<FileRole>)
    ensures
        res == (if matches_test {
            Some(FileRole::Test)
        } else if matches_coverage {
            Some(FileRole::Coverage)
        } else {
            None
        }),
{
    if matches_test {
        Some(FileRole::Test)
    } else if matches_coverage {
        Some(FileRole::Coverage)
    } else {
        None
    }
}

/// How the content of a well-known output file is decoded.
#[derive(Debug, Clone, Copy, PartialEq, Eq, Structural)]
pub enum Decoding {
    JunitXml,
    CoberturaXml,
    CoberturaJson5,
}

/// JUnit output is read from `.xml` files only.
pub fn test_decoding(format: crate::collect_cfg::WellKnownTestFormat, extension: &str) -> (res: Option<Decoding>)
    ensures
        res == (if extension@ == "xml"@ {
            Some(Decoding::JunitXml)
        } else {
            None
        }),
{
    match format {
        crate::collect_cfg::WellKnownTestFormat::Junit => {
            if chars_are(to_chars(extension).as_slice(), "xml") {
                Some(Decoding::JunitXml)
            } else {
                None
            }
        },
    }
}

/// Cobertura data is read from `.xml` files as XML and from `.json` and `.json5` files as
/// JSON5.
pub fn coverage_decoding(format: crate::collect_cfg::WellKnownCoverageFormat, extension: &str) -> (res: Option<Decoding>)
    ensures
        res == (if extension@ == "xml"@ {
            Some(Decoding::CoberturaXml)
        } else if extension@ == "json"@ || extension@ == "json5"@ {
            Some(Decoding::CoberturaJson5)
        } else {
            None
        }),
{
    match format {
        crate::collect_cfg::WellKnownCoverageFormat::CoberturaLoose => {
            let e = to_chars(extension);
            if chars_are(e.as_slice(), "xml") {
                Some(Decoding::CoberturaXml)
            } else if chars_are(e.as_slice(), "json") || chars_are(e.as_slice(), "json5") {
                Some(Decoding::CoberturaJson5)
            } else {
                None
            }
        },
    }
}

} // verus!
