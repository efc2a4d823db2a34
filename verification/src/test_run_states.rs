//! Test run hierarchy and outcomes: descendants and leaves of test runs, the state of each
//! test case after overrides, and which test runs failed, were skipped, passed or are usable.
//!
//! Test runs are numbered `0..n`; a hierarchy entry `(parent, child)` nests `child` in
//! `parent`. A test run fails where a test case in it or in a nested run neither passed nor
//! was skipped; otherwise it counts as skipped where such a test case was skipped; otherwise
//! as passed where such a test case passed.
use vstd::prelude::*;

use crate::graph::{descendants_of, descends, edges_within, is_edge, lemma_descends_transitive};
use crate::verification::TestCaseState;

verus! {

/// The test runs of a collection, their nesting and their test cases.
pub struct TestRunGraph {
    /// The number of test runs.
    pub n_runs: usize,
    /// `(parent, child)` pairs.
    pub hierarchy: Vec<(usize, usize)>,
    /// The test run and the recorded state of each test case.
    pub test_cases: Vec<(usize, TestCaseState)>,
    /// The state that overrides the recorded one, per test case.
    pub overrides: Vec<Option<TestCaseState>>,
}

/// Derived facts per test run (and per test case for the states).
pub struct TestRunAggregation {
    /// `descendants[a][d]`: run `d` is nested in run `a`, directly or not.
    pub descendants: Vec<Vec<bool>>,
    pub leaves: Vec<bool>,
    /// The state of each test case after overrides.
    pub resolved_states: Vec<TestCaseState>,
    pub failed: Vec<bool>,
    pub skipped: Vec<bool>,
    pub passed: Vec<bool>,
    pub usable_runs: Vec<bool>,
    pub usable_cases: Vec<bool>,
}

/// The state counts against a run: it neither passed nor was skipped.
pub open spec fn fails(s: TestCaseState) -> bool {
    s != TestCaseState::Passed && s != TestCaseState::Skipped
}

/// The kinds of test case outcome a run is judged by.
#[derive(Debug, Clone, Copy, PartialEq, Eq, Structural)]
pub enum Outcome {
    Fail,
    Skip,
    Pass,
}

/// The state has the outcome.
pub open spec fn has_outcome(s: TestCaseState, o: Outcome) -> bool {
    match o {
        Outcome::Fail => fails(s),
        Outcome::Skip => s == TestCaseState::Skipped,
        Outcome::Pass => s == TestCaseState::Passed,
    }
}

fn has_outcome_exec(s: TestCaseState, o: Outcome) -> (res: bool)
    ensures
        res == has_outcome(s, o),
{
    match o {
        Outcome::Fail => s != TestCaseState::Passed && s != TestCaseState::Skipped,
        Outcome::Skip => s == TestCaseState::Skipped,
        Outcome::Pass => s == TestCaseState::Passed,
    }
}

impl TestRunGraph {
    /// Runs and test cases refer to runs that exist; each test case has one override slot.
    pub open spec fn wf(&self) -> bool {
        &&& edges_within(self.hierarchy@, self.n_runs as nat)
        &&& self.overrides@.len() == self.test_cases@.len()
        &&& forall|i: int| 0 <= i < self.test_cases@.len() ==> (#[trigger] self.test_cases@[i]).0 < self.n_runs
    }

    /// Run `d` is nested in run `a`, directly or not.
    pub open spec fn descends(&self, a: int, d: int) -> bool {
        descends(self.hierarchy@, a, d)
    }

    /// Some run is nested in itself.
    pub open spec fn has_cycle(&self) -> bool {
        exists|r: int| 0 <= r < self.n_runs && #[trigger] self.descends(r, r)
    }

    /// Run `r` has no nested run.
    pub open spec fn is_leaf(&self, r: int) -> bool {
        forall|i: int| 0 <= i < self.hierarchy@.len() ==> (#[trigger] self.hierarchy@[i]).0 != r
    }

    /// The state of test case `i`: its override where it has one, else its recorded state.
    pub open spec fn resolved(&self, i: int) -> TestCaseState {
        match self.overrides@[i] {
            Some(s) => s,
            None => self.test_cases@[i].1,
        }
    }

    /// Run `r` itself holds a test case with the outcome.
    pub open spec fn holds(&self, r: int, o: Outcome) -> bool {
        exists|i: int|
            0 <= i < self.test_cases@.len() && (#[trigger] self.test_cases@[i]).0 == r && has_outcome(
                self.resolved(i),
                o,
            )
    }

    /// Run `r` or a run nested in it holds a test case with the outcome.
    pub open spec fn holds_below(&self, r: int, o: Outcome) -> bool {
        self.holds(r, o) || exists|d: int| 0 <= d < self.n_runs && self.descends(r, d) && #[trigger] self.holds(d, o)
    }

    /// Run `r` failed.
    pub open spec fn is_failed(&self, r: int) -> bool {
        self.holds_below(r, Outcome::Fail)
    }

    /// Run `r` counts as skipped.
    pub open spec fn is_skipped(&self, r: int) -> bool {
        self.holds_below(r, Outcome::Skip) && !self.is_failed(r)
    }

    /// Run `r` passed.
    pub open spec fn is_passed(&self, r: int) -> bool {
        self.holds_below(r, Outcome::Pass) && !self.is_failed(r) && !self.is_skipped(r)
    }
}

impl TestRunAggregation {
    /// The aggregation holds the facts of `g`.
    pub open spec fn describes(&self, g: &TestRunGraph) -> bool {
        let n = g.n_runs as int;
        &&& self.descendants@.len() == n
        &&& forall|a: int| 0 <= a < n ==> (#[trigger] self.descendants@[a])@.len() == n
        &&& forall|a: int, d: int| 0 <= a < n && 0 <= d < n ==> #[trigger] self.descendants@[a]@[d] == g.descends(a, d)
        &&& self.leaves@.len() == n
        &&& self.failed@.len() == n
        &&& self.skipped@.len() == n
        &&& self.passed@.len() == n
        &&& self.usable_runs@.len() == n
        &&& forall|r: int|
            0 <= r < n ==> {
                &&& #[trigger] self.leaves@[r] == g.is_leaf(r)
                &&& self.failed@[r] == g.is_failed(r)
                &&& self.skipped@[r] == g.is_skipped(r)
                &&& self.passed@[r] == g.is_passed(r)
                &&& self.usable_runs@[r] == g.is_passed(r)
            }
        &&& self.resolved_states@.len() == g.test_cases@.len()
        &&& self.usable_cases@.len() == g.test_cases@.len()
        &&& forall|i: int|
            0 <= i < g.test_cases@.len() ==> #[trigger] self.resolved_states@[i] == g.resolved(i)
                && self.usable_cases@[i] == (g.resolved(i) == TestCaseState::Passed)
    }
}

/// Per run: whether it holds a test case with the outcome.
fn direct_flags(g: &TestRunGraph, resolved: &Vec<TestCaseState>, o: Outcome) -> (res: Vec<bool>)
    requires
        g.wf(),
        resolved@.len() == g.test_cases@.len(),
        forall|i: int| 0 <= i < resolved@.len() ==> #[trigger] resolved@[i] == g.resolved(i),
    ensures
        res@.len() == g.n_runs,
        forall|r: int| 0 <= r < g.n_runs ==> #[trigger] res@[r] == g.holds(r, o),
{
    let mut res: Vec<bool> = Vec::new();
    for r in 0..g.n_runs
        invariant
            g.wf(),
            resolved@.len() == g.test_cases@.len(),
            forall|i: int| 0 <= i < resolved@.len() ==> #[trigger] resolved@[i] == g.resolved(i),
            res@.len() == r,
            forall|x: int| 0 <= x < r ==> #[trigger] res@[x] == g.holds(x, o),
    {
        let mut found = false;
        let mut i: usize = 0;
        while i < g.test_cases.len()
            invariant
                i <= g.test_cases@.len(),
                resolved@.len() == g.test_cases@.len(),
                forall|k: int| 0 <= k < resolved@.len() ==> #[trigger] resolved@[k] == g.resolved(k),
                found == exists|k: int|
                    0 <= k < i && (#[trigger] g.test_cases@[k]).0 == r && has_outcome(g.resolved(k), o),
            decreases g.test_cases@.len() - i,
        {
            if g.test_cases[i].0 == r && has_outcome_exec(resolved[i], o) {
                found = true;
            }
            i = i + 1;
        }
        res.push(found);
    }
    res
}

/// Per run: whether it or a run nested in it holds a test case with the outcome.
fn below_flags(g: &TestRunGraph, descendants: &Vec<Vec<bool>>, direct: &Vec<bool>, o: Outcome) -> (res: Vec<bool>)
    requires
        direct@.len() == g.n_runs,
        forall|r: int| 0 <= r < g.n_runs ==> #[trigger] direct@[r] == g.holds(r, o),
        descendants@.len() == g.n_runs,
        forall|a: int| 0 <= a < g.n_runs ==> (#[trigger] descendants@[a])@.len() == g.n_runs,
        forall|a: int, d: int|
            0 <= a < g.n_runs && 0 <= d < g.n_runs ==> #[trigger] descendants@[a]@[d] == g.descends(a, d),
    ensures
        res@.len() == g.n_runs,
        forall|r: int| 0 <= r < g.n_runs ==> #[trigger] res@[r] == g.holds_below(r, o),
{
    let n = g.n_runs;
    let mut res: Vec<bool> = Vec::new();
    for r in 0..n
        invariant
            n == g.n_runs,
            direct@.len() == n,
            forall|x: int| 0 <= x < n ==> #[trigger] direct@[x] == g.holds(x, o),
            descendants@.len() == n,
            forall|a: int| 0 <= a < n ==> (#[trigger] descendants@[a])@.len() == n,
            forall|a: int, d: int| 0 <= a < n && 0 <= d < n ==> #[trigger] descendants@[a]@[d] == g.descends(a, d),
            res@.len() == r,
            forall|x: int| 0 <= x < r ==> #[trigger] res@[x] == g.holds_below(x, o),
    {
        let mut found = direct[r];
        let mut d: usize = 0;
        while d < n
            invariant
                n == g.n_runs,
                0 <= r < n,
                direct@.len() == n,
                forall|x: int| 0 <= x < n ==> #[trigger] direct@[x] == g.holds(x, o),
                descendants@.len() == n,
                forall|a: int| 0 <= a < n ==> (#[trigger] descendants@[a])@.len() == n,
                forall|a: int, e: int| 0 <= a < n && 0 <= e < n ==> #[trigger] descendants@[a]@[e] == g.descends(a, e),
                d <= n,
                found == (g.holds(r as int, o) || exists|e: int|
                    0 <= e < d && g.descends(r as int, e) && #[trigger] g.holds(e, o)),
            decreases n - d,
        {
            if descendants[r][d] && direct[d] {
                found = true;
            }
            d = d + 1;
        }
        res.push(found);
    }
    res
}

/// Derives descendants, leaves, test case states and run outcomes. Fails with the runs
/// nested in themselves, in ascending order, if the nesting has a cycle.
pub fn aggregate_test_runs(g: &TestRunGraph) -> (res: Result<TestRunAggregation, Vec<usize>>)
    requires
        g.wf(),
    ensures
        match res {
            Ok(agg) => !g.has_cycle() && agg.describes(g),
            Err(cyc) => g.has_cycle() && (forall|k: int|
                0 <= k < cyc@.len() ==> 0 <= #[trigger] cyc@[k] < g.n_runs && g.descends(cyc@[k] as int, cyc@[k] as int))
                && (forall|r: int| 0 <= r < g.n_runs && g.descends(r, r) ==> #[trigger] cyc@.contains(r as usize))
                && (forall|i: int, j: int| 0 <= i < j < cyc@.len() ==> cyc@[i] < cyc@[j]),
        },
{
    let n = g.n_runs;
    let mut descendants: Vec<Vec<bool>> = Vec::new();
    for a in 0..n
        invariant
            n == g.n_runs,
            g.wf(),
            descendants@.len() == a,
            forall|x: int| 0 <= x < a ==> (#[trigger] descendants@[x])@.len() == n,
            forall|x: int, d: int| 0 <= x < a && 0 <= d < n ==> #[trigger] descendants@[x]@[d] == g.descends(x, d),
    {
        descendants.push(descendants_of(n, &g.hierarchy, a));
    }
    let mut cyc: Vec<usize> = Vec::new();
    for r in 0..n
        invariant
            n == g.n_runs,
            descendants@.len() == n,
            forall|x: int| 0 <= x < n ==> (#[trigger] descendants@[x])@.len() == n,
            forall|x: int, d: int| 0 <= x < n && 0 <= d < n ==> #[trigger] descendants@[x]@[d] == g.descends(x, d),
            forall|k: int| 0 <= k < cyc@.len() ==> 0 <= #[trigger] cyc@[k] < r && g.descends(cyc@[k] as int, cyc@[k] as int),
            forall|x: int| 0 <= x < r && g.descends(x, x) ==> #[trigger] cyc@.contains(x as usize),
            forall|i: int, j: int| 0 <= i < j < cyc@.len() ==> cyc@[i] < cyc@[j],
    {
        let ghost old_cyc = cyc@;
        if descendants[r][r] {
            cyc.push(r);
            assert(cyc@[cyc@.len() - 1] == r);
        }
        proof {
            assert forall|x: int| 0 <= x < r + 1 && g.descends(x, x) implies #[trigger] cyc@.contains(x as usize) by {
                if x < r {
                    assert(old_cyc.contains(x as usize));
                    let k = choose|k: int| 0 <= k < old_cyc.len() && old_cyc[k] == x as usize;
                    assert(cyc@[k] == x as usize);
                } else {
                    assert(descendants@[r as int]@[r as int]);
                    assert(cyc@[cyc@.len() - 1] == r);
                }
            }
        }
    }
    if cyc.len() > 0 {
        proof {
            assert(g.descends(cyc@[0] as int, cyc@[0] as int));
        }
        return Err(cyc);
    }
    proof {
        if g.has_cycle() {
            let r = choose|r: int| 0 <= r < g.n_runs && #[trigger] g.descends(r, r);
            assert(cyc@.contains(r as usize));
        }
    }
    // leaves
    let mut leaves: Vec<bool> = Vec::new();
    for r in 0..n
        invariant
            leaves@.len() == r,
            forall|x: int| 0 <= x < r ==> #[trigger] leaves@[x] == g.is_leaf(x),
    {
        let mut leaf = true;
        let mut i: usize = 0;
        while i < g.hierarchy.len()
            invariant
                i <= g.hierarchy@.len(),
                leaf == forall|k: int| 0 <= k < i ==> (#[trigger] g.hierarchy@[k]).0 != r,
            decreases g.hierarchy@.len() - i,
        {
            if g.hierarchy[i].0 == r {
                leaf = false;
            }
            i = i + 1;
        }
        leaves.push(leaf);
    }
    // test case states
    let mut resolved: Vec<TestCaseState> = Vec::new();
    let mut usable_cases: Vec<bool> = Vec::new();
    for i in 0..g.test_cases.len()
        invariant
            g.wf(),
            resolved@.len() == i,
            usable_cases@.len() == i,
            forall|k: int|
                0 <= k < i ==> #[trigger] resolved@[k] == g.resolved(k) && usable_cases@[k] == (g.resolved(k)
                    == TestCaseState::Passed),
    {
        let s = match g.overrides[i] {
            Some(o) => o,
            None => g.test_cases[i].1,
        };
        resolved.push(s);
        usable_cases.push(s == TestCaseState::Passed);
    }
    // outcomes
    let direct_fail = direct_flags(g, &resolved, Outcome::Fail);
    let direct_skip = direct_flags(g, &resolved, Outcome::Skip);
    let direct_pass = direct_flags(g, &resolved, Outcome::Pass);
    let fail_below = below_flags(g, &descendants, &direct_fail, Outcome::Fail);
    let skip_below = below_flags(g, &descendants, &direct_skip, Outcome::Skip);
    let pass_below = below_flags(g, &descendants, &direct_pass, Outcome::Pass);
    let mut failed: Vec<bool> = Vec::new();
    let mut skipped: Vec<bool> = Vec::new();
    let mut passed: Vec<bool> = Vec::new();
    for r in 0..n
        invariant
            n == g.n_runs,
            fail_below@.len() == n,
            skip_below@.len() == n,
            pass_below@.len() == n,
            forall|x: int| 0 <= x < n ==> #[trigger] fail_below@[x] == g.holds_below(x, Outcome::Fail),
            forall|x: int| 0 <= x < n ==> #[trigger] skip_below@[x] == g.holds_below(x, Outcome::Skip),
            forall|x: int| 0 <= x < n ==> #[trigger] pass_below@[x] == g.holds_below(x, Outcome::Pass),
            failed@.len() == r,
            skipped@.len() == r,
            passed@.len() == r,
            forall|x: int| 0 <= x < r ==> #[trigger] failed@[x] == g.is_failed(x),
            forall|x: int| 0 <= x < r ==> #[trigger] skipped@[x] == g.is_skipped(x),
            forall|x: int| 0 <= x < r ==> #[trigger] passed@[x] == g.is_passed(x),
    {
        let f = fail_below[r];
        let s = skip_below[r] && !f;
        let p = pass_below[r] && !f && !s;
        failed.push(f);
        skipped.push(s);
        passed.push(p);
    }
    let usable_runs = passed.clone();
    Ok(
        TestRunAggregation {
            descendants,
            leaves,
            resolved_states: resolved,
            failed,
            skipped,
            passed,
            usable_runs,
            usable_cases,
        },
    )
}

/// A test run in which a nested run failed has failed too.
pub proof fn law_failure_propagates_to_enclosing_runs(g: &TestRunGraph, a: int, d: int)
    requires
        g.wf(),
        0 <= a < g.n_runs,
        0 <= d < g.n_runs,
        g.descends(a, d),
        g.is_failed(d),
    ensures
        g.is_failed(a),
{
    if g.holds(d, Outcome::Fail) {
    } else {
        let e = choose|e: int| 0 <= e < g.n_runs && g.descends(d, e) && #[trigger] g.holds(e, Outcome::Fail);
        lemma_descends_transitive(g.hierarchy@, a, d, e);
    }
}

/// A test run has at most one outcome: failed, skipped or passed.
pub proof fn law_run_outcomes_exclusive(g: &TestRunGraph, r: int)
    ensures
        !(g.is_failed(r) && g.is_skipped(r)),
        !(g.is_failed(r) && g.is_passed(r)),
        !(g.is_skipped(r) && g.is_passed(r)),
{
}

/// A test case whose state was overridden has the overriding state.
pub proof fn law_override_wins(g: &TestRunGraph, i: int, s: TestCaseState)
    requires
        g.wf(),
        0 <= i < g.test_cases@.len(),
        g.overrides@[i] == Some(s),
    ensures
        g.resolved(i) == s,
{
}

/// A test run that holds a test case which neither passed nor was skipped has failed, and so
/// has every run that encloses it.
pub proof fn law_failed_test_case_fails_runs(g: &TestRunGraph, i: int, a: int)
    requires
        g.wf(),
        0 <= i < g.test_cases@.len(),
        fails(g.resolved(i)),
        0 <= a < g.n_runs,
        a == g.test_cases@[i].0 || g.descends(a, g.test_cases@[i].0 as int),
    ensures
        g.is_failed(a),
{
    let r = g.test_cases@[i].0 as int;
    assert(g.holds(r, Outcome::Fail));
    if a != r {
        assert(0 <= r < g.n_runs);
    }
}

/// A leaf run encloses no other run.
pub proof fn law_leaf_encloses_nothing(g: &TestRunGraph, r: int, d: int)
    requires
        g.is_leaf(r),
    ensures
        !g.descends(r, d),
{
    if g.descends(r, d) {
        let p = choose|p: Seq<int>|
            #![trigger crate::graph::is_walk(g.hierarchy@, p)]
            crate::graph::is_walk(g.hierarchy@, p) && p.len() >= 2 && p[0] == r && p.last() == d;
        assert(is_edge(g.hierarchy@, p[0], p[0int + 1]));
        let k = choose|k: int| 0 <= k < g.hierarchy@.len() && g.hierarchy@[k].0 == p[0] && g.hierarchy@[k].1 == p[1];
        assert(g.hierarchy@[k].0 != r);
    }
}

/// How a covered line counts once overrides and exclusions are applied.
#[derive(Debug, Clone, Copy, PartialEq, Eq, Structural)]
pub enum ResolvedLineCoverageState {
    Covered,
    Excluded,
    OverriddenCovered,
    OverriddenUncovered,
    Uncovered,
}

/// Lines `start_line..=end_line` of a file are excluded from coverage.
pub struct ExcludedLineRange {
    pub filepath: String,
    pub start_line: i64,
    pub end_line: i64,
}

/// The line lies in one of the excluded ranges of its file.
pub open spec fn line_excluded(ranges: Seq<ExcludedLineRange>, filepath: Seq<char>, line: i64) -> bool {
    exists|i: int|
        0 <= i < ranges.len() && (#[trigger] ranges[i]).filepath@ == filepath && ranges[i].start_line <= line
            <= ranges[i].end_line
}

/// The line was hit at least once.
pub open spec fn was_hit(hits: Option<i64>) -> bool {
    match hits {
        Some(h) => h > 0,
        None => false,
    }
}

/// How a covered line of a file counts: an override decides by its hits alone; otherwise
/// a line in an excluded range is excluded, and else covered where it was hit.
pub open spec fn line_state(
    override_hits: Option<Option<i64>>,
    ranges: Seq<ExcludedLineRange>,
    filepath: Seq<char>,
    line: i64,
    hits: Option<i64>,
) -> ResolvedLineCoverageState {
    match override_hits {
        Some(h) => if was_hit(h) {
            ResolvedLineCoverageState::OverriddenCovered
        } else {
            ResolvedLineCoverageState::OverriddenUncovered
        },
        None => if line_excluded(ranges, filepath, line) {
            ResolvedLineCoverageState::Excluded
        } else if was_hit(hits) {
            ResolvedLineCoverageState::Covered
        } else {
            ResolvedLineCoverageState::Uncovered
        },
    }
}

/// How a covered line counts, given the hits of an override for it (if any), the excluded
/// line ranges, and its own hits.
pub fn resolve_line_coverage_state(
    override_hits: Option<Option<i64>>,
    ranges: &Vec<ExcludedLineRange>,
    filepath: &String,
    line: i64,
    hits: Option<i64>,
) -> (res: ResolvedLineCoverageState)
    ensures
        res == line_state(override_hits, ranges@, filepath@, line, hits),
{
    if let Some(h) = override_hits {
        return if h.is_some() && h.unwrap() > 0 {
            ResolvedLineCoverageState::OverriddenCovered
        } else {
            ResolvedLineCoverageState::OverriddenUncovered
        };
    }
    let f = crate::text::to_chars(filepath.as_str());
    let mut i: usize = 0;
    while i < ranges.len()
        invariant
            override_hits is None,
            f@ == filepath@,
            i <= ranges@.len(),
            forall|k: int|
                0 <= k < i ==> !((#[trigger] ranges@[k]).filepath@ == filepath@ && ranges@[k].start_line <= line
                    <= ranges@[k].end_line),
        decreases ranges@.len() - i,
    {
        let r = &ranges[i];
        if crate::text::chars_are(f.as_slice(), r.filepath.as_str()) && r.start_line <= line && line <= r.end_line {
            assert(ranges@[i as int].filepath@ == filepath@);
            return ResolvedLineCoverageState::Excluded;
        }
        i = i + 1;
    }
    if hits.is_some() && hits.unwrap() > 0 {
        ResolvedLineCoverageState::Covered
    } else {
        ResolvedLineCoverageState::Uncovered
    }
}

/// An override decides a line's state by its own hits alone: covered where they are present
/// and above zero, uncovered otherwise (no hits, or zero).
pub proof fn law_override_decides_by_its_hits(
    o: Option<i64>,
    ranges: Seq<ExcludedLineRange>,
    filepath: Seq<char>,
    line: i64,
    hits: Option<i64>,
)
    ensures
        (o matches Some(h) && h > 0) ==> line_state(Some(o), ranges, filepath, line, hits)
            == ResolvedLineCoverageState::OverriddenCovered,
        !(o matches Some(h) && h > 0) ==> line_state(Some(o), ranges, filepath, line, hits)
            == ResolvedLineCoverageState::OverriddenUncovered,
{
}

/// An override ignores the excluded ranges and the line's own hits: two lines with the same
/// override have the same state.
pub proof fn law_override_ignores_ranges_and_hits(
    o: Option<i64>,
    ranges1: Seq<ExcludedLineRange>,
    filepath1: Seq<char>,
    line1: i64,
    hits1: Option<i64>,
    ranges2: Seq<ExcludedLineRange>,
    filepath2: Seq<char>,
    line2: i64,
    hits2: Option<i64>,
)
    ensures
        line_state(Some(o), ranges1, filepath1, line1, hits1) == line_state(Some(o), ranges2, filepath2, line2, hits2),
{
}

/// Without an override, a line inside an excluded range of its file is excluded, whatever
/// its hits.
pub proof fn law_excluded_range_excludes(
    ranges: Seq<ExcludedLineRange>,
    filepath: Seq<char>,
    line: i64,
    hits: Option<i64>,
    i: int,
)
    requires
        0 <= i < ranges.len(),
        ranges[i].filepath@ == filepath,
        ranges[i].start_line <= line <= ranges[i].end_line,
    ensures
        line_state(None, ranges, filepath, line, hits) == ResolvedLineCoverageState::Excluded,
{
    assert(line_excluded(ranges, filepath, line));
}

/// Without an override, a line outside every excluded range of its file is covered where it
/// was hit at least once and uncovered otherwise.
pub proof fn law_unexcluded_line_by_hits(ranges: Seq<ExcludedLineRange>, filepath: Seq<char>, line: i64, hits: Option<i64>)
    requires
        forall|i: int|
            0 <= i < ranges.len() ==> !((#[trigger] ranges[i]).filepath@ == filepath && ranges[i].start_line <= line
                <= ranges[i].end_line),
    ensures
        (hits matches Some(h) && h > 0) ==> line_state(None, ranges, filepath, line, hits)
            == ResolvedLineCoverageState::Covered,
        !(hits matches Some(h) && h > 0) ==> line_state(None, ranges, filepath, line, hits)
            == ResolvedLineCoverageState::Uncovered,
{
}

} // verus!
