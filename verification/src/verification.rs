//! Verification states of requirements: the direct state derived from traces, coverage,
//! explicit test cases and reviews; the indirect state passed up from descendants; and the
//! resulting classification of each usable requirement.
use vstd::prelude::*;

use crate::hierarchy::{ReqAggregation, RequirementGraph};

verus! {

/// State of a requirement with respect to its verification.
#[derive(Debug, Clone, Copy, PartialEq, Eq, Structural)]
pub enum RequirementVerificationState {
    Failed,
    Verified,
    Skipped,
    Unverified,
}

impl RequirementVerificationState {
    /// The number under which the state is stored.
    pub fn as_nr(&self) -> (res: i32)
        ensures
            res == match *self {
                RequirementVerificationState::Failed => 0i32,
                RequirementVerificationState::Verified => 1i32,
                RequirementVerificationState::Skipped => 2i32,
                RequirementVerificationState::Unverified => 3i32,
            },
    {
        match self {
            RequirementVerificationState::Failed => 0,
            RequirementVerificationState::Verified => 1,
            RequirementVerificationState::Skipped => 2,
            RequirementVerificationState::Unverified => 3,
        }
    }
}

/// Outcome of a test case.
#[derive(Debug, Clone, Copy, PartialEq, Eq, Structural)]
pub enum TestCaseState {
    Passed,
    Failed,
    Skipped,
    Unknown,
}

/// What is known about the traces of one requirement and the tests covering them.
#[derive(Debug, Clone, Copy, PartialEq, Eq, Structural)]
pub struct TraceCoverageFacts {
    /// Some trace of the requirement is covered by a failed test.
    pub covered_by_failed_tests: bool,
    /// Some trace of the requirement is covered, and only by passed tests.
    pub only_covered_by_passed_tests: bool,
    /// The requirement has a `satisfies` trace.
    pub has_satisfy_trace: bool,
    /// The requirement has a `verifies` trace.
    pub has_verify_trace: bool,
    /// A test covers a `verifies` trace of the requirement without covering a `satisfies` trace of it.
    pub tests_cover_verify_without_satisfy: bool,
    /// Every `satisfies` trace of the requirement is covered by some test.
    pub all_satisfy_traces_covered: bool,
    /// A test covers both a `verifies` and a `satisfies` trace of the requirement.
    pub tests_cover_satisfy_and_verify: bool,
}

/// What is known about one requirement when deciding its direct state.
pub struct DirectFacts {
    /// Facts on traces and coverage, if the requirement has traces.
    pub traces: Option<TraceCoverageFacts>,
    /// States of the test cases that explicitly verify the requirement.
    pub explicit_tests: Vec<TestCaseState>,
    /// A review verifies the requirement.
    pub manually_verified: bool,
}

/// State derived from traces and their coverage.
pub open spec fn spec_traced_state(f: TraceCoverageFacts) -> RequirementVerificationState {
    if f.covered_by_failed_tests {
        RequirementVerificationState::Failed
    } else if f.only_covered_by_passed_tests {
        if f.has_verify_trace && !f.has_satisfy_trace && f.tests_cover_verify_without_satisfy {
            RequirementVerificationState::Verified
        } else if f.has_satisfy_trace && !f.has_verify_trace && f.all_satisfy_traces_covered {
            RequirementVerificationState::Verified
        } else if f.has_satisfy_trace && f.has_verify_trace && f.tests_cover_satisfy_and_verify
            && !f.tests_cover_verify_without_satisfy {
            RequirementVerificationState::Verified
        } else {
            RequirementVerificationState::Unverified
        }
    } else {
        RequirementVerificationState::Unverified
    }
}

/// The state derived from traces and their coverage: failed if a covering test failed;
/// verified if all covering tests passed and the trace kinds are covered as required;
/// unverified otherwise.
pub fn traced_state(f: &TraceCoverageFacts) -> (res: RequirementVerificationState)
    ensures
        res == spec_traced_state(*f),
{
    if f.covered_by_failed_tests {
        RequirementVerificationState::Failed
    } else if f.only_covered_by_passed_tests {
        if f.has_verify_trace && !f.has_satisfy_trace && f.tests_cover_verify_without_satisfy {
            RequirementVerificationState::Verified
        } else if f.has_satisfy_trace && !f.has_verify_trace && f.all_satisfy_traces_covered {
            RequirementVerificationState::Verified
        } else if f.has_satisfy_trace && f.has_verify_trace && f.tests_cover_satisfy_and_verify
            && !f.tests_cover_verify_without_satisfy {
            RequirementVerificationState::Verified
        } else {
            RequirementVerificationState::Unverified
        }
    } else {
        RequirementVerificationState::Unverified
    }
}

/// State derived from the test cases explicitly verifying a requirement.
pub open spec fn spec_explicit_state(states: Seq<TestCaseState>) -> Option<RequirementVerificationState> {
    if states.len() == 0 {
        None
    } else if exists|i: int|
        0 <= i < states.len() && (#[trigger] states[i] == TestCaseState::Failed || states[i]
            == TestCaseState::Unknown) {
        Some(RequirementVerificationState::Failed)
    } else if exists|i: int| 0 <= i < states.len() && #[trigger] states[i] == TestCaseState::Skipped {
        Some(RequirementVerificationState::Skipped)
    } else {
        Some(RequirementVerificationState::Verified)
    }
}

/// The state derived from the test cases explicitly verifying a requirement: none without
/// such test cases; failed if one failed or has an unknown outcome; else skipped if one was
/// skipped; else verified.
pub fn explicit_state(states: &Vec<TestCaseState>) -> (res: Option<RequirementVerificationState>)
    ensures
        res == spec_explicit_state(states@),
{
    if states.len() == 0 {
        return None;
    }
    let mut failed = false;
    let mut skipped = false;
    for i in 0..states.len()
        invariant
            failed == exists|j: int|
                0 <= j < i && (#[trigger] states@[j] == TestCaseState::Failed || states@[j]
                    == TestCaseState::Unknown),
            skipped == exists|j: int| 0 <= j < i && #[trigger] states@[j] == TestCaseState::Skipped,
    {
        match states[i] {
            TestCaseState::Failed | TestCaseState::Unknown => {
                failed = true;
            },
            TestCaseState::Skipped => {
                skipped = true;
            },
            TestCaseState::Passed => {},
        }
        proof {
            assert(states@[i as int] == states[i as int]);
        }
    }
    if failed {
        Some(RequirementVerificationState::Failed)
    } else if skipped {
        Some(RequirementVerificationState::Skipped)
    } else {
        Some(RequirementVerificationState::Verified)
    }
}

/// Direct state of a requirement that is verified manually.
pub open spec fn spec_manual_state(
    traced: Option<RequirementVerificationState>,
    has_verify_trace: bool,
    explicit: Option<RequirementVerificationState>,
    manually_verified: bool,
) -> RequirementVerificationState {
    if traced == Some(RequirementVerificationState::Failed) || explicit == Some(
        RequirementVerificationState::Failed,
    ) {
        RequirementVerificationState::Failed
    } else if manually_verified {
        if has_verify_trace && traced == Some(RequirementVerificationState::Unverified) {
            RequirementVerificationState::Unverified
        } else if explicit == Some(RequirementVerificationState::Skipped) {
            RequirementVerificationState::Skipped
        } else {
            RequirementVerificationState::Verified
        }
    } else {
        RequirementVerificationState::Unverified
    }
}

/// The traced state of optional trace facts.
pub open spec fn spec_opt_traced(traces: Option<TraceCoverageFacts>) -> Option<RequirementVerificationState> {
    match traces {
        Some(f) => Some(spec_traced_state(f)),
        None => None,
    }
}

/// Direct state of a usable requirement.
pub open spec fn spec_direct_state(
    manual: bool,
    traces: Option<TraceCoverageFacts>,
    explicit_tests: Seq<TestCaseState>,
    manually_verified: bool,
) -> RequirementVerificationState {
    let traced = spec_opt_traced(traces);
    let explicit = spec_explicit_state(explicit_tests);
    let has_verify = traces matches Some(f) && f.has_verify_trace;
    if manual {
        spec_manual_state(traced, has_verify, explicit, manually_verified)
    } else if traced == Some(RequirementVerificationState::Failed) {
        RequirementVerificationState::Failed
    } else if explicit == Some(RequirementVerificationState::Failed) {
        RequirementVerificationState::Failed
    } else if explicit == Some(RequirementVerificationState::Skipped) {
        RequirementVerificationState::Skipped
    } else if traced == Some(RequirementVerificationState::Verified) {
        RequirementVerificationState::Verified
    } else if explicit == Some(RequirementVerificationState::Verified) {
        RequirementVerificationState::Verified
    } else {
        RequirementVerificationState::Unverified
    }
}

/// The direct state of a usable requirement, `manual` telling whether it is verified manually.
pub fn direct_state(manual: bool, facts: &DirectFacts) -> (res: RequirementVerificationState)
    ensures
        res == spec_direct_state(manual, facts.traces, facts.explicit_tests@, facts.manually_verified),
{
    let traced = match &facts.traces {
        Some(f) => Some(traced_state(f)),
        None => None,
    };
    let explicit = explicit_state(&facts.explicit_tests);
    let has_verify = match &facts.traces {
        Some(f) => f.has_verify_trace,
        None => false,
    };
    if manual {
        if traced == Some(RequirementVerificationState::Failed) || explicit == Some(
            RequirementVerificationState::Failed,
        ) {
            RequirementVerificationState::Failed
        } else if facts.manually_verified {
            if has_verify && traced == Some(RequirementVerificationState::Unverified) {
                RequirementVerificationState::Unverified
            } else if explicit == Some(RequirementVerificationState::Skipped) {
                RequirementVerificationState::Skipped
            } else {
                RequirementVerificationState::Verified
            }
        } else {
            RequirementVerificationState::Unverified
        }
    } else if traced == Some(RequirementVerificationState::Failed) {
        RequirementVerificationState::Failed
    } else if explicit == Some(RequirementVerificationState::Failed) {
        RequirementVerificationState::Failed
    } else if explicit == Some(RequirementVerificationState::Skipped) {
        RequirementVerificationState::Skipped
    } else if traced == Some(RequirementVerificationState::Verified) {
        RequirementVerificationState::Verified
    } else if explicit == Some(RequirementVerificationState::Verified) {
        RequirementVerificationState::Verified
    } else {
        RequirementVerificationState::Unverified
    }
}

/// Some descendant has state `s` (optional descendants count only if `with_optional`).
pub open spec fn some_descendant_in(
    states: Seq<(RequirementVerificationState, bool)>,
    s: RequirementVerificationState,
    with_optional: bool,
) -> bool {
    exists|i: int| 0 <= i < states.len() && (#[trigger] states[i]).0 == s && (with_optional || !states[i].1)
}

/// Indirect state of a requirement from the direct states of its descendants.
pub open spec fn spec_indirect_state(states: Seq<(RequirementVerificationState, bool)>) -> RequirementVerificationState {
    if some_descendant_in(states, RequirementVerificationState::Failed, true) {
        RequirementVerificationState::Failed
    } else if some_descendant_in(states, RequirementVerificationState::Unverified, false) {
        RequirementVerificationState::Unverified
    } else if some_descendant_in(states, RequirementVerificationState::Skipped, false) {
        RequirementVerificationState::Skipped
    } else if some_descendant_in(states, RequirementVerificationState::Verified, false) {
        RequirementVerificationState::Verified
    } else {
        RequirementVerificationState::Unverified
    }
}

/// The indirect state of a requirement, given the direct state of each of its descendants
/// together with whether that descendant is optional: failed if any descendant failed;
/// else, over the non-optional descendants, unverified, skipped or verified, in that order
/// of precedence; unverified if no non-optional descendant has a state.
pub fn indirect_state(states: &Vec<(RequirementVerificationState, bool)>) -> (res: RequirementVerificationState)
    ensures
        res == spec_indirect_state(states@),
{
    let mut failed = false;
    let mut unverified = false;
    let mut skipped = false;
    let mut verified = false;
    for i in 0..states.len()
        invariant
            failed == some_descendant_in(states@.take(i as int), RequirementVerificationState::Failed, true),
            unverified == some_descendant_in(states@.take(i as int), RequirementVerificationState::Unverified, false),
            skipped == some_descendant_in(states@.take(i as int), RequirementVerificationState::Skipped, false),
            verified == some_descendant_in(states@.take(i as int), RequirementVerificationState::Verified, false),
    {
        let (s, opt) = states[i];
        let ghost prev = states@.take(i as int);
        let ghost next = states@.take(i + 1);
        assert(next == prev.push((s, opt)));
        match s {
            RequirementVerificationState::Failed => {
                failed = true;
            },
            RequirementVerificationState::Unverified => {
                if !opt {
                    unverified = true;
                }
            },
            RequirementVerificationState::Skipped => {
                if !opt {
                    skipped = true;
                }
            },
            RequirementVerificationState::Verified => {
                if !opt {
                    verified = true;
                }
            },
        }
        proof {
            assert(next[next.len() - 1] == (s, opt));
            assert forall|t: RequirementVerificationState, w: bool|
                some_descendant_in(next, t, w) == (some_descendant_in(prev, t, w) || (s == t && (w || !opt))) by {
                if some_descendant_in(next, t, w) {
                    let j = choose|j: int| 0 <= j < next.len() && (#[trigger] next[j]).0 == t && (w || !next[j].1);
                    if j < prev.len() {
                        assert(prev[j] == next[j]);
                    }
                }
                if some_descendant_in(prev, t, w) {
                    let j = choose|j: int| 0 <= j < prev.len() && (#[trigger] prev[j]).0 == t && (w || !prev[j].1);
                    assert(next[j] == prev[j]);
                }
            }
        }
    }
    assert(states@.take(states@.len() as int) == states@);
    if failed {
        RequirementVerificationState::Failed
    } else if unverified {
        RequirementVerificationState::Unverified
    } else if skipped {
        RequirementVerificationState::Skipped
    } else if verified {
        RequirementVerificationState::Verified
    } else {
        RequirementVerificationState::Unverified
    }
}

/// The classes a usable requirement falls into, given its direct state and, for a
/// requirement with descendants, its indirect state.
#[derive(Debug, Clone, Copy, PartialEq, Eq, Structural)]
pub struct RequirementClasses {
    pub verified: bool,
    pub failed: bool,
    pub skipped: bool,
    pub unverified: bool,
}

/// The classes of a requirement.
pub open spec fn spec_classify(
    direct: RequirementVerificationState,
    indirect: Option<RequirementVerificationState>,
) -> RequirementClasses {
    let not_failed_below = indirect != Some(RequirementVerificationState::Failed);
    RequirementClasses {
        verified: not_failed_below && (direct == RequirementVerificationState::Verified || (direct
            == RequirementVerificationState::Unverified && indirect == Some(
            RequirementVerificationState::Verified,
        ))),
        failed: indirect == Some(RequirementVerificationState::Failed) || direct
            == RequirementVerificationState::Failed,
        skipped: not_failed_below && (direct == RequirementVerificationState::Skipped || (direct
            == RequirementVerificationState::Unverified && indirect == Some(
            RequirementVerificationState::Skipped,
        ))),
        unverified: direct == RequirementVerificationState::Unverified && (indirect is None || indirect
            == Some(RequirementVerificationState::Unverified) || indirect == Some(
            RequirementVerificationState::Skipped,
        )),
    }
}

/// Classifies a requirement as verified, failed, skipped and/or unverified.
pub fn classify(
    direct: RequirementVerificationState,
    indirect: Option<RequirementVerificationState>,
) -> (res: RequirementClasses)
    ensures
        res == spec_classify(direct, indirect),
{
    let not_failed_below = indirect != Some(RequirementVerificationState::Failed);
    RequirementClasses {
        verified: not_failed_below && (direct == RequirementVerificationState::Verified || (direct
            == RequirementVerificationState::Unverified && indirect == Some(
            RequirementVerificationState::Verified,
        ))),
        failed: indirect == Some(RequirementVerificationState::Failed) || direct
            == RequirementVerificationState::Failed,
        skipped: not_failed_below && (direct == RequirementVerificationState::Skipped || (direct
            == RequirementVerificationState::Unverified && indirect == Some(
            RequirementVerificationState::Skipped,
        ))),
        unverified: direct == RequirementVerificationState::Unverified && (indirect.is_none() || indirect
            == Some(RequirementVerificationState::Unverified) || indirect == Some(
            RequirementVerificationState::Skipped,
        )),
    }
}

/// The verification status of a usable requirement.
#[derive(Debug, Clone, Copy, PartialEq, Eq, Structural)]
pub struct RequirementStatus {
    pub direct: RequirementVerificationState,
    /// Present for requirements that have descendants.
    pub indirect: Option<RequirementVerificationState>,
    pub classes: RequirementClasses,
}

/// Direct state of requirement `d` of `g`.
pub open spec fn spec_direct_of(g: &RequirementGraph, facts: Seq<DirectFacts>, d: int) -> RequirementVerificationState {
    spec_direct_state(g.is_manual(d), facts[d].traces, facts[d].explicit_tests@, facts[d].manually_verified)
}

/// Some usable descendant of `r` has direct state `s` (optional ones count only if `with_optional`).
pub open spec fn desc_has(
    g: &RequirementGraph,
    facts: Seq<DirectFacts>,
    r: int,
    s: RequirementVerificationState,
    with_optional: bool,
) -> bool {
    exists|d: int|
        0 <= d < g.n() && #[trigger] g.descends(r, d) && g.is_usable(d) && spec_direct_of(g, facts, d) == s
            && (with_optional || g.is_mandatory(d))
}

/// Indirect state of requirement `r`: present when `r` has descendants.
pub open spec fn spec_indirect_of(g: &RequirementGraph, facts: Seq<DirectFacts>, r: int) -> Option<
    RequirementVerificationState,
> {
    if exists|d: int| 0 <= d < g.n() && #[trigger] g.descends(r, d) {
        Some(
            if desc_has(g, facts, r, RequirementVerificationState::Failed, true) {
                RequirementVerificationState::Failed
            } else if desc_has(g, facts, r, RequirementVerificationState::Unverified, false) {
                RequirementVerificationState::Unverified
            } else if desc_has(g, facts, r, RequirementVerificationState::Skipped, false) {
                RequirementVerificationState::Skipped
            } else if desc_has(g, facts, r, RequirementVerificationState::Verified, false) {
                RequirementVerificationState::Verified
            } else {
                RequirementVerificationState::Unverified
            },
        )
    } else {
        None
    }
}

/// Status of requirement `r`; absent for requirements that are not usable.
pub open spec fn spec_status_of(g: &RequirementGraph, facts: Seq<DirectFacts>, r: int) -> Option<RequirementStatus> {
    if g.is_usable(r) {
        let direct = spec_direct_of(g, facts, r);
        let indirect = spec_indirect_of(g, facts, r);
        Some(RequirementStatus { direct, indirect, classes: spec_classify(direct, indirect) })
    } else {
        None
    }
}

/// The verification status of every requirement of `g`, from the facts known about each
/// requirement; requirements that are deprecated or excluded get none.
pub fn requirement_states(g: &RequirementGraph, agg: &ReqAggregation, facts: &Vec<DirectFacts>) -> (res: Vec<
    Option<RequirementStatus>,
>)
    requires
        g.wf(),
        agg.describes(g),
        facts@.len() == g.n(),
    ensures
        res@.len() == g.n(),
        forall|r: int| 0 <= r < g.n() ==> #[trigger] res@[r] == spec_status_of(g, facts@, r),
{
    let n = g.reqs.len();
    // direct states
    let mut direct: Vec<RequirementVerificationState> = Vec::new();
    for d in 0..n
        invariant
            n == g.n(),
            agg.describes(g),
            facts@.len() == n,
            direct@.len() == d,
            forall|x: int| 0 <= x < d ==> #[trigger] direct@[x] == spec_direct_of(g, facts@, x),
    {
        direct.push(direct_state(agg.manual[d], &facts[d]));
    }
    let mut res: Vec<Option<RequirementStatus>> = Vec::new();
    for r in 0..n
        invariant
            n == g.n(),
            agg.describes(g),
            facts@.len() == n,
            direct@.len() == n,
            forall|x: int| 0 <= x < n ==> #[trigger] direct@[x] == spec_direct_of(g, facts@, x),
            res@.len() == r,
            forall|x: int| 0 <= x < r ==> #[trigger] res@[x] == spec_status_of(g, facts@, x),
    {
        if !agg.usable[r] {
            res.push(None);
        } else {
            let mut states: Vec<(RequirementVerificationState, bool)> = Vec::new();
            let mut has_desc = false;
            for d in 0..n
                invariant
                    n == g.n(),
                    r < n,
                    agg.describes(g),
                    facts@.len() == n,
                    direct@.len() == n,
                    forall|x: int| 0 <= x < n ==> #[trigger] direct@[x] == spec_direct_of(g, facts@, x),
                    has_desc == exists|x: int| 0 <= x < d && #[trigger] g.descends(r as int, x),
                    forall|t: RequirementVerificationState, w: bool|
                        #[trigger] some_descendant_in(states@, t, w) == exists|x: int|
                            0 <= x < d && #[trigger] g.descends(r as int, x) && g.is_usable(x)
                                && spec_direct_of(g, facts@, x) == t && (w || g.is_mandatory(x)),
            {
                let is_desc = agg.descendants[r][d];
                if is_desc {
                    has_desc = true;
                }
                let ghost prev = states@;
                if is_desc && agg.usable[d] {
                    states.push((direct[d], agg.optional[d]));
                }
                proof {
                    assert forall|t: RequirementVerificationState, w: bool|
                        #[trigger] some_descendant_in(states@, t, w) == exists|x: int|
                            0 <= x < d + 1 && #[trigger] g.descends(r as int, x) && g.is_usable(x)
                                && spec_direct_of(g, facts@, x) == t && (w || g.is_mandatory(x)) by {
                        if some_descendant_in(states@, t, w) {
                            let j = choose|j: int| 0 <= j < states@.len() && (#[trigger] states@[j]).0 == t && (w || !states@[j].1);
                            if j < prev.len() {
                                assert(prev[j] == states@[j]);
                                assert(some_descendant_in(prev, t, w));
                            } else {
                                assert(g.descends(r as int, d as int));
                            }
                        }
                        if exists|x: int|
                            0 <= x < d + 1 && #[trigger] g.descends(r as int, x) && g.is_usable(x)
                                && spec_direct_of(g, facts@, x) == t && (w || g.is_mandatory(x)) {
                            let x = choose|x: int|
                                0 <= x < d + 1 && #[trigger] g.descends(r as int, x) && g.is_usable(x)
                                    && spec_direct_of(g, facts@, x) == t && (w || g.is_mandatory(x));
                            if x < d {
                                assert(some_descendant_in(prev, t, w));
                                let j = choose|j: int| 0 <= j < prev.len() && (#[trigger] prev[j]).0 == t && (w || !prev[j].1);
                                assert(states@[j] == prev[j]);
                            } else {
                                assert(agg.descendants@[r as int]@[d as int]);
                                assert(states@[states@.len() - 1] == (direct@[d as int], agg.optional@[d as int]));
                            }
                        }
                    }
                    if has_desc {
                        if !exists|x: int| 0 <= x < d && #[trigger] g.descends(r as int, x) {
                            assert(g.descends(r as int, d as int));
                        }
                    }
                }
            }
            let indirect = if has_desc {
                Some(indirect_state(&states))
            } else {
                None
            };
            proof {
                let one = |t: RequirementVerificationState, w: bool| some_descendant_in(states@, t, w);
                assert(one(RequirementVerificationState::Failed, true) == desc_has(g, facts@, r as int, RequirementVerificationState::Failed, true));
                assert(one(RequirementVerificationState::Unverified, false) == desc_has(g, facts@, r as int, RequirementVerificationState::Unverified, false));
                assert(one(RequirementVerificationState::Skipped, false) == desc_has(g, facts@, r as int, RequirementVerificationState::Skipped, false));
                assert(one(RequirementVerificationState::Verified, false) == desc_has(g, facts@, r as int, RequirementVerificationState::Verified, false));
            }
            let direct_r = direct[r];
            res.push(Some(RequirementStatus { direct: direct_r, indirect, classes: classify(direct_r, indirect) }));
        }
    }
    res
}

/// A usable requirement with a failed direct state, or with a usable descendant whose
/// direct state failed, is classified as failed.
pub proof fn law_failure_propagates_up(g: &RequirementGraph, facts: Seq<DirectFacts>, r: int, d: int)
    requires
        g.wf(),
        facts.len() == g.n(),
        0 <= r < g.n(),
        0 <= d < g.n(),
        g.is_usable(r),
        g.is_usable(d),
        r == d || g.descends(r, d),
        spec_direct_of(g, facts, d) == RequirementVerificationState::Failed,
    ensures
        spec_status_of(g, facts, r) matches Some(st) && st.classes.failed,
{
    if r != d {
        assert(g.descends(r, d));
        assert(desc_has(g, facts, r, RequirementVerificationState::Failed, true));
    }
}

/// A usable requirement covered by a failed test is failed: tests covering its traces,
/// or test cases that explicitly verify it.
pub proof fn law_failed_test_fails_requirement(g: &RequirementGraph, facts: Seq<DirectFacts>, r: int)
    requires
        g.wf(),
        facts.len() == g.n(),
        0 <= r < g.n(),
        g.is_usable(r),
        (facts[r].traces matches Some(f) && f.covered_by_failed_tests) || exists|i: int|
            0 <= i < facts[r].explicit_tests@.len() && #[trigger] facts[r].explicit_tests@[i]
                == TestCaseState::Failed,
    ensures
        spec_status_of(g, facts, r) matches Some(st) && st.direct == RequirementVerificationState::Failed
            && st.classes.failed,
{
    if exists|i: int| 0 <= i < facts[r].explicit_tests@.len() && #[trigger] facts[r].explicit_tests@[i] == TestCaseState::Failed {
        let i = choose|i: int| 0 <= i < facts[r].explicit_tests@.len() && #[trigger] facts[r].explicit_tests@[i] == TestCaseState::Failed;
        assert(facts[r].explicit_tests@[i] == TestCaseState::Failed || facts[r].explicit_tests@[i] == TestCaseState::Unknown);
    }
}

/// A failed requirement is neither verified, nor skipped, nor unverified.
pub proof fn law_failed_is_exclusive(
    direct: RequirementVerificationState,
    indirect: Option<RequirementVerificationState>,
)
    ensures
        spec_classify(direct, indirect).failed ==> !spec_classify(direct, indirect).verified
            && !spec_classify(direct, indirect).skipped && !spec_classify(direct, indirect).unverified,
{
}

/// Every usable requirement falls into at least one class, and into exactly one unless its
/// direct state is unverified while its descendants are skipped.
pub proof fn law_classes_cover(
    direct: RequirementVerificationState,
    indirect: Option<RequirementVerificationState>,
)
    ensures
        ({
            let c = spec_classify(direct, indirect);
            c.verified || c.failed || c.skipped || c.unverified
        }),
        !(direct == RequirementVerificationState::Unverified && indirect == Some(
            RequirementVerificationState::Skipped,
        )) ==> ({
            let c = spec_classify(direct, indirect);
            (c.verified as int) + (c.failed as int) + (c.skipped as int) + (c.unverified as int) == 1
        }),
{
    match indirect {
        Some(RequirementVerificationState::Failed) => {},
        Some(RequirementVerificationState::Verified) => {},
        Some(RequirementVerificationState::Skipped) => {},
        Some(RequirementVerificationState::Unverified) => {},
        None => {},
    }
}

/// A requirement that is not verified manually, none of whose traces is covered by a failed
/// test, and one of whose explicit test cases was skipped while none failed or has an unknown
/// outcome, is skipped; it is classified as skipped unless a descendant failed.
pub proof fn law_skipped_test_skips_requirement(g: &RequirementGraph, facts: Seq<DirectFacts>, r: int)
    requires
        g.wf(),
        facts.len() == g.n(),
        0 <= r < g.n(),
        g.is_usable(r),
        !g.is_manual(r),
        !(facts[r].traces matches Some(f) && f.covered_by_failed_tests),
        exists|i: int|
            0 <= i < facts[r].explicit_tests@.len() && #[trigger] facts[r].explicit_tests@[i]
                == TestCaseState::Skipped,
        forall|i: int|
            0 <= i < facts[r].explicit_tests@.len() ==> #[trigger] facts[r].explicit_tests@[i]
                != TestCaseState::Failed && facts[r].explicit_tests@[i] != TestCaseState::Unknown,
    ensures
        spec_status_of(g, facts, r) matches Some(st) && st.direct == RequirementVerificationState::Skipped
            && (st.indirect != Some(RequirementVerificationState::Failed) ==> st.classes.skipped),
{
}

/// Optional descendants do not keep a requirement from being verified: a requirement that
/// is verified or unverified itself, none of whose usable descendants failed, whose
/// mandatory usable descendants are all verified, and which has at least one of them, is
/// classified as verified, whatever the states of its optional descendants.
pub proof fn law_optional_descendants_do_not_block(g: &RequirementGraph, facts: Seq<DirectFacts>, r: int)
    requires
        g.wf(),
        facts.len() == g.n(),
        0 <= r < g.n(),
        g.is_usable(r),
        spec_direct_of(g, facts, r) == RequirementVerificationState::Verified || spec_direct_of(g, facts, r)
            == RequirementVerificationState::Unverified,
        forall|d: int|
            0 <= d < g.n() && #[trigger] g.descends(r, d) && g.is_usable(d) ==> spec_direct_of(g, facts, d)
                != RequirementVerificationState::Failed,
        forall|d: int|
            0 <= d < g.n() && #[trigger] g.descends(r, d) && g.is_usable(d) && g.is_mandatory(d)
                ==> spec_direct_of(g, facts, d) == RequirementVerificationState::Verified,
        exists|d: int| 0 <= d < g.n() && #[trigger] g.descends(r, d) && g.is_usable(d) && g.is_mandatory(d),
    ensures
        spec_status_of(g, facts, r) matches Some(st) && st.indirect == Some(RequirementVerificationState::Verified)
            && st.classes.verified,
{
    let d = choose|d: int| 0 <= d < g.n() && #[trigger] g.descends(r, d) && g.is_usable(d) && g.is_mandatory(d);
    assert(desc_has(g, facts, r, RequirementVerificationState::Verified, false));
}

/// No test case explicitly verifying a requirement failed or has an unknown outcome.
pub open spec fn no_failing_test(tests: Seq<TestCaseState>) -> bool {
    forall|i: int| 0 <= i < tests.len() ==> #[trigger] tests[i] != TestCaseState::Failed && tests[i] != TestCaseState::Unknown
}

/// Traces covered by a failed test make the traced state failed.
pub proof fn law_traced_failed_by_failed_test(f: TraceCoverageFacts)
    requires
        f.covered_by_failed_tests,
    ensures
        spec_traced_state(f) == RequirementVerificationState::Failed,
{
}

/// Traces are verified only where no covering test failed and all covering tests passed.
pub proof fn law_traced_verified_needs_passing_tests(f: TraceCoverageFacts)
    ensures
        spec_traced_state(f) == RequirementVerificationState::Verified ==> !f.covered_by_failed_tests
            && f.only_covered_by_passed_tests,
        !f.covered_by_failed_tests && !f.only_covered_by_passed_tests ==> spec_traced_state(f)
            == RequirementVerificationState::Unverified,
{
}

/// A requirement with both `satisfies` and `verifies` traces, where some test covers a
/// `verifies` trace without covering a `satisfies` trace, is never verified by its traces.
pub proof fn law_traced_verify_without_satisfy_not_verified(f: TraceCoverageFacts)
    requires
        f.has_satisfy_trace,
        f.has_verify_trace,
        f.tests_cover_verify_without_satisfy,
    ensures
        spec_traced_state(f) != RequirementVerificationState::Verified,
{
}

/// A requirement with only `satisfies` traces is verified by them exactly where every one of
/// them is covered, no covering test failed and all covering tests passed.
pub proof fn law_traced_satisfy_only(f: TraceCoverageFacts)
    requires
        f.has_satisfy_trace,
        !f.has_verify_trace,
    ensures
        (spec_traced_state(f) == RequirementVerificationState::Verified) == (!f.covered_by_failed_tests
            && f.only_covered_by_passed_tests && f.all_satisfy_traces_covered),
{
}

/// A requirement with only `verifies` traces is verified by them exactly where a passing
/// test covers one, no covering test failed and all covering tests passed.
pub proof fn law_traced_verify_only(f: TraceCoverageFacts)
    requires
        f.has_verify_trace,
        !f.has_satisfy_trace,
    ensures
        (spec_traced_state(f) == RequirementVerificationState::Verified) == (!f.covered_by_failed_tests
            && f.only_covered_by_passed_tests && f.tests_cover_verify_without_satisfy),
{
}

/// A requirement with both kinds of traces is verified by them where a test covers a
/// `satisfies` and a `verifies` trace together, none covers a `verifies` trace alone, no
/// covering test failed and all covering tests passed.
pub proof fn law_traced_satisfy_and_verify(f: TraceCoverageFacts)
    requires
        f.has_satisfy_trace,
        f.has_verify_trace,
    ensures
        (spec_traced_state(f) == RequirementVerificationState::Verified) == (!f.covered_by_failed_tests
            && f.only_covered_by_passed_tests && f.tests_cover_satisfy_and_verify
            && !f.tests_cover_verify_without_satisfy),
{
}

/// Traces are never skipped: their state is failed, verified or unverified.
pub proof fn law_traced_never_skipped(f: TraceCoverageFacts)
    ensures
        spec_traced_state(f) != RequirementVerificationState::Skipped,
{
}

/// For a requirement verified manually, a review does not outweigh a `verifies` trace that
/// is not verified: where no test fails, its direct state is unverified.
pub proof fn law_review_does_not_outweigh_unverified_verify_trace(
    t: TraceCoverageFacts,
    tests: Seq<TestCaseState>,
    manually_verified: bool,
)
    requires
        t.has_verify_trace,
        !t.covered_by_failed_tests,
        spec_traced_state(t) != RequirementVerificationState::Verified,
        no_failing_test(tests),
    ensures
        spec_direct_state(true, Some(t), tests, manually_verified) == RequirementVerificationState::Unverified,
{
    law_traced_never_skipped(t);
    if spec_explicit_state(tests) == Some(RequirementVerificationState::Failed) {
        let i = choose|i: int|
            0 <= i < tests.len() && (#[trigger] tests[i] == TestCaseState::Failed || tests[i] == TestCaseState::Unknown);
        assert(tests[i] != TestCaseState::Failed);
    }
}

/// A reviewed requirement whose `verifies` traces no test covers stays unverified.
pub proof fn law_review_with_uncovered_verify_trace(t: TraceCoverageFacts, tests: Seq<TestCaseState>)
    requires
        t.has_verify_trace,
        !t.covered_by_failed_tests,
        !t.only_covered_by_passed_tests,
        no_failing_test(tests),
    ensures
        spec_direct_state(true, Some(t), tests, true) == RequirementVerificationState::Unverified,
{
    law_review_does_not_outweigh_unverified_verify_trace(t, tests, true);
}

/// A requirement verified manually, with no failing test, is unverified without a review.
pub proof fn law_manual_needs_review(traces: Option<TraceCoverageFacts>, tests: Seq<TestCaseState>)
    requires
        !(traces matches Some(t) && t.covered_by_failed_tests),
        no_failing_test(tests),
    ensures
        spec_direct_state(true, traces, tests, false) == RequirementVerificationState::Unverified,
{
    if let Some(t) = traces {
        law_traced_never_skipped(t);
    }
    if spec_explicit_state(tests) == Some(RequirementVerificationState::Failed) {
        let i = choose|i: int|
            0 <= i < tests.len() && (#[trigger] tests[i] == TestCaseState::Failed || tests[i] == TestCaseState::Unknown);
        assert(tests[i] != TestCaseState::Failed);
    }
}

/// A reviewed requirement without traces whose explicit test cases all passed is verified.
pub proof fn law_review_verifies(tests: Seq<TestCaseState>)
    requires
        forall|i: int| 0 <= i < tests.len() ==> #[trigger] tests[i] == TestCaseState::Passed,
    ensures
        spec_direct_state(true, None, tests, true) == RequirementVerificationState::Verified,
{
    if exists|i: int| 0 <= i < tests.len() && (#[trigger] tests[i] == TestCaseState::Failed || tests[i] == TestCaseState::Unknown) {
        let i = choose|i: int| 0 <= i < tests.len() && (#[trigger] tests[i] == TestCaseState::Failed || tests[i] == TestCaseState::Unknown);
        assert(tests[i] == TestCaseState::Passed);
    }
    if exists|i: int| 0 <= i < tests.len() && #[trigger] tests[i] == TestCaseState::Skipped {
        let i = choose|i: int| 0 <= i < tests.len() && #[trigger] tests[i] == TestCaseState::Skipped;
        assert(tests[i] == TestCaseState::Passed);
    }
}

/// A failed test, covering a trace or explicitly verifying the requirement, fails the
/// requirement, manual or not, reviewed or not.
pub proof fn law_failed_test_fails_direct_state(
    manual: bool,
    traces: Option<TraceCoverageFacts>,
    tests: Seq<TestCaseState>,
    manually_verified: bool,
)
    requires
        (traces matches Some(t) && t.covered_by_failed_tests) || exists|i: int|
            0 <= i < tests.len() && (#[trigger] tests[i] == TestCaseState::Failed || tests[i] == TestCaseState::Unknown),
    ensures
        spec_direct_state(manual, traces, tests, manually_verified) == RequirementVerificationState::Failed,
{
}

/// A requirement that is not verified manually and has neither traces nor explicit test
/// cases is unverified, reviewed or not.
pub proof fn law_untested_unverified(manually_verified: bool)
    ensures
        spec_direct_state(false, None, Seq::empty(), manually_verified) == RequirementVerificationState::Unverified,
{
}

/// A requirement that is not verified manually, whose traces are verified and whose explicit
/// test cases all passed, is verified.
pub proof fn law_verified_traces_verify(t: TraceCoverageFacts, tests: Seq<TestCaseState>, manually_verified: bool)
    requires
        spec_traced_state(t) == RequirementVerificationState::Verified,
        forall|i: int| 0 <= i < tests.len() ==> #[trigger] tests[i] == TestCaseState::Passed,
    ensures
        spec_direct_state(false, Some(t), tests, manually_verified) == RequirementVerificationState::Verified,
{
    if exists|i: int| 0 <= i < tests.len() && (#[trigger] tests[i] == TestCaseState::Failed || tests[i] == TestCaseState::Unknown) {
        let i = choose|i: int| 0 <= i < tests.len() && (#[trigger] tests[i] == TestCaseState::Failed || tests[i] == TestCaseState::Unknown);
        assert(tests[i] == TestCaseState::Passed);
    }
    if exists|i: int| 0 <= i < tests.len() && #[trigger] tests[i] == TestCaseState::Skipped {
        let i = choose|i: int| 0 <= i < tests.len() && #[trigger] tests[i] == TestCaseState::Skipped;
        assert(tests[i] == TestCaseState::Passed);
    }
}

/// Any failed descendant fails the indirect state, optional or not.
pub proof fn law_indirect_failed(states: Seq<(RequirementVerificationState, bool)>, i: int)
    requires
        0 <= i < states.len(),
        states[i].0 == RequirementVerificationState::Failed,
    ensures
        spec_indirect_state(states) == RequirementVerificationState::Failed,
{
    assert(some_descendant_in(states, RequirementVerificationState::Failed, true));
}

/// Where no descendant failed, an unverified mandatory descendant makes the indirect state
/// unverified, whatever the others are (unverified outweighs skipped and verified).
pub proof fn law_indirect_unverified_outweighs(states: Seq<(RequirementVerificationState, bool)>, i: int)
    requires
        forall|k: int| 0 <= k < states.len() ==> (#[trigger] states[k]).0 != RequirementVerificationState::Failed,
        0 <= i < states.len(),
        states[i] == (RequirementVerificationState::Unverified, false),
    ensures
        spec_indirect_state(states) == RequirementVerificationState::Unverified,
{
    assert(some_descendant_in(states, RequirementVerificationState::Unverified, false));
}

/// Where no descendant failed and no mandatory one is unverified, a skipped mandatory
/// descendant makes the indirect state skipped.
pub proof fn law_indirect_skipped(states: Seq<(RequirementVerificationState, bool)>, i: int)
    requires
        forall|k: int| 0 <= k < states.len() ==> (#[trigger] states[k]).0 != RequirementVerificationState::Failed,
        forall|k: int|
            0 <= k < states.len() && !(#[trigger] states[k]).1 ==> states[k].0 != RequirementVerificationState::Unverified,
        0 <= i < states.len(),
        states[i] == (RequirementVerificationState::Skipped, false),
    ensures
        spec_indirect_state(states) == RequirementVerificationState::Skipped,
{
    assert(some_descendant_in(states, RequirementVerificationState::Skipped, false));
}

/// The indirect state is verified exactly where no descendant failed, every mandatory one is
/// verified, and there is at least one mandatory descendant.
pub proof fn law_indirect_verified(states: Seq<(RequirementVerificationState, bool)>)
    ensures
        (spec_indirect_state(states) == RequirementVerificationState::Verified) == ((forall|k: int|
            0 <= k < states.len() ==> (#[trigger] states[k]).0 != RequirementVerificationState::Failed) && (forall|k: int|
            0 <= k < states.len() && !(#[trigger] states[k]).1 ==> states[k].0 == RequirementVerificationState::Verified)
            && exists|k: int| 0 <= k < states.len() && !(#[trigger] states[k]).1),
{
    if spec_indirect_state(states) == RequirementVerificationState::Verified {
        assert forall|k: int| 0 <= k < states.len() implies (#[trigger] states[k]).0 != RequirementVerificationState::Failed by {
            if states[k].0 == RequirementVerificationState::Failed {
                assert(some_descendant_in(states, RequirementVerificationState::Failed, true));
            }
        }
        assert forall|k: int| 0 <= k < states.len() && !(#[trigger] states[k]).1 implies states[k].0
            == RequirementVerificationState::Verified by {
            if states[k].0 == RequirementVerificationState::Unverified {
                assert(some_descendant_in(states, RequirementVerificationState::Unverified, false));
            }
            if states[k].0 == RequirementVerificationState::Skipped {
                assert(some_descendant_in(states, RequirementVerificationState::Skipped, false));
            }
            if states[k].0 == RequirementVerificationState::Failed {
                assert(some_descendant_in(states, RequirementVerificationState::Failed, true));
            }
        }
    } else {
        if (forall|k: int| 0 <= k < states.len() ==> (#[trigger] states[k]).0 != RequirementVerificationState::Failed)
            && (forall|k: int| 0 <= k < states.len() && !(#[trigger] states[k]).1 ==> states[k].0
            == RequirementVerificationState::Verified) && exists|k: int| 0 <= k < states.len() && !(#[trigger] states[k]).1 {
            let k = choose|k: int| 0 <= k < states.len() && !(#[trigger] states[k]).1;
            assert(some_descendant_in(states, RequirementVerificationState::Verified, false));
            assert(!some_descendant_in(states, RequirementVerificationState::Failed, true));
            assert(!some_descendant_in(states, RequirementVerificationState::Unverified, false));
            assert(!some_descendant_in(states, RequirementVerificationState::Skipped, false));
        }
    }
}

/// Where no usable descendant of a requirement failed, an unverified mandatory usable
/// descendant makes its indirect state unverified.
pub proof fn law_unverified_descendant_outweighs(g: &RequirementGraph, facts: Seq<DirectFacts>, r: int, d: int)
    requires
        g.wf(),
        facts.len() == g.n(),
        0 <= r < g.n(),
        0 <= d < g.n(),
        g.descends(r, d),
        g.is_usable(d),
        g.is_mandatory(d),
        spec_direct_of(g, facts, d) == RequirementVerificationState::Unverified,
        forall|x: int|
            0 <= x < g.n() && #[trigger] g.descends(r, x) && g.is_usable(x) ==> spec_direct_of(g, facts, x)
                != RequirementVerificationState::Failed,
    ensures
        spec_indirect_of(g, facts, r) == Some(RequirementVerificationState::Unverified),
{
    assert(desc_has(g, facts, r, RequirementVerificationState::Unverified, false));
}

/// Where no usable descendant of a requirement failed and none of the mandatory ones is
/// unverified, a skipped mandatory usable descendant makes its indirect state skipped.
pub proof fn law_skipped_descendant_skips(g: &RequirementGraph, facts: Seq<DirectFacts>, r: int, d: int)
    requires
        g.wf(),
        facts.len() == g.n(),
        0 <= r < g.n(),
        0 <= d < g.n(),
        g.descends(r, d),
        g.is_usable(d),
        g.is_mandatory(d),
        spec_direct_of(g, facts, d) == RequirementVerificationState::Skipped,
        forall|x: int|
            0 <= x < g.n() && #[trigger] g.descends(r, x) && g.is_usable(x) ==> spec_direct_of(g, facts, x)
                != RequirementVerificationState::Failed,
        forall|x: int|
            0 <= x < g.n() && #[trigger] g.descends(r, x) && g.is_usable(x) && g.is_mandatory(x) ==> spec_direct_of(
                g,
                facts,
                x,
            ) != RequirementVerificationState::Unverified,
    ensures
        spec_indirect_of(g, facts, r) == Some(RequirementVerificationState::Skipped),
{
    assert(desc_has(g, facts, r, RequirementVerificationState::Skipped, false));
}

/// A requirement verified itself, none of whose descendants failed, is classified as
/// verified only.
pub proof fn law_verified_direct_is_verified(indirect: Option<RequirementVerificationState>)
    requires
        indirect != Some(RequirementVerificationState::Failed),
    ensures
        spec_classify(RequirementVerificationState::Verified, indirect) == (RequirementClasses {
            verified: true,
            failed: false,
            skipped: false,
            unverified: false,
        }),
{
}

/// A requirement skipped itself, none of whose descendants failed, is classified as skipped
/// only.
pub proof fn law_skipped_direct_is_skipped(indirect: Option<RequirementVerificationState>)
    requires
        indirect != Some(RequirementVerificationState::Failed),
    ensures
        spec_classify(RequirementVerificationState::Skipped, indirect) == (RequirementClasses {
            verified: false,
            failed: false,
            skipped: true,
            unverified: false,
        }),
{
}

/// A requirement that failed itself, or below, is classified as failed only.
pub proof fn law_failure_is_failed_only(direct: RequirementVerificationState, indirect: Option<RequirementVerificationState>)
    requires
        direct == RequirementVerificationState::Failed || indirect == Some(RequirementVerificationState::Failed),
    ensures
        spec_classify(direct, indirect) == (RequirementClasses {
            verified: false,
            failed: true,
            skipped: false,
            unverified: false,
        }),
{
}

/// A requirement unverified itself takes its class from its descendants: verified where they
/// are, skipped and unverified where they are skipped, unverified where they are unverified or
/// where it has none.
pub proof fn law_unverified_direct_follows_descendants(indirect: Option<RequirementVerificationState>)
    ensures
        indirect == Some(RequirementVerificationState::Verified) ==> spec_classify(
            RequirementVerificationState::Unverified,
            indirect,
        ) == (RequirementClasses { verified: true, failed: false, skipped: false, unverified: false }),
        indirect == Some(RequirementVerificationState::Skipped) ==> spec_classify(
            RequirementVerificationState::Unverified,
            indirect,
        ) == (RequirementClasses { verified: false, failed: false, skipped: true, unverified: true }),
        (indirect is None || indirect == Some(RequirementVerificationState::Unverified)) ==> spec_classify(
            RequirementVerificationState::Unverified,
            indirect,
        ) == (RequirementClasses { verified: false, failed: false, skipped: false, unverified: true }),
{
}

/// The explicit test cases of a requirement decide nothing where there are none; any failed
/// or unknown outcome makes them failed; otherwise any skipped one makes them skipped; and
/// where all passed they verify it.
pub proof fn law_explicit_state_outcomes(tests: Seq<TestCaseState>)
    ensures
        tests.len() == 0 ==> spec_explicit_state(tests) is None,
        !no_failing_test(tests) ==> spec_explicit_state(tests) == Some(RequirementVerificationState::Failed),
        no_failing_test(tests) && (exists|i: int| 0 <= i < tests.len() && #[trigger] tests[i] == TestCaseState::Skipped)
            ==> spec_explicit_state(tests) == Some(RequirementVerificationState::Skipped),
        tests.len() > 0 && (forall|i: int| 0 <= i < tests.len() ==> #[trigger] tests[i] == TestCaseState::Passed)
            ==> spec_explicit_state(tests) == Some(RequirementVerificationState::Verified),
{
    if no_failing_test(tests) {
        if exists|i: int| 0 <= i < tests.len() && (#[trigger] tests[i] == TestCaseState::Failed || tests[i] == TestCaseState::Unknown) {
            let i = choose|i: int| 0 <= i < tests.len() && (#[trigger] tests[i] == TestCaseState::Failed || tests[i] == TestCaseState::Unknown);
            assert(tests[i] != TestCaseState::Failed);
        }
    }
    if (forall|i: int| 0 <= i < tests.len() ==> #[trigger] tests[i] == TestCaseState::Passed) {
        if exists|i: int| 0 <= i < tests.len() && (#[trigger] tests[i] == TestCaseState::Failed || tests[i] == TestCaseState::Unknown) {
            let i = choose|i: int| 0 <= i < tests.len() && (#[trigger] tests[i] == TestCaseState::Failed || tests[i] == TestCaseState::Unknown);
            assert(tests[i] == TestCaseState::Passed);
        }
        if exists|i: int| 0 <= i < tests.len() && #[trigger] tests[i] == TestCaseState::Skipped {
            let i = choose|i: int| 0 <= i < tests.len() && #[trigger] tests[i] == TestCaseState::Skipped;
            assert(tests[i] == TestCaseState::Passed);
        }
    }
}

/// For a requirement not verified manually, a skipped explicit test case outweighs verified
/// traces: where nothing failed, it is skipped.
pub proof fn law_skipped_test_outweighs_traces(
    traces: Option<TraceCoverageFacts>,
    tests: Seq<TestCaseState>,
    manually_verified: bool,
    i: int,
)
    requires
        !(traces matches Some(t) && t.covered_by_failed_tests),
        no_failing_test(tests),
        0 <= i < tests.len(),
        tests[i] == TestCaseState::Skipped,
    ensures
        spec_direct_state(false, traces, tests, manually_verified) == RequirementVerificationState::Skipped,
{
    law_explicit_state_outcomes(tests);
}

/// A reviewed requirement verified manually, where nothing failed and no `verifies` trace is
/// left unverified, is skipped where an explicit test case was skipped, and verified otherwise.
pub proof fn law_reviewed_skipped_or_verified(t: Option<TraceCoverageFacts>, tests: Seq<TestCaseState>)
    requires
        !(t matches Some(f) && f.covered_by_failed_tests),
        !(t matches Some(f) && f.has_verify_trace && spec_traced_state(f) != RequirementVerificationState::Verified),
        no_failing_test(tests),
    ensures
        (exists|i: int| 0 <= i < tests.len() && #[trigger] tests[i] == TestCaseState::Skipped) ==> spec_direct_state(
            true,
            t,
            tests,
            true,
        ) == RequirementVerificationState::Skipped,
        !(exists|i: int| 0 <= i < tests.len() && #[trigger] tests[i] == TestCaseState::Skipped) ==> spec_direct_state(
            true,
            t,
            tests,
            true,
        ) == RequirementVerificationState::Verified,
{
    law_explicit_state_outcomes(tests);
    if let Some(f) = t {
        law_traced_never_skipped(f);
    }
}

} // verus!
