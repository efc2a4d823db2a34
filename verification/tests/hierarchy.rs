use mantra::hierarchy::{aggregate_requirements, HierarchyError, ReqMarks, RequirementGraph};
use mantra::report::validation_info;
use mantra::verification::{
    classify, direct_state, explicit_state, indirect_state, requirement_states, traced_state, DirectFacts,
    RequirementClasses, RequirementVerificationState as S, TestCaseState, TraceCoverageFacts,
};

fn marks(deprecated: bool, exclude: bool, optional: bool, manual: bool) -> ReqMarks {
    ReqMarks { deprecated, exclude, optional, manual_verification: manual }
}

fn plain() -> ReqMarks {
    marks(false, false, false, false)
}

fn facts() -> TraceCoverageFacts {
    TraceCoverageFacts {
        covered_by_failed_tests: false,
        only_covered_by_passed_tests: false,
        has_satisfy_trace: false,
        has_verify_trace: false,
        tests_cover_verify_without_satisfy: false,
        all_satisfy_traces_covered: false,
        tests_cover_satisfy_and_verify: false,
    }
}

#[test]
fn roots_leaves_and_inherited_marks() {
    // 0 -> 1 -> 2, 0 -> 3; 1 deprecated, 3 manual, 4 alone and excluded
    let g = RequirementGraph {
        reqs: vec![plain(), marks(true, false, false, false), plain(), marks(false, false, false, true), marks(false, true, false, false)],
        hierarchy: vec![(0, 1), (1, 2), (0, 3)],
        replacements: vec![],
    };
    let agg = aggregate_requirements(&g).unwrap();
    assert_eq!(agg.roots, vec![true, false, false, false, true]);
    assert_eq!(agg.leaves, vec![false, false, true, true, true]);
    assert_eq!(agg.deprecated, vec![false, true, true, false, false]);
    assert_eq!(agg.manual, vec![false, false, false, true, false]);
    assert_eq!(agg.excluded, vec![false, false, false, false, true]);
    assert_eq!(agg.usable, vec![true, false, false, true, false]);
    assert_eq!(agg.descendants[0], vec![false, true, true, true, false]);

    let info = validation_info(&agg, &vec![false, false, true, true, false]);
    assert!(!info.is_valid);
    assert_eq!(info.invalid_reqs, vec![2]);
    assert_eq!(info.criteria, "The collected data is valid if no *deprecated* requirement is traced.");
    assert!(validation_info(&agg, &vec![true, false, false, true, true]).is_valid);
}

#[test]
fn detect_hierarchy_cycles() {
    let g = RequirementGraph { reqs: vec![plain(), plain(), plain()], hierarchy: vec![(0, 1), (1, 0), (1, 2)], replacements: vec![] };
    assert_eq!(aggregate_requirements(&g).err(), Some(HierarchyError::Cycle(vec![0, 1])));
}

#[test]
fn detect_indirect_hierarchy_cycles() {
    let g = RequirementGraph {
        reqs: vec![plain(), plain(), plain(), plain()],
        hierarchy: vec![(0, 1), (1, 2), (2, 3), (3, 1)],
        replacements: vec![],
    };
    assert_eq!(aggregate_requirements(&g).err(), Some(HierarchyError::Cycle(vec![1, 2, 3])));
}

#[test]
fn replacing_an_ancestor_is_rejected() {
    let g = RequirementGraph { reqs: vec![plain(), plain()], hierarchy: vec![(0, 1)], replacements: vec![(1, 0)] };
    assert_eq!(aggregate_requirements(&g).err(), Some(HierarchyError::ReplacesAncestor(vec![(1, 0)])));
    let ok = RequirementGraph { reqs: vec![plain(), plain()], hierarchy: vec![(0, 1)], replacements: vec![(0, 1)] };
    assert!(aggregate_requirements(&ok).is_ok());
}

#[test]
fn state_numbers() {
    assert_eq!(S::Failed.as_nr(), 0);
    assert_eq!(S::Verified.as_nr(), 1);
    assert_eq!(S::Skipped.as_nr(), 2);
    assert_eq!(S::Unverified.as_nr(), 3);
}

#[test]
fn traced_states() {
    let mut f = facts();
    assert_eq!(traced_state(&f), S::Unverified);
    f.only_covered_by_passed_tests = true;
    f.has_satisfy_trace = true;
    f.all_satisfy_traces_covered = true;
    assert_eq!(traced_state(&f), S::Verified);
    f.covered_by_failed_tests = true;
    assert_eq!(traced_state(&f), S::Failed);
}

#[test]
fn explicit_states() {
    assert_eq!(explicit_state(&vec![]), None);
    assert_eq!(explicit_state(&vec![TestCaseState::Passed, TestCaseState::Skipped]), Some(S::Skipped));
    assert_eq!(explicit_state(&vec![TestCaseState::Skipped, TestCaseState::Unknown]), Some(S::Failed));
    assert_eq!(explicit_state(&vec![TestCaseState::Passed]), Some(S::Verified));
}

#[test]
fn direct_and_indirect_states() {
    let reviewed = DirectFacts { traces: None, explicit_tests: vec![], manually_verified: true };
    assert_eq!(direct_state(true, &reviewed), S::Verified);
    assert_eq!(direct_state(false, &reviewed), S::Unverified);
    let failing = DirectFacts { traces: None, explicit_tests: vec![TestCaseState::Failed], manually_verified: true };
    assert_eq!(direct_state(true, &failing), S::Failed);

    assert_eq!(indirect_state(&vec![(S::Verified, false), (S::Failed, true)]), S::Failed);
    assert_eq!(indirect_state(&vec![(S::Verified, false), (S::Unverified, true)]), S::Verified);
    assert_eq!(indirect_state(&vec![(S::Verified, false), (S::Skipped, false)]), S::Skipped);
    assert_eq!(indirect_state(&vec![]), S::Unverified);
}

#[test]
fn classes() {
    assert_eq!(
        classify(S::Unverified, Some(S::Verified)),
        RequirementClasses { verified: true, failed: false, skipped: false, unverified: false }
    );
    assert_eq!(
        classify(S::Verified, Some(S::Failed)),
        RequirementClasses { verified: false, failed: true, skipped: false, unverified: false }
    );
    assert_eq!(
        classify(S::Unverified, Some(S::Skipped)),
        RequirementClasses { verified: false, failed: false, skipped: true, unverified: true }
    );
}

fn explicit(states: Vec<TestCaseState>) -> DirectFacts {
    DirectFacts { traces: None, explicit_tests: states, manually_verified: false }
}

fn reviewed(states: Vec<TestCaseState>) -> DirectFacts {
    DirectFacts { traces: None, explicit_tests: states, manually_verified: true }
}

fn traced(f: TraceCoverageFacts) -> DirectFacts {
    DirectFacts { traces: Some(f), explicit_tests: vec![], manually_verified: false }
}

fn manual() -> ReqMarks {
    marks(false, false, false, true)
}

fn deprecated() -> ReqMarks {
    marks(true, false, false, false)
}

fn excluded() -> ReqMarks {
    marks(false, true, false, false)
}

#[test]
fn failed_req() {
    // 0 req-1, 1 req-1.sub-1, 2 req-2, 3 req-2.sub-1, 4 req-skipped, 5 req-verified, 6 req-manual
    let g = RequirementGraph {
        reqs: vec![plain(), plain(), plain(), plain(), plain(), plain(), manual()],
        hierarchy: vec![(0, 1), (2, 3)],
        replacements: vec![],
    };
    let agg = aggregate_requirements(&g).unwrap();
    let st = requirement_states(
        &g,
        &agg,
        &vec![
            explicit(vec![TestCaseState::Failed]),
            explicit(vec![TestCaseState::Passed]),
            explicit(vec![]),
            explicit(vec![TestCaseState::Failed]),
            explicit(vec![TestCaseState::Skipped, TestCaseState::Failed]),
            explicit(vec![TestCaseState::Passed, TestCaseState::Failed]),
            reviewed(vec![TestCaseState::Failed]),
        ],
    );
    let req_1 = st[0].unwrap();
    assert_eq!(req_1.direct, S::Failed);
    assert!(req_1.classes.failed && !req_1.classes.verified);
    let sub_1 = st[1].unwrap();
    assert!(!sub_1.classes.failed && sub_1.classes.verified, "req-1.sub-1 is not failed");
    assert_eq!(sub_1.indirect, None);
    let req_2 = st[2].unwrap();
    assert_eq!(req_2.direct, S::Unverified);
    assert_eq!(req_2.indirect, Some(S::Failed));
    assert!(req_2.classes.failed, "req-2 fails through req-2.sub-1");
    assert!(st[3].unwrap().classes.failed);
    assert!(st[4].unwrap().classes.failed && !st[4].unwrap().classes.skipped);
    assert!(st[5].unwrap().classes.failed && !st[5].unwrap().classes.verified);
    assert!(st[6].unwrap().classes.failed && !st[6].unwrap().classes.verified, "a review does not outweigh a failed test");
}

#[test]
fn verified_req() {
    // 0 req-1, 1 req-1.sub-1, 2 req-manual, 3 req-satisfy, 4 req-verify, 5 req-satisfy-verify
    let g = RequirementGraph {
        reqs: vec![plain(), plain(), manual(), plain(), plain(), plain()],
        hierarchy: vec![(0, 1)],
        replacements: vec![],
    };
    let agg = aggregate_requirements(&g).unwrap();
    let satisfy = TraceCoverageFacts {
        only_covered_by_passed_tests: true,
        has_satisfy_trace: true,
        all_satisfy_traces_covered: true,
        ..facts()
    };
    let verify = TraceCoverageFacts {
        only_covered_by_passed_tests: true,
        has_verify_trace: true,
        tests_cover_verify_without_satisfy: true,
        ..facts()
    };
    let both = TraceCoverageFacts {
        only_covered_by_passed_tests: true,
        has_satisfy_trace: true,
        has_verify_trace: true,
        all_satisfy_traces_covered: true,
        tests_cover_satisfy_and_verify: true,
        ..facts()
    };
    let st = requirement_states(
        &g,
        &agg,
        &vec![explicit(vec![]), explicit(vec![TestCaseState::Passed]), reviewed(vec![]), traced(satisfy), traced(verify), traced(both)],
    );
    let req_1 = st[0].unwrap();
    assert_eq!(req_1.direct, S::Unverified);
    assert_eq!(req_1.indirect, Some(S::Verified));
    assert!(req_1.classes.verified, "req-1 is verified through req-1.sub-1");
    for i in 1..6 {
        let r = st[i].unwrap();
        assert_eq!(r.direct, S::Verified, "requirement {i}");
        assert!(r.classes.verified && !r.classes.unverified, "requirement {i}");
    }
}

#[test]
fn deprecated_req() {
    // 0 req-1, 1 req-1.sub-1, 2 req-2, 3 req-2.sub-1, 4 req-3, 5 req-4, 6 req-5, 7 req-6,
    // 8 req-7, 9 req-8 (replaced by req-2), 10 req-9 (child of req-8)
    let g = RequirementGraph {
        reqs: vec![
            deprecated(),
            plain(),
            plain(),
            deprecated(),
            deprecated(),
            deprecated(),
            deprecated(),
            deprecated(),
            marks(true, false, false, true),
            plain(),
            plain(),
        ],
        hierarchy: vec![(0, 1), (2, 3), (9, 10)],
        replacements: vec![(2, 9)],
    };
    let agg = aggregate_requirements(&g).unwrap();
    let st = requirement_states(
        &g,
        &agg,
        &vec![
            explicit(vec![]),
            explicit(vec![TestCaseState::Passed]),
            explicit(vec![]),
            explicit(vec![]),
            explicit(vec![]),
            explicit(vec![TestCaseState::Failed]),
            explicit(vec![TestCaseState::Skipped]),
            explicit(vec![TestCaseState::Passed]),
            reviewed(vec![]),
            explicit(vec![]),
            explicit(vec![]),
        ],
    );
    for i in 0..11 {
        if i == 2 {
            assert!(!agg.deprecated[i], "req-2 is not deprecated");
            assert!(st[i].is_some());
        } else {
            assert!(agg.deprecated[i], "requirement {i} is deprecated");
            assert_eq!(st[i], None, "a deprecated requirement has no state, requirement {i}");
        }
    }
}

#[test]
fn ignored_req() {
    // 0 req-1, 1 req-1.sub-1, 2 req-2, 3 req-2.sub-1, 4 req-3, 5 req-4, 6 req-5, 7 req-6,
    // 8 req-7, 9 req-8, 10 req-9 (child of req-8)
    let g = RequirementGraph {
        reqs: vec![
            excluded(),
            plain(),
            plain(),
            excluded(),
            excluded(),
            excluded(),
            excluded(),
            excluded(),
            marks(false, true, false, true),
            excluded(),
            plain(),
        ],
        hierarchy: vec![(0, 1), (2, 3), (9, 10)],
        replacements: vec![],
    };
    let agg = aggregate_requirements(&g).unwrap();
    let st = requirement_states(
        &g,
        &agg,
        &vec![
            explicit(vec![]),
            explicit(vec![TestCaseState::Passed]),
            explicit(vec![]),
            explicit(vec![]),
            explicit(vec![]),
            explicit(vec![TestCaseState::Failed]),
            explicit(vec![TestCaseState::Skipped]),
            explicit(vec![TestCaseState::Passed]),
            reviewed(vec![]),
            explicit(vec![]),
            explicit(vec![]),
        ],
    );
    for i in 0..11 {
        if i == 2 {
            assert!(!agg.excluded[i], "req-2 is not excluded");
            assert!(st[i].is_some());
        } else {
            assert!(agg.excluded[i], "requirement {i} is excluded");
            assert_eq!(st[i], None, "an excluded requirement has no state, requirement {i}");
        }
    }
}

#[test]
fn skipped_req() {
    // 0 req-1, 1 req-1.sub-1, 2 req-2, 3 req-2.sub-1, 4 req-verified, 5 req-manual
    let g = RequirementGraph {
        reqs: vec![plain(), plain(), plain(), plain(), plain(), manual()],
        hierarchy: vec![(0, 1), (2, 3)],
        replacements: vec![],
    };
    let agg = aggregate_requirements(&g).unwrap();
    let st = requirement_states(
        &g,
        &agg,
        &vec![
            explicit(vec![TestCaseState::Skipped]),
            explicit(vec![TestCaseState::Passed]),
            explicit(vec![]),
            explicit(vec![TestCaseState::Skipped]),
            explicit(vec![TestCaseState::Passed, TestCaseState::Skipped]),
            reviewed(vec![TestCaseState::Skipped]),
        ],
    );
    assert!(st[0].unwrap().classes.skipped);
    assert!(!st[1].unwrap().classes.skipped, "req-1.sub-1 is not skipped");
    let req_2 = st[2].unwrap();
    assert_eq!(req_2.indirect, Some(S::Skipped));
    assert!(req_2.classes.skipped, "req-2 is skipped through req-2.sub-1");
    assert!(st[3].unwrap().classes.skipped);
    assert!(st[4].unwrap().classes.skipped && !st[4].unwrap().classes.verified);
    assert!(st[5].unwrap().classes.skipped && !st[5].unwrap().classes.verified);
}

#[test]
fn unverified_req() {
    // 0 req-1, 1 req-1.sub-1, 2 req-2, 3 req-2.sub-1, 4 req-manual, 5 req-satisfy, 6 req-verify,
    // 7 req-satisfy-verify, 8 req-mult-satisfy
    let g = RequirementGraph {
        reqs: vec![plain(), plain(), plain(), plain(), manual(), plain(), plain(), plain(), plain()],
        hierarchy: vec![(0, 1), (2, 3)],
        replacements: vec![],
    };
    let agg = aggregate_requirements(&g).unwrap();
    let satisfy = TraceCoverageFacts { has_satisfy_trace: true, ..facts() };
    let verify = TraceCoverageFacts { has_verify_trace: true, ..facts() };
    let satisfy_verify = TraceCoverageFacts {
        only_covered_by_passed_tests: true,
        has_satisfy_trace: true,
        has_verify_trace: true,
        all_satisfy_traces_covered: true,
        tests_cover_verify_without_satisfy: true,
        ..facts()
    };
    let mult_satisfy = TraceCoverageFacts { only_covered_by_passed_tests: true, has_satisfy_trace: true, ..facts() };
    let st = requirement_states(
        &g,
        &agg,
        &vec![
            explicit(vec![TestCaseState::Passed]),
            explicit(vec![]),
            explicit(vec![]),
            explicit(vec![]),
            explicit(vec![]),
            traced(satisfy),
            traced(verify),
            traced(satisfy_verify),
            traced(mult_satisfy),
        ],
    );
    let req_1 = st[0].unwrap();
    assert!(req_1.classes.verified, "req-1 is verified");
    assert!(st[1].unwrap().classes.unverified, "req-1.sub-1 stays unverified under a verified parent");
    for i in 2..9 {
        let r = st[i].unwrap();
        assert_eq!(r.direct, S::Unverified, "requirement {i}");
        assert!(r.classes.unverified && !r.classes.verified, "requirement {i}");
    }
}

#[test]
fn skipped_test_among_passed_skips_requirement() {
    let g = RequirementGraph { reqs: vec![plain()], hierarchy: vec![], replacements: vec![] };
    let agg = aggregate_requirements(&g).unwrap();
    let st = requirement_states(&g, &agg, &vec![explicit(vec![TestCaseState::Passed, TestCaseState::Skipped])]);
    let r = st[0].unwrap();
    assert_eq!(r.direct, S::Skipped);
    assert!(r.classes.skipped && !r.classes.verified && !r.classes.failed);
}

#[test]
fn optional_child_does_not_block_verified_parent() {
    // 0 -> 1 (verified), 0 -> 2 (optional, skipped), 0 -> 3 (optional, untested)
    let g = RequirementGraph {
        reqs: vec![plain(), plain(), marks(false, false, true, false), marks(false, false, true, false)],
        hierarchy: vec![(0, 1), (0, 2), (0, 3)],
        replacements: vec![],
    };
    let agg = aggregate_requirements(&g).unwrap();
    let st = requirement_states(
        &g,
        &agg,
        &vec![
            explicit(vec![]),
            explicit(vec![TestCaseState::Passed]),
            explicit(vec![TestCaseState::Skipped]),
            explicit(vec![]),
        ],
    );
    let parent = st[0].unwrap();
    assert_eq!(parent.indirect, Some(S::Verified));
    assert!(parent.classes.verified);
    // the same child made mandatory keeps the parent from being verified
    let g2 = RequirementGraph {
        reqs: vec![plain(), plain(), plain()],
        hierarchy: vec![(0, 1), (0, 2)],
        replacements: vec![],
    };
    let agg2 = aggregate_requirements(&g2).unwrap();
    let st2 = requirement_states(
        &g2,
        &agg2,
        &vec![explicit(vec![]), explicit(vec![TestCaseState::Passed]), explicit(vec![TestCaseState::Skipped])],
    );
    let parent2 = st2[0].unwrap();
    assert_eq!(parent2.indirect, Some(S::Skipped));
    assert!(!parent2.classes.verified && parent2.classes.skipped);
}
