use mantra::test_run_states::{
    aggregate_test_runs, resolve_line_coverage_state, ExcludedLineRange, ResolvedLineCoverageState, TestRunGraph,
};
use mantra::verification::TestCaseState;

#[test]
fn run_outcomes_follow_nested_test_cases() {
    // run 0 encloses 1 and 2; run 1 encloses 3
    let g = TestRunGraph {
        n_runs: 4,
        hierarchy: vec![(0, 1), (0, 2), (1, 3)],
        test_cases: vec![
            (3, TestCaseState::Failed),
            (2, TestCaseState::Passed),
            (2, TestCaseState::Skipped),
            (3, TestCaseState::Passed),
        ],
        overrides: vec![None, None, None, None],
    };
    let agg = aggregate_test_runs(&g).unwrap();
    assert_eq!(agg.failed, vec![true, true, false, true]);
    assert_eq!(agg.skipped, vec![false, false, true, false]);
    assert_eq!(agg.passed, vec![false, false, false, false]);
    assert_eq!(agg.leaves, vec![false, false, true, true]);
    assert_eq!(agg.descendants[0], vec![false, true, true, true]);
    assert_eq!(agg.usable_cases, vec![false, true, false, true]);
}

#[test]
fn overrides_replace_recorded_states() {
    let g = TestRunGraph {
        n_runs: 2,
        hierarchy: vec![(0, 1)],
        test_cases: vec![(1, TestCaseState::Failed), (1, TestCaseState::Passed)],
        overrides: vec![Some(TestCaseState::Passed), None],
    };
    let agg = aggregate_test_runs(&g).unwrap();
    assert_eq!(agg.resolved_states, vec![TestCaseState::Passed, TestCaseState::Passed]);
    assert_eq!(agg.passed, vec![true, true]);
    assert_eq!(agg.usable_runs, vec![true, true]);
    assert_eq!(agg.failed, vec![false, false]);
}

#[test]
fn unknown_states_fail_their_runs() {
    let g = TestRunGraph {
        n_runs: 1,
        hierarchy: vec![],
        test_cases: vec![(0, TestCaseState::Unknown)],
        overrides: vec![None],
    };
    let agg = aggregate_test_runs(&g).unwrap();
    assert_eq!(agg.failed, vec![true]);
    assert_eq!(agg.leaves, vec![true]);
}

#[test]
fn test_run_cycles_are_rejected() {
    let g = TestRunGraph {
        n_runs: 3,
        hierarchy: vec![(0, 1), (1, 2), (2, 1)],
        test_cases: vec![],
        overrides: vec![],
    };
    assert_eq!(aggregate_test_runs(&g).err(), Some(vec![1, 2]));
}

#[test]
fn line_coverage_states() {
    let ranges = vec![ExcludedLineRange { filepath: "src/lib.rs".to_string(), start_line: 10, end_line: 12 }];
    let file = "src/lib.rs".to_string();
    assert_eq!(resolve_line_coverage_state(Some(Some(2)), &ranges, &file, 11, None), ResolvedLineCoverageState::OverriddenCovered);
    assert_eq!(resolve_line_coverage_state(Some(None), &ranges, &file, 11, Some(5)), ResolvedLineCoverageState::OverriddenUncovered);
    assert_eq!(resolve_line_coverage_state(None, &ranges, &file, 12, Some(5)), ResolvedLineCoverageState::Excluded);
    assert_eq!(resolve_line_coverage_state(None, &ranges, &file, 13, Some(5)), ResolvedLineCoverageState::Covered);
    assert_eq!(resolve_line_coverage_state(None, &ranges, &file, 13, Some(0)), ResolvedLineCoverageState::Uncovered);
    assert_eq!(resolve_line_coverage_state(None, &ranges, &"other.rs".to_string(), 11, None), ResolvedLineCoverageState::Uncovered);
}
