//! Report configuration and the validity of collected data.
use vstd::prelude::*;

use crate::hierarchy::ReqAggregation;

verus! {

/// Output formats of a report.
#[derive(Debug, Clone, Copy, PartialEq, Eq, Hash, Structural)]
pub enum ReportFormat {
    Html,
    Json,
}

/// Project information shown in a report.
#[derive(Debug, Clone, PartialEq, Eq)]
pub struct Project {
    pub name: Option<String>,
    pub version: Option<String>,
    pub link: Option<String>,
}

/// Tag information shown in a report.
#[derive(Debug, Clone, PartialEq, Eq)]
pub struct Tag {
    pub name: Option<String>,
    pub link: Option<String>,
}

/// Configuration of the `report` command.
#[derive(Debug, Clone, PartialEq, Eq)]
pub struct ReportConfig {
    pub path: String,
    pub template: Option<String>,
    pub formats: Vec<ReportFormat>,
    pub project: Project,
    pub tag: Tag,
    /// Template used to render the custom info of requirements.
    pub info_template: Option<String>,
    /// Template used to render the custom metadata of test runs.
    pub test_run_template: Option<String>,
}

/// Whether the collected data is valid, and which requirements make it invalid.
#[derive(Debug, Clone, PartialEq, Eq)]
pub struct ValidationInfo {
    pub is_valid: bool,
    pub criteria: String,
    /// Indices of the requirements that break the criteria, ascending.
    pub invalid_reqs: Vec<usize>,
}

/// The requirement is deprecated yet traced.
pub open spec fn is_invalid(agg: &ReqAggregation, traced: Seq<bool>, r: int) -> bool {
    agg.deprecated@[r] && traced[r]
}

/// Checks the criteria for valid collected data: no deprecated requirement is traced.
/// `traced[r]` tells whether requirement `r` has a trace.
pub fn validation_info(agg: &ReqAggregation, traced: &Vec<bool>) -> (res: ValidationInfo)
    requires
        traced@.len() == agg.deprecated@.len(),
    ensures
        res.is_valid == !exists|r: int| 0 <= r < traced@.len() && #[trigger] is_invalid(agg, traced@, r),
        res.criteria@ == validation_criteria(),
        forall|k: int| 0 <= k < res.invalid_reqs@.len() ==> (#[trigger] res.invalid_reqs@[k]) < traced@.len()
            && is_invalid(agg, traced@, res.invalid_reqs@[k] as int),
        forall|r: int| 0 <= r < traced@.len() && #[trigger] is_invalid(agg, traced@, r) ==> res.invalid_reqs@.contains(
            r as usize,
        ),
        forall|i: int, j: int| 0 <= i < j < res.invalid_reqs@.len() ==> res.invalid_reqs@[i] < res.invalid_reqs@[j],
{
    let mut invalid: Vec<usize> = Vec::new();
    for r in 0..traced.len()
        invariant
            traced@.len() == agg.deprecated@.len(),
            forall|k: int| 0 <= k < invalid@.len() ==> (#[trigger] invalid@[k]) < r && is_invalid(agg, traced@, invalid@[k] as int),
            forall|x: int| 0 <= x < r && #[trigger] is_invalid(agg, traced@, x) ==> invalid@.contains(x as usize),
            forall|i: int, j: int| 0 <= i < j < invalid@.len() ==> invalid@[i] < invalid@[j],
    {
        let ghost prev = invalid@;
        if agg.deprecated[r] && traced[r] {
            invalid.push(r);
        }
        proof {
            assert forall|x: int| 0 <= x < r + 1 && #[trigger] is_invalid(agg, traced@, x) implies invalid@.contains(x as usize) by {
                if x < r {
                    let k = choose|k: int| 0 <= k < prev.len() && prev[k] == x as usize;
                    assert(invalid@[k] == x as usize);
                } else {
                    assert(invalid@[invalid@.len() - 1] == r);
                }
            }
        }
    }
    let is_valid = invalid.len() == 0;
    proof {
        if !is_valid {
            assert(is_invalid(agg, traced@, invalid@[0] as int));
        } else {
            assert forall|r: int| 0 <= r < traced@.len() implies !#[trigger] is_invalid(agg, traced@, r) by {
                if is_invalid(agg, traced@, r) {
                    assert(invalid@.contains(r as usize));
                }
            }
        }
    }
    ValidationInfo { is_valid, criteria: validation_criteria_text(), invalid_reqs: invalid }
}

/// The text of the validity criteria.
pub open spec fn validation_criteria() -> Seq<char> {
    "The collected data is valid if no *deprecated* requirement is traced."@
}

fn validation_criteria_text() -> (res: String)
    ensures
        res@ == validation_criteria(),
{
    let s = "The collected data is valid if no *deprecated* requirement is traced.";
    s.to_string()
}

} // verus!
