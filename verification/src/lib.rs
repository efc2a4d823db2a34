use vstd::prelude::*;

pub mod cfg;
pub mod dot_hierarchy;
pub mod collect_cfg;
pub mod coverage;
pub mod extract;
pub mod graph;
pub mod hierarchy;
pub mod json;
pub mod markdown;
pub mod markup;
pub mod properties;
pub mod report;
pub mod requirements;
pub mod test_run_states;
pub mod test_runs;
pub mod text;
pub mod verification;
pub mod well_known;

verus! {

} // verus!
