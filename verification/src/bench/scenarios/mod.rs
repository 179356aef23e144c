//! The scenarios.
use crate::bench::plan::Plan;
use vstd::prelude::*;

pub mod amm;
pub mod parallel;
pub mod private;

verus! {

/// The scenarios that are laid down as plans.
#[derive(Debug, Clone, Copy, PartialEq, Eq, Structural)]
pub enum PlannedScenario {
    Amm,
    Private,
    Parallel,
}

/// The plan of a scenario.
pub fn run_scenario(scenario: PlannedScenario) -> (plan: Plan)
    ensures
        plan.wf(),
        match scenario {
            PlannedScenario::Amm => {
                &&& plan.name@ == "amm_swap_flow"@
                &&& plan.steps_spec() == amm::steps()
                &&& plan.burst@.len() == 0
            },
            PlannedScenario::Private => {
                &&& plan.name@ == "private_chained_flow"@
                &&& plan.steps_spec() == private::steps()
                &&& plan.burst@.len() == 0
            },
            PlannedScenario::Parallel => {
                &&& plan.name@ == "parallel_fanout"@
                &&& plan.steps_spec() == parallel::steps()
                &&& plan.burst@ == parallel::burst(parallel::PARALLEL_FANOUT_N as nat)
            },
        },
{
    match scenario {
        PlannedScenario::Amm => amm::run(),
        PlannedScenario::Private => private::run(),
        PlannedScenario::Parallel => parallel::run(),
    }
}

} // verus!
