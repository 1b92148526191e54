use vstd::prelude::*;

use crate::execution::model::{run_model, RunModel};
use crate::limits::{RuleAttemptCount, StepCount};
use crate::policy::{ExecutionPolicy, RuleAttemptPolicy};
use crate::program::ExecutableProgram;
use crate::runtime::budget::{RuleAttemptBudgetState, RuntimeBudgetState};
use crate::runtime::once::{ContinuingRuntimeRulePass, FinalRuntimeRulePass};
use crate::runtime::rewrite::RewriteScratch;
use crate::runtime::state::State;

verus! {

/// What a run owns besides its place in the program.
#[derive(Debug)]
pub struct AttemptRunCoreParts<E: ExecutionPolicy, A: RuleAttemptPolicy> {
    pub state: State,
    /// Working memory; no attempt depends on what it holds.
    pub scratch: RewriteScratch,
    pub budget: RuntimeBudgetState<E>,
    pub attempt_budget: RuleAttemptBudgetState<A>,
}

/// What is left of a run that ended in a stable state.
#[derive(Debug)]
pub struct TerminalRunCore {
    pub state: State,
    pub steps: StepCount,
}

/// What is left of a run whose last attempt failed.
#[derive(Debug)]
pub struct FailedRuleAttemptRunCore {
    pub state: State,
    pub steps: StepCount,
    /// Attempts committed before the one that failed.
    pub attempts: RuleAttemptCount,
}

/// Parts and place of a run whose current rule has successors.
#[derive(Debug)]
pub struct ContinuingRuleAttemptCore<'program, E: ExecutionPolicy, A: RuleAttemptPolicy> {
    pub parts: AttemptRunCoreParts<E, A>,
    pub runtime_rules: ContinuingRuntimeRulePass<'program>,
}

/// Parts and place of a run whose current rule is the last one.
#[derive(Debug)]
pub struct FinalRuleAttemptCore<'program, E: ExecutionPolicy, A: RuleAttemptPolicy> {
    pub parts: AttemptRunCoreParts<E, A>,
    pub runtime_rules: FinalRuntimeRulePass<'program>,
}

/// Run whose current rule has successors.
#[derive(Debug)]
pub struct ContinuingRuleAttemptRun<'program, E: ExecutionPolicy, A: RuleAttemptPolicy> {
    pub program: &'program ExecutableProgram,
    pub core: ContinuingRuleAttemptCore<'program, E, A>,
}

/// Run whose current rule is the last one.
#[derive(Debug)]
pub struct FinalRuleAttemptRun<'program, E: ExecutionPolicy, A: RuleAttemptPolicy> {
    pub program: &'program ExecutableProgram,
    pub core: FinalRuleAttemptCore<'program, E, A>,
}

impl<'program, E: ExecutionPolicy, A: RuleAttemptPolicy> ContinuingRuleAttemptRun<'program, E, A> {
    /// The pass has its shape and runs over the program of the run.
    pub open spec fn wf(self) -> bool {
        &&& self.core.runtime_rules.wf()
        &&& self.core.runtime_rules.rules.program == self.program
    }

    /// The run as values.
    pub open spec fn model(self) -> RunModel<E, A> {
        run_model(self.core.parts, self.core.runtime_rules.rules)
    }
}

impl<'program, E: ExecutionPolicy, A: RuleAttemptPolicy> FinalRuleAttemptRun<'program, E, A> {
    /// The pass has its shape and runs over the program of the run.
    pub open spec fn wf(self) -> bool {
        &&& self.core.runtime_rules.wf()
        &&& self.core.runtime_rules.rules.program == self.program
    }

    /// The run as values.
    pub open spec fn model(self) -> RunModel<E, A> {
        run_model(self.core.parts, self.core.runtime_rules.rules)
    }
}

impl<E: ExecutionPolicy, A: RuleAttemptPolicy> AttemptRunCoreParts<E, A> {
    /// Parts of a run that has not attempted anything yet.
    pub fn new(input: Vec<u8>, policy: E, attempt_policy: A) -> (parts: AttemptRunCoreParts<E, A>)
        ensures
            parts.state@ == input@,
            parts.scratch@.len() == 0,
            parts.budget.policy == policy,
            parts.budget.steps@ == 0,
            parts.attempt_budget.policy == attempt_policy,
            parts.attempt_budget.attempts@ == 0,
    {
        AttemptRunCoreParts {
            state: State { bytes: input },
            scratch: RewriteScratch { buffer: Vec::new() },
            budget: RuntimeBudgetState { policy, steps: StepCount { value: 0 } },
            attempt_budget: RuleAttemptBudgetState {
                policy: attempt_policy,
                attempts: RuleAttemptCount { value: 0 },
            },
        }
    }

    /// Keeps the state and the step count of a run that ended.
    pub fn into_terminal(self) -> (core: TerminalRunCore)
        ensures
            core == (TerminalRunCore { state: self.state, steps: self.budget.steps }),
    {
        TerminalRunCore { state: self.state, steps: self.budget.steps }
    }

    /// Keeps the state and both counts of a run whose attempt failed.
    pub fn into_failed_rule_attempt_terminal(self) -> (core: FailedRuleAttemptRunCore)
        ensures
            core == (FailedRuleAttemptRunCore {
                state: self.state,
                steps: self.budget.steps,
                attempts: self.attempt_budget.attempts,
            }),
    {
        FailedRuleAttemptRunCore {
            state: self.state,
            steps: self.budget.steps,
            attempts: self.attempt_budget.attempts,
        }
    }
}

} // verus!
