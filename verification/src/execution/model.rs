use vstd::prelude::*;

use crate::bytes::RuntimeStateByteCount;
use crate::error::{RuleAttemptStepError, StepError};
use crate::execution::engine::AttemptRunCoreParts;
use crate::limits::RuleAttemptCount;
use crate::policy::{ExecutionPolicy, RuleAttemptPolicy};
use crate::program::ExecutableRule;
use crate::runtime::action::{preparation_error, AppliedRule};
use crate::runtime::budget::attempt_reservation_error;
use crate::runtime::matcher::{leftmost, occurs, EvaluatedRuleMiss};
use crate::runtime::once::RuntimeRules;
use crate::runtime::rewrite::spliced;

verus! {

/// What one attempt reports.
#[verifier::ext_equal]
pub enum AttemptReport {
    /// The attempt committed nothing.
    Failed { error: RuleAttemptStepError },
    /// The rule did not apply.
    Missed { attempt: nat, position: int, rule: ExecutableRule, consumed: bool },
    /// The rule rewrote the state.
    Rewritten { attempt: nat, step: nat, position: int, rule: ExecutableRule },
    /// The rule ended the run with an output.
    Returned { attempt: nat, step: nat, position: int, rule: ExecutableRule, output: Seq<u8> },
}

impl AttemptReport {
    /// Whether the allocator refused the room that the attempt asked for.
    pub open spec fn refused_by_allocator(self) -> bool {
        self matches AttemptReport::Failed {
            error: RuleAttemptStepError::Step(StepError::AllocationFailed { .. }),
        }
    }

    /// Whether a rule was applied.
    pub open spec fn applied(self) -> bool {
        self is Rewritten || self is Returned
    }
}

/// The report of a committed miss.
pub open spec fn missed_report(
    attempt: RuleAttemptCount,
    miss: EvaluatedRuleMiss<'_>,
) -> AttemptReport {
    AttemptReport::Missed {
        attempt: attempt@,
        position: miss.position(),
        rule: miss.rule(),
        consumed: miss.consumed(),
    }
}

/// The report of a committed application.
pub open spec fn applied_report(
    attempt: RuleAttemptCount,
    applied: AppliedRule<'_>,
) -> AttemptReport {
    match applied.output() {
        Some(output) => AttemptReport::Returned {
            attempt: attempt@,
            step: applied.step()@,
            position: applied.position(),
            rule: applied.rule(),
            output,
        },
        None => AttemptReport::Rewritten {
            attempt: attempt@,
            step: applied.step()@,
            position: applied.position(),
            rule: applied.rule(),
        },
    }
}

/// A run, as the values on which its next attempt depends.
#[verifier::ext_equal]
pub struct RunModel<E, A> {
    pub rules: Seq<ExecutableRule>,
    pub consumed: Seq<bool>,
    /// The rule that the next attempt tries.
    pub position: int,
    pub state: Seq<u8>,
    pub steps: nat,
    pub attempts: nat,
    pub policy: E,
    pub attempt_policy: A,
}

/// The values of a run that has `parts` and stands at `rules`.
pub open spec fn run_model<E: ExecutionPolicy, A: RuleAttemptPolicy>(
    parts: AttemptRunCoreParts<E, A>,
    rules: RuntimeRules<'_>,
) -> RunModel<E, A> {
    RunModel {
        rules: rules.program.rules@,
        consumed: rules.consumed@,
        position: rules.position as int,
        state: parts.state@,
        steps: parts.budget.steps@,
        attempts: parts.attempt_budget.attempts@,
        policy: parts.budget.policy,
        attempt_policy: parts.attempt_budget.policy,
    }
}

impl<E: ExecutionPolicy, A: RuleAttemptPolicy> RunModel<E, A> {
    /// There is a current rule, every rule has a slot, and only once-rewrite rules are consumed.
    pub open spec fn wf(self) -> bool {
        &&& 0 <= self.position < self.rules.len()
        &&& self.consumed.len() == self.rules.len()
        &&& forall|i: int|
            0 <= i < self.consumed.len() && #[trigger] self.consumed[i]
                ==> self.rules[i] is OnceRewrite
    }

    /// The length of the state, as errors give it.
    pub open spec fn state_len(self) -> RuntimeStateByteCount {
        RuntimeStateByteCount { bytes: self.state.len() as usize }
    }

    /// The rule that the next attempt tries.
    pub open spec fn rule(self) -> ExecutableRule {
        self.rules[self.position]
    }

    /// Whether rule `i` applies to the state: it is not consumed and its pattern occurs.
    pub open spec fn applies(self, i: int) -> bool {
        !self.consumed[i] && occurs(self.state, self.rules[i].pattern())
    }

    /// What refuses the attempt itself, if anything does.
    pub open spec fn attempt_error(self) -> Option<RuleAttemptStepError> {
        attempt_reservation_error(
            self.attempt_policy.attempt_limit_spec(),
            self.attempts,
            self.state_len(),
        )
    }

    /// What keeps the current rule from being prepared, if anything does.
    pub open spec fn application_error(self, allocated: bool) -> Option<StepError> {
        preparation_error(
            self.policy.limits_spec(),
            self.steps,
            self.rule(),
            self.state_len(),
            allocated,
        )
    }

    /// What the next attempt reports, `allocated` being the allocator's answer if it is asked.
    pub open spec fn report(self, allocated: bool) -> AttemptReport {
        if let Some(error) = self.attempt_error() {
            AttemptReport::Failed { error }
        } else if !self.applies(self.position) {
            AttemptReport::Missed {
                attempt: self.attempts + 1,
                position: self.position,
                rule: self.rule(),
                consumed: self.consumed[self.position],
            }
        } else if let Some(error) = self.application_error(allocated) {
            AttemptReport::Failed { error: RuleAttemptStepError::Step(error) }
        } else {
            match self.rule() {
                ExecutableRule::AlwaysReturn(rule) | ExecutableRule::OnceReturn(rule) => {
                    AttemptReport::Returned {
                        attempt: self.attempts + 1,
                        step: self.steps + 1,
                        position: self.position,
                        rule: self.rule(),
                        output: rule.output@,
                    }
                },
                _ => AttemptReport::Rewritten {
                    attempt: self.attempts + 1,
                    step: self.steps + 1,
                    position: self.position,
                    rule: self.rule(),
                },
            }
        }
    }

    /// The state after the current rule, a rewrite, has replaced its leftmost match.
    pub open spec fn rewritten_state(self) -> Seq<u8> {
        match self.rule() {
            ExecutableRule::AlwaysRewrite(rule) | ExecutableRule::OnceRewrite(rule) => spliced(
                self.state,
                leftmost(self.state, rule.pattern@),
                rule.pattern@.len(),
                rule.replacement@,
            ),
            _ => self.state,
        }
    }

    /// The slots after the current rule has been applied.
    pub open spec fn consumed_after(self) -> Seq<bool> {
        if self.rule() is OnceRewrite {
            self.consumed.update(self.position, true)
        } else {
            self.consumed
        }
    }

    /// The run after the next attempt.
    ///
    /// A failure changes nothing. A miss moves on to the next rule, which after the last rule is
    /// past the end. A rewrite starts over at the first rule. A return leaves the state alone.
    pub open spec fn next(self, allocated: bool) -> RunModel<E, A> {
        match self.report(allocated) {
            AttemptReport::Failed { .. } => self,
            AttemptReport::Missed { .. } => RunModel {
                attempts: self.attempts + 1,
                position: self.position + 1,
                ..self
            },
            AttemptReport::Rewritten { .. } => RunModel {
                attempts: self.attempts + 1,
                steps: self.steps + 1,
                state: self.rewritten_state(),
                consumed: self.consumed_after(),
                position: 0,
                ..self
            },
            AttemptReport::Returned { .. } => RunModel {
                attempts: self.attempts + 1,
                steps: self.steps + 1,
                ..self
            },
        }
    }
}

} // verus!
