use vstd::prelude::*;

use crate::bytes::{ReturnOutputByteCount, RuntimeStateByteCount};
use crate::error::StepError;
use crate::limits::{ExecutionLimits, StepCount};
use crate::policy::ExecutionPolicy;
use crate::program::{ExecutableRule, ReturnRule, ReturnRuleRef, RewriteRuleRef};
use crate::runtime::budget::{step_reservation_error, RuntimeBudgetState, StepReservation};
use crate::runtime::matcher::MatchedRuleApplication;
use crate::runtime::once::OnceSlot;
use crate::runtime::rewrite::{
    append_range, is_allocation_failure, reserve_bytes, rewrite_error, spliced, RewriteScratch,
};
use crate::runtime::state::State;

verus! {

/// What keeps the output of `rule` from being made, if anything does.
///
/// `allocated` is the allocator's answer to the request for room, which is made only for an
/// output that is within its limit and not empty.
pub open spec fn return_error(
    limits: ExecutionLimits,
    rule: ReturnRule,
    allocated: bool,
) -> Option<StepError> {
    let required = rule.output@.len();
    if limits.return_bytes matches Some(limit) && required > limit.bytes {
        Some(
            StepError::ReturnOutputTooLong {
                limit: limits.return_bytes->0,
                required: ReturnOutputByteCount { bytes: required as usize },
            },
        )
    } else if required > 0 && !allocated {
        Some(StepError::AllocationFailed { requested: required as usize })
    } else {
        None
    }
}

/// What keeps a matched `rule` from being prepared after `steps` committed steps, if anything
/// does: first the step budget, then the rewrite or the return output.
pub open spec fn preparation_error(
    limits: ExecutionLimits,
    steps: nat,
    rule: ExecutableRule,
    state_len: RuntimeStateByteCount,
    allocated: bool,
) -> Option<StepError> {
    match step_reservation_error(limits, steps, state_len) {
        Some(error) => Some(error),
        None => match rule {
            ExecutableRule::AlwaysRewrite(rule) => rewrite_error(
                limits,
                rule,
                state_len,
                allocated,
            ),
            ExecutableRule::OnceRewrite(rule) => rewrite_error(limits, rule, state_len, allocated),
            ExecutableRule::AlwaysReturn(rule) => return_error(limits, rule, allocated),
            ExecutableRule::OnceReturn(rule) => return_error(limits, rule, allocated),
        },
    }
}

/// Bytes that a return rule hands to the caller of the run.
#[derive(Debug, PartialEq, Eq)]
pub struct ReturnOutput {
    pub bytes: Vec<u8>,
}

impl View for ReturnOutput {
    type V = Seq<u8>;

    open spec fn view(&self) -> Seq<u8> {
        self.bytes@
    }
}

impl ReturnOutput {
    /// Copies the output of `rule` into an empty buffer, given the allocator's answer.
    pub fn fill(reserved: bool, rule: &ReturnRule, buffer: Vec<u8>) -> (result: Result<
        ReturnOutput,
        StepError,
    >)
        requires
            buffer@.len() == 0,
        ensures
            match result {
                Ok(output) => reserved && output@ == rule.output@,
                Err(error) => {
                    &&& !reserved
                    &&& error == (StepError::AllocationFailed {
                        requested: rule.output@.len() as usize,
                    })
                },
            },
    {
        let required: usize = rule.output.len();
        if !reserved {
            return Err(StepError::AllocationFailed { requested: required });
        }
        let mut bytes = buffer;
        append_range(&mut bytes, &rule.output, 0, required);
        assert(bytes@ =~= rule.output@);
        Ok(ReturnOutput { bytes })
    }

    /// Makes the output of `rule`.
    ///
    /// # Errors
    ///
    /// Fails if the output is longer than the limits admit or finds no room.
    pub fn materialize(limits: ExecutionLimits, rule: &ReturnRule) -> (result: Result<
        ReturnOutput,
        StepError,
    >)
        ensures
            match result {
                Ok(output) => {
                    &&& return_error(limits, *rule, true) is None
                    &&& output@ == rule.output@
                },
                Err(error) => return_error(limits, *rule, !is_allocation_failure(error)) == Some(
                    error,
                ),
            },
    {
        let required: usize = rule.output.len();
        if let Some(limit) = limits.return_bytes {
            if required > limit.bytes {
                return Err(
                    StepError::ReturnOutputTooLong {
                        limit,
                        required: ReturnOutputByteCount { bytes: required },
                    },
                );
            }
        }
        let mut buffer: Vec<u8> = Vec::new();
        let reserved = reserve_bytes(&mut buffer, required);
        Self::fill(reserved, rule, buffer)
    }
}

/// What a prepared step will do besides counting itself.
#[allow(inconsistent_fields)]
pub enum PreparedRuleAction<'program, 'once> {
    /// The scratch buffer holds the next state.
    AlwaysRewrite { rule: RewriteRuleRef<'program> },
    /// The scratch buffer holds the next state; the slot is still unset.
    OnceRewrite { rule: RewriteRuleRef<'program>, slot: OnceSlot<'once> },
    AlwaysReturn { rule: ReturnRuleRef<'program>, output: ReturnOutput },
    OnceReturn { rule: ReturnRuleRef<'program>, output: ReturnOutput },
}

impl<'program, 'once> PreparedRuleAction<'program, 'once> {
    /// The rule that will apply.
    pub open spec fn rule(self) -> ExecutableRule {
        match self {
            PreparedRuleAction::AlwaysRewrite { rule } => ExecutableRule::AlwaysRewrite(*rule.rule),
            PreparedRuleAction::OnceRewrite { rule, .. } => ExecutableRule::OnceRewrite(*rule.rule),
            PreparedRuleAction::AlwaysReturn { rule, .. } => ExecutableRule::AlwaysReturn(
                *rule.rule,
            ),
            PreparedRuleAction::OnceReturn { rule, .. } => ExecutableRule::OnceReturn(*rule.rule),
        }
    }

    /// The place of the rule in its program.
    pub open spec fn position(self) -> int {
        match self {
            PreparedRuleAction::AlwaysRewrite { rule } => rule.position as int,
            PreparedRuleAction::OnceRewrite { rule, .. } => rule.position as int,
            PreparedRuleAction::AlwaysReturn { rule, .. } => rule.position as int,
            PreparedRuleAction::OnceReturn { rule, .. } => rule.position as int,
        }
    }

    /// The bytes that a return will hand out.
    pub open spec fn output(self) -> Option<Seq<u8>> {
        match self {
            PreparedRuleAction::AlwaysReturn { output, .. } => Some(output@),
            PreparedRuleAction::OnceReturn { output, .. } => Some(output@),
            _ => None,
        }
    }
}

/// A step whose side effects are all ready to commit.
pub struct PreparedRuleStep<'program, 'once, 'step_budget, E: ExecutionPolicy> {
    pub step: StepReservation<'step_budget, E>,
    pub action: PreparedRuleAction<'program, 'once>,
}

/// A committed rewrite.
#[derive(Clone, Copy, Debug)]
pub struct CommittedRewrite<'program> {
    pub step: StepCount,
    pub rule: RewriteRuleRef<'program>,
}

impl<'program> CommittedRewrite<'program> {
    /// The count of the committed step.
    pub fn step(&self) -> (step: StepCount)
        ensures
            step == self.step,
    {
        self.step
    }

    /// The rule that rewrote.
    pub fn rule(&self) -> (rule: RewriteRuleRef<'program>)
        ensures
            rule == self.rule,
    {
        self.rule
    }
}

/// A committed return.
#[derive(Debug)]
pub struct CommittedReturn<'program> {
    pub step: StepCount,
    pub rule: ReturnRuleRef<'program>,
    pub output: ReturnOutput,
}

impl<'program> CommittedReturn<'program> {
    /// The count of the committed step.
    pub fn step(&self) -> (step: StepCount)
        ensures
            step == self.step,
    {
        self.step
    }

    /// The rule that returned.
    pub fn rule(&self) -> (rule: ReturnRuleRef<'program>)
        ensures
            rule == self.rule,
    {
        self.rule
    }

    /// The bytes that the rule handed out.
    pub fn into_output(self) -> (output: ReturnOutput)
        ensures
            output == self.output,
    {
        self.output
    }
}

/// Exact action of a committed step.
#[derive(Debug)]
pub enum AppliedRule<'program> {
    AlwaysRewritten(CommittedRewrite<'program>),
    OnceRewritten(CommittedRewrite<'program>),
    AlwaysReturned(CommittedReturn<'program>),
    OnceReturned(CommittedReturn<'program>),
}

impl<'program> AppliedRule<'program> {
    /// The rule that applied.
    pub open spec fn rule(self) -> ExecutableRule {
        match self {
            AppliedRule::AlwaysRewritten(committed) => ExecutableRule::AlwaysRewrite(
                *committed.rule.rule,
            ),
            AppliedRule::OnceRewritten(committed) => ExecutableRule::OnceRewrite(
                *committed.rule.rule,
            ),
            AppliedRule::AlwaysReturned(committed) => ExecutableRule::AlwaysReturn(
                *committed.rule.rule,
            ),
            AppliedRule::OnceReturned(committed) => ExecutableRule::OnceReturn(
                *committed.rule.rule,
            ),
        }
    }

    /// The place of the rule in its program.
    pub open spec fn position(self) -> int {
        match self {
            AppliedRule::AlwaysRewritten(committed) => committed.rule.position as int,
            AppliedRule::OnceRewritten(committed) => committed.rule.position as int,
            AppliedRule::AlwaysReturned(committed) => committed.rule.position as int,
            AppliedRule::OnceReturned(committed) => committed.rule.position as int,
        }
    }

    /// The count of the committed step.
    pub open spec fn step(self) -> StepCount {
        match self {
            AppliedRule::AlwaysRewritten(committed) => committed.step,
            AppliedRule::OnceRewritten(committed) => committed.step,
            AppliedRule::AlwaysReturned(committed) => committed.step,
            AppliedRule::OnceReturned(committed) => committed.step,
        }
    }

    /// The bytes that a return handed out.
    pub open spec fn output(self) -> Option<Seq<u8>> {
        match self {
            AppliedRule::AlwaysReturned(committed) => Some(committed.output@),
            AppliedRule::OnceReturned(committed) => Some(committed.output@),
            _ => None,
        }
    }
}

/// Prepares a matched rule: reserves its step and makes the next state or the return output,
/// leaving the state, the step count and the slot of a once rule as they are.
///
/// The allocator alone decides between success and `AllocationFailed`; everything else follows
/// from the arguments.
///
/// # Errors
///
/// Fails as `preparation_error` says.
pub fn prepare_matched_rule<'program, 'once, 'step_budget, E: ExecutionPolicy>(
    scratch: &mut RewriteScratch,
    budget: &'step_budget mut RuntimeBudgetState<E>,
    state_len: RuntimeStateByteCount,
    matched: MatchedRuleApplication<'program, '_, 'once>,
) -> (result: Result<PreparedRuleStep<'program, 'once, 'step_budget, E>, StepError>)
    requires
        matched.matched_in(state_len.bytes as int),
    ensures
        match result {
            Ok(prepared) => {
                &&& preparation_error(
                    old(budget).policy.limits_spec(),
                    old(budget).steps@,
                    matched.rule(),
                    state_len,
                    true,
                ) is None
                &&& *prepared.step.budget == *old(budget)
                &&& *final(budget) == *final(prepared.step.budget)
                &&& prepared.step.next@ == old(budget).steps@ + 1
                &&& prepared.action.rule() == matched.rule()
                &&& prepared.action.position() == matched.position()
                &&& match matched {
                    MatchedRuleApplication::AlwaysRewrite { rule, site } => {
                        final(scratch)@ == spliced(
                            site.state@,
                            site.start as int,
                            rule.rule.pattern@.len(),
                            rule.rule.replacement@,
                        )
                    },
                    MatchedRuleApplication::OnceRewrite { rule, site, slot } => {
                        &&& final(scratch)@ == spliced(
                            site.state@,
                            site.start as int,
                            rule.rule.pattern@.len(),
                            rule.rule.replacement@,
                        )
                        &&& prepared.action->OnceRewrite_slot == slot
                    },
                    MatchedRuleApplication::AlwaysReturn { rule } => {
                        &&& final(scratch)@ == old(scratch)@
                        &&& prepared.action.output() == Some(rule.rule.output@)
                    },
                    MatchedRuleApplication::OnceReturn { rule } => {
                        &&& final(scratch)@ == old(scratch)@
                        &&& prepared.action.output() == Some(rule.rule.output@)
                    },
                }
            },
            Err(error) => {
                &&& preparation_error(
                    old(budget).policy.limits_spec(),
                    old(budget).steps@,
                    matched.rule(),
                    state_len,
                    !is_allocation_failure(error),
                ) == Some(error)
                &&& *final(budget) == *old(budget)
                &&& matched matches MatchedRuleApplication::OnceRewrite { slot, .. }
                    ==> *final(slot.consumed) == *slot.consumed
                &&& final(scratch)@ == if is_allocation_failure(error) && matched.site() is Some {
                    Seq::<u8>::empty()
                } else {
                    old(scratch)@
                }
            },
        },
{
    let limits = budget.policy.limits();
    let step = match budget.reserve_next_step(state_len) {
        Ok(step) => step,
        Err(error) => return Err(error),
    };
    match matched {
        MatchedRuleApplication::AlwaysRewrite { rule, site } => {
            match scratch.prepare(limits, state_len, rule.rule, site) {
                Ok(()) => Ok(
                    PreparedRuleStep { step, action: PreparedRuleAction::AlwaysRewrite { rule } },
                ),
                Err(error) => Err(error),
            }
        },
        MatchedRuleApplication::OnceRewrite { rule, site, slot } => {
            match scratch.prepare(limits, state_len, rule.rule, site) {
                Ok(()) => Ok(
                    PreparedRuleStep {
                        step,
                        action: PreparedRuleAction::OnceRewrite { rule, slot },
                    },
                ),
                Err(error) => Err(error),
            }
        },
        MatchedRuleApplication::AlwaysReturn { rule } => {
            match ReturnOutput::materialize(limits, rule.rule) {
                Ok(output) => Ok(
                    PreparedRuleStep {
                        step,
                        action: PreparedRuleAction::AlwaysReturn { rule, output },
                    },
                ),
                Err(error) => Err(error),
            }
        },
        MatchedRuleApplication::OnceReturn { rule } => {
            match ReturnOutput::materialize(limits, rule.rule) {
                Ok(output) => Ok(
                    PreparedRuleStep {
                        step,
                        action: PreparedRuleAction::OnceReturn { rule, output },
                    },
                ),
                Err(error) => Err(error),
            }
        },
    }
}

impl<'program, 'once, 'step_budget, E: ExecutionPolicy> PreparedRuleStep<
    'program,
    'once,
    'step_budget,
    E,
> {
    /// Counts the step and commits what was prepared: a rewrite swaps the state with the scratch
    /// buffer, a once rewrite also sets its slot, and a return hands out its output.
    pub fn commit(self, state: &mut State, scratch: &mut RewriteScratch) -> (applied: AppliedRule<
        'program,
    >)
        ensures
            applied.step() == self.step.next,
            applied.rule() == self.action.rule(),
            applied.position() == self.action.position(),
            applied.output() == self.action.output(),
            *final(self.step.budget) == (RuntimeBudgetState {
                steps: self.step.next,
                ..*old(self.step.budget)
            }),
            self.action.output() is None ==> {
                &&& final(state)@ == old(scratch)@
                &&& final(scratch)@ == old(state)@
            },
            self.action.output() is Some ==> {
                &&& final(state)@ == old(state)@
                &&& final(scratch)@ == old(scratch)@
            },
            self.action matches PreparedRuleAction::OnceRewrite { slot, .. }
                ==> *final(slot.consumed),
    {
        let step = self.step.commit();
        match self.action {
            PreparedRuleAction::AlwaysRewrite { rule } => {
                std::mem::swap(&mut state.bytes, &mut scratch.buffer);
                AppliedRule::AlwaysRewritten(CommittedRewrite { step, rule })
            },
            PreparedRuleAction::OnceRewrite { rule, slot } => {
                *slot.consumed = true;
                std::mem::swap(&mut state.bytes, &mut scratch.buffer);
                AppliedRule::OnceRewritten(CommittedRewrite { step, rule })
            },
            PreparedRuleAction::AlwaysReturn { rule, output } => {
                AppliedRule::AlwaysReturned(CommittedReturn { step, rule, output })
            },
            PreparedRuleAction::OnceReturn { rule, output } => {
                AppliedRule::OnceReturned(CommittedReturn { step, rule, output })
            },
        }
    }
}

} // verus!
