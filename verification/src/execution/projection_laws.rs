//! What the projections of an attempt keep, said of the calls themselves field by field.
use vstd::prelude::*;

use crate::bytes::RuntimeStateByteCount;
use crate::error::RuleAttemptStepError;
use crate::execution::advance::{
    failed_continuing_rule_attempt, failed_final_rule_attempt, CommittedRuleAttemptApplication,
    CommittedRuleAttemptMiss,
};
use crate::execution::engine::{AttemptRunCoreParts, FailedRuleAttemptRunCore, TerminalRunCore};
use crate::execution::session::BorrowedRuleAttemptCursor;
use crate::execution::transition::{
    BorrowedContinuingRuleAttemptTransition, BorrowedFinalRuleAttemptTransition,
};
use crate::limits::{RuleAttemptCount, StepCount};
use crate::policy::{ExecutionPolicy, RuleAttemptPolicy};
use crate::program::ExecutableProgram;
use crate::runtime::action::AppliedRule;
use crate::runtime::matcher::EvaluatedRuleMiss;
use crate::runtime::once::{
    ContinuingRuntimeRulePass, FinalRuntimeRulePass, RuntimeRulePass, RuntimeRules,
};
use crate::runtime::state::State;

verus! {

/// A new run holds its whole input and has committed nothing.
pub proof fn law_new_run_holds_its_input<E: ExecutionPolicy, A: RuleAttemptPolicy>(
    input: Vec<u8>,
    policy: E,
    attempt_policy: A,
    parts: AttemptRunCoreParts<E, A>,
)
    requires
        call_ensures(
            AttemptRunCoreParts::<E, A>::new,
            (input, policy, attempt_policy),
            parts,
        ),
    ensures
        parts.state.bytes@ == input@,
        parts.budget.policy == policy,
        parts.budget.steps.value == 0,
        parts.attempt_budget.policy == attempt_policy,
        parts.attempt_budget.attempts.value == 0,
{
}

/// A count grows by exactly one, and only the largest has no successor.
pub proof fn law_counts_grow_by_one(
    attempts: RuleAttemptCount,
    next_attempts: Option<RuleAttemptCount>,
    steps: StepCount,
    next_steps: Option<StepCount>,
)
    requires
        call_ensures(RuleAttemptCount::checked_next, (attempts,), next_attempts),
        call_ensures(StepCount::checked_next, (steps,), next_steps),
    ensures
        match next_attempts {
            Some(next) => next.value == attempts.value + 1,
            None => attempts.value == u64::MAX,
        },
        match next_steps {
            Some(next) => next.value == steps.value + 1,
            None => steps.value == u64::MAX,
        },
{
}

/// The byte count of a state is the number of its bytes.
pub proof fn law_byte_count_counts_bytes(
    state: State,
    count: RuntimeStateByteCount,
)
    requires
        call_ensures(State::byte_count, (&state,), count),
    ensures
        count.bytes == state.bytes@.len(),
{
}

/// What is left of a run holds the state and the counts that the run had.
pub proof fn law_ended_run_keeps_its_values<E: ExecutionPolicy, A: RuleAttemptPolicy>(
    parts: AttemptRunCoreParts<E, A>,
    ended: TerminalRunCore,
    failed: FailedRuleAttemptRunCore,
)
    requires
        call_ensures(AttemptRunCoreParts::<E, A>::into_terminal, (parts,), ended),
        call_ensures(
            AttemptRunCoreParts::<E, A>::into_failed_rule_attempt_terminal,
            (parts,),
            failed,
        ),
    ensures
        ended.state.bytes@ == parts.state.bytes@,
        ended.steps.value == parts.budget.steps.value,
        failed.state.bytes@ == parts.state.bytes@,
        failed.steps.value == parts.budget.steps.value,
        failed.attempts.value == parts.attempt_budget.attempts.value,
{
}

/// A cursor holds the program, the parts and the pass that it was made from.
pub proof fn law_cursor_keeps_the_run<'program, E: ExecutionPolicy, A: RuleAttemptPolicy>(
    program: &'program ExecutableProgram,
    parts: AttemptRunCoreParts<E, A>,
    pass: RuntimeRulePass<'program>,
    cursor: BorrowedRuleAttemptCursor<'program, E, A>,
)
    requires
        call_ensures(
            BorrowedRuleAttemptCursor::<E, A>::from_runtime_pass,
            (program, parts, pass),
            cursor,
        ),
    ensures
        match cursor {
            BorrowedRuleAttemptCursor::Continuing(run) => {
                &&& run.program == program
                &&& run.core.parts == parts
                &&& pass == RuntimeRulePass::Continuing(run.core.runtime_rules)
            },
            BorrowedRuleAttemptCursor::Final(run) => {
                &&& run.program == program
                &&& run.core.parts == parts
                &&& pass == RuntimeRulePass::Final(run.core.runtime_rules)
            },
        },
{
}

/// After a miss the pass stands at the next rule, in the shape that its successors give it.
pub proof fn law_missed_pass_moves_on<'program>(
    pass: ContinuingRuntimeRulePass<'program>,
    next: RuntimeRulePass<'program>,
)
    requires
        pass.wf(),
        call_ensures(ContinuingRuntimeRulePass::commit_miss, (pass,), next),
    ensures
        ({
            let last = pass.rules.position + 2 == pass.rules.program.rules@.len();
            let rules = match next {
                RuntimeRulePass::Continuing(next) => next.rules,
                RuntimeRulePass::Final(next) => next.rules,
            };
            &&& rules.position == pass.rules.position + 1
            &&& rules.program == pass.rules.program
            &&& rules.consumed == pass.rules.consumed
            &&& next is Final <==> last
        }),
{
}

/// After a rewrite the pass stands at the first rule with the same slots, from either shape.
pub proof fn law_rewritten_pass_starts_over<'program>(
    continuing: ContinuingRuntimeRulePass<'program>,
    finishing: FinalRuntimeRulePass<'program>,
    rules: RuntimeRules<'program>,
    next: RuntimeRulePass<'program>,
)
    requires
        ({
            ||| {
                &&& continuing.wf()
                &&& continuing.rules == rules
                &&& call_ensures(
                    ContinuingRuntimeRulePass::reset_after_rewrite,
                    (continuing,),
                    next,
                )
            }
            ||| {
                &&& finishing.wf()
                &&& finishing.rules == rules
                &&& call_ensures(FinalRuntimeRulePass::reset_after_rewrite, (finishing,), next)
            }
        }),
    ensures
        ({
            let reset = match next {
                RuntimeRulePass::Continuing(next) => next.rules,
                RuntimeRulePass::Final(next) => next.rules,
            };
            &&& reset.position == 0
            &&& reset.program == rules.program
            &&& reset.consumed == rules.consumed
            &&& next is Final <==> rules.program.rules@.len() == 1
        }),
{
}

/// A committed continuing miss becomes the transition of its own variant, with its own count and
/// rule.
pub proof fn law_continuing_miss_projection_is_exact<
    'program,
    E: ExecutionPolicy,
    A: RuleAttemptPolicy,
>(
    committed: CommittedRuleAttemptMiss<'program>,
    cursor: BorrowedRuleAttemptCursor<'program, E, A>,
    transition: BorrowedContinuingRuleAttemptTransition<'program, E, A>,
)
    requires
        call_ensures(
            CommittedRuleAttemptMiss::into_continuing_transition::<E, A>,
            (committed, cursor),
            transition,
        ),
    ensures
        match transition {
            BorrowedContinuingRuleAttemptTransition::AlwaysRewriteStateMismatch(missed) => {
                &&& committed.miss == EvaluatedRuleMiss::AlwaysRewriteStateMismatch(missed.rule)
                &&& missed.attempt == committed.attempt
                &&& missed.cursor == cursor
            },
            BorrowedContinuingRuleAttemptTransition::OnceRewriteStateMismatch(missed) => {
                &&& committed.miss == EvaluatedRuleMiss::OnceRewriteStateMismatch(missed.rule)
                &&& missed.attempt == committed.attempt
                &&& missed.cursor == cursor
            },
            BorrowedContinuingRuleAttemptTransition::AlwaysReturnStateMismatch(missed) => {
                &&& committed.miss == EvaluatedRuleMiss::AlwaysReturnStateMismatch(missed.rule)
                &&& missed.attempt == committed.attempt
                &&& missed.cursor == cursor
            },
            BorrowedContinuingRuleAttemptTransition::OnceReturnStateMismatch(missed) => {
                &&& committed.miss == EvaluatedRuleMiss::OnceReturnStateMismatch(missed.rule)
                &&& missed.attempt == committed.attempt
                &&& missed.cursor == cursor
            },
            BorrowedContinuingRuleAttemptTransition::OnceRewriteConsumed(missed) => {
                &&& committed.miss == EvaluatedRuleMiss::OnceRewriteConsumed(missed.rule)
                &&& missed.attempt == committed.attempt
                &&& missed.cursor == cursor
            },
            _ => false,
        },
{
}

/// A committed continuing application becomes the transition of its own variant, with its own
/// counts, rule and output.
pub proof fn law_continuing_application_projection_is_exact<
    'program,
    E: ExecutionPolicy,
    A: RuleAttemptPolicy,
>(
    committed: CommittedRuleAttemptApplication<'program>,
    program: &'program ExecutableProgram,
    parts: AttemptRunCoreParts<E, A>,
    pass: ContinuingRuntimeRulePass<'program>,
    transition: BorrowedContinuingRuleAttemptTransition<'program, E, A>,
)
    requires
        pass.wf(),
        call_ensures(
            CommittedRuleAttemptApplication::into_continuing_transition::<E, A>,
            (committed, program, parts, pass),
            transition,
        ),
    ensures
        match transition {
            BorrowedContinuingRuleAttemptTransition::AlwaysRewritten(applied) => {
                &&& committed.applied matches AppliedRule::AlwaysRewritten(rewrite)
                &&& applied.attempt == committed.attempt
                &&& applied.step == rewrite.step
                &&& applied.rule == rewrite.rule
                &&& match applied.cursor {
                    BorrowedRuleAttemptCursor::Continuing(run) => {
                        &&& run.program == program
                        &&& run.core.parts == parts
                        &&& run.core.runtime_rules.rules.position == 0
                        &&& run.core.runtime_rules.rules.program == pass.rules.program
                        &&& run.core.runtime_rules.rules.consumed == pass.rules.consumed
                    },
                    BorrowedRuleAttemptCursor::Final(run) => {
                        &&& run.program == program
                        &&& run.core.parts == parts
                        &&& run.core.runtime_rules.rules.position == 0
                        &&& run.core.runtime_rules.rules.program == pass.rules.program
                        &&& run.core.runtime_rules.rules.consumed == pass.rules.consumed
                    },
                }
            },
            BorrowedContinuingRuleAttemptTransition::OnceRewritten(applied) => {
                &&& committed.applied matches AppliedRule::OnceRewritten(rewrite)
                &&& applied.attempt == committed.attempt
                &&& applied.step == rewrite.step
                &&& applied.rule == rewrite.rule
                &&& match applied.cursor {
                    BorrowedRuleAttemptCursor::Continuing(run) => {
                        &&& run.program == program
                        &&& run.core.parts == parts
                        &&& run.core.runtime_rules.rules.position == 0
                        &&& run.core.runtime_rules.rules.program == pass.rules.program
                        &&& run.core.runtime_rules.rules.consumed == pass.rules.consumed
                    },
                    BorrowedRuleAttemptCursor::Final(run) => {
                        &&& run.program == program
                        &&& run.core.parts == parts
                        &&& run.core.runtime_rules.rules.position == 0
                        &&& run.core.runtime_rules.rules.program == pass.rules.program
                        &&& run.core.runtime_rules.rules.consumed == pass.rules.consumed
                    },
                }
            },
            BorrowedContinuingRuleAttemptTransition::AlwaysReturned(returned) => {
                &&& committed.applied matches AppliedRule::AlwaysReturned(output)
                &&& returned.attempt == committed.attempt
                &&& returned.step == output.step
                &&& returned.rule == output.rule
                &&& returned.program == program
                &&& returned.output.bytes@ == output.output.bytes@
            },
            BorrowedContinuingRuleAttemptTransition::OnceReturned(returned) => {
                &&& committed.applied matches AppliedRule::OnceReturned(output)
                &&& returned.attempt == committed.attempt
                &&& returned.step == output.step
                &&& returned.rule == output.rule
                &&& returned.program == program
                &&& returned.output.bytes@ == output.output.bytes@
            },
            _ => false,
        },
{
}

/// A projected continuing failure keeps the error and the parts as they are.
pub proof fn law_continuing_failure_projection_is_exact<
    'program,
    E: ExecutionPolicy,
    A: RuleAttemptPolicy,
>(
    program: &'program ExecutableProgram,
    parts: AttemptRunCoreParts<E, A>,
    error: RuleAttemptStepError,
    transition: BorrowedContinuingRuleAttemptTransition<'program, E, A>,
)
    requires
        call_ensures(
            failed_continuing_rule_attempt::<E, A>,
            (program, parts, error),
            transition,
        ),
    ensures
        transition matches BorrowedContinuingRuleAttemptTransition::Failed(failed) && {
            &&& failed.error == error
            &&& failed.program == program
            &&& failed.core.state.bytes@ == parts.state.bytes@
            &&& failed.core.steps == parts.budget.steps
            &&& failed.core.attempts == parts.attempt_budget.attempts
        },
{
}

/// A committed final miss becomes the transition of its own variant, with its own count and
/// rule.
pub proof fn law_final_miss_projection_is_exact<
    'program,
    E: ExecutionPolicy,
    A: RuleAttemptPolicy,
>(
    committed: CommittedRuleAttemptMiss<'program>,
    program: &'program ExecutableProgram,
    core: TerminalRunCore,
    transition: BorrowedFinalRuleAttemptTransition<'program, E, A>,
)
    requires
        call_ensures(
            CommittedRuleAttemptMiss::into_final_transition::<E, A>,
            (committed, program, core),
            transition,
        ),
    ensures
        match transition {
            BorrowedFinalRuleAttemptTransition::StableAfterAlwaysRewriteStateMismatch(missed) => {
                &&& committed.miss == EvaluatedRuleMiss::AlwaysRewriteStateMismatch(missed.rule)
                &&& missed.attempts == committed.attempt
                &&& missed.program == program
                &&& missed.core == core
            },
            BorrowedFinalRuleAttemptTransition::StableAfterOnceRewriteStateMismatch(missed) => {
                &&& committed.miss == EvaluatedRuleMiss::OnceRewriteStateMismatch(missed.rule)
                &&& missed.attempts == committed.attempt
                &&& missed.program == program
                &&& missed.core == core
            },
            BorrowedFinalRuleAttemptTransition::StableAfterAlwaysReturnStateMismatch(missed) => {
                &&& committed.miss == EvaluatedRuleMiss::AlwaysReturnStateMismatch(missed.rule)
                &&& missed.attempts == committed.attempt
                &&& missed.program == program
                &&& missed.core == core
            },
            BorrowedFinalRuleAttemptTransition::StableAfterOnceReturnStateMismatch(missed) => {
                &&& committed.miss == EvaluatedRuleMiss::OnceReturnStateMismatch(missed.rule)
                &&& missed.attempts == committed.attempt
                &&& missed.program == program
                &&& missed.core == core
            },
            BorrowedFinalRuleAttemptTransition::StableAfterOnceRewriteConsumed(missed) => {
                &&& committed.miss == EvaluatedRuleMiss::OnceRewriteConsumed(missed.rule)
                &&& missed.attempts == committed.attempt
                &&& missed.program == program
                &&& missed.core == core
            },
            _ => false,
        },
{
}

/// A committed final application becomes the transition of its own variant, with its own
/// counts, rule and output.
pub proof fn law_final_application_projection_is_exact<
    'program,
    E: ExecutionPolicy,
    A: RuleAttemptPolicy,
>(
    committed: CommittedRuleAttemptApplication<'program>,
    program: &'program ExecutableProgram,
    parts: AttemptRunCoreParts<E, A>,
    pass: FinalRuntimeRulePass<'program>,
    transition: BorrowedFinalRuleAttemptTransition<'program, E, A>,
)
    requires
        pass.wf(),
        call_ensures(
            CommittedRuleAttemptApplication::into_final_transition::<E, A>,
            (committed, program, parts, pass),
            transition,
        ),
    ensures
        match transition {
            BorrowedFinalRuleAttemptTransition::AlwaysRewritten(applied) => {
                &&& committed.applied matches AppliedRule::AlwaysRewritten(rewrite)
                &&& applied.attempt == committed.attempt
                &&& applied.step == rewrite.step
                &&& applied.rule == rewrite.rule
                &&& match applied.cursor {
                    BorrowedRuleAttemptCursor::Continuing(run) => {
                        &&& run.program == program
                        &&& run.core.parts == parts
                        &&& run.core.runtime_rules.rules.position == 0
                        &&& run.core.runtime_rules.rules.program == pass.rules.program
                        &&& run.core.runtime_rules.rules.consumed == pass.rules.consumed
                    },
                    BorrowedRuleAttemptCursor::Final(run) => {
                        &&& run.program == program
                        &&& run.core.parts == parts
                        &&& run.core.runtime_rules.rules.position == 0
                        &&& run.core.runtime_rules.rules.program == pass.rules.program
                        &&& run.core.runtime_rules.rules.consumed == pass.rules.consumed
                    },
                }
            },
            BorrowedFinalRuleAttemptTransition::OnceRewritten(applied) => {
                &&& committed.applied matches AppliedRule::OnceRewritten(rewrite)
                &&& applied.attempt == committed.attempt
                &&& applied.step == rewrite.step
                &&& applied.rule == rewrite.rule
                &&& match applied.cursor {
                    BorrowedRuleAttemptCursor::Continuing(run) => {
                        &&& run.program == program
                        &&& run.core.parts == parts
                        &&& run.core.runtime_rules.rules.position == 0
                        &&& run.core.runtime_rules.rules.program == pass.rules.program
                        &&& run.core.runtime_rules.rules.consumed == pass.rules.consumed
                    },
                    BorrowedRuleAttemptCursor::Final(run) => {
                        &&& run.program == program
                        &&& run.core.parts == parts
                        &&& run.core.runtime_rules.rules.position == 0
                        &&& run.core.runtime_rules.rules.program == pass.rules.program
                        &&& run.core.runtime_rules.rules.consumed == pass.rules.consumed
                    },
                }
            },
            BorrowedFinalRuleAttemptTransition::AlwaysReturned(returned) => {
                &&& committed.applied matches AppliedRule::AlwaysReturned(output)
                &&& returned.attempt == committed.attempt
                &&& returned.step == output.step
                &&& returned.rule == output.rule
                &&& returned.program == program
                &&& returned.output.bytes@ == output.output.bytes@
            },
            BorrowedFinalRuleAttemptTransition::OnceReturned(returned) => {
                &&& committed.applied matches AppliedRule::OnceReturned(output)
                &&& returned.attempt == committed.attempt
                &&& returned.step == output.step
                &&& returned.rule == output.rule
                &&& returned.program == program
                &&& returned.output.bytes@ == output.output.bytes@
            },
            _ => false,
        },
{
}

/// A projected final failure keeps the error and the parts as they are.
pub proof fn law_final_failure_projection_is_exact<
    'program,
    E: ExecutionPolicy,
    A: RuleAttemptPolicy,
>(
    program: &'program ExecutableProgram,
    parts: AttemptRunCoreParts<E, A>,
    error: RuleAttemptStepError,
    transition: BorrowedFinalRuleAttemptTransition<'program, E, A>,
)
    requires
        call_ensures(
            failed_final_rule_attempt::<E, A>,
            (program, parts, error),
            transition,
        ),
    ensures
        transition matches BorrowedFinalRuleAttemptTransition::Failed(failed) && {
            &&& failed.error == error
            &&& failed.program == program
            &&& failed.core.state.bytes@ == parts.state.bytes@
            &&& failed.core.steps == parts.budget.steps
            &&& failed.core.attempts == parts.attempt_budget.attempts
        },
{
}

} // verus!
