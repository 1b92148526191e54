//! What an attempt leads to, said of the calls themselves on bytes, counts and rules.
use vstd::prelude::*;

use crate::bytes::RuntimeStateByteCount;
use crate::error::{RuleAttemptStepError, StepError};
use crate::execution::advance::{
    advance_continuing_borrowed_rule_attempt, advance_continuing_rule_attempt,
    advance_final_borrowed_rule_attempt, advance_final_rule_attempt,
};
use crate::execution::engine::{
    AttemptRunCoreParts, ContinuingRuleAttemptCore, ContinuingRuleAttemptRun, FinalRuleAttemptCore,
    FinalRuleAttemptRun,
};
use crate::execution::laws::law_leftmost_is_first;
use crate::execution::session::BorrowedRuleAttemptCursor;
use crate::execution::transition::{
    BorrowedContinuingRuleAttemptTransition, BorrowedFinalRuleAttemptTransition,
};
use crate::policy::{ExecutionPolicy, RuleAttemptPolicy};
use crate::program::{ExecutableProgram, ExecutableRule};
use crate::runtime::matcher::{leftmost, occurs, occurs_at};
use crate::runtime::once::{ContinuingRuntimeRulePass, FinalRuntimeRulePass};
use crate::runtime::rewrite::spliced;

verus! {

/// The run in `cursor` holds these values, in the shape that its place in the program gives it.
pub open spec fn cursor_holds<E: ExecutionPolicy, A: RuleAttemptPolicy>(
    cursor: BorrowedRuleAttemptCursor<'_, E, A>,
    program: &ExecutableProgram,
    rules: Seq<ExecutableRule>,
    position: int,
    consumed: Seq<bool>,
    state: Seq<u8>,
    steps: int,
    attempts: int,
    policy: E,
    attempt_policy: A,
) -> bool {
    match cursor {
        BorrowedRuleAttemptCursor::Continuing(run) => {
            &&& run.program == program
            &&& run.core.runtime_rules.rules.program.rules@ == rules
            &&& run.core.runtime_rules.rules.position == position
            &&& run.core.runtime_rules.rules.consumed@ == consumed
            &&& run.core.parts.state.bytes@ == state
            &&& run.core.parts.budget.steps.value == steps
            &&& run.core.parts.attempt_budget.attempts.value == attempts
            &&& run.core.parts.budget.policy == policy
            &&& run.core.parts.attempt_budget.policy == attempt_policy
            &&& position + 1 < rules.len()
        },
        BorrowedRuleAttemptCursor::Final(run) => {
            &&& run.program == program
            &&& run.core.runtime_rules.rules.program.rules@ == rules
            &&& run.core.runtime_rules.rules.position == position
            &&& run.core.runtime_rules.rules.consumed@ == consumed
            &&& run.core.parts.state.bytes@ == state
            &&& run.core.parts.budget.steps.value == steps
            &&& run.core.parts.attempt_budget.attempts.value == attempts
            &&& run.core.parts.budget.policy == policy
            &&& run.core.parts.attempt_budget.policy == attempt_policy
            &&& position + 1 == rules.len()
        },
    }
}

/// What stands at `start` splits the state there.
proof fn lemma_occurrence_splits(state: Seq<u8>, pattern: Seq<u8>, start: int)
    requires
        occurs_at(state, pattern, start),
    ensures
        state == state.subrange(0, start) + pattern + state.subrange(
            start + pattern.len(),
            state.len() as int,
        ),
{
    let split = state.subrange(0, start) + pattern + state.subrange(
        start + pattern.len(),
        state.len() as int,
    );
    assert forall|i: int| 0 <= i < state.len() implies state[i] == split[i] by {
        if start <= i < start + pattern.len() {
            assert(state.subrange(start, start + pattern.len())[i - start] == pattern[i - start]);
        }
    }
    assert(state =~= split);
}

/// A pattern occurs exactly where the state can be split around it.
proof fn lemma_occurs_by_splitting(state: Seq<u8>, pattern: Seq<u8>)
    ensures
        forall|left: Seq<u8>, right: Seq<u8>|
            state == #[trigger] (left + pattern + right) ==> occurs_at(
                state,
                pattern,
                left.len() as int,
            ),
        occurs(state, pattern) <==> exists|left: Seq<u8>, right: Seq<u8>|
            state == #[trigger] (left + pattern + right),
{
    assert forall|left: Seq<u8>, right: Seq<u8>|
        state == #[trigger] (left + pattern + right) implies occurs_at(
        state,
        pattern,
        left.len() as int,
    ) by {
        let start = left.len() as int;
        assert(state.subrange(start, start + pattern.len()) =~= pattern);
    }
    if occurs(state, pattern) {
        let start = choose|start: int| occurs_at(state, pattern, start);
        lemma_occurrence_splits(state, pattern, start);
    }
}

/// The lengths of the state and of what a rule holds are representable.
proof fn lemma_lengths_fit(state: Vec<u8>, rule: ExecutableRule)
    ensures
        state@.len() <= usize::MAX,
        match rule {
            ExecutableRule::AlwaysReturn(rule) => rule.output@.len() <= usize::MAX,
            ExecutableRule::OnceReturn(rule) => rule.output@.len() <= usize::MAX,
            _ => true,
        },
{
    assert(state@.len() == state.len());
    match rule {
        ExecutableRule::AlwaysReturn(rule) => assert(rule.output@.len() == rule.output.len()),
        ExecutableRule::OnceReturn(rule) => assert(rule.output@.len() == rule.output.len()),
        _ => {},
    }
}

/// Splicing at the leftmost occurrence splits the state around it, as early as possible.
proof fn lemma_leftmost_splice(state: Seq<u8>, pattern: Seq<u8>, replacement: Seq<u8>)
    requires
        occurs(state, pattern),
    ensures
        exists|left: Seq<u8>, right: Seq<u8>|
            {
                &&& state == #[trigger] (left + pattern + right)
                &&& spliced(state, leftmost(state, pattern), pattern.len(), replacement) == left
                    + replacement + right
                &&& forall|before: Seq<u8>, after: Seq<u8>|
                    state == #[trigger] (before + pattern + after) ==> left.len() <= before.len()
            },
{
    law_leftmost_is_first(state, pattern);
    let start = leftmost(state, pattern);
    lemma_occurrence_splits(state, pattern, start);
    lemma_occurs_by_splitting(state, pattern);
    let left = state.subrange(0, start);
    let right = state.subrange(start + pattern.len(), state.len() as int);
    assert forall|before: Seq<u8>, after: Seq<u8>|
        state == #[trigger] (before + pattern + after) implies left.len() <= before.len() by {
        assert(occurs_at(state, pattern, before.len() as int));
    }
    assert(state == left + pattern + right);
    assert(spliced(state, start, pattern.len(), replacement) == left + replacement + right);
}

/// Every run whose current rule has successors can attempt it.
pub proof fn law_continuing_run_can_attempt<
    'program,
    E: ExecutionPolicy,
    A: RuleAttemptPolicy,
>(
    program: &'program ExecutableProgram,
    parts: AttemptRunCoreParts<E, A>,
    pass: ContinuingRuntimeRulePass<'program>,
)
    requires
        pass.rules.position + 1 < pass.rules.program.rules@.len(),
        pass.rules.consumed@.len() == pass.rules.program.rules@.len(),
        forall|i: int|
            0 <= i < pass.rules.consumed@.len() && #[trigger] pass.rules.consumed@[i]
                ==> pass.rules.program.rules@[i] is OnceRewrite,
    ensures
        call_requires(advance_continuing_rule_attempt::<E, A>, (program, parts, pass)),
        pass.rules.program == program ==> call_requires(
            advance_continuing_borrowed_rule_attempt::<E, A>,
            (
                ContinuingRuleAttemptRun {
                    program,
                    core: ContinuingRuleAttemptCore { parts, runtime_rules: pass },
                },
            ),
        ),
{
}

/// A failed attempt at a rule with successors hands the run back as it was: the same state, the same
/// step count and the same attempt count, for whatever error.
pub proof fn law_continuing_failure_keeps_run<
    'program,
    E: ExecutionPolicy,
    A: RuleAttemptPolicy,
>(
    program: &'program ExecutableProgram,
    parts: AttemptRunCoreParts<E, A>,
    pass: ContinuingRuntimeRulePass<'program>,
    transition: BorrowedContinuingRuleAttemptTransition<'program, E, A>,
)
    requires
        call_ensures(advance_continuing_rule_attempt::<E, A>, (program, parts, pass), transition)
            || call_ensures(
            advance_continuing_borrowed_rule_attempt::<E, A>,
            (
                ContinuingRuleAttemptRun {
                    program,
                    core: ContinuingRuleAttemptCore { parts, runtime_rules: pass },
                },
            ),
            transition,
        ),
    ensures
        transition matches BorrowedContinuingRuleAttemptTransition::Failed(failed) ==> {
            &&& failed.core.state.bytes@ == parts.state.bytes@
            &&& failed.core.steps.value == parts.budget.steps.value
            &&& failed.core.attempts.value == parts.attempt_budget.attempts.value
            &&& failed.program == program
        },
{
}

/// An attempt at a rule with successors is refused for its budget exactly when the policy's limit is
/// at most the committed attempts, and for its count exactly when no further count exists.
pub proof fn law_continuing_attempt_budget_is_exact<
    'program,
    E: ExecutionPolicy,
    A: RuleAttemptPolicy,
>(
    program: &'program ExecutableProgram,
    parts: AttemptRunCoreParts<E, A>,
    pass: ContinuingRuntimeRulePass<'program>,
    transition: BorrowedContinuingRuleAttemptTransition<'program, E, A>,
)
    requires
        call_ensures(advance_continuing_rule_attempt::<E, A>, (program, parts, pass), transition)
            || call_ensures(
            advance_continuing_borrowed_rule_attempt::<E, A>,
            (
                ContinuingRuleAttemptRun {
                    program,
                    core: ContinuingRuleAttemptCore { parts, runtime_rules: pass },
                },
            ),
            transition,
        ),
    ensures
        ({
            let attempts = parts.attempt_budget.attempts.value;
            let limit = parts.attempt_budget.policy.attempt_limit_spec();
            let state_len = RuntimeStateByteCount { bytes: parts.state.bytes@.len() as usize };
            let exhausted = limit matches Some(limit) && limit.value <= attempts;
            let error = match transition {
                BorrowedContinuingRuleAttemptTransition::Failed(failed) => Some(failed.error),
                _ => None,
            };
            &&& (error matches Some(RuleAttemptStepError::AttemptLimitReached { .. }))
                <==> exhausted
            &&& exhausted ==> error == Some(
                RuleAttemptStepError::AttemptLimitReached { limit: limit->0, state_len },
            )
            &&& (error matches Some(RuleAttemptStepError::AttemptCountOverflow { .. }))
                <==> (!exhausted && attempts == u64::MAX)
            &&& !exhausted && attempts == u64::MAX ==> error == Some(
                RuleAttemptStepError::AttemptCountOverflow { state_len },
            )
        }),
{
}

/// An admitted attempt at a rule with successors fails only for a rule that applies, and only for the
/// reason that its error names.
pub proof fn law_continuing_step_failure_has_its_reason<
    'program,
    E: ExecutionPolicy,
    A: RuleAttemptPolicy,
>(
    program: &'program ExecutableProgram,
    parts: AttemptRunCoreParts<E, A>,
    pass: ContinuingRuntimeRulePass<'program>,
    transition: BorrowedContinuingRuleAttemptTransition<'program, E, A>,
    pattern: Seq<u8>,
)
    requires
        call_ensures(advance_continuing_rule_attempt::<E, A>, (program, parts, pass), transition)
            || call_ensures(
            advance_continuing_borrowed_rule_attempt::<E, A>,
            (
                ContinuingRuleAttemptRun {
                    program,
                    core: ContinuingRuleAttemptCore { parts, runtime_rules: pass },
                },
            ),
            transition,
        ),
        pass.wf(),
        pattern == match pass.rules.program.rules@[pass.rules.position as int] {
            ExecutableRule::AlwaysRewrite(rule) => rule.pattern@,
            ExecutableRule::OnceRewrite(rule) => rule.pattern@,
            ExecutableRule::AlwaysReturn(rule) => rule.pattern@,
            ExecutableRule::OnceReturn(rule) => rule.pattern@,
        },
    ensures
        ({
            let rules = pass.rules.program.rules@;
            let position = pass.rules.position as int;
            let consumed = pass.rules.consumed@;
            let state = parts.state.bytes@;
            let steps = parts.budget.steps.value;
            let attempts = parts.attempt_budget.attempts.value;
            let limits = parts.budget.policy.limits_spec();
            let state_len = RuntimeStateByteCount { bytes: state.len() as usize };
            let step_limit_reached = limits.steps matches Some(limit) && limit.value <= steps;
            let rewrites = rules[position] is AlwaysRewrite || rules[position] is OnceRewrite;
            let required = match rules[position] {
                ExecutableRule::AlwaysRewrite(rule) => state.len() - rule.pattern@.len()
                    + rule.replacement@.len(),
                ExecutableRule::OnceRewrite(rule) => state.len() - rule.pattern@.len()
                    + rule.replacement@.len(),
                ExecutableRule::AlwaysReturn(rule) => rule.output@.len() as int,
                ExecutableRule::OnceReturn(rule) => rule.output@.len() as int,
            };
            (transition matches BorrowedContinuingRuleAttemptTransition::Failed(failed) ==> (failed.error matches RuleAttemptStepError::Step(
                cause,
            ) ==> {
                &&& !consumed[position]
                &&& exists|left: Seq<u8>, right: Seq<u8>|
                    state == #[trigger] (left + pattern + right)
                &&& match cause {
                    StepError::StepLimitReached { limit, state_len: reported } => {
                        &&& limits.steps == Some(limit)
                        &&& limit.value <= steps
                        &&& reported == state_len
                    },
                    StepError::StepCountOverflow { state_len: reported } => {
                        &&& !step_limit_reached
                        &&& steps == u64::MAX
                        &&& reported == state_len
                    },
                    StepError::StateLengthOverflow { state_len: reported } => {
                        &&& !step_limit_reached && steps < u64::MAX
                        &&& rewrites
                        &&& required > usize::MAX
                        &&& reported == state_len
                    },
                    StepError::StateTooLong { limit, required: reported } => {
                        &&& !step_limit_reached && steps < u64::MAX
                        &&& rewrites
                        &&& limits.state_bytes == Some(limit)
                        &&& limit.bytes < required <= usize::MAX
                        &&& reported.bytes == required
                    },
                    StepError::ReturnOutputTooLong { limit, required: reported } => {
                        &&& !step_limit_reached && steps < u64::MAX
                        &&& !rewrites
                        &&& limits.return_bytes == Some(limit)
                        &&& limit.bytes < required
                        &&& reported.bytes == required
                    },
                    StepError::AllocationFailed { requested } => {
                        &&& !step_limit_reached && steps < u64::MAX
                        &&& 0 < required <= usize::MAX
                        &&& requested == required
                        &&& rewrites ==> (limits.state_bytes matches Some(limit)
                            ==> required <= limit.bytes)
                        &&& !rewrites ==> (limits.return_bytes matches Some(limit)
                            ==> required <= limit.bytes)
                    },
                }
            }))
        }),
{
    let state = parts.state.bytes@;
    let rule = pass.rules.program.rules@[pass.rules.position as int];
    lemma_occurs_by_splitting(state, rule.pattern());
    lemma_lengths_fit(parts.state.bytes, rule);
}

/// An admitted attempt at a rule with successors misses if the rule is consumed or its pattern is
/// nowhere in the state.
pub proof fn law_continuing_absent_rule_misses<
    'program,
    E: ExecutionPolicy,
    A: RuleAttemptPolicy,
>(
    program: &'program ExecutableProgram,
    parts: AttemptRunCoreParts<E, A>,
    pass: ContinuingRuntimeRulePass<'program>,
    transition: BorrowedContinuingRuleAttemptTransition<'program, E, A>,
    pattern: Seq<u8>,
)
    requires
        call_ensures(advance_continuing_rule_attempt::<E, A>, (program, parts, pass), transition)
            || call_ensures(
            advance_continuing_borrowed_rule_attempt::<E, A>,
            (
                ContinuingRuleAttemptRun {
                    program,
                    core: ContinuingRuleAttemptCore { parts, runtime_rules: pass },
                },
            ),
            transition,
        ),
        pass.wf(),
        parts.attempt_budget.attempts.value < u64::MAX,
        parts.attempt_budget.policy.attempt_limit_spec() matches Some(limit)
            ==> parts.attempt_budget.attempts.value < limit.value,
        pattern == match pass.rules.program.rules@[pass.rules.position as int] {
            ExecutableRule::AlwaysRewrite(rule) => rule.pattern@,
            ExecutableRule::OnceRewrite(rule) => rule.pattern@,
            ExecutableRule::AlwaysReturn(rule) => rule.pattern@,
            ExecutableRule::OnceReturn(rule) => rule.pattern@,
        },
        pass.rules.consumed@[pass.rules.position as int]
            || forall|left: Seq<u8>, right: Seq<u8>|
            parts.state.bytes@ != #[trigger] (left + pattern + right),
    ensures
        ({
            let rules = pass.rules.program.rules@;
            let position = pass.rules.position as int;
            let consumed = pass.rules.consumed@;
            let state = parts.state.bytes@;
            let steps = parts.budget.steps.value;
            let attempts = parts.attempt_budget.attempts.value;
            match rules[position] {
                ExecutableRule::AlwaysRewrite(_) => transition is AlwaysRewriteStateMismatch,
                ExecutableRule::OnceRewrite(_) => if consumed[position] {
                    transition is OnceRewriteConsumed
                } else {
                    transition is OnceRewriteStateMismatch
                },
                ExecutableRule::AlwaysReturn(_) => transition is AlwaysReturnStateMismatch,
                ExecutableRule::OnceReturn(_) => transition is OnceReturnStateMismatch,
            }
        }),
{
    let state = parts.state.bytes@;
    let rule = pass.rules.program.rules@[pass.rules.position as int];
    lemma_occurs_by_splitting(state, rule.pattern());
    lemma_lengths_fit(parts.state.bytes, rule);
}

/// An admitted attempt at a rule with successors applies an unconsumed rule whose pattern is somewhere
/// in the state, if a step is left and the result is within its limits; only the allocator can
/// still refuse the room for it.
pub proof fn law_continuing_present_rule_applies<
    'program,
    E: ExecutionPolicy,
    A: RuleAttemptPolicy,
>(
    program: &'program ExecutableProgram,
    parts: AttemptRunCoreParts<E, A>,
    pass: ContinuingRuntimeRulePass<'program>,
    transition: BorrowedContinuingRuleAttemptTransition<'program, E, A>,
    left: Seq<u8>,
    right: Seq<u8>,
)
    requires
        call_ensures(advance_continuing_rule_attempt::<E, A>, (program, parts, pass), transition)
            || call_ensures(
            advance_continuing_borrowed_rule_attempt::<E, A>,
            (
                ContinuingRuleAttemptRun {
                    program,
                    core: ContinuingRuleAttemptCore { parts, runtime_rules: pass },
                },
            ),
            transition,
        ),
        pass.wf(),
        parts.attempt_budget.attempts.value < u64::MAX,
        parts.attempt_budget.policy.attempt_limit_spec() matches Some(limit)
            ==> parts.attempt_budget.attempts.value < limit.value,
        parts.budget.steps.value < u64::MAX,
        parts.budget.policy.limits_spec().steps matches Some(limit)
            ==> parts.budget.steps.value < limit.value,
        !pass.rules.consumed@[pass.rules.position as int],
        ({
            let limits = parts.budget.policy.limits_spec();
            match pass.rules.program.rules@[pass.rules.position as int] {
                ExecutableRule::AlwaysRewrite(rule) | ExecutableRule::OnceRewrite(rule) => {
                    &&& parts.state.bytes@ == left + rule.pattern@ + right
                    &&& left.len() + rule.replacement@.len() + right.len() <= usize::MAX
                    &&& limits.state_bytes matches Some(limit) ==> left.len()
                        + rule.replacement@.len() + right.len() <= limit.bytes
                },
                ExecutableRule::AlwaysReturn(rule) | ExecutableRule::OnceReturn(rule) => {
                    &&& parts.state.bytes@ == left + rule.pattern@ + right
                    &&& limits.return_bytes matches Some(limit) ==> rule.output@.len()
                        <= limit.bytes
                },
            }
        }),
    ensures
        ({
            let (applied, size) = match pass.rules.program.rules@[pass.rules.position as int] {
                ExecutableRule::AlwaysRewrite(rule) => (
                    transition is AlwaysRewritten,
                    left.len() + rule.replacement@.len() + right.len(),
                ),
                ExecutableRule::OnceRewrite(rule) => (
                    transition is OnceRewritten,
                    left.len() + rule.replacement@.len() + right.len(),
                ),
                ExecutableRule::AlwaysReturn(rule) => (
                    transition is AlwaysReturned,
                    rule.output@.len(),
                ),
                ExecutableRule::OnceReturn(rule) => (
                    transition is OnceReturned,
                    rule.output@.len(),
                ),
            };
            applied || {
                &&& size > 0
                &&& transition matches BorrowedContinuingRuleAttemptTransition::Failed(failed)
                &&& failed.error == RuleAttemptStepError::Step(
                    StepError::AllocationFailed { requested: size as usize },
                )
            }
        }),
{
    let state = parts.state.bytes@;
    let rule = pass.rules.program.rules@[pass.rules.position as int];
    lemma_occurs_by_splitting(state, rule.pattern());
    lemma_lengths_fit(parts.state.bytes, rule);
    assert(state == left + rule.pattern() + right);
    assert(occurs_at(state, rule.pattern(), left.len() as int));
}

/// A miss at a rule with successors names the rule that was tried and was right to miss it; it
/// moves on to the next rule and changes nothing but the attempt count.
pub proof fn law_continuing_miss_is_exact<
    'program,
    E: ExecutionPolicy,
    A: RuleAttemptPolicy,
>(
    program: &'program ExecutableProgram,
    parts: AttemptRunCoreParts<E, A>,
    pass: ContinuingRuntimeRulePass<'program>,
    transition: BorrowedContinuingRuleAttemptTransition<'program, E, A>,
)
    requires
        call_ensures(advance_continuing_rule_attempt::<E, A>, (program, parts, pass), transition)
            || call_ensures(
            advance_continuing_borrowed_rule_attempt::<E, A>,
            (
                ContinuingRuleAttemptRun {
                    program,
                    core: ContinuingRuleAttemptCore { parts, runtime_rules: pass },
                },
            ),
            transition,
        ),
        pass.wf(),
    ensures
        ({
            let rules = pass.rules.program.rules@;
            let position = pass.rules.position as int;
            let consumed = pass.rules.consumed@;
            let state = parts.state.bytes@;
            let steps = parts.budget.steps.value;
            let attempts = parts.attempt_budget.attempts.value;
            match transition {
                BorrowedContinuingRuleAttemptTransition::AlwaysRewriteStateMismatch(missed) => {
                    &&& rules[position] == ExecutableRule::AlwaysRewrite(*missed.rule.rule)
                    &&& missed.rule.position == position
                    &&& !consumed[position]
                    &&& forall|left: Seq<u8>, right: Seq<u8>|
                        state != #[trigger] (left + missed.rule.rule.pattern@ + right)
                    &&& missed.attempt.value == attempts + 1
                    &&& cursor_holds(
                        missed.cursor,
                        program,
                        rules,
                        position + 1,
                        consumed,
                        state,
                        steps as int,
                        attempts + 1,
                        parts.budget.policy,
                        parts.attempt_budget.policy,
                    )
                },
                BorrowedContinuingRuleAttemptTransition::OnceRewriteStateMismatch(missed) => {
                    &&& rules[position] == ExecutableRule::OnceRewrite(*missed.rule.rule)
                    &&& missed.rule.position == position
                    &&& !consumed[position]
                    &&& forall|left: Seq<u8>, right: Seq<u8>|
                        state != #[trigger] (left + missed.rule.rule.pattern@ + right)
                    &&& missed.attempt.value == attempts + 1
                    &&& cursor_holds(
                        missed.cursor,
                        program,
                        rules,
                        position + 1,
                        consumed,
                        state,
                        steps as int,
                        attempts + 1,
                        parts.budget.policy,
                        parts.attempt_budget.policy,
                    )
                },
                BorrowedContinuingRuleAttemptTransition::AlwaysReturnStateMismatch(missed) => {
                    &&& rules[position] == ExecutableRule::AlwaysReturn(*missed.rule.rule)
                    &&& missed.rule.position == position
                    &&& !consumed[position]
                    &&& forall|left: Seq<u8>, right: Seq<u8>|
                        state != #[trigger] (left + missed.rule.rule.pattern@ + right)
                    &&& missed.attempt.value == attempts + 1
                    &&& cursor_holds(
                        missed.cursor,
                        program,
                        rules,
                        position + 1,
                        consumed,
                        state,
                        steps as int,
                        attempts + 1,
                        parts.budget.policy,
                        parts.attempt_budget.policy,
                    )
                },
                BorrowedContinuingRuleAttemptTransition::OnceReturnStateMismatch(missed) => {
                    &&& rules[position] == ExecutableRule::OnceReturn(*missed.rule.rule)
                    &&& missed.rule.position == position
                    &&& !consumed[position]
                    &&& forall|left: Seq<u8>, right: Seq<u8>|
                        state != #[trigger] (left + missed.rule.rule.pattern@ + right)
                    &&& missed.attempt.value == attempts + 1
                    &&& cursor_holds(
                        missed.cursor,
                        program,
                        rules,
                        position + 1,
                        consumed,
                        state,
                        steps as int,
                        attempts + 1,
                        parts.budget.policy,
                        parts.attempt_budget.policy,
                    )
                },
                BorrowedContinuingRuleAttemptTransition::OnceRewriteConsumed(missed) => {
                    &&& rules[position] == ExecutableRule::OnceRewrite(*missed.rule.rule)
                    &&& missed.rule.position == position
                    &&& consumed[position]
                    &&& missed.attempt.value == attempts + 1
                    &&& cursor_holds(
                        missed.cursor,
                        program,
                        rules,
                        position + 1,
                        consumed,
                        state,
                        steps as int,
                        attempts + 1,
                        parts.budget.policy,
                        parts.attempt_budget.policy,
                    )
                },
                _ => true,
            }
        }),
{
    let state = parts.state.bytes@;
    let rule = pass.rules.program.rules@[pass.rules.position as int];
    lemma_occurs_by_splitting(state, rule.pattern());
    lemma_lengths_fit(parts.state.bytes, rule);
}

/// A rewrite at a rule with successors replaces the earliest occurrence of the rule's pattern by its
/// replacement, keeps the bytes before and after it, counts one attempt and one step, starts
/// over at the first rule, and consumes the rule exactly if it is a once rule.
pub proof fn law_continuing_rewrite_is_exact<
    'program,
    E: ExecutionPolicy,
    A: RuleAttemptPolicy,
>(
    program: &'program ExecutableProgram,
    parts: AttemptRunCoreParts<E, A>,
    pass: ContinuingRuntimeRulePass<'program>,
    transition: BorrowedContinuingRuleAttemptTransition<'program, E, A>,
)
    requires
        call_ensures(advance_continuing_rule_attempt::<E, A>, (program, parts, pass), transition)
            || call_ensures(
            advance_continuing_borrowed_rule_attempt::<E, A>,
            (
                ContinuingRuleAttemptRun {
                    program,
                    core: ContinuingRuleAttemptCore { parts, runtime_rules: pass },
                },
            ),
            transition,
        ),
        pass.wf(),
    ensures
        ({
            let rules = pass.rules.program.rules@;
            let position = pass.rules.position as int;
            let consumed = pass.rules.consumed@;
            let state = parts.state.bytes@;
            let steps = parts.budget.steps.value;
            let attempts = parts.attempt_budget.attempts.value;
            match transition {
                BorrowedContinuingRuleAttemptTransition::AlwaysRewritten(applied) => {
                    &&& rules[position] == ExecutableRule::AlwaysRewrite(*applied.rule.rule)
                    &&& applied.rule.position == position
                    &&& !consumed[position]
                    &&& applied.attempt.value == attempts + 1
                    &&& applied.step.value == steps + 1
                    &&& exists|left: Seq<u8>, right: Seq<u8>|
                        {
                            &&& state == #[trigger] (left + applied.rule.rule.pattern@ + right)
                            &&& forall|before: Seq<u8>, after: Seq<u8>|
                                state == #[trigger] (before + applied.rule.rule.pattern@ + after)
                                    ==> left.len() <= before.len()
                            &&& cursor_holds(
                                applied.cursor,
                                program,
                                rules,
                                0,
                                consumed,
                                left + applied.rule.rule.replacement@ + right,
                                steps + 1,
                                attempts + 1,
                                parts.budget.policy,
                                parts.attempt_budget.policy,
                            )
                        }
                },
                BorrowedContinuingRuleAttemptTransition::OnceRewritten(applied) => {
                    &&& rules[position] == ExecutableRule::OnceRewrite(*applied.rule.rule)
                    &&& applied.rule.position == position
                    &&& !consumed[position]
                    &&& applied.attempt.value == attempts + 1
                    &&& applied.step.value == steps + 1
                    &&& exists|left: Seq<u8>, right: Seq<u8>|
                        {
                            &&& state == #[trigger] (left + applied.rule.rule.pattern@ + right)
                            &&& forall|before: Seq<u8>, after: Seq<u8>|
                                state == #[trigger] (before + applied.rule.rule.pattern@ + after)
                                    ==> left.len() <= before.len()
                            &&& cursor_holds(
                                applied.cursor,
                                program,
                                rules,
                                0,
                                consumed.update(position, true),
                                left + applied.rule.rule.replacement@ + right,
                                steps + 1,
                                attempts + 1,
                                parts.budget.policy,
                                parts.attempt_budget.policy,
                            )
                        }
                },
                _ => true,
            }
        }),
{
    let state = parts.state.bytes@;
    let rule = pass.rules.program.rules@[pass.rules.position as int];
    lemma_occurs_by_splitting(state, rule.pattern());
    lemma_lengths_fit(parts.state.bytes, rule);
    if transition is AlwaysRewritten || transition is OnceRewritten {
        let replacement = match rule {
            ExecutableRule::AlwaysRewrite(rewrite) => rewrite.replacement@,
            _ => rule->OnceRewrite_0.replacement@,
        };
        lemma_leftmost_splice(state, rule.pattern(), replacement);
    }
}

/// A return at a rule with successors hands out the whole output of the rule at the run's place, and
/// only where the rule's pattern is in the state.
pub proof fn law_continuing_return_is_exact<
    'program,
    E: ExecutionPolicy,
    A: RuleAttemptPolicy,
>(
    program: &'program ExecutableProgram,
    parts: AttemptRunCoreParts<E, A>,
    pass: ContinuingRuntimeRulePass<'program>,
    transition: BorrowedContinuingRuleAttemptTransition<'program, E, A>,
)
    requires
        call_ensures(advance_continuing_rule_attempt::<E, A>, (program, parts, pass), transition)
            || call_ensures(
            advance_continuing_borrowed_rule_attempt::<E, A>,
            (
                ContinuingRuleAttemptRun {
                    program,
                    core: ContinuingRuleAttemptCore { parts, runtime_rules: pass },
                },
            ),
            transition,
        ),
        pass.wf(),
    ensures
        ({
            let rules = pass.rules.program.rules@;
            let position = pass.rules.position as int;
            let consumed = pass.rules.consumed@;
            let state = parts.state.bytes@;
            let steps = parts.budget.steps.value;
            let attempts = parts.attempt_budget.attempts.value;
            match transition {
                BorrowedContinuingRuleAttemptTransition::AlwaysReturned(returned) => {
                    &&& rules[position] == ExecutableRule::AlwaysReturn(*returned.rule.rule)
                    &&& returned.rule.position == position
                    &&& exists|left: Seq<u8>, right: Seq<u8>|
                        state == #[trigger] (left + returned.rule.rule.pattern@ + right)
                    &&& returned.attempt.value == attempts + 1
                    &&& returned.step.value == steps + 1
                    &&& returned.program == program
                    &&& returned.output.bytes@ == returned.rule.rule.output@
                },
                BorrowedContinuingRuleAttemptTransition::OnceReturned(returned) => {
                    &&& rules[position] == ExecutableRule::OnceReturn(*returned.rule.rule)
                    &&& returned.rule.position == position
                    &&& exists|left: Seq<u8>, right: Seq<u8>|
                        state == #[trigger] (left + returned.rule.rule.pattern@ + right)
                    &&& returned.attempt.value == attempts + 1
                    &&& returned.step.value == steps + 1
                    &&& returned.program == program
                    &&& returned.output.bytes@ == returned.rule.rule.output@
                },
                _ => true,
            }
        }),
{
    let state = parts.state.bytes@;
    let rule = pass.rules.program.rules@[pass.rules.position as int];
    lemma_occurs_by_splitting(state, rule.pattern());
    lemma_lengths_fit(parts.state.bytes, rule);
}

/// A rule that is applied at a rule with successors was admitted by the attempt limit, had a step left, and
/// made a state or an output within its limit.
pub proof fn law_continuing_application_is_within_limits<
    'program,
    E: ExecutionPolicy,
    A: RuleAttemptPolicy,
>(
    program: &'program ExecutableProgram,
    parts: AttemptRunCoreParts<E, A>,
    pass: ContinuingRuntimeRulePass<'program>,
    transition: BorrowedContinuingRuleAttemptTransition<'program, E, A>,
)
    requires
        call_ensures(advance_continuing_rule_attempt::<E, A>, (program, parts, pass), transition)
            || call_ensures(
            advance_continuing_borrowed_rule_attempt::<E, A>,
            (
                ContinuingRuleAttemptRun {
                    program,
                    core: ContinuingRuleAttemptCore { parts, runtime_rules: pass },
                },
            ),
            transition,
        ),
        pass.wf(),
    ensures
        ({
            let state = parts.state.bytes@;
            let steps = parts.budget.steps.value;
            let attempts = parts.attempt_budget.attempts.value;
            let limits = parts.budget.policy.limits_spec();
            transition is AlwaysRewritten || transition is OnceRewritten
                || transition is AlwaysReturned || transition is OnceReturned ==> {
                &&& attempts < u64::MAX
                &&& parts.attempt_budget.policy.attempt_limit_spec() matches Some(limit)
                    ==> attempts < limit.value
                &&& steps < u64::MAX
                &&& limits.steps matches Some(limit) ==> steps < limit.value
                &&& match pass.rules.program.rules@[pass.rules.position as int] {
                    ExecutableRule::AlwaysRewrite(rule) | ExecutableRule::OnceRewrite(rule) => {
                        limits.state_bytes matches Some(limit) ==> state.len()
                            - rule.pattern@.len() + rule.replacement@.len() <= limit.bytes
                    },
                    ExecutableRule::AlwaysReturn(rule) | ExecutableRule::OnceReturn(rule) => {
                        limits.return_bytes matches Some(limit) ==> rule.output@.len()
                            <= limit.bytes
                    },
                }
            }
        }),
{
    let state = parts.state.bytes@;
    let rule = pass.rules.program.rules@[pass.rules.position as int];
    lemma_occurs_by_splitting(state, rule.pattern());
    lemma_lengths_fit(parts.state.bytes, rule);
}

/// Every run whose current rule is the last one can attempt it.
pub proof fn law_final_run_can_attempt<
    'program,
    E: ExecutionPolicy,
    A: RuleAttemptPolicy,
>(
    program: &'program ExecutableProgram,
    parts: AttemptRunCoreParts<E, A>,
    pass: FinalRuntimeRulePass<'program>,
)
    requires
        pass.rules.position + 1 == pass.rules.program.rules@.len(),
        pass.rules.consumed@.len() == pass.rules.program.rules@.len(),
        forall|i: int|
            0 <= i < pass.rules.consumed@.len() && #[trigger] pass.rules.consumed@[i]
                ==> pass.rules.program.rules@[i] is OnceRewrite,
    ensures
        call_requires(advance_final_rule_attempt::<E, A>, (program, parts, pass)),
        pass.rules.program == program ==> call_requires(
            advance_final_borrowed_rule_attempt::<E, A>,
            (
                FinalRuleAttemptRun {
                    program,
                    core: FinalRuleAttemptCore { parts, runtime_rules: pass },
                },
            ),
        ),
{
}

/// A failed attempt at the last rule hands the run back as it was: the same state, the same
/// step count and the same attempt count, for whatever error.
pub proof fn law_final_failure_keeps_run<
    'program,
    E: ExecutionPolicy,
    A: RuleAttemptPolicy,
>(
    program: &'program ExecutableProgram,
    parts: AttemptRunCoreParts<E, A>,
    pass: FinalRuntimeRulePass<'program>,
    transition: BorrowedFinalRuleAttemptTransition<'program, E, A>,
)
    requires
        call_ensures(advance_final_rule_attempt::<E, A>, (program, parts, pass), transition)
            || call_ensures(
            advance_final_borrowed_rule_attempt::<E, A>,
            (
                FinalRuleAttemptRun {
                    program,
                    core: FinalRuleAttemptCore { parts, runtime_rules: pass },
                },
            ),
            transition,
        ),
    ensures
        transition matches BorrowedFinalRuleAttemptTransition::Failed(failed) ==> {
            &&& failed.core.state.bytes@ == parts.state.bytes@
            &&& failed.core.steps.value == parts.budget.steps.value
            &&& failed.core.attempts.value == parts.attempt_budget.attempts.value
            &&& failed.program == program
        },
{
}

/// An attempt at the last rule is refused for its budget exactly when the policy's limit is
/// at most the committed attempts, and for its count exactly when no further count exists.
pub proof fn law_final_attempt_budget_is_exact<
    'program,
    E: ExecutionPolicy,
    A: RuleAttemptPolicy,
>(
    program: &'program ExecutableProgram,
    parts: AttemptRunCoreParts<E, A>,
    pass: FinalRuntimeRulePass<'program>,
    transition: BorrowedFinalRuleAttemptTransition<'program, E, A>,
)
    requires
        call_ensures(advance_final_rule_attempt::<E, A>, (program, parts, pass), transition)
            || call_ensures(
            advance_final_borrowed_rule_attempt::<E, A>,
            (
                FinalRuleAttemptRun {
                    program,
                    core: FinalRuleAttemptCore { parts, runtime_rules: pass },
                },
            ),
            transition,
        ),
    ensures
        ({
            let attempts = parts.attempt_budget.attempts.value;
            let limit = parts.attempt_budget.policy.attempt_limit_spec();
            let state_len = RuntimeStateByteCount { bytes: parts.state.bytes@.len() as usize };
            let exhausted = limit matches Some(limit) && limit.value <= attempts;
            let error = match transition {
                BorrowedFinalRuleAttemptTransition::Failed(failed) => Some(failed.error),
                _ => None,
            };
            &&& (error matches Some(RuleAttemptStepError::AttemptLimitReached { .. }))
                <==> exhausted
            &&& exhausted ==> error == Some(
                RuleAttemptStepError::AttemptLimitReached { limit: limit->0, state_len },
            )
            &&& (error matches Some(RuleAttemptStepError::AttemptCountOverflow { .. }))
                <==> (!exhausted && attempts == u64::MAX)
            &&& !exhausted && attempts == u64::MAX ==> error == Some(
                RuleAttemptStepError::AttemptCountOverflow { state_len },
            )
        }),
{
}

/// An admitted attempt at the last rule fails only for a rule that applies, and only for the
/// reason that its error names.
pub proof fn law_final_step_failure_has_its_reason<
    'program,
    E: ExecutionPolicy,
    A: RuleAttemptPolicy,
>(
    program: &'program ExecutableProgram,
    parts: AttemptRunCoreParts<E, A>,
    pass: FinalRuntimeRulePass<'program>,
    transition: BorrowedFinalRuleAttemptTransition<'program, E, A>,
    pattern: Seq<u8>,
)
    requires
        call_ensures(advance_final_rule_attempt::<E, A>, (program, parts, pass), transition)
            || call_ensures(
            advance_final_borrowed_rule_attempt::<E, A>,
            (
                FinalRuleAttemptRun {
                    program,
                    core: FinalRuleAttemptCore { parts, runtime_rules: pass },
                },
            ),
            transition,
        ),
        pass.wf(),
        pattern == match pass.rules.program.rules@[pass.rules.position as int] {
            ExecutableRule::AlwaysRewrite(rule) => rule.pattern@,
            ExecutableRule::OnceRewrite(rule) => rule.pattern@,
            ExecutableRule::AlwaysReturn(rule) => rule.pattern@,
            ExecutableRule::OnceReturn(rule) => rule.pattern@,
        },
    ensures
        ({
            let rules = pass.rules.program.rules@;
            let position = pass.rules.position as int;
            let consumed = pass.rules.consumed@;
            let state = parts.state.bytes@;
            let steps = parts.budget.steps.value;
            let attempts = parts.attempt_budget.attempts.value;
            let limits = parts.budget.policy.limits_spec();
            let state_len = RuntimeStateByteCount { bytes: state.len() as usize };
            let step_limit_reached = limits.steps matches Some(limit) && limit.value <= steps;
            let rewrites = rules[position] is AlwaysRewrite || rules[position] is OnceRewrite;
            let required = match rules[position] {
                ExecutableRule::AlwaysRewrite(rule) => state.len() - rule.pattern@.len()
                    + rule.replacement@.len(),
                ExecutableRule::OnceRewrite(rule) => state.len() - rule.pattern@.len()
                    + rule.replacement@.len(),
                ExecutableRule::AlwaysReturn(rule) => rule.output@.len() as int,
                ExecutableRule::OnceReturn(rule) => rule.output@.len() as int,
            };
            (transition matches BorrowedFinalRuleAttemptTransition::Failed(failed) ==> (failed.error matches RuleAttemptStepError::Step(
                cause,
            ) ==> {
                &&& !consumed[position]
                &&& exists|left: Seq<u8>, right: Seq<u8>|
                    state == #[trigger] (left + pattern + right)
                &&& match cause {
                    StepError::StepLimitReached { limit, state_len: reported } => {
                        &&& limits.steps == Some(limit)
                        &&& limit.value <= steps
                        &&& reported == state_len
                    },
                    StepError::StepCountOverflow { state_len: reported } => {
                        &&& !step_limit_reached
                        &&& steps == u64::MAX
                        &&& reported == state_len
                    },
                    StepError::StateLengthOverflow { state_len: reported } => {
                        &&& !step_limit_reached && steps < u64::MAX
                        &&& rewrites
                        &&& required > usize::MAX
                        &&& reported == state_len
                    },
                    StepError::StateTooLong { limit, required: reported } => {
                        &&& !step_limit_reached && steps < u64::MAX
                        &&& rewrites
                        &&& limits.state_bytes == Some(limit)
                        &&& limit.bytes < required <= usize::MAX
                        &&& reported.bytes == required
                    },
                    StepError::ReturnOutputTooLong { limit, required: reported } => {
                        &&& !step_limit_reached && steps < u64::MAX
                        &&& !rewrites
                        &&& limits.return_bytes == Some(limit)
                        &&& limit.bytes < required
                        &&& reported.bytes == required
                    },
                    StepError::AllocationFailed { requested } => {
                        &&& !step_limit_reached && steps < u64::MAX
                        &&& 0 < required <= usize::MAX
                        &&& requested == required
                        &&& rewrites ==> (limits.state_bytes matches Some(limit)
                            ==> required <= limit.bytes)
                        &&& !rewrites ==> (limits.return_bytes matches Some(limit)
                            ==> required <= limit.bytes)
                    },
                }
            }))
        }),
{
    let state = parts.state.bytes@;
    let rule = pass.rules.program.rules@[pass.rules.position as int];
    lemma_occurs_by_splitting(state, rule.pattern());
    lemma_lengths_fit(parts.state.bytes, rule);
}

/// An admitted attempt at the last rule misses if the rule is consumed or its pattern is
/// nowhere in the state.
pub proof fn law_final_absent_rule_misses<
    'program,
    E: ExecutionPolicy,
    A: RuleAttemptPolicy,
>(
    program: &'program ExecutableProgram,
    parts: AttemptRunCoreParts<E, A>,
    pass: FinalRuntimeRulePass<'program>,
    transition: BorrowedFinalRuleAttemptTransition<'program, E, A>,
    pattern: Seq<u8>,
)
    requires
        call_ensures(advance_final_rule_attempt::<E, A>, (program, parts, pass), transition)
            || call_ensures(
            advance_final_borrowed_rule_attempt::<E, A>,
            (
                FinalRuleAttemptRun {
                    program,
                    core: FinalRuleAttemptCore { parts, runtime_rules: pass },
                },
            ),
            transition,
        ),
        pass.wf(),
        parts.attempt_budget.attempts.value < u64::MAX,
        parts.attempt_budget.policy.attempt_limit_spec() matches Some(limit)
            ==> parts.attempt_budget.attempts.value < limit.value,
        pattern == match pass.rules.program.rules@[pass.rules.position as int] {
            ExecutableRule::AlwaysRewrite(rule) => rule.pattern@,
            ExecutableRule::OnceRewrite(rule) => rule.pattern@,
            ExecutableRule::AlwaysReturn(rule) => rule.pattern@,
            ExecutableRule::OnceReturn(rule) => rule.pattern@,
        },
        pass.rules.consumed@[pass.rules.position as int]
            || forall|left: Seq<u8>, right: Seq<u8>|
            parts.state.bytes@ != #[trigger] (left + pattern + right),
    ensures
        ({
            let rules = pass.rules.program.rules@;
            let position = pass.rules.position as int;
            let consumed = pass.rules.consumed@;
            let state = parts.state.bytes@;
            let steps = parts.budget.steps.value;
            let attempts = parts.attempt_budget.attempts.value;
            match rules[position] {
                ExecutableRule::AlwaysRewrite(_) => transition is StableAfterAlwaysRewriteStateMismatch,
                ExecutableRule::OnceRewrite(_) => if consumed[position] {
                    transition is StableAfterOnceRewriteConsumed
                } else {
                    transition is StableAfterOnceRewriteStateMismatch
                },
                ExecutableRule::AlwaysReturn(_) => transition is StableAfterAlwaysReturnStateMismatch,
                ExecutableRule::OnceReturn(_) => transition is StableAfterOnceReturnStateMismatch,
            }
        }),
{
    let state = parts.state.bytes@;
    let rule = pass.rules.program.rules@[pass.rules.position as int];
    lemma_occurs_by_splitting(state, rule.pattern());
    lemma_lengths_fit(parts.state.bytes, rule);
}

/// An admitted attempt at the last rule applies an unconsumed rule whose pattern is somewhere
/// in the state, if a step is left and the result is within its limits; only the allocator can
/// still refuse the room for it.
pub proof fn law_final_present_rule_applies<
    'program,
    E: ExecutionPolicy,
    A: RuleAttemptPolicy,
>(
    program: &'program ExecutableProgram,
    parts: AttemptRunCoreParts<E, A>,
    pass: FinalRuntimeRulePass<'program>,
    transition: BorrowedFinalRuleAttemptTransition<'program, E, A>,
    left: Seq<u8>,
    right: Seq<u8>,
)
    requires
        call_ensures(advance_final_rule_attempt::<E, A>, (program, parts, pass), transition)
            || call_ensures(
            advance_final_borrowed_rule_attempt::<E, A>,
            (
                FinalRuleAttemptRun {
                    program,
                    core: FinalRuleAttemptCore { parts, runtime_rules: pass },
                },
            ),
            transition,
        ),
        pass.wf(),
        parts.attempt_budget.attempts.value < u64::MAX,
        parts.attempt_budget.policy.attempt_limit_spec() matches Some(limit)
            ==> parts.attempt_budget.attempts.value < limit.value,
        parts.budget.steps.value < u64::MAX,
        parts.budget.policy.limits_spec().steps matches Some(limit)
            ==> parts.budget.steps.value < limit.value,
        !pass.rules.consumed@[pass.rules.position as int],
        ({
            let limits = parts.budget.policy.limits_spec();
            match pass.rules.program.rules@[pass.rules.position as int] {
                ExecutableRule::AlwaysRewrite(rule) | ExecutableRule::OnceRewrite(rule) => {
                    &&& parts.state.bytes@ == left + rule.pattern@ + right
                    &&& left.len() + rule.replacement@.len() + right.len() <= usize::MAX
                    &&& limits.state_bytes matches Some(limit) ==> left.len()
                        + rule.replacement@.len() + right.len() <= limit.bytes
                },
                ExecutableRule::AlwaysReturn(rule) | ExecutableRule::OnceReturn(rule) => {
                    &&& parts.state.bytes@ == left + rule.pattern@ + right
                    &&& limits.return_bytes matches Some(limit) ==> rule.output@.len()
                        <= limit.bytes
                },
            }
        }),
    ensures
        ({
            let (applied, size) = match pass.rules.program.rules@[pass.rules.position as int] {
                ExecutableRule::AlwaysRewrite(rule) => (
                    transition is AlwaysRewritten,
                    left.len() + rule.replacement@.len() + right.len(),
                ),
                ExecutableRule::OnceRewrite(rule) => (
                    transition is OnceRewritten,
                    left.len() + rule.replacement@.len() + right.len(),
                ),
                ExecutableRule::AlwaysReturn(rule) => (
                    transition is AlwaysReturned,
                    rule.output@.len(),
                ),
                ExecutableRule::OnceReturn(rule) => (
                    transition is OnceReturned,
                    rule.output@.len(),
                ),
            };
            applied || {
                &&& size > 0
                &&& transition matches BorrowedFinalRuleAttemptTransition::Failed(failed)
                &&& failed.error == RuleAttemptStepError::Step(
                    StepError::AllocationFailed { requested: size as usize },
                )
            }
        }),
{
    let state = parts.state.bytes@;
    let rule = pass.rules.program.rules@[pass.rules.position as int];
    lemma_occurs_by_splitting(state, rule.pattern());
    lemma_lengths_fit(parts.state.bytes, rule);
    assert(state == left + rule.pattern() + right);
    assert(occurs_at(state, rule.pattern(), left.len() as int));
}

/// A miss at the last rule names the rule that was tried and was right to miss it; it
/// ends the run and changes nothing but the attempt count.
pub proof fn law_final_miss_is_exact<
    'program,
    E: ExecutionPolicy,
    A: RuleAttemptPolicy,
>(
    program: &'program ExecutableProgram,
    parts: AttemptRunCoreParts<E, A>,
    pass: FinalRuntimeRulePass<'program>,
    transition: BorrowedFinalRuleAttemptTransition<'program, E, A>,
)
    requires
        call_ensures(advance_final_rule_attempt::<E, A>, (program, parts, pass), transition)
            || call_ensures(
            advance_final_borrowed_rule_attempt::<E, A>,
            (
                FinalRuleAttemptRun {
                    program,
                    core: FinalRuleAttemptCore { parts, runtime_rules: pass },
                },
            ),
            transition,
        ),
        pass.wf(),
    ensures
        ({
            let rules = pass.rules.program.rules@;
            let position = pass.rules.position as int;
            let consumed = pass.rules.consumed@;
            let state = parts.state.bytes@;
            let steps = parts.budget.steps.value;
            let attempts = parts.attempt_budget.attempts.value;
            match transition {
                BorrowedFinalRuleAttemptTransition::StableAfterAlwaysRewriteStateMismatch(missed) => {
                    &&& rules[position] == ExecutableRule::AlwaysRewrite(*missed.rule.rule)
                    &&& missed.rule.position == position
                    &&& !consumed[position]
                    &&& forall|left: Seq<u8>, right: Seq<u8>|
                        state != #[trigger] (left + missed.rule.rule.pattern@ + right)
                    &&& missed.attempts.value == attempts + 1
                    &&& missed.core.state.bytes@ == state
                    &&& missed.core.steps.value == steps
                    &&& missed.program == program
                },
                BorrowedFinalRuleAttemptTransition::StableAfterOnceRewriteStateMismatch(missed) => {
                    &&& rules[position] == ExecutableRule::OnceRewrite(*missed.rule.rule)
                    &&& missed.rule.position == position
                    &&& !consumed[position]
                    &&& forall|left: Seq<u8>, right: Seq<u8>|
                        state != #[trigger] (left + missed.rule.rule.pattern@ + right)
                    &&& missed.attempts.value == attempts + 1
                    &&& missed.core.state.bytes@ == state
                    &&& missed.core.steps.value == steps
                    &&& missed.program == program
                },
                BorrowedFinalRuleAttemptTransition::StableAfterAlwaysReturnStateMismatch(missed) => {
                    &&& rules[position] == ExecutableRule::AlwaysReturn(*missed.rule.rule)
                    &&& missed.rule.position == position
                    &&& !consumed[position]
                    &&& forall|left: Seq<u8>, right: Seq<u8>|
                        state != #[trigger] (left + missed.rule.rule.pattern@ + right)
                    &&& missed.attempts.value == attempts + 1
                    &&& missed.core.state.bytes@ == state
                    &&& missed.core.steps.value == steps
                    &&& missed.program == program
                },
                BorrowedFinalRuleAttemptTransition::StableAfterOnceReturnStateMismatch(missed) => {
                    &&& rules[position] == ExecutableRule::OnceReturn(*missed.rule.rule)
                    &&& missed.rule.position == position
                    &&& !consumed[position]
                    &&& forall|left: Seq<u8>, right: Seq<u8>|
                        state != #[trigger] (left + missed.rule.rule.pattern@ + right)
                    &&& missed.attempts.value == attempts + 1
                    &&& missed.core.state.bytes@ == state
                    &&& missed.core.steps.value == steps
                    &&& missed.program == program
                },
                BorrowedFinalRuleAttemptTransition::StableAfterOnceRewriteConsumed(missed) => {
                    &&& rules[position] == ExecutableRule::OnceRewrite(*missed.rule.rule)
                    &&& missed.rule.position == position
                    &&& consumed[position]
                    &&& missed.attempts.value == attempts + 1
                    &&& missed.core.state.bytes@ == state
                    &&& missed.core.steps.value == steps
                    &&& missed.program == program
                },
                _ => true,
            }
        }),
{
    let state = parts.state.bytes@;
    let rule = pass.rules.program.rules@[pass.rules.position as int];
    lemma_occurs_by_splitting(state, rule.pattern());
    lemma_lengths_fit(parts.state.bytes, rule);
}

/// A rewrite at the last rule replaces the earliest occurrence of the rule's pattern by its
/// replacement, keeps the bytes before and after it, counts one attempt and one step, starts
/// over at the first rule, and consumes the rule exactly if it is a once rule.
pub proof fn law_final_rewrite_is_exact<
    'program,
    E: ExecutionPolicy,
    A: RuleAttemptPolicy,
>(
    program: &'program ExecutableProgram,
    parts: AttemptRunCoreParts<E, A>,
    pass: FinalRuntimeRulePass<'program>,
    transition: BorrowedFinalRuleAttemptTransition<'program, E, A>,
)
    requires
        call_ensures(advance_final_rule_attempt::<E, A>, (program, parts, pass), transition)
            || call_ensures(
            advance_final_borrowed_rule_attempt::<E, A>,
            (
                FinalRuleAttemptRun {
                    program,
                    core: FinalRuleAttemptCore { parts, runtime_rules: pass },
                },
            ),
            transition,
        ),
        pass.wf(),
    ensures
        ({
            let rules = pass.rules.program.rules@;
            let position = pass.rules.position as int;
            let consumed = pass.rules.consumed@;
            let state = parts.state.bytes@;
            let steps = parts.budget.steps.value;
            let attempts = parts.attempt_budget.attempts.value;
            match transition {
                BorrowedFinalRuleAttemptTransition::AlwaysRewritten(applied) => {
                    &&& rules[position] == ExecutableRule::AlwaysRewrite(*applied.rule.rule)
                    &&& applied.rule.position == position
                    &&& !consumed[position]
                    &&& applied.attempt.value == attempts + 1
                    &&& applied.step.value == steps + 1
                    &&& exists|left: Seq<u8>, right: Seq<u8>|
                        {
                            &&& state == #[trigger] (left + applied.rule.rule.pattern@ + right)
                            &&& forall|before: Seq<u8>, after: Seq<u8>|
                                state == #[trigger] (before + applied.rule.rule.pattern@ + after)
                                    ==> left.len() <= before.len()
                            &&& cursor_holds(
                                applied.cursor,
                                program,
                                rules,
                                0,
                                consumed,
                                left + applied.rule.rule.replacement@ + right,
                                steps + 1,
                                attempts + 1,
                                parts.budget.policy,
                                parts.attempt_budget.policy,
                            )
                        }
                },
                BorrowedFinalRuleAttemptTransition::OnceRewritten(applied) => {
                    &&& rules[position] == ExecutableRule::OnceRewrite(*applied.rule.rule)
                    &&& applied.rule.position == position
                    &&& !consumed[position]
                    &&& applied.attempt.value == attempts + 1
                    &&& applied.step.value == steps + 1
                    &&& exists|left: Seq<u8>, right: Seq<u8>|
                        {
                            &&& state == #[trigger] (left + applied.rule.rule.pattern@ + right)
                            &&& forall|before: Seq<u8>, after: Seq<u8>|
                                state == #[trigger] (before + applied.rule.rule.pattern@ + after)
                                    ==> left.len() <= before.len()
                            &&& cursor_holds(
                                applied.cursor,
                                program,
                                rules,
                                0,
                                consumed.update(position, true),
                                left + applied.rule.rule.replacement@ + right,
                                steps + 1,
                                attempts + 1,
                                parts.budget.policy,
                                parts.attempt_budget.policy,
                            )
                        }
                },
                _ => true,
            }
        }),
{
    let state = parts.state.bytes@;
    let rule = pass.rules.program.rules@[pass.rules.position as int];
    lemma_occurs_by_splitting(state, rule.pattern());
    lemma_lengths_fit(parts.state.bytes, rule);
    if transition is AlwaysRewritten || transition is OnceRewritten {
        let replacement = match rule {
            ExecutableRule::AlwaysRewrite(rewrite) => rewrite.replacement@,
            _ => rule->OnceRewrite_0.replacement@,
        };
        lemma_leftmost_splice(state, rule.pattern(), replacement);
    }
}

/// A return at the last rule hands out the whole output of the rule at the run's place, and
/// only where the rule's pattern is in the state.
pub proof fn law_final_return_is_exact<
    'program,
    E: ExecutionPolicy,
    A: RuleAttemptPolicy,
>(
    program: &'program ExecutableProgram,
    parts: AttemptRunCoreParts<E, A>,
    pass: FinalRuntimeRulePass<'program>,
    transition: BorrowedFinalRuleAttemptTransition<'program, E, A>,
)
    requires
        call_ensures(advance_final_rule_attempt::<E, A>, (program, parts, pass), transition)
            || call_ensures(
            advance_final_borrowed_rule_attempt::<E, A>,
            (
                FinalRuleAttemptRun {
                    program,
                    core: FinalRuleAttemptCore { parts, runtime_rules: pass },
                },
            ),
            transition,
        ),
        pass.wf(),
    ensures
        ({
            let rules = pass.rules.program.rules@;
            let position = pass.rules.position as int;
            let consumed = pass.rules.consumed@;
            let state = parts.state.bytes@;
            let steps = parts.budget.steps.value;
            let attempts = parts.attempt_budget.attempts.value;
            match transition {
                BorrowedFinalRuleAttemptTransition::AlwaysReturned(returned) => {
                    &&& rules[position] == ExecutableRule::AlwaysReturn(*returned.rule.rule)
                    &&& returned.rule.position == position
                    &&& exists|left: Seq<u8>, right: Seq<u8>|
                        state == #[trigger] (left + returned.rule.rule.pattern@ + right)
                    &&& returned.attempt.value == attempts + 1
                    &&& returned.step.value == steps + 1
                    &&& returned.program == program
                    &&& returned.output.bytes@ == returned.rule.rule.output@
                },
                BorrowedFinalRuleAttemptTransition::OnceReturned(returned) => {
                    &&& rules[position] == ExecutableRule::OnceReturn(*returned.rule.rule)
                    &&& returned.rule.position == position
                    &&& exists|left: Seq<u8>, right: Seq<u8>|
                        state == #[trigger] (left + returned.rule.rule.pattern@ + right)
                    &&& returned.attempt.value == attempts + 1
                    &&& returned.step.value == steps + 1
                    &&& returned.program == program
                    &&& returned.output.bytes@ == returned.rule.rule.output@
                },
                _ => true,
            }
        }),
{
    let state = parts.state.bytes@;
    let rule = pass.rules.program.rules@[pass.rules.position as int];
    lemma_occurs_by_splitting(state, rule.pattern());
    lemma_lengths_fit(parts.state.bytes, rule);
}

/// A rule that is applied at the last rule was admitted by the attempt limit, had a step left, and
/// made a state or an output within its limit.
pub proof fn law_final_application_is_within_limits<
    'program,
    E: ExecutionPolicy,
    A: RuleAttemptPolicy,
>(
    program: &'program ExecutableProgram,
    parts: AttemptRunCoreParts<E, A>,
    pass: FinalRuntimeRulePass<'program>,
    transition: BorrowedFinalRuleAttemptTransition<'program, E, A>,
)
    requires
        call_ensures(advance_final_rule_attempt::<E, A>, (program, parts, pass), transition)
            || call_ensures(
            advance_final_borrowed_rule_attempt::<E, A>,
            (
                FinalRuleAttemptRun {
                    program,
                    core: FinalRuleAttemptCore { parts, runtime_rules: pass },
                },
            ),
            transition,
        ),
        pass.wf(),
    ensures
        ({
            let state = parts.state.bytes@;
            let steps = parts.budget.steps.value;
            let attempts = parts.attempt_budget.attempts.value;
            let limits = parts.budget.policy.limits_spec();
            transition is AlwaysRewritten || transition is OnceRewritten
                || transition is AlwaysReturned || transition is OnceReturned ==> {
                &&& attempts < u64::MAX
                &&& parts.attempt_budget.policy.attempt_limit_spec() matches Some(limit)
                    ==> attempts < limit.value
                &&& steps < u64::MAX
                &&& limits.steps matches Some(limit) ==> steps < limit.value
                &&& match pass.rules.program.rules@[pass.rules.position as int] {
                    ExecutableRule::AlwaysRewrite(rule) | ExecutableRule::OnceRewrite(rule) => {
                        limits.state_bytes matches Some(limit) ==> state.len()
                            - rule.pattern@.len() + rule.replacement@.len() <= limit.bytes
                    },
                    ExecutableRule::AlwaysReturn(rule) | ExecutableRule::OnceReturn(rule) => {
                        limits.return_bytes matches Some(limit) ==> rule.output@.len()
                            <= limit.bytes
                    },
                }
            }
        }),
{
    let state = parts.state.bytes@;
    let rule = pass.rules.program.rules@[pass.rules.position as int];
    lemma_occurs_by_splitting(state, rule.pattern());
    lemma_lengths_fit(parts.state.bytes, rule);
}

} // verus!
