//! What the pieces of an attempt do, said on bytes, counts and rules.
use vstd::prelude::*;

use crate::bytes::RuntimeStateByteCount;
use crate::error::{RuleAttemptStepError, StepError};
use crate::limits::{ExecutionLimits, RuleAttemptCount, StepCount};
use crate::policy::{
    ExecutionPolicy, LimitedExecution, LimitedRuleAttempts, RuleAttemptPolicy, UnlimitedExecution,
    UnlimitedRuleAttempts,
};
use crate::program::{
    ExecutableProgram, ExecutableRule, ReturnRule, ReturnRuleRef, RewriteRule, RewriteRuleRef,
};
use crate::runtime::action::{
    preparation_error, return_error, CommittedReturn, CommittedRewrite, ReturnOutput,
};
use crate::runtime::budget::{attempt_reservation_error, step_reservation_error};
use crate::runtime::matcher::{find_leftmost, occurs_at, pattern_stands_at};
use crate::runtime::once::{RuntimeRulePass, RuntimeRules};
use crate::runtime::rewrite::{rewrite_error, spliced, RewriteScratch};
use crate::runtime::state::State;

verus! {

proof fn lemma_occurs_at_bytewise(state: Seq<u8>, pattern: Seq<u8>, start: int)
    ensures
        occurs_at(state, pattern, start) <==> {
            &&& 0 <= start
            &&& start + pattern.len() <= state.len()
            &&& forall|i: int|
                0 <= i < pattern.len() ==> state[start + i] == #[trigger] pattern[i]
        },
{
    if 0 <= start && start + pattern.len() <= state.len() {
        let part = state.subrange(start, start + pattern.len());
        if part =~= pattern {
            assert forall|i: int| 0 <= i < pattern.len() implies state[start + i]
                == #[trigger] pattern[i] by {
                assert(part[i] == pattern[i]);
            }
        }
    }
}

/// A pattern stands at a place exactly if all of its bytes equal those of the state there.
pub proof fn law_pattern_stands_bytewise(
    state: State,
    pattern: Vec<u8>,
    start: usize,
    stands: bool,
)
    requires
        start + pattern@.len() <= state.bytes@.len(),
        call_ensures(pattern_stands_at, (&state, &pattern, start), stands),
    ensures
        stands <==> forall|i: int|
            0 <= i < pattern@.len() ==> state.bytes@[start + i] == #[trigger] pattern@[i],
{
    lemma_occurs_at_bytewise(state.bytes@, pattern@, start as int);
}

/// What is found is the pattern, byte for byte.
pub proof fn law_found_pattern_is_there(state: State, pattern: Vec<u8>, found: Option<usize>)
    requires
        call_ensures(find_leftmost, (&state, &pattern), found),
    ensures
        found matches Some(start) ==> {
            &&& start + pattern@.len() <= state.bytes@.len()
            &&& forall|i: int|
                0 <= i < pattern@.len() ==> state.bytes@[start + i] == #[trigger] pattern@[i]
        },
{
    if let Some(start) = found {
        lemma_occurs_at_bytewise(state.bytes@, pattern@, start as int);
    }
}

/// A pattern that is somewhere in the state is found, and not behind that place.
pub proof fn law_present_pattern_is_found(
    state: State,
    pattern: Vec<u8>,
    found: Option<usize>,
    left: Seq<u8>,
    right: Seq<u8>,
)
    requires
        call_ensures(find_leftmost, (&state, &pattern), found),
        state.bytes@ == left + pattern@ + right,
    ensures
        found matches Some(start) && start <= left.len(),
{
    lemma_occurs_at_bytewise(state.bytes@, pattern@, left.len() as int);
    assert(occurs_at(state.bytes@, pattern@, left.len() as int));
}

/// Any state and pattern can be searched.
pub proof fn law_search_is_total(state: State, pattern: Vec<u8>, start: usize)
    ensures
        call_requires(find_leftmost, (&state, &pattern)),
        start + pattern@.len() <= state.bytes@.len() ==> call_requires(
            pattern_stands_at,
            (&state, &pattern, start),
        ),
{
}

/// An attempt is refused exactly when the limit is at most the committed attempts or no further
/// count exists; the length of the state is only reported.
pub proof fn law_attempt_refusal_is_exact(
    limit: Option<RuleAttemptCount>,
    attempts: RuleAttemptCount,
    state_len: RuntimeStateByteCount,
)
    ensures
        match attempt_reservation_error(limit, attempts.value as nat, state_len) {
            None => {
                &&& attempts.value < u64::MAX
                &&& limit matches Some(limit) ==> attempts.value < limit.value
            },
            Some(RuleAttemptStepError::AttemptLimitReached { limit: reached, state_len: len }) => {
                &&& limit == Some(reached)
                &&& reached.value <= attempts.value
                &&& len == state_len
            },
            Some(RuleAttemptStepError::AttemptCountOverflow { state_len: len }) => {
                &&& attempts.value == u64::MAX
                &&& limit matches Some(limit) ==> attempts.value < limit.value
                &&& len == state_len
            },
            Some(RuleAttemptStepError::Step(_)) => false,
        },
{
}

/// A step is refused exactly when the limit is at most the committed steps or no further count
/// exists; the length of the state is only reported.
pub proof fn law_step_refusal_is_exact(
    limits: ExecutionLimits,
    steps: u64,
    state_len: RuntimeStateByteCount,
)
    ensures
        match step_reservation_error(limits, steps as nat, state_len) {
            None => {
                &&& steps < u64::MAX
                &&& limits.steps matches Some(limit) ==> steps < limit.value
            },
            Some(StepError::StepLimitReached { limit, state_len: len }) => {
                &&& limits.steps == Some(limit)
                &&& limit.value <= steps
                &&& len == state_len
            },
            Some(StepError::StepCountOverflow { state_len: len }) => {
                &&& steps == u64::MAX
                &&& limits.steps matches Some(limit) ==> steps < limit.value
                &&& len == state_len
            },
            Some(_) => false,
        },
{
}

/// A rewrite of `left + pattern + right` is refused exactly when `left + replacement + right`
/// is too long to represent or for the limit, or is not empty and finds no room.
pub proof fn law_rewrite_refusal_is_exact(
    limits: ExecutionLimits,
    rule: RewriteRule,
    left: Seq<u8>,
    right: Seq<u8>,
    state_len: RuntimeStateByteCount,
    allocated: bool,
)
    requires
        state_len.bytes == (left + rule.pattern@ + right).len(),
    ensures
        ({
            let required = (left + rule.replacement@ + right).len();
            match rewrite_error(limits, rule, state_len, allocated) {
                None => {
                    &&& required <= usize::MAX
                    &&& limits.state_bytes matches Some(limit) ==> required <= limit.bytes
                    &&& allocated || required == 0
                },
                Some(StepError::StateLengthOverflow { state_len: len }) => {
                    &&& required > usize::MAX
                    &&& len == state_len
                },
                Some(StepError::StateTooLong { limit, required: len }) => {
                    &&& limits.state_bytes == Some(limit)
                    &&& limit.bytes < required <= usize::MAX
                    &&& len.bytes == required
                },
                Some(StepError::AllocationFailed { requested }) => {
                    &&& !allocated
                    &&& 0 < required <= usize::MAX
                    &&& limits.state_bytes matches Some(limit) ==> required <= limit.bytes
                    &&& requested == required
                },
                Some(_) => false,
            }
        }),
{
}

/// A return is refused exactly when its output is longer than the limit, or is not empty and
/// finds no room.
pub proof fn law_return_refusal_is_exact(
    limits: ExecutionLimits,
    rule: ReturnRule,
    allocated: bool,
)
    ensures
        match return_error(limits, rule, allocated) {
            None => {
                &&& limits.return_bytes matches Some(limit) ==> rule.output@.len() <= limit.bytes
                &&& allocated || rule.output@.len() == 0
            },
            Some(StepError::ReturnOutputTooLong { limit, required }) => {
                &&& limits.return_bytes == Some(limit)
                &&& limit.bytes < rule.output@.len()
                &&& required.bytes == rule.output@.len()
            },
            Some(StepError::AllocationFailed { requested }) => {
                &&& !allocated
                &&& rule.output@.len() > 0
                &&& limits.return_bytes matches Some(limit) ==> rule.output@.len() <= limit.bytes
                &&& requested == rule.output@.len()
            },
            Some(_) => false,
        },
{
    assert(rule.output@.len() == rule.output.len());
}

/// A matched rule is refused for its step first, and otherwise for what its kind of rule makes.
pub proof fn law_preparation_refusal_is_exact(
    limits: ExecutionLimits,
    steps: u64,
    rule: ExecutableRule,
    state_len: RuntimeStateByteCount,
    allocated: bool,
)
    ensures
        ({
            let refusal = preparation_error(limits, steps as nat, rule, state_len, allocated);
            let step_refused = steps == u64::MAX || (limits.steps matches Some(limit)
                && limit.value <= steps);
            if step_refused {
                refusal == step_reservation_error(limits, steps as nat, state_len)
            } else {
                match rule {
                    ExecutableRule::AlwaysRewrite(rule) | ExecutableRule::OnceRewrite(rule) => {
                        refusal == rewrite_error(limits, rule, state_len, allocated)
                    },
                    ExecutableRule::AlwaysReturn(rule) | ExecutableRule::OnceReturn(rule) => {
                        refusal == return_error(limits, rule, allocated)
                    },
                }
            }
        }),
{
}

/// Splicing keeps what stands before and after the place and replaces what stands there.
pub proof fn law_splice_replaces_the_middle(
    left: Seq<u8>,
    middle: Seq<u8>,
    right: Seq<u8>,
    replacement: Seq<u8>,
)
    ensures
        spliced(left + middle + right, left.len() as int, middle.len(), replacement) == left
            + replacement + right,
{
    let state = left + middle + right;
    assert(state.subrange(0, left.len() as int) =~= left);
    assert(state.subrange(left.len() + middle.len() as int, state.len() as int) =~= right);
}

/// A limited policy sets the bounds that it was given, an unlimited one sets none.
pub proof fn law_policies_set_their_bounds(
    limited: LimitedExecution,
    limited_attempts: LimitedRuleAttempts,
)
    ensures
        limited.limits_spec() == limited.limits,
        limited_attempts.attempt_limit_spec() == Some(limited_attempts.limit),
        UnlimitedExecution.limits_spec().steps is None,
        UnlimitedExecution.limits_spec().state_bytes is None,
        UnlimitedExecution.limits_spec().return_bytes is None,
        UnlimitedRuleAttempts.attempt_limit_spec() is None,
{
}

/// A program has a first pass exactly if it has a rule; the pass stands at the first rule with
/// nothing consumed, and its shape tells whether there is another rule.
pub proof fn law_first_pass_is_fresh<'program>(
    program: &'program ExecutableProgram,
    pass: Option<RuntimeRulePass<'program>>,
)
    requires
        call_ensures(RuntimeRulePass::start, (program,), pass),
    ensures
        pass is None <==> program.rules@.len() == 0,
        match pass {
            None => true,
            Some(RuntimeRulePass::Continuing(pass)) => {
                &&& pass.rules.program == program
                &&& pass.rules.position == 0
                &&& pass.rules.consumed@.len() == program.rules@.len()
                &&& forall|i: int|
                    0 <= i < program.rules@.len() ==> !#[trigger] pass.rules.consumed@[i]
                &&& program.rules@.len() > 1
            },
            Some(RuntimeRulePass::Final(pass)) => {
                &&& pass.rules.program == program
                &&& pass.rules.position == 0
                &&& pass.rules.consumed@.len() == program.rules@.len()
                &&& forall|i: int|
                    0 <= i < program.rules@.len() ==> !#[trigger] pass.rules.consumed@[i]
                &&& program.rules@.len() == 1
            },
        },
{
}

/// The shape of a pass tells whether rules stand behind its place, and the pass keeps its place
/// and its slots.
pub proof fn law_pass_shape_is_exact<'program>(
    rules: RuntimeRules<'program>,
    pass: RuntimeRulePass<'program>,
)
    requires
        rules.position < rules.program.rules@.len(),
        call_ensures(RuntimeRules::into_pass, (rules,), pass),
    ensures
        match pass {
            RuntimeRulePass::Continuing(pass) => {
                &&& pass.rules == rules
                &&& rules.position + 1 < rules.program.rules@.len()
            },
            RuntimeRulePass::Final(pass) => {
                &&& pass.rules == rules
                &&& rules.position + 1 == rules.program.rules@.len()
            },
        },
{
}

/// The length of a rewritten state is that of its parts, and is handed out exactly if it can be
/// represented and is within the limit.
pub proof fn law_required_length_is_exact(
    limits: ExecutionLimits,
    rule: RewriteRule,
    left: Seq<u8>,
    right: Seq<u8>,
    state_len: RuntimeStateByteCount,
    result: Result<usize, StepError>,
)
    requires
        state_len.bytes == (left + rule.pattern@ + right).len(),
        call_ensures(RewriteScratch::required_len, (limits, &rule, state_len), result),
    ensures
        ({
            let length = (left + rule.replacement@ + right).len();
            &&& result is Ok <==> {
                &&& length <= usize::MAX
                &&& limits.state_bytes matches Some(limit) ==> length <= limit.bytes
            }
            &&& result matches Ok(required) ==> required == length
            &&& result matches Err(error) ==> error == if length > usize::MAX {
                StepError::StateLengthOverflow { state_len }
            } else {
                StepError::StateTooLong {
                    limit: limits.state_bytes->0,
                    required: RuntimeStateByteCount { bytes: length as usize },
                }
            }
        }),
{
}

/// An output is the whole output of its rule, is never longer than the limit, and is refused
/// only for its length or for want of room.
pub proof fn law_output_is_whole(
    limits: ExecutionLimits,
    rule: ReturnRule,
    result: Result<ReturnOutput, StepError>,
)
    requires
        call_ensures(ReturnOutput::materialize, (limits, &rule), result),
    ensures
        ({
            let too_long = limits.return_bytes matches Some(limit) && limit.bytes
                < rule.output@.len();
            match result {
                Ok(output) => !too_long && output.bytes@ == rule.output@,
                Err(StepError::ReturnOutputTooLong { limit, required }) => {
                    &&& too_long
                    &&& limits.return_bytes == Some(limit)
                    &&& required.bytes == rule.output@.len()
                },
                Err(StepError::AllocationFailed { requested }) => {
                    &&& !too_long
                    &&& rule.output@.len() > 0
                    &&& requested == rule.output@.len()
                },
                Err(_) => false,
            }
        }),
{
    assert(rule.output@.len() == rule.output.len());
}

/// With room granted the whole output is copied; without it the number of its bytes is reported.
pub proof fn law_output_copy_follows_the_allocator(
    reserved: bool,
    rule: ReturnRule,
    buffer: Vec<u8>,
    result: Result<ReturnOutput, StepError>,
)
    requires
        buffer@.len() == 0,
        call_ensures(ReturnOutput::fill, (reserved, &rule, buffer), result),
    ensures
        match result {
            Ok(output) => reserved && output.bytes@ == rule.output@,
            Err(StepError::AllocationFailed { requested }) => {
                &&& !reserved
                &&& requested == rule.output@.len()
            },
            Err(_) => false,
        },
{
    assert(rule.output@.len() == rule.output.len());
}

/// A committed rewrite hands out the count and the rule that it was made with.
pub proof fn law_committed_rewrite_is_readable<'program>(
    committed: CommittedRewrite<'program>,
    step: StepCount,
    rule: RewriteRuleRef<'program>,
)
    requires
        call_ensures(CommittedRewrite::step, (&committed,), step),
        call_ensures(CommittedRewrite::rule, (&committed,), rule),
    ensures
        step.value == committed.step.value,
        rule.position == committed.rule.position,
        rule.rule == committed.rule.rule,
{
}

/// A committed return hands out the count, the rule and all the bytes that it was made with.
pub proof fn law_committed_return_is_readable<'program>(
    committed: CommittedReturn<'program>,
    step: StepCount,
    rule: ReturnRuleRef<'program>,
    output: ReturnOutput,
)
    requires
        call_ensures(CommittedReturn::step, (&committed,), step),
        call_ensures(CommittedReturn::rule, (&committed,), rule),
        call_ensures(CommittedReturn::into_output, (committed,), output),
    ensures
        step.value == committed.step.value,
        rule.position == committed.rule.position,
        rule.rule == committed.rule.rule,
        output.bytes@ == committed.output.bytes@,
{
}

/// A step error is kept as it is inside an attempt error.
pub proof fn law_step_error_is_kept(error: StepError, wrapped: RuleAttemptStepError)
    requires
        call_ensures(<RuleAttemptStepError as From<StepError>>::from, (error,), wrapped),
    ensures
        wrapped == RuleAttemptStepError::Step(error),
{
}

} // verus!
