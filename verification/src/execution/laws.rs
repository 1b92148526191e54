use vstd::prelude::*;

use crate::error::RuleAttemptStepError;
use crate::execution::advance::{continues_as, finishes_as};
use crate::execution::model::{AttemptReport, RunModel};
use crate::execution::session::BorrowedRuleAttemptCursor;
use crate::execution::transition::{
    BorrowedContinuingRuleAttemptTransition, BorrowedFinalRuleAttemptTransition,
};
use crate::limits::RuleAttemptCount;
use crate::policy::{ExecutionPolicy, RuleAttemptPolicy};
use crate::program::{ExecutableProgram, ExecutableRule};
use crate::runtime::matcher::{is_leftmost, leftmost, occurs, occurs_at};

verus! {

impl<E: ExecutionPolicy, A: RuleAttemptPolicy> RunModel<E, A> {
    /// Whether another attempt follows the next one.
    pub open spec fn goes_on(self, allocated: bool) -> bool {
        match self.report(allocated) {
            AttemptReport::Missed { .. } => self.position + 1 < self.rules.len(),
            AttemptReport::Rewritten { .. } => true,
            _ => false,
        }
    }

    /// The counts keep to the policies, no step lacks its attempt, and the state length fits.
    pub open spec fn within_budgets(self) -> bool {
        &&& self.attempts <= u64::MAX
        &&& self.attempt_policy.attempt_limit_spec() matches Some(limit) ==> self.attempts
            <= limit@
        &&& self.policy.limits_spec().steps matches Some(limit) ==> self.steps <= limit@
        &&& self.steps <= self.attempts
        &&& self.state.len() <= usize::MAX
    }

    /// No rule before the current one applies to the state.
    pub open spec fn passed_over(self) -> bool {
        forall|i: int| 0 <= i < self.position ==> !#[trigger] self.applies(i)
    }

    /// No rule of the program applies to the state.
    pub open spec fn stable(self) -> bool {
        forall|i: int| 0 <= i < self.rules.len() ==> !#[trigger] self.applies(i)
    }
}

/// The runs `trace` follow each other, `answers` being the allocator's answers on the way.
pub open spec fn is_trace<E: ExecutionPolicy, A: RuleAttemptPolicy>(
    trace: Seq<RunModel<E, A>>,
    answers: Seq<bool>,
) -> bool {
    &&& trace.len() > 0
    &&& answers.len() == trace.len()
    &&& trace[0].wf()
    &&& forall|i: int|
        #![trigger trace[i + 1]]
        0 <= i < trace.len() - 1 ==> {
            &&& trace[i].goes_on(answers[i])
            &&& trace[i + 1] == trace[i].next(answers[i])
        }
}

/// A pattern that occurs has a leftmost occurrence, and `leftmost` is it.
pub proof fn law_leftmost_is_first(state: Seq<u8>, pattern: Seq<u8>)
    requires
        occurs(state, pattern),
    ensures
        is_leftmost(state, pattern, leftmost(state, pattern)),
        forall|start: int|
            is_leftmost(state, pattern, start) ==> start == leftmost(state, pattern),
{
    let some = choose|start: int| occurs_at(state, pattern, start);
    lemma_leftmost_exists(state, pattern, some);
    let first = leftmost(state, pattern);
    assert forall|start: int| is_leftmost(state, pattern, start) implies start == first by {
        if start < first {
            assert(!occurs_at(state, pattern, start));
        } else if first < start {
            assert(!occurs_at(state, pattern, first));
        }
    }
}

proof fn lemma_leftmost_exists(state: Seq<u8>, pattern: Seq<u8>, start: int)
    requires
        occurs_at(state, pattern, start),
    ensures
        exists|first: int| is_leftmost(state, pattern, first),
    decreases start,
{
    if exists|earlier: int| 0 <= earlier < start && occurs_at(state, pattern, earlier) {
        let earlier = choose|earlier: int|
            0 <= earlier < start && occurs_at(state, pattern, earlier);
        lemma_leftmost_exists(state, pattern, earlier);
    } else {
        assert(is_leftmost(state, pattern, start));
    }
}

/// A run that goes on stays well-formed, over the same rules and policies.
pub proof fn law_run_stays_well_formed<E: ExecutionPolicy, A: RuleAttemptPolicy>(
    run: RunModel<E, A>,
    allocated: bool,
)
    requires
        run.wf(),
        run.goes_on(allocated),
    ensures
        run.next(allocated).wf(),
        run.next(allocated).rules == run.rules,
        run.next(allocated).policy == run.policy,
        run.next(allocated).attempt_policy == run.attempt_policy,
{
}

/// A run that has not attempted anything is within its budgets and has passed no rule.
pub proof fn law_fresh_run<E: ExecutionPolicy, A: RuleAttemptPolicy>(run: RunModel<E, A>)
    requires
        run.attempts == 0,
        run.steps == 0,
        run.position == 0,
        run.state.len() <= usize::MAX,
    ensures
        run.within_budgets(),
        run.passed_over(),
{
}

/// A failed attempt commits nothing: counts, state, slots and place stay as they were.
pub proof fn law_failure_commits_nothing<E: ExecutionPolicy, A: RuleAttemptPolicy>(
    run: RunModel<E, A>,
    allocated: bool,
)
    requires
        run.report(allocated) is Failed,
    ensures
        run.next(allocated) == run,
{
}

/// Every attempt that does not fail is counted exactly once, and reports its count.
pub proof fn law_attempts_are_counted<E: ExecutionPolicy, A: RuleAttemptPolicy>(
    run: RunModel<E, A>,
    allocated: bool,
)
    requires
        !(run.report(allocated) is Failed),
    ensures
        run.next(allocated).attempts == run.attempts + 1,
        match run.report(allocated) {
            AttemptReport::Failed { .. } => false,
            AttemptReport::Missed { attempt, .. } => attempt == run.next(allocated).attempts,
            AttemptReport::Rewritten { attempt, .. } => attempt == run.next(allocated).attempts,
            AttemptReport::Returned { attempt, .. } => attempt == run.next(allocated).attempts,
        },
{
}

/// Exactly the attempts that apply a rule are counted as steps, and report that count.
pub proof fn law_steps_are_counted<E: ExecutionPolicy, A: RuleAttemptPolicy>(
    run: RunModel<E, A>,
    allocated: bool,
)
    ensures
        run.next(allocated).steps == run.steps + if run.report(allocated).applied() {
            1int
        } else {
            0
        },
        match run.report(allocated) {
            AttemptReport::Rewritten { step, .. } => step == run.next(allocated).steps,
            AttemptReport::Returned { step, .. } => step == run.next(allocated).steps,
            _ => true,
        },
{
}

/// No attempt takes a run out of its budgets, and there are never more steps than attempts.
pub proof fn law_budgets_hold<E: ExecutionPolicy, A: RuleAttemptPolicy>(
    run: RunModel<E, A>,
    allocated: bool,
)
    requires
        run.wf(),
        run.within_budgets(),
    ensures
        run.next(allocated).within_budgets(),
{
    if run.report(allocated) is Rewritten {
        law_rewrite_splices(run, allocated);
    }
}

/// Once the attempt budget is exhausted every attempt fails for that reason.
pub proof fn law_exhausted_budget_refuses<E: ExecutionPolicy, A: RuleAttemptPolicy>(
    run: RunModel<E, A>,
    limit: RuleAttemptCount,
    allocated: bool,
)
    requires
        run.attempt_policy.attempt_limit_spec() == Some(limit),
        limit@ <= run.attempts,
    ensures
        run.report(allocated) == (AttemptReport::Failed {
            error: RuleAttemptStepError::AttemptLimitReached { limit, state_len: run.state_len() },
        }),
{
}

/// A miss counts the attempt, moves on by one rule and changes nothing else.
pub proof fn law_miss_only_moves_on<E: ExecutionPolicy, A: RuleAttemptPolicy>(
    run: RunModel<E, A>,
    allocated: bool,
)
    requires
        run.report(allocated) is Missed,
    ensures
        run.next(allocated) == (RunModel {
            attempts: run.attempts + 1,
            position: run.position + 1,
            ..run
        }),
{
}

/// A rewrite replaces the leftmost match and nothing else, keeps to the state limit, and starts
/// over at the first rule.
pub proof fn law_rewrite_splices<E: ExecutionPolicy, A: RuleAttemptPolicy>(
    run: RunModel<E, A>,
    allocated: bool,
)
    requires
        run.wf(),
        run.state.len() <= usize::MAX,
        run.report(allocated) is Rewritten,
    ensures
        ({
            let rewrite = match run.rule() {
                ExecutableRule::AlwaysRewrite(rule) => rule,
                _ => run.rule()->OnceRewrite_0,
            };
            let start = leftmost(run.state, rewrite.pattern@);
            let kept = start + rewrite.pattern@.len();
            let state = run.next(allocated).state;
            &&& is_leftmost(run.state, rewrite.pattern@, start)
            &&& state.len() == run.state.len() - rewrite.pattern@.len()
                + rewrite.replacement@.len()
            &&& state.subrange(0, start) == run.state.subrange(0, start)
            &&& state.subrange(start, start + rewrite.replacement@.len()) == rewrite.replacement@
            &&& state.subrange(start + rewrite.replacement@.len(), state.len() as int)
                == run.state.subrange(kept, run.state.len() as int)
        }),
        run.next(allocated).state.len() <= usize::MAX,
        run.policy.limits_spec().state_bytes matches Some(limit)
            ==> run.next(allocated).state.len() <= limit.bytes,
        run.next(allocated).position == 0,
{
    law_leftmost_is_first(run.state, run.rule().pattern());
}

/// A return leaves the state alone and keeps its output within the limit.
pub proof fn law_return_keeps_state<E: ExecutionPolicy, A: RuleAttemptPolicy>(
    run: RunModel<E, A>,
    allocated: bool,
)
    requires
        run.report(allocated) is Returned,
    ensures
        run.next(allocated).state == run.state,
        run.next(allocated).consumed == run.consumed,
        run.policy.limits_spec().return_bytes matches Some(limit)
            ==> run.report(allocated)->output.len() <= limit.bytes,
{
}

/// A consumed rule is never applied, whatever the state.
pub proof fn law_consumed_rule_never_applies<E: ExecutionPolicy, A: RuleAttemptPolicy>(
    run: RunModel<E, A>,
    allocated: bool,
)
    requires
        run.wf(),
        run.consumed[run.position],
    ensures
        !run.report(allocated).applied(),
{
}

/// What is consumed stays consumed, and only a once rewrite consumes anything: its own slot.
pub proof fn law_only_once_rewrites_consume<E: ExecutionPolicy, A: RuleAttemptPolicy>(
    run: RunModel<E, A>,
    allocated: bool,
)
    requires
        run.wf(),
    ensures
        run.next(allocated).consumed.len() == run.consumed.len(),
        forall|i: int|
            0 <= i < run.consumed.len() ==> {
                #[trigger] run.next(allocated).consumed[i] <==> {
                    ||| run.consumed[i]
                    ||| run.report(allocated) is Rewritten && run.rule() is OnceRewrite && i
                        == run.position
                }
            },
{
}

/// Every run of a trace is well-formed over the same rules and policies, and each attempt on
/// the way is counted.
pub proof fn law_trace_counts_attempts<E: ExecutionPolicy, A: RuleAttemptPolicy>(
    trace: Seq<RunModel<E, A>>,
    answers: Seq<bool>,
    i: int,
)
    requires
        is_trace(trace, answers),
        0 <= i < trace.len(),
    ensures
        trace[i].wf(),
        trace[i].rules == trace[0].rules,
        trace[i].policy == trace[0].policy,
        trace[i].attempt_policy == trace[0].attempt_policy,
        trace[i].attempts == trace[0].attempts + i,
    decreases i,
{
    if i > 0 {
        law_trace_counts_attempts(trace, answers, i - 1);
        assert(trace[i - 1 + 1] == trace[i - 1].next(answers[i - 1]));
        law_run_stays_well_formed(trace[i - 1], answers[i - 1]);
    }
}

proof fn lemma_trace_keeps_consumed<E: ExecutionPolicy, A: RuleAttemptPolicy>(
    trace: Seq<RunModel<E, A>>,
    answers: Seq<bool>,
    from: int,
    to: int,
    rule: int,
)
    requires
        is_trace(trace, answers),
        0 <= from <= to < trace.len(),
        0 <= rule < trace[from].rules.len(),
        trace[from].consumed[rule],
    ensures
        trace[to].consumed[rule],
    decreases to - from,
{
    if from < to {
        law_trace_counts_attempts(trace, answers, from);
        lemma_trace_keeps_consumed(trace, answers, from, to - 1, rule);
        law_trace_counts_attempts(trace, answers, to - 1);
        assert(trace[to - 1 + 1] == trace[to - 1].next(answers[to - 1]));
        law_only_once_rewrites_consume(trace[to - 1], answers[to - 1]);
    }
}

/// A once-rewrite rule rewrites at most once in a run.
pub proof fn law_once_rule_rewrites_once<E: ExecutionPolicy, A: RuleAttemptPolicy>(
    trace: Seq<RunModel<E, A>>,
    answers: Seq<bool>,
    first: int,
    later: int,
)
    requires
        is_trace(trace, answers),
        0 <= first < later < trace.len(),
        trace[first].report(answers[first]) is Rewritten,
        trace[first].rule() is OnceRewrite,
        trace[later].position == trace[first].position,
    ensures
        !trace[later].report(answers[later]).applied(),
{
    law_trace_counts_attempts(trace, answers, first);
    law_trace_counts_attempts(trace, answers, later);
    law_trace_counts_attempts(trace, answers, first + 1);
    assert(trace[first + 1] == trace[first].next(answers[first]));
    lemma_trace_keeps_consumed(trace, answers, first + 1, later, trace[first].position);
    law_consumed_rule_never_applies(trace[later], answers[later]);
}

/// A run whose attempts are bounded ends: no trace holds more runs than attempts are left.
pub proof fn law_bounded_run_ends<E: ExecutionPolicy, A: RuleAttemptPolicy>(
    trace: Seq<RunModel<E, A>>,
    answers: Seq<bool>,
    limit: RuleAttemptCount,
)
    requires
        is_trace(trace, answers),
        trace[0].attempt_policy.attempt_limit_spec() == Some(limit),
        trace[0].attempts <= limit@,
    ensures
        trace.len() <= limit@ - trace[0].attempts + 1,
{
    if trace.len() > 1 {
        let last = trace.len() - 2;
        law_trace_counts_attempts(trace, answers, last);
        assert(trace[last + 1] == trace[last].next(answers[last]));
        assert(trace[last].attempts < limit@);
    }
}

/// The rules that a pass has left behind do not apply to the state: every attempt keeps this.
pub proof fn law_passed_over_rules_do_not_apply<E: ExecutionPolicy, A: RuleAttemptPolicy>(
    run: RunModel<E, A>,
    allocated: bool,
)
    requires
        run.wf(),
        run.passed_over(),
    ensures
        run.next(allocated).passed_over(),
{
    let next = run.next(allocated);
    assert forall|i: int| 0 <= i < next.position implies !#[trigger] next.applies(i) by {
        assert(next.applies(i) == run.applies(i));
    }
}

/// From the start of a pass on, no run of a trace has a rule behind it that applies.
pub proof fn law_trace_passes_over<E: ExecutionPolicy, A: RuleAttemptPolicy>(
    trace: Seq<RunModel<E, A>>,
    answers: Seq<bool>,
    i: int,
)
    requires
        is_trace(trace, answers),
        trace[0].position == 0,
        0 <= i < trace.len(),
    ensures
        trace[i].passed_over(),
    decreases i,
{
    if i > 0 {
        law_trace_passes_over(trace, answers, i - 1);
        law_trace_counts_attempts(trace, answers, i - 1);
        assert(trace[i - 1 + 1] == trace[i - 1].next(answers[i - 1]));
        law_passed_over_rules_do_not_apply(trace[i - 1], answers[i - 1]);
    }
}

/// A run ends stable exactly where no rule applies: where the last rule misses after the rest
/// of the pass has, the transition keeps the state, and no rule of the program applies to it.
pub proof fn law_stable_transition_is_stable<'program, E: ExecutionPolicy, A: RuleAttemptPolicy>(
    run: RunModel<E, A>,
    program: &'program ExecutableProgram,
    transition: BorrowedFinalRuleAttemptTransition<'program, E, A>,
)
    requires
        run.wf(),
        run.position + 1 == run.rules.len(),
        run.passed_over(),
        finishes_as(run, program, transition),
        !(transition.report() is Failed),
    ensures
        transition.stable_core() is Some <==> run.stable(),
        transition.stable_core() matches Some(core) ==> {
            &&& core.state@ == run.state
            &&& core.steps@ == run.steps
        },
{
    let allocated = !transition.report().refused_by_allocator();
    assert(transition.stable_core() is Some <==> run.report(allocated) is Missed);
    if run.stable() {
        assert(!run.applies(run.position));
    }
}

/// Unless an attempt at a rule with successors fails, the variant of its transition names exactly
/// the kind of the rule, whether it was consumed, and whether its pattern occurs.
pub proof fn law_continuing_variant_is_exact<'program, E: ExecutionPolicy, A: RuleAttemptPolicy>(
    run: RunModel<E, A>,
    program: &'program ExecutableProgram,
    transition: BorrowedContinuingRuleAttemptTransition<'program, E, A>,
)
    requires
        run.wf(),
        continues_as(run, program, transition),
        !(transition is Failed),
    ensures
        ({
            let consumed = run.consumed[run.position];
            let found = occurs(run.state, run.rule().pattern());
            &&& transition is AlwaysRewriteStateMismatch <==> run.rule() is AlwaysRewrite && !found
            &&& transition is OnceRewriteStateMismatch <==> run.rule() is OnceRewrite && !consumed && !found
            &&& transition is AlwaysReturnStateMismatch <==> run.rule() is AlwaysReturn && !found
            &&& transition is OnceReturnStateMismatch <==> run.rule() is OnceReturn && !found
            &&& transition is OnceRewriteConsumed <==> run.rule() is OnceRewrite && consumed
            &&& transition is AlwaysRewritten <==> run.rule() is AlwaysRewrite && found
            &&& transition is OnceRewritten <==> run.rule() is OnceRewrite && !consumed && found
            &&& transition is AlwaysReturned <==> run.rule() is AlwaysReturn && found
            &&& transition is OnceReturned <==> run.rule() is OnceReturn && found
        }),
{
}

/// Unless an attempt at the last rule fails, the variant of its transition names exactly
/// the kind of the rule, whether it was consumed, and whether its pattern occurs.
pub proof fn law_final_variant_is_exact<'program, E: ExecutionPolicy, A: RuleAttemptPolicy>(
    run: RunModel<E, A>,
    program: &'program ExecutableProgram,
    transition: BorrowedFinalRuleAttemptTransition<'program, E, A>,
)
    requires
        run.wf(),
        finishes_as(run, program, transition),
        !(transition is Failed),
    ensures
        ({
            let consumed = run.consumed[run.position];
            let found = occurs(run.state, run.rule().pattern());
            &&& transition is StableAfterAlwaysRewriteStateMismatch <==> run.rule() is AlwaysRewrite && !found
            &&& transition is StableAfterOnceRewriteStateMismatch <==> run.rule() is OnceRewrite && !consumed && !found
            &&& transition is StableAfterAlwaysReturnStateMismatch <==> run.rule() is AlwaysReturn && !found
            &&& transition is StableAfterOnceReturnStateMismatch <==> run.rule() is OnceReturn && !found
            &&& transition is StableAfterOnceRewriteConsumed <==> run.rule() is OnceRewrite && consumed
            &&& transition is AlwaysRewritten <==> run.rule() is AlwaysRewrite && found
            &&& transition is OnceRewritten <==> run.rule() is OnceRewrite && !consumed && found
            &&& transition is AlwaysReturned <==> run.rule() is AlwaysReturn && found
            &&& transition is OnceReturned <==> run.rule() is OnceReturn && found
        }),
{
}

/// The allocator's answer matters only where a rule applies within every limit and needs room;
/// a refusal there fails the attempt, and an attempt that needs no room never asks.
pub proof fn law_allocator_only_grants_room<E: ExecutionPolicy, A: RuleAttemptPolicy>(
    run: RunModel<E, A>,
)
    ensures
        run.report(true) == run.report(false) || {
            &&& run.report(true).applied()
            &&& run.report(false).refused_by_allocator()
        },
        !run.report(true).refused_by_allocator(),
        run.report(true) is Missed ==> run.report(false) == run.report(true),
{
}

/// A cursor's shape tells truly whether its current rule is the last one.
pub proof fn law_cursor_shape_is_exact<'program, E: ExecutionPolicy, A: RuleAttemptPolicy>(
    cursor: BorrowedRuleAttemptCursor<'program, E, A>,
)
    requires
        cursor.wf(),
    ensures
        cursor.model().wf(),
        cursor is Final <==> cursor.model().position + 1 == cursor.model().rules.len(),
        cursor is Continuing <==> cursor.model().position + 1 < cursor.model().rules.len(),
{
}

/// A cursor comes out of an attempt at a rule with successors exactly where the run goes on.
pub proof fn law_continuing_cursor_follows_run<'program, E: ExecutionPolicy, A: RuleAttemptPolicy>(
    run: RunModel<E, A>,
    program: &'program ExecutableProgram,
    transition: BorrowedContinuingRuleAttemptTransition<'program, E, A>,
    allocated: bool,
)
    requires
        run.position + 1 < run.rules.len(),
        continues_as(run, program, transition),
        allocated == !transition.report().refused_by_allocator(),
    ensures
        transition.cursor() is Some <==> run.goes_on(allocated),
        transition.cursor() matches Some(cursor) ==> cursor.model() == run.next(allocated),
        transition.failed_core() is Some <==> run.report(allocated) is Failed,
{
}

/// A cursor comes out of an attempt at the last rule exactly where the run goes on.
pub proof fn law_final_cursor_follows_run<'program, E: ExecutionPolicy, A: RuleAttemptPolicy>(
    run: RunModel<E, A>,
    program: &'program ExecutableProgram,
    transition: BorrowedFinalRuleAttemptTransition<'program, E, A>,
    allocated: bool,
)
    requires
        run.position + 1 == run.rules.len(),
        finishes_as(run, program, transition),
        allocated == !transition.report().refused_by_allocator(),
    ensures
        transition.cursor() is Some <==> run.goes_on(allocated),
        transition.cursor() matches Some(cursor) ==> cursor.model() == run.next(allocated),
        transition.stable_core() is Some <==> run.report(allocated) is Missed,
        transition.failed_core() is Some <==> run.report(allocated) is Failed,
{
}

} // verus!
