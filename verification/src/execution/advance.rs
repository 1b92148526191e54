use vstd::prelude::*;

use crate::bytes::RuntimeStateByteCount;
use crate::error::RuleAttemptStepError;
use crate::execution::engine::{
    AttemptRunCoreParts, ContinuingRuleAttemptCore, ContinuingRuleAttemptRun, FinalRuleAttemptCore,
    FinalRuleAttemptRun, TerminalRunCore,
};
use crate::execution::model::{
    applied_report, missed_report, run_model, AttemptReport, RunModel,
};
use crate::execution::session::BorrowedRuleAttemptCursor;
use crate::execution::transition::{
    BorrowedAlwaysReturnStateMismatchRuleAttempt, BorrowedAlwaysRewriteStateMismatchRuleAttempt,
    BorrowedContinuingRuleAttemptTransition, BorrowedFinalRuleAttemptTransition,
    BorrowedOnceReturnStateMismatchRuleAttempt, BorrowedOnceRewriteConsumedRuleAttempt,
    BorrowedOnceRewriteStateMismatchRuleAttempt, BorrowedRuleAttemptAlwaysReturnRun,
    BorrowedRuleAttemptAlwaysRewriteStep, BorrowedRuleAttemptFailedRun,
    BorrowedRuleAttemptOnceReturnRun, BorrowedRuleAttemptOnceRewriteStep,
    BorrowedRuleAttemptStableAfterAlwaysReturnStateMismatch,
    BorrowedRuleAttemptStableAfterAlwaysRewriteStateMismatch,
    BorrowedRuleAttemptStableAfterOnceReturnStateMismatch,
    BorrowedRuleAttemptStableAfterOnceRewriteConsumed,
    BorrowedRuleAttemptStableAfterOnceRewriteStateMismatch,
};
use crate::limits::RuleAttemptCount;
use crate::policy::{ExecutionPolicy, RuleAttemptPolicy};
use crate::program::ExecutableProgram;
use crate::runtime::action::{
    preparation_error, prepare_matched_rule, AppliedRule, PreparedRuleAction, PreparedRuleStep,
};
use crate::runtime::budget::{
    attempt_reservation_error, RuleAttemptBudgetState, RuleAttemptReservation, RuntimeBudgetState,
};
use crate::runtime::matcher::{EvaluatedRuleMiss, MatchedRuleApplication, RuleAttemptEvaluation};
use crate::runtime::once::{ContinuingRuntimeRulePass, FinalRuntimeRulePass, RuntimeRules};
use crate::runtime::rewrite::{is_allocation_failure, spliced, RewriteScratch};
use crate::runtime::state::State;

verus! {

/// `transition` is what the next attempt of the run `before` over `program` leads to, while the
/// pass has successors.
///
/// Only the allocator's answer is not in `before`; the report tells it.
pub open spec fn continues_as<'program, E: ExecutionPolicy, A: RuleAttemptPolicy>(
    before: RunModel<E, A>,
    program: &'program ExecutableProgram,
    transition: BorrowedContinuingRuleAttemptTransition<'program, E, A>,
) -> bool {
    let allocated = !transition.report().refused_by_allocator();
    &&& transition.report() == before.report(allocated)
    &&& transition.program() == program
    &&& transition.cursor() matches Some(cursor) ==> {
        &&& cursor.pass().wf()
        &&& cursor.model() == before.next(allocated)
    }
    &&& transition.failed_core() matches Some(core) ==> {
        &&& core.state@ == before.state
        &&& core.steps@ == before.steps
        &&& core.attempts@ == before.attempts
    }
}

/// `transition` is what the next attempt of the run `before` over `program` leads to, at the
/// last rule of the pass.
///
/// Only the allocator's answer is not in `before`; the report tells it.
pub open spec fn finishes_as<'program, E: ExecutionPolicy, A: RuleAttemptPolicy>(
    before: RunModel<E, A>,
    program: &'program ExecutableProgram,
    transition: BorrowedFinalRuleAttemptTransition<'program, E, A>,
) -> bool {
    let allocated = !transition.report().refused_by_allocator();
    &&& transition.report() == before.report(allocated)
    &&& transition.program() == program
    &&& transition.cursor() matches Some(cursor) ==> {
        &&& cursor.pass().wf()
        &&& cursor.model() == before.next(allocated)
    }
    &&& transition.stable_core() matches Some(core) ==> {
        &&& core.state@ == before.state
        &&& core.steps@ == before.steps
    }
    &&& transition.failed_core() matches Some(core) ==> {
        &&& core.state@ == before.state
        &&& core.steps@ == before.steps
        &&& core.attempts@ == before.attempts
    }
}

/// Advances a borrowed rule-attempt session whose current rule has successors.
pub fn advance_continuing_borrowed_rule_attempt<'program, E, A>(
    session: ContinuingRuleAttemptRun<'program, E, A>,
) -> (transition: BorrowedContinuingRuleAttemptTransition<'program, E, A>) where
    E: ExecutionPolicy,
    A: RuleAttemptPolicy,

    requires
        session.wf(),
    ensures
        continues_as(session.model(), session.program, transition),
        transition.cursor() matches Some(cursor) ==> {
            &&& cursor.wf()
            &&& cursor.parts().scratch@ == if transition.report() is Missed {
                session.core.parts.scratch@
            } else {
                session.core.parts.state@
            }
        },
{
    let ContinuingRuleAttemptRun { program, core } = session;
    let ContinuingRuleAttemptCore { parts, runtime_rules: pass } = core;
    advance_continuing_rule_attempt(program, parts, pass)
}

/// Advances a borrowed rule-attempt session whose current rule exhausts the pass.
pub fn advance_final_borrowed_rule_attempt<'program, E, A>(
    session: FinalRuleAttemptRun<'program, E, A>,
) -> (transition: BorrowedFinalRuleAttemptTransition<'program, E, A>) where
    E: ExecutionPolicy,
    A: RuleAttemptPolicy,

    requires
        session.wf(),
    ensures
        finishes_as(session.model(), session.program, transition),
        transition.cursor() matches Some(cursor) ==> {
            &&& cursor.wf()
            &&& cursor.parts().scratch@ == if transition.report() is Missed {
                session.core.parts.scratch@
            } else {
                session.core.parts.state@
            }
        },
{
    let FinalRuleAttemptRun { program, core } = session;
    let FinalRuleAttemptCore { parts, runtime_rules: pass } = core;
    advance_final_rule_attempt(program, parts, pass)
}

/// Rule-attempt miss after the attempt reservation has committed.
#[derive(Debug)]
pub struct CommittedRuleAttemptMiss<'program> {
    /// Rule-attempt count committed for this miss.
    pub attempt: RuleAttemptCount,
    /// Exact non-applying rule result.
    pub miss: EvaluatedRuleMiss<'program>,
}

/// Prepared rule-attempt application that still owns the attempt reservation.
pub struct PreparedRuleAttemptApplication<'program, 'once, 'attempt_budget, 'step_budget, E, A> where
    E: ExecutionPolicy,
    A: RuleAttemptPolicy,
 {
    /// Rule-attempt reservation that must commit before the prepared rule step.
    pub attempt: RuleAttemptReservation<'attempt_budget, A>,
    /// Prepared runtime step side effects.
    pub step: PreparedRuleStep<'program, 'once, 'step_budget, E>,
}

/// Rule-attempt application after both attempt and step side effects commit.
#[derive(Debug)]
pub struct CommittedRuleAttemptApplication<'program> {
    /// Rule-attempt count committed for this application.
    pub attempt: RuleAttemptCount,
    /// Exact committed runtime action.
    pub applied: AppliedRule<'program>,
}

impl<'program> CommittedRuleAttemptMiss<'program> {
    /// Commits the rule-attempt reservation for one non-applying rule.
    pub fn commit<A>(
        reservation: RuleAttemptReservation<'_, A>,
        miss: EvaluatedRuleMiss<'program>,
    ) -> (committed: Self) where A: RuleAttemptPolicy
        ensures
            committed == (CommittedRuleAttemptMiss { attempt: reservation.next, miss }),
            *final(reservation.budget) == (RuleAttemptBudgetState {
                attempts: reservation.next,
                ..*old(reservation.budget)
            }),
    {
        Self { attempt: reservation.commit(), miss }
    }

    /// Projects a committed continuing miss into its exact public transition.
    pub fn into_continuing_transition<E, A>(
        self,
        cursor: BorrowedRuleAttemptCursor<'program, E, A>,
    ) -> (transition: BorrowedContinuingRuleAttemptTransition<'program, E, A>) where
        E: ExecutionPolicy,
        A: RuleAttemptPolicy,

        ensures
            transition.report() == missed_report(self.attempt, self.miss),
            transition.cursor() == Some(cursor),
    {
        let Self { attempt, miss } = self;
        match miss {
            EvaluatedRuleMiss::AlwaysRewriteStateMismatch(rule) => {
                BorrowedContinuingRuleAttemptTransition::AlwaysRewriteStateMismatch(
                    BorrowedAlwaysRewriteStateMismatchRuleAttempt { attempt, rule, cursor },
                )
            },
            EvaluatedRuleMiss::OnceRewriteStateMismatch(rule) => {
                BorrowedContinuingRuleAttemptTransition::OnceRewriteStateMismatch(
                    BorrowedOnceRewriteStateMismatchRuleAttempt { attempt, rule, cursor },
                )
            },
            EvaluatedRuleMiss::AlwaysReturnStateMismatch(rule) => {
                BorrowedContinuingRuleAttemptTransition::AlwaysReturnStateMismatch(
                    BorrowedAlwaysReturnStateMismatchRuleAttempt { attempt, rule, cursor },
                )
            },
            EvaluatedRuleMiss::OnceReturnStateMismatch(rule) => {
                BorrowedContinuingRuleAttemptTransition::OnceReturnStateMismatch(
                    BorrowedOnceReturnStateMismatchRuleAttempt { attempt, rule, cursor },
                )
            },
            EvaluatedRuleMiss::OnceRewriteConsumed(rule) => {
                BorrowedContinuingRuleAttemptTransition::OnceRewriteConsumed(
                    BorrowedOnceRewriteConsumedRuleAttempt { attempt, rule, cursor },
                )
            },
        }
    }

    /// Projects a committed final miss into its exact stable terminal transition.
    pub fn into_final_transition<E, A>(
        self,
        program: &'program ExecutableProgram,
        core: TerminalRunCore,
    ) -> (transition: BorrowedFinalRuleAttemptTransition<'program, E, A>) where
        E: ExecutionPolicy,
        A: RuleAttemptPolicy,

        ensures
            transition.report() == missed_report(self.attempt, self.miss),
            transition.stable_core() == Some(core),
            transition.program() == program,
    {
        let Self { attempt, miss } = self;
        match miss {
            EvaluatedRuleMiss::AlwaysRewriteStateMismatch(rule) => {
                BorrowedFinalRuleAttemptTransition::StableAfterAlwaysRewriteStateMismatch(
                    BorrowedRuleAttemptStableAfterAlwaysRewriteStateMismatch {
                        attempts: attempt,
                        rule,
                        program,
                        core,
                    },
                )
            },
            EvaluatedRuleMiss::OnceRewriteStateMismatch(rule) => {
                BorrowedFinalRuleAttemptTransition::StableAfterOnceRewriteStateMismatch(
                    BorrowedRuleAttemptStableAfterOnceRewriteStateMismatch {
                        attempts: attempt,
                        rule,
                        program,
                        core,
                    },
                )
            },
            EvaluatedRuleMiss::AlwaysReturnStateMismatch(rule) => {
                BorrowedFinalRuleAttemptTransition::StableAfterAlwaysReturnStateMismatch(
                    BorrowedRuleAttemptStableAfterAlwaysReturnStateMismatch {
                        attempts: attempt,
                        rule,
                        program,
                        core,
                    },
                )
            },
            EvaluatedRuleMiss::OnceReturnStateMismatch(rule) => {
                BorrowedFinalRuleAttemptTransition::StableAfterOnceReturnStateMismatch(
                    BorrowedRuleAttemptStableAfterOnceReturnStateMismatch {
                        attempts: attempt,
                        rule,
                        program,
                        core,
                    },
                )
            },
            EvaluatedRuleMiss::OnceRewriteConsumed(rule) => {
                BorrowedFinalRuleAttemptTransition::StableAfterOnceRewriteConsumed(
                    BorrowedRuleAttemptStableAfterOnceRewriteConsumed {
                        attempts: attempt,
                        rule,
                        program,
                        core,
                    },
                )
            },
        }
    }
}

impl<'program, 'once, 'attempt_budget, 'step_budget, E, A> PreparedRuleAttemptApplication<
    'program,
    'once,
    'attempt_budget,
    'step_budget,
    E,
    A,
> where E: ExecutionPolicy, A: RuleAttemptPolicy {
    /// Couples a reserved attempt with a prepared runtime step.
    pub fn new(
        attempt: RuleAttemptReservation<'attempt_budget, A>,
        step: PreparedRuleStep<'program, 'once, 'step_budget, E>,
    ) -> (application: Self)
        ensures
            application == (PreparedRuleAttemptApplication { attempt, step }),
    {
        Self { attempt, step }
    }

    /// Commits the attempt before committing runtime step side effects.
    pub fn commit(
        self,
        state: &mut State,
        scratch: &mut RewriteScratch,
    ) -> (committed: CommittedRuleAttemptApplication<'program>)
        ensures
            committed.attempt == self.attempt.next,
            committed.applied.step() == self.step.step.next,
            committed.applied.rule() == self.step.action.rule(),
            committed.applied.position() == self.step.action.position(),
            committed.applied.output() == self.step.action.output(),
            *final(self.attempt.budget) == (RuleAttemptBudgetState {
                attempts: self.attempt.next,
                ..*old(self.attempt.budget)
            }),
            *final(self.step.step.budget) == (RuntimeBudgetState {
                steps: self.step.step.next,
                ..*old(self.step.step.budget)
            }),
            self.step.action.output() is None ==> {
                &&& final(state)@ == old(scratch)@
                &&& final(scratch)@ == old(state)@
            },
            self.step.action.output() is Some ==> {
                &&& final(state)@ == old(state)@
                &&& final(scratch)@ == old(scratch)@
            },
            self.step.action matches PreparedRuleAction::OnceRewrite { slot, .. }
                ==> *final(slot.consumed),
    {
        CommittedRuleAttemptApplication {
            attempt: self.attempt.commit(),
            applied: self.step.commit(state, scratch),
        }
    }
}

impl<'program> CommittedRuleAttemptApplication<'program> {
    /// Projects a committed continuing application into its exact public transition.
    pub fn into_continuing_transition<E, A>(
        self,
        program: &'program ExecutableProgram,
        parts: AttemptRunCoreParts<E, A>,
        pass: ContinuingRuntimeRulePass<'program>,
    ) -> (transition: BorrowedContinuingRuleAttemptTransition<'program, E, A>) where
        E: ExecutionPolicy,
        A: RuleAttemptPolicy,

        requires
            pass.wf(),
        ensures
            transition.report() == applied_report(self.attempt, self.applied),
            transition.program() == program,
            transition.cursor() matches Some(cursor) ==> {
                &&& cursor.parts() == parts
                &&& cursor.pass().wf()
                &&& cursor.rules() == (RuntimeRules { position: 0, ..pass.rules })
            },
    {
        let Self { attempt, applied } = self;
        match applied {
            AppliedRule::AlwaysRewritten(committed) => {
                let step = committed.step();
                let rule = committed.rule();
                let cursor = BorrowedRuleAttemptCursor::from_runtime_pass(
                    program,
                    parts,
                    pass.reset_after_rewrite(),
                );
                BorrowedContinuingRuleAttemptTransition::AlwaysRewritten(
                    BorrowedRuleAttemptAlwaysRewriteStep { attempt, step, rule, cursor },
                )
            },
            AppliedRule::OnceRewritten(committed) => {
                let step = committed.step();
                let rule = committed.rule();
                let cursor = BorrowedRuleAttemptCursor::from_runtime_pass(
                    program,
                    parts,
                    pass.reset_after_rewrite(),
                );
                BorrowedContinuingRuleAttemptTransition::OnceRewritten(
                    BorrowedRuleAttemptOnceRewriteStep { attempt, step, rule, cursor },
                )
            },
            AppliedRule::AlwaysReturned(committed) => {
                let step = committed.step();
                let rule = committed.rule();
                let output = committed.into_output();
                BorrowedContinuingRuleAttemptTransition::AlwaysReturned(
                    BorrowedRuleAttemptAlwaysReturnRun { attempt, step, rule, program, output },
                )
            },
            AppliedRule::OnceReturned(committed) => {
                let step = committed.step();
                let rule = committed.rule();
                let output = committed.into_output();
                BorrowedContinuingRuleAttemptTransition::OnceReturned(
                    BorrowedRuleAttemptOnceReturnRun { attempt, step, rule, program, output },
                )
            },
        }
    }

    /// Projects a committed final application into its exact public transition.
    pub fn into_final_transition<E, A>(
        self,
        program: &'program ExecutableProgram,
        parts: AttemptRunCoreParts<E, A>,
        pass: FinalRuntimeRulePass<'program>,
    ) -> (transition: BorrowedFinalRuleAttemptTransition<'program, E, A>) where
        E: ExecutionPolicy,
        A: RuleAttemptPolicy,

        requires
            pass.wf(),
        ensures
            transition.report() == applied_report(self.attempt, self.applied),
            transition.program() == program,
            transition.cursor() matches Some(cursor) ==> {
                &&& cursor.parts() == parts
                &&& cursor.pass().wf()
                &&& cursor.rules() == (RuntimeRules { position: 0, ..pass.rules })
            },
    {
        let Self { attempt, applied } = self;
        match applied {
            AppliedRule::AlwaysRewritten(committed) => {
                let step = committed.step();
                let rule = committed.rule();
                let cursor = BorrowedRuleAttemptCursor::from_runtime_pass(
                    program,
                    parts,
                    pass.reset_after_rewrite(),
                );
                BorrowedFinalRuleAttemptTransition::AlwaysRewritten(
                    BorrowedRuleAttemptAlwaysRewriteStep { attempt, step, rule, cursor },
                )
            },
            AppliedRule::OnceRewritten(committed) => {
                let step = committed.step();
                let rule = committed.rule();
                let cursor = BorrowedRuleAttemptCursor::from_runtime_pass(
                    program,
                    parts,
                    pass.reset_after_rewrite(),
                );
                BorrowedFinalRuleAttemptTransition::OnceRewritten(
                    BorrowedRuleAttemptOnceRewriteStep { attempt, step, rule, cursor },
                )
            },
            AppliedRule::AlwaysReturned(committed) => {
                let step = committed.step();
                let rule = committed.rule();
                let output = committed.into_output();
                BorrowedFinalRuleAttemptTransition::AlwaysReturned(
                    BorrowedRuleAttemptAlwaysReturnRun { attempt, step, rule, program, output },
                )
            },
            AppliedRule::OnceReturned(committed) => {
                let step = committed.step();
                let rule = committed.rule();
                let output = committed.into_output();
                BorrowedFinalRuleAttemptTransition::OnceReturned(
                    BorrowedRuleAttemptOnceReturnRun { attempt, step, rule, program, output },
                )
            },
        }
    }
}

/// Advances one continuing rule-attempt pass without erasing its destination shape.
pub fn advance_continuing_rule_attempt<'program, E, A>(
    program: &'program ExecutableProgram,
    mut parts: AttemptRunCoreParts<E, A>,
    mut pass: ContinuingRuntimeRulePass<'program>,
) -> (transition: BorrowedContinuingRuleAttemptTransition<'program, E, A>) where
    E: ExecutionPolicy,
    A: RuleAttemptPolicy,

    requires
        pass.wf(),
    ensures
        continues_as(run_model(parts, pass.rules), program, transition),
        transition.cursor() matches Some(cursor) ==> {
            &&& cursor.rules().program == pass.rules.program
            &&& cursor.parts().scratch@ == if transition.report() is Missed {
                parts.scratch@
            } else {
                parts.state@
            }
        },
{
    let reservation = match reserve_next_rule_attempt(
        &mut parts.attempt_budget,
        parts.state.byte_count(),
    ) {
        Ok(reservation) => reservation,
        Err(error) => return failed_continuing_rule_attempt(program, parts, error),
    };
    match pass.attempt_current_rule(&parts.state) {
        RuleAttemptEvaluation::Miss(miss) => {
            let committed = CommittedRuleAttemptMiss::commit(reservation, miss);
            let cursor = BorrowedRuleAttemptCursor::from_runtime_pass(
                program,
                parts,
                pass.commit_miss(),
            );
            committed.into_continuing_transition(cursor)
        },
        RuleAttemptEvaluation::Matched(matched) => {
            let state_len = parts.state.byte_count();
            let prepared = match prepare_rule_attempt_application(
                &mut parts.scratch,
                &mut parts.budget,
                state_len,
                matched,
            ) {
                Ok(prepared) => prepared,
                Err(error) => return failed_continuing_rule_attempt(program, parts, error),
            };
            let prepared = PreparedRuleAttemptApplication::new(reservation, prepared);
            let committed = prepared.commit(&mut parts.state, &mut parts.scratch);
            committed.into_continuing_transition(program, parts, pass)
        },
    }
}

/// Advances one final rule-attempt pass without erasing its destination shape.
pub fn advance_final_rule_attempt<'program, E, A>(
    program: &'program ExecutableProgram,
    mut parts: AttemptRunCoreParts<E, A>,
    mut pass: FinalRuntimeRulePass<'program>,
) -> (transition: BorrowedFinalRuleAttemptTransition<'program, E, A>) where
    E: ExecutionPolicy,
    A: RuleAttemptPolicy,

    requires
        pass.wf(),
    ensures
        finishes_as(run_model(parts, pass.rules), program, transition),
        transition.cursor() matches Some(cursor) ==> {
            &&& cursor.rules().program == pass.rules.program
            &&& cursor.parts().scratch@ == if transition.report() is Missed {
                parts.scratch@
            } else {
                parts.state@
            }
        },
{
    let reservation = match reserve_next_rule_attempt(
        &mut parts.attempt_budget,
        parts.state.byte_count(),
    ) {
        Ok(reservation) => reservation,
        Err(error) => return failed_final_rule_attempt(program, parts, error),
    };
    match pass.attempt_current_rule(&parts.state) {
        RuleAttemptEvaluation::Miss(miss) => {
            let committed = CommittedRuleAttemptMiss::commit(reservation, miss);
            let core = parts.into_terminal();
            committed.into_final_transition(program, core)
        },
        RuleAttemptEvaluation::Matched(matched) => {
            let state_len = parts.state.byte_count();
            let prepared = match prepare_rule_attempt_application(
                &mut parts.scratch,
                &mut parts.budget,
                state_len,
                matched,
            ) {
                Ok(prepared) => prepared,
                Err(error) => return failed_final_rule_attempt(program, parts, error),
            };
            let prepared = PreparedRuleAttemptApplication::new(reservation, prepared);
            let committed = prepared.commit(&mut parts.state, &mut parts.scratch);
            committed.into_final_transition(program, parts, pass)
        },
    }
}

/// Reserves the next rule-attempt count without touching transition projection.
///
/// # Errors
///
/// Returns `RuleAttemptStepError` if the rule-attempt budget is exhausted or
/// the next attempt count cannot be represented.
pub fn reserve_next_rule_attempt<A>(
    attempt_budget: &mut RuleAttemptBudgetState<A>,
    state_len: RuntimeStateByteCount,
) -> (result: Result<RuleAttemptReservation<'_, A>, RuleAttemptStepError>) where
    A: RuleAttemptPolicy,

    ensures
        result is Ok <==> {
            &&& old(attempt_budget).attempts.value < u64::MAX
            &&& old(attempt_budget).policy.attempt_limit_spec() matches Some(limit)
                ==> old(attempt_budget).attempts.value < limit.value
        },
        match result {
            Ok(reservation) => {
                &&& attempt_reservation_error(
                    old(attempt_budget).policy.attempt_limit_spec(),
                    old(attempt_budget).attempts@,
                    state_len,
                ) is None
                &&& *reservation.budget == *old(attempt_budget)
                &&& *final(attempt_budget) == *final(reservation.budget)
                &&& reservation.next@ == old(attempt_budget).attempts@ + 1
            },
            Err(error) => {
                &&& attempt_reservation_error(
                    old(attempt_budget).policy.attempt_limit_spec(),
                    old(attempt_budget).attempts@,
                    state_len,
                ) == Some(error)
                &&& *final(attempt_budget) == *old(attempt_budget)
            },
        },
{
    attempt_budget.reserve_next_attempt(state_len)
}

/// Prepares a matched rule-attempt application without committing progress.
///
/// # Errors
///
/// Returns `RuleAttemptStepError` if step reservation, rewrite preparation,
/// return-output materialization, or allocation fails.
pub fn prepare_rule_attempt_application<'program, 'once, 'budget, E>(
    scratch: &mut RewriteScratch,
    budget: &'budget mut RuntimeBudgetState<E>,
    state_len: RuntimeStateByteCount,
    matched: MatchedRuleApplication<'program, '_, 'once>,
) -> (result: Result<PreparedRuleStep<'program, 'once, 'budget, E>, RuleAttemptStepError>) where
    E: ExecutionPolicy,

    requires
        matched.matched_in(state_len.bytes as int),
    ensures
        match result {
            Ok(prepared) => {
                &&& preparation_error(
                    old(budget).policy.limits_spec(),
                    old(budget).steps@,
                    matched.rule(),
                    state_len,
                    true,
                ) is None
                &&& *prepared.step.budget == *old(budget)
                &&& *final(budget) == *final(prepared.step.budget)
                &&& prepared.step.next@ == old(budget).steps@ + 1
                &&& prepared.action.rule() == matched.rule()
                &&& prepared.action.position() == matched.position()
                &&& match matched {
                    MatchedRuleApplication::AlwaysRewrite { rule, site } => {
                        final(scratch)@ == spliced(
                            site.state@,
                            site.start as int,
                            rule.rule.pattern@.len(),
                            rule.rule.replacement@,
                        )
                    },
                    MatchedRuleApplication::OnceRewrite { rule, site, slot } => {
                        &&& final(scratch)@ == spliced(
                            site.state@,
                            site.start as int,
                            rule.rule.pattern@.len(),
                            rule.rule.replacement@,
                        )
                        &&& prepared.action->OnceRewrite_slot == slot
                    },
                    MatchedRuleApplication::AlwaysReturn { rule } => {
                        &&& final(scratch)@ == old(scratch)@
                        &&& prepared.action.output() == Some(rule.rule.output@)
                    },
                    MatchedRuleApplication::OnceReturn { rule } => {
                        &&& final(scratch)@ == old(scratch)@
                        &&& prepared.action.output() == Some(rule.rule.output@)
                    },
                }
            },
            Err(error) => {
                &&& error matches RuleAttemptStepError::Step(cause)
                &&& preparation_error(
                    old(budget).policy.limits_spec(),
                    old(budget).steps@,
                    matched.rule(),
                    state_len,
                    !is_allocation_failure(cause),
                ) == Some(cause)
                &&& *final(budget) == *old(budget)
                &&& matched matches MatchedRuleApplication::OnceRewrite { slot, .. }
                    ==> *final(slot.consumed) == *slot.consumed
                &&& final(scratch)@ == if is_allocation_failure(cause) && matched.site() is Some {
                    Seq::<u8>::empty()
                } else {
                    old(scratch)@
                }
            },
        },
{
    match prepare_matched_rule(scratch, budget, state_len, matched) {
        Ok(prepared) => Ok(prepared),
        Err(error) => Err(RuleAttemptStepError::from(error)),
    }
}

/// Projects an uncommitted continuing-pass failure.
pub fn failed_continuing_rule_attempt<'program, E, A>(
    program: &'program ExecutableProgram,
    parts: AttemptRunCoreParts<E, A>,
    error: RuleAttemptStepError,
) -> (transition: BorrowedContinuingRuleAttemptTransition<'program, E, A>) where
    E: ExecutionPolicy,
    A: RuleAttemptPolicy,

    ensures
        transition.report() == (AttemptReport::Failed { error }),
        transition.program() == program,
        transition.failed_core() matches Some(core) && {
            &&& core.state == parts.state
            &&& core.steps == parts.budget.steps
            &&& core.attempts == parts.attempt_budget.attempts
        },
{
    BorrowedContinuingRuleAttemptTransition::Failed(
        BorrowedRuleAttemptFailedRun::new(
            error,
            program,
            parts.into_failed_rule_attempt_terminal(),
        ),
    )
}

/// Projects an uncommitted final-pass failure.
pub fn failed_final_rule_attempt<'program, E, A>(
    program: &'program ExecutableProgram,
    parts: AttemptRunCoreParts<E, A>,
    error: RuleAttemptStepError,
) -> (transition: BorrowedFinalRuleAttemptTransition<'program, E, A>) where
    E: ExecutionPolicy,
    A: RuleAttemptPolicy,

    ensures
        transition.report() == (AttemptReport::Failed { error }),
        transition.program() == program,
        transition.failed_core() matches Some(core) && {
            &&& core.state == parts.state
            &&& core.steps == parts.budget.steps
            &&& core.attempts == parts.attempt_budget.attempts
        },
{
    BorrowedFinalRuleAttemptTransition::Failed(
        BorrowedRuleAttemptFailedRun::new(
            error,
            program,
            parts.into_failed_rule_attempt_terminal(),
        ),
    )
}

} // verus!
