use vstd::prelude::*;

use crate::error::RuleAttemptStepError;
use crate::execution::engine::{FailedRuleAttemptRunCore, TerminalRunCore};
use crate::execution::model::{applied_report, missed_report, AttemptReport};
use crate::execution::session::BorrowedRuleAttemptCursor;
use crate::limits::{RuleAttemptCount, StepCount};
use crate::policy::{ExecutionPolicy, RuleAttemptPolicy};
use crate::program::{ExecutableProgram, ReturnRuleRef, RewriteRuleRef};
use crate::runtime::action::{AppliedRule, CommittedReturn, CommittedRewrite, ReturnOutput};
use crate::runtime::matcher::EvaluatedRuleMiss;

verus! {

/// The pattern of an always-rewrite rule did not occur; the run goes on.
#[derive(Debug)]
pub struct BorrowedAlwaysRewriteStateMismatchRuleAttempt<'program, E, A> where
    E: ExecutionPolicy,
    A: RuleAttemptPolicy,
 {
    pub attempt: RuleAttemptCount,
    pub rule: RewriteRuleRef<'program>,
    pub cursor: BorrowedRuleAttemptCursor<'program, E, A>,
}

/// The pattern of an unconsumed once-rewrite rule did not occur; the run goes on.
#[derive(Debug)]
pub struct BorrowedOnceRewriteStateMismatchRuleAttempt<'program, E, A> where
    E: ExecutionPolicy,
    A: RuleAttemptPolicy,
 {
    pub attempt: RuleAttemptCount,
    pub rule: RewriteRuleRef<'program>,
    pub cursor: BorrowedRuleAttemptCursor<'program, E, A>,
}

/// The pattern of an always-return rule did not occur; the run goes on.
#[derive(Debug)]
pub struct BorrowedAlwaysReturnStateMismatchRuleAttempt<'program, E, A> where
    E: ExecutionPolicy,
    A: RuleAttemptPolicy,
 {
    pub attempt: RuleAttemptCount,
    pub rule: ReturnRuleRef<'program>,
    pub cursor: BorrowedRuleAttemptCursor<'program, E, A>,
}

/// The pattern of a once-return rule did not occur; the run goes on.
#[derive(Debug)]
pub struct BorrowedOnceReturnStateMismatchRuleAttempt<'program, E, A> where
    E: ExecutionPolicy,
    A: RuleAttemptPolicy,
 {
    pub attempt: RuleAttemptCount,
    pub rule: ReturnRuleRef<'program>,
    pub cursor: BorrowedRuleAttemptCursor<'program, E, A>,
}

/// A once-rewrite rule was already consumed; the run goes on.
#[derive(Debug)]
pub struct BorrowedOnceRewriteConsumedRuleAttempt<'program, E, A> where
    E: ExecutionPolicy,
    A: RuleAttemptPolicy,
 {
    pub attempt: RuleAttemptCount,
    pub rule: RewriteRuleRef<'program>,
    pub cursor: BorrowedRuleAttemptCursor<'program, E, A>,
}

/// The pattern of an always-rewrite rule did not occur, and it was the last rule: the state is stable.
#[derive(Debug)]
pub struct BorrowedRuleAttemptStableAfterAlwaysRewriteStateMismatch<'program> {
    pub attempts: RuleAttemptCount,
    pub rule: RewriteRuleRef<'program>,
    pub program: &'program ExecutableProgram,
    pub core: TerminalRunCore,
}

/// The pattern of an unconsumed once-rewrite rule did not occur, and it was the last rule: the state is stable.
#[derive(Debug)]
pub struct BorrowedRuleAttemptStableAfterOnceRewriteStateMismatch<'program> {
    pub attempts: RuleAttemptCount,
    pub rule: RewriteRuleRef<'program>,
    pub program: &'program ExecutableProgram,
    pub core: TerminalRunCore,
}

/// The pattern of an always-return rule did not occur, and it was the last rule: the state is stable.
#[derive(Debug)]
pub struct BorrowedRuleAttemptStableAfterAlwaysReturnStateMismatch<'program> {
    pub attempts: RuleAttemptCount,
    pub rule: ReturnRuleRef<'program>,
    pub program: &'program ExecutableProgram,
    pub core: TerminalRunCore,
}

/// The pattern of a once-return rule did not occur, and it was the last rule: the state is stable.
#[derive(Debug)]
pub struct BorrowedRuleAttemptStableAfterOnceReturnStateMismatch<'program> {
    pub attempts: RuleAttemptCount,
    pub rule: ReturnRuleRef<'program>,
    pub program: &'program ExecutableProgram,
    pub core: TerminalRunCore,
}

/// A once-rewrite rule was already consumed, and it was the last rule: the state is stable.
#[derive(Debug)]
pub struct BorrowedRuleAttemptStableAfterOnceRewriteConsumed<'program> {
    pub attempts: RuleAttemptCount,
    pub rule: RewriteRuleRef<'program>,
    pub program: &'program ExecutableProgram,
    pub core: TerminalRunCore,
}

/// An always-rewrite rule rewrote the state; the run goes on at the first rule.
#[derive(Debug)]
pub struct BorrowedRuleAttemptAlwaysRewriteStep<'program, E, A> where
    E: ExecutionPolicy,
    A: RuleAttemptPolicy,
 {
    pub attempt: RuleAttemptCount,
    pub step: StepCount,
    pub rule: RewriteRuleRef<'program>,
    pub cursor: BorrowedRuleAttemptCursor<'program, E, A>,
}

/// A once-rewrite rule rewrote the state; the run goes on at the first rule.
#[derive(Debug)]
pub struct BorrowedRuleAttemptOnceRewriteStep<'program, E, A> where
    E: ExecutionPolicy,
    A: RuleAttemptPolicy,
 {
    pub attempt: RuleAttemptCount,
    pub step: StepCount,
    pub rule: RewriteRuleRef<'program>,
    pub cursor: BorrowedRuleAttemptCursor<'program, E, A>,
}

/// An always-return rule ended the run with an output.
#[derive(Debug)]
pub struct BorrowedRuleAttemptAlwaysReturnRun<'program> {
    pub attempt: RuleAttemptCount,
    pub step: StepCount,
    pub rule: ReturnRuleRef<'program>,
    pub program: &'program ExecutableProgram,
    pub output: ReturnOutput,
}

/// A once-return rule ended the run with an output.
#[derive(Debug)]
pub struct BorrowedRuleAttemptOnceReturnRun<'program> {
    pub attempt: RuleAttemptCount,
    pub step: StepCount,
    pub rule: ReturnRuleRef<'program>,
    pub program: &'program ExecutableProgram,
    pub output: ReturnOutput,
}

/// The attempt failed before it committed anything, which ends the run.
#[derive(Debug)]
pub struct BorrowedRuleAttemptFailedRun<'program> {
    pub error: RuleAttemptStepError,
    pub program: &'program ExecutableProgram,
    pub core: FailedRuleAttemptRunCore,
}

impl<'program> BorrowedRuleAttemptFailedRun<'program> {
    /// Keeps the error with what is left of the run.
    pub fn new(
        error: RuleAttemptStepError,
        program: &'program ExecutableProgram,
        core: FailedRuleAttemptRunCore,
    ) -> (failed: BorrowedRuleAttemptFailedRun<'program>)
        ensures
            failed == (BorrowedRuleAttemptFailedRun { error, program, core }),
    {
        BorrowedRuleAttemptFailedRun { error, program, core }
    }
}

/// What an attempt at a rule with successors led to.
#[derive(Debug)]
pub enum BorrowedContinuingRuleAttemptTransition<'program, E, A> where
    E: ExecutionPolicy,
    A: RuleAttemptPolicy,
 {
    AlwaysRewriteStateMismatch(BorrowedAlwaysRewriteStateMismatchRuleAttempt<'program, E, A>),
    OnceRewriteStateMismatch(BorrowedOnceRewriteStateMismatchRuleAttempt<'program, E, A>),
    AlwaysReturnStateMismatch(BorrowedAlwaysReturnStateMismatchRuleAttempt<'program, E, A>),
    OnceReturnStateMismatch(BorrowedOnceReturnStateMismatchRuleAttempt<'program, E, A>),
    OnceRewriteConsumed(BorrowedOnceRewriteConsumedRuleAttempt<'program, E, A>),
    AlwaysRewritten(BorrowedRuleAttemptAlwaysRewriteStep<'program, E, A>),
    OnceRewritten(BorrowedRuleAttemptOnceRewriteStep<'program, E, A>),
    AlwaysReturned(BorrowedRuleAttemptAlwaysReturnRun<'program>),
    OnceReturned(BorrowedRuleAttemptOnceReturnRun<'program>),
    Failed(BorrowedRuleAttemptFailedRun<'program>),
}

/// What an attempt at the last rule led to.
#[derive(Debug)]
pub enum BorrowedFinalRuleAttemptTransition<'program, E, A> where
    E: ExecutionPolicy,
    A: RuleAttemptPolicy,
 {
    StableAfterAlwaysRewriteStateMismatch(BorrowedRuleAttemptStableAfterAlwaysRewriteStateMismatch<'program>),
    StableAfterOnceRewriteStateMismatch(BorrowedRuleAttemptStableAfterOnceRewriteStateMismatch<'program>),
    StableAfterAlwaysReturnStateMismatch(BorrowedRuleAttemptStableAfterAlwaysReturnStateMismatch<'program>),
    StableAfterOnceReturnStateMismatch(BorrowedRuleAttemptStableAfterOnceReturnStateMismatch<'program>),
    StableAfterOnceRewriteConsumed(BorrowedRuleAttemptStableAfterOnceRewriteConsumed<'program>),
    AlwaysRewritten(BorrowedRuleAttemptAlwaysRewriteStep<'program, E, A>),
    OnceRewritten(BorrowedRuleAttemptOnceRewriteStep<'program, E, A>),
    AlwaysReturned(BorrowedRuleAttemptAlwaysReturnRun<'program>),
    OnceReturned(BorrowedRuleAttemptOnceReturnRun<'program>),
    Failed(BorrowedRuleAttemptFailedRun<'program>),
}

impl<'program, E: ExecutionPolicy, A: RuleAttemptPolicy> BorrowedContinuingRuleAttemptTransition<
    'program,
    E,
    A,
> {
    /// What the attempt reports.
    pub open spec fn report(self) -> AttemptReport {
        match self {
            Self::AlwaysRewriteStateMismatch(missed) => missed_report(
                missed.attempt,
                EvaluatedRuleMiss::AlwaysRewriteStateMismatch(missed.rule),
            ),
            Self::OnceRewriteStateMismatch(missed) => missed_report(
                missed.attempt,
                EvaluatedRuleMiss::OnceRewriteStateMismatch(missed.rule),
            ),
            Self::AlwaysReturnStateMismatch(missed) => missed_report(
                missed.attempt,
                EvaluatedRuleMiss::AlwaysReturnStateMismatch(missed.rule),
            ),
            Self::OnceReturnStateMismatch(missed) => missed_report(
                missed.attempt,
                EvaluatedRuleMiss::OnceReturnStateMismatch(missed.rule),
            ),
            Self::OnceRewriteConsumed(missed) => missed_report(
                missed.attempt,
                EvaluatedRuleMiss::OnceRewriteConsumed(missed.rule),
            ),
            Self::AlwaysRewritten(applied) => applied_report(
                applied.attempt,
                AppliedRule::AlwaysRewritten(
                    CommittedRewrite { step: applied.step, rule: applied.rule },
                ),
            ),
            Self::OnceRewritten(applied) => applied_report(
                applied.attempt,
                AppliedRule::OnceRewritten(
                    CommittedRewrite { step: applied.step, rule: applied.rule },
                ),
            ),
            Self::AlwaysReturned(applied) => applied_report(
                applied.attempt,
                AppliedRule::AlwaysReturned(
                    CommittedReturn {
                        step: applied.step,
                        rule: applied.rule,
                        output: applied.output,
                    },
                ),
            ),
            Self::OnceReturned(applied) => applied_report(
                applied.attempt,
                AppliedRule::OnceReturned(
                    CommittedReturn {
                        step: applied.step,
                        rule: applied.rule,
                        output: applied.output,
                    },
                ),
            ),
            Self::Failed(failed) => AttemptReport::Failed { error: failed.error },
        }
    }

    /// The run that goes on, after a miss or a rewrite.
    pub open spec fn cursor(self) -> Option<BorrowedRuleAttemptCursor<'program, E, A>> {
        match self {
            Self::AlwaysRewriteStateMismatch(missed) => Some(missed.cursor),
            Self::OnceRewriteStateMismatch(missed) => Some(missed.cursor),
            Self::AlwaysReturnStateMismatch(missed) => Some(missed.cursor),
            Self::OnceReturnStateMismatch(missed) => Some(missed.cursor),
            Self::OnceRewriteConsumed(missed) => Some(missed.cursor),
            Self::AlwaysRewritten(applied) => Some(applied.cursor),
            Self::OnceRewritten(applied) => Some(applied.cursor),
            _ => None,
        }
    }

    /// What is left of the run after a failure.
    pub open spec fn failed_core(self) -> Option<FailedRuleAttemptRunCore> {
        match self {
            Self::Failed(failed) => Some(failed.core),
            _ => None,
        }
    }

    /// The program that the run borrows.
    pub open spec fn program(self) -> &'program ExecutableProgram {
        match self {
            Self::AlwaysRewriteStateMismatch(missed) => missed.cursor.program(),
            Self::OnceRewriteStateMismatch(missed) => missed.cursor.program(),
            Self::AlwaysReturnStateMismatch(missed) => missed.cursor.program(),
            Self::OnceReturnStateMismatch(missed) => missed.cursor.program(),
            Self::OnceRewriteConsumed(missed) => missed.cursor.program(),
            Self::AlwaysRewritten(applied) => applied.cursor.program(),
            Self::OnceRewritten(applied) => applied.cursor.program(),
            Self::AlwaysReturned(applied) => applied.program,
            Self::OnceReturned(applied) => applied.program,
            Self::Failed(failed) => failed.program,
        }
    }
}

impl<'program, E: ExecutionPolicy, A: RuleAttemptPolicy> BorrowedFinalRuleAttemptTransition<
    'program,
    E,
    A,
> {
    /// What the attempt reports.
    pub open spec fn report(self) -> AttemptReport {
        match self {
            Self::StableAfterAlwaysRewriteStateMismatch(missed) => missed_report(
                missed.attempts,
                EvaluatedRuleMiss::AlwaysRewriteStateMismatch(missed.rule),
            ),
            Self::StableAfterOnceRewriteStateMismatch(missed) => missed_report(
                missed.attempts,
                EvaluatedRuleMiss::OnceRewriteStateMismatch(missed.rule),
            ),
            Self::StableAfterAlwaysReturnStateMismatch(missed) => missed_report(
                missed.attempts,
                EvaluatedRuleMiss::AlwaysReturnStateMismatch(missed.rule),
            ),
            Self::StableAfterOnceReturnStateMismatch(missed) => missed_report(
                missed.attempts,
                EvaluatedRuleMiss::OnceReturnStateMismatch(missed.rule),
            ),
            Self::StableAfterOnceRewriteConsumed(missed) => missed_report(
                missed.attempts,
                EvaluatedRuleMiss::OnceRewriteConsumed(missed.rule),
            ),
            Self::AlwaysRewritten(applied) => applied_report(
                applied.attempt,
                AppliedRule::AlwaysRewritten(
                    CommittedRewrite { step: applied.step, rule: applied.rule },
                ),
            ),
            Self::OnceRewritten(applied) => applied_report(
                applied.attempt,
                AppliedRule::OnceRewritten(
                    CommittedRewrite { step: applied.step, rule: applied.rule },
                ),
            ),
            Self::AlwaysReturned(applied) => applied_report(
                applied.attempt,
                AppliedRule::AlwaysReturned(
                    CommittedReturn {
                        step: applied.step,
                        rule: applied.rule,
                        output: applied.output,
                    },
                ),
            ),
            Self::OnceReturned(applied) => applied_report(
                applied.attempt,
                AppliedRule::OnceReturned(
                    CommittedReturn {
                        step: applied.step,
                        rule: applied.rule,
                        output: applied.output,
                    },
                ),
            ),
            Self::Failed(failed) => AttemptReport::Failed { error: failed.error },
        }
    }

    /// The run that goes on, after a rewrite.
    pub open spec fn cursor(self) -> Option<BorrowedRuleAttemptCursor<'program, E, A>> {
        match self {
            Self::AlwaysRewritten(applied) => Some(applied.cursor),
            Self::OnceRewritten(applied) => Some(applied.cursor),
            _ => None,
        }
    }

    /// What is left of the run after a miss.
    pub open spec fn stable_core(self) -> Option<TerminalRunCore> {
        match self {
            Self::StableAfterAlwaysRewriteStateMismatch(stable) => Some(stable.core),
            Self::StableAfterOnceRewriteStateMismatch(stable) => Some(stable.core),
            Self::StableAfterAlwaysReturnStateMismatch(stable) => Some(stable.core),
            Self::StableAfterOnceReturnStateMismatch(stable) => Some(stable.core),
            Self::StableAfterOnceRewriteConsumed(stable) => Some(stable.core),
            _ => None,
        }
    }

    /// What is left of the run after a failure.
    pub open spec fn failed_core(self) -> Option<FailedRuleAttemptRunCore> {
        match self {
            Self::Failed(failed) => Some(failed.core),
            _ => None,
        }
    }

    /// The program that the run borrows.
    pub open spec fn program(self) -> &'program ExecutableProgram {
        match self {
            Self::StableAfterAlwaysRewriteStateMismatch(stable) => stable.program,
            Self::StableAfterOnceRewriteStateMismatch(stable) => stable.program,
            Self::StableAfterAlwaysReturnStateMismatch(stable) => stable.program,
            Self::StableAfterOnceReturnStateMismatch(stable) => stable.program,
            Self::StableAfterOnceRewriteConsumed(stable) => stable.program,
            Self::AlwaysRewritten(applied) => applied.cursor.program(),
            Self::OnceRewritten(applied) => applied.cursor.program(),
            Self::AlwaysReturned(applied) => applied.program,
            Self::OnceReturned(applied) => applied.program,
            Self::Failed(failed) => failed.program,
        }
    }
}

} // verus!
