use vstd::prelude::*;

use crate::bytes::RuntimeStateByteCount;
use crate::error::{RuleAttemptStepError, StepError};
use crate::limits::{ExecutionLimits, RuleAttemptCount, StepCount};
use crate::policy::{ExecutionPolicy, RuleAttemptPolicy};

verus! {

/// What refuses the attempt after `attempts` committed ones, if anything does.
pub open spec fn attempt_reservation_error(
    limit: Option<RuleAttemptCount>,
    attempts: nat,
    state_len: RuntimeStateByteCount,
) -> Option<RuleAttemptStepError> {
    if limit matches Some(limit) && limit@ <= attempts {
        Some(RuleAttemptStepError::AttemptLimitReached { limit: limit->0, state_len })
    } else if attempts >= u64::MAX {
        Some(RuleAttemptStepError::AttemptCountOverflow { state_len })
    } else {
        None
    }
}

/// What refuses the step after `steps` committed ones, if anything does.
pub open spec fn step_reservation_error(
    limits: ExecutionLimits,
    steps: nat,
    state_len: RuntimeStateByteCount,
) -> Option<StepError> {
    if limits.steps matches Some(limit) && limit@ <= steps {
        Some(StepError::StepLimitReached { limit: limits.steps->0, state_len })
    } else if steps >= u64::MAX {
        Some(StepError::StepCountOverflow { state_len })
    } else {
        None
    }
}

/// Rule attempts that a run has committed, and the policy that bounds them.
#[derive(Debug)]
pub struct RuleAttemptBudgetState<A: RuleAttemptPolicy> {
    pub policy: A,
    pub attempts: RuleAttemptCount,
}

/// The next rule attempt, reserved but not counted until it commits.
///
/// Dropping the reservation leaves the budget as it was.
pub struct RuleAttemptReservation<'attempt_budget, A: RuleAttemptPolicy> {
    pub budget: &'attempt_budget mut RuleAttemptBudgetState<A>,
    pub next: RuleAttemptCount,
}

impl<A: RuleAttemptPolicy> RuleAttemptBudgetState<A> {
    /// Reserves the next attempt.
    ///
    /// # Errors
    ///
    /// Fails if the policy admits no further attempt or the next count cannot be represented;
    /// the budget then stays as it was.
    pub fn reserve_next_attempt(&mut self, state_len: RuntimeStateByteCount) -> (result: Result<
        RuleAttemptReservation<'_, A>,
        RuleAttemptStepError,
    >)
        ensures
            result is Ok <==> {
                &&& old(self).attempts.value < u64::MAX
                &&& old(self).policy.attempt_limit_spec() matches Some(limit)
                    ==> old(self).attempts.value < limit.value
            },
            match result {
                Ok(reservation) => {
                    &&& attempt_reservation_error(
                        old(self).policy.attempt_limit_spec(),
                        old(self).attempts@,
                        state_len,
                    ) is None
                    &&& *reservation.budget == *old(self)
                    &&& *final(self) == *final(reservation.budget)
                    &&& reservation.next@ == old(self).attempts@ + 1
                },
                Err(error) => {
                    &&& attempt_reservation_error(
                        old(self).policy.attempt_limit_spec(),
                        old(self).attempts@,
                        state_len,
                    ) == Some(error)
                    &&& *final(self) == *old(self)
                },
            },
    {
        if let Some(limit) = self.policy.attempt_limit() {
            if limit.value <= self.attempts.value {
                return Err(RuleAttemptStepError::AttemptLimitReached { limit, state_len });
            }
        }
        match self.attempts.checked_next() {
            Some(next) => Ok(RuleAttemptReservation { budget: self, next }),
            None => Err(RuleAttemptStepError::AttemptCountOverflow { state_len }),
        }
    }
}

impl<'attempt_budget, A: RuleAttemptPolicy> RuleAttemptReservation<'attempt_budget, A> {
    /// Counts the reserved attempt and returns the new count.
    pub fn commit(self) -> (attempt: RuleAttemptCount)
        ensures
            attempt == self.next,
            *final(self.budget) == (RuleAttemptBudgetState {
                attempts: self.next,
                ..*old(self.budget)
            }),
    {
        self.budget.attempts = self.next;
        self.next
    }
}

/// Runtime steps that a run has committed, and the policy that bounds them.
#[derive(Debug)]
pub struct RuntimeBudgetState<E: ExecutionPolicy> {
    pub policy: E,
    pub steps: StepCount,
}

/// The next runtime step, reserved but not counted until it commits.
///
/// Dropping the reservation leaves the budget as it was.
pub struct StepReservation<'step_budget, E: ExecutionPolicy> {
    pub budget: &'step_budget mut RuntimeBudgetState<E>,
    pub next: StepCount,
}

impl<E: ExecutionPolicy> RuntimeBudgetState<E> {
    /// Reserves the next step.
    ///
    /// # Errors
    ///
    /// Fails if the policy admits no further step or the next count cannot be represented; the
    /// budget then stays as it was.
    pub fn reserve_next_step(&mut self, state_len: RuntimeStateByteCount) -> (result: Result<
        StepReservation<'_, E>,
        StepError,
    >)
        ensures
            result is Ok <==> {
                &&& old(self).steps.value < u64::MAX
                &&& old(self).policy.limits_spec().steps matches Some(limit)
                    ==> old(self).steps.value < limit.value
            },
            match result {
                Ok(reservation) => {
                    &&& step_reservation_error(
                        old(self).policy.limits_spec(),
                        old(self).steps@,
                        state_len,
                    ) is None
                    &&& *reservation.budget == *old(self)
                    &&& *final(self) == *final(reservation.budget)
                    &&& reservation.next@ == old(self).steps@ + 1
                },
                Err(error) => {
                    &&& step_reservation_error(
                        old(self).policy.limits_spec(),
                        old(self).steps@,
                        state_len,
                    ) == Some(error)
                    &&& *final(self) == *old(self)
                },
            },
    {
        if let Some(limit) = self.policy.limits().steps {
            if limit.value <= self.steps.value {
                return Err(StepError::StepLimitReached { limit, state_len });
            }
        }
        match self.steps.checked_next() {
            Some(next) => Ok(StepReservation { budget: self, next }),
            None => Err(StepError::StepCountOverflow { state_len }),
        }
    }
}

impl<'step_budget, E: ExecutionPolicy> StepReservation<'step_budget, E> {
    /// Counts the reserved step and returns the new count.
    pub fn commit(self) -> (step: StepCount)
        ensures
            step == self.next,
            *final(self.budget) == (RuntimeBudgetState {
                steps: self.next,
                ..*old(self.budget)
            }),
    {
        self.budget.steps = self.next;
        self.next
    }
}

} // verus!
