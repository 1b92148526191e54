use vstd::prelude::*;

use crate::bytes::{ReturnOutputByteCount, RuntimeStateByteCount};

verus! {

/// Number of rule attempts that a run has committed.
#[derive(Clone, Copy, Debug, PartialEq, Eq, Structural)]
pub struct RuleAttemptCount {
    pub value: u64,
}

impl View for RuleAttemptCount {
    type V = nat;

    open spec fn view(&self) -> nat {
        self.value as nat
    }
}

impl RuleAttemptCount {
    /// The count after one more attempt, unless it cannot be represented.
    pub fn checked_next(self) -> (next: Option<RuleAttemptCount>)
        ensures
            next is Some <==> self@ < u64::MAX,
            next matches Some(count) ==> count@ == self@ + 1,
    {
        match self.value.checked_add(1) {
            Some(value) => Some(RuleAttemptCount { value }),
            None => None,
        }
    }
}

/// Number of runtime steps (rule applications) that a run has committed.
#[derive(Clone, Copy, Debug, PartialEq, Eq, Structural)]
pub struct StepCount {
    pub value: u64,
}

impl View for StepCount {
    type V = nat;

    open spec fn view(&self) -> nat {
        self.value as nat
    }
}

impl StepCount {
    /// The count after one more step, unless it cannot be represented.
    pub fn checked_next(self) -> (next: Option<StepCount>)
        ensures
            next is Some <==> self@ < u64::MAX,
            next matches Some(count) ==> count@ == self@ + 1,
    {
        match self.value.checked_add(1) {
            Some(value) => Some(StepCount { value }),
            None => None,
        }
    }
}

/// Bounds on what the steps of a run may do; `None` leaves a quantity unbounded.
#[derive(Clone, Copy, Debug, PartialEq, Eq)]
pub struct ExecutionLimits {
    /// Most steps that the run may commit.
    pub steps: Option<StepCount>,
    /// Most bytes that a rewritten state may hold.
    pub state_bytes: Option<RuntimeStateByteCount>,
    /// Most bytes that a return output may hold.
    pub return_bytes: Option<ReturnOutputByteCount>,
}

} // verus!
