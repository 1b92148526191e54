use vstd::prelude::*;

use crate::limits::{ExecutionLimits, RuleAttemptCount};

verus! {

/// Decides how much the steps of a run may do.
pub trait ExecutionPolicy {
    /// The bounds that the policy sets.
    spec fn limits_spec(&self) -> ExecutionLimits;

    /// Reads the bounds.
    fn limits(&self) -> (limits: ExecutionLimits)
        ensures
            limits == self.limits_spec(),
    ;
}

/// Decides how many rule attempts a run may make.
pub trait RuleAttemptPolicy {
    /// Most attempts that the run may commit; `None` sets no bound.
    spec fn attempt_limit_spec(&self) -> Option<RuleAttemptCount>;

    /// Reads the bound.
    fn attempt_limit(&self) -> (limit: Option<RuleAttemptCount>)
        ensures
            limit == self.attempt_limit_spec(),
    ;
}

/// Sets no bound on steps, state or output.
#[derive(Clone, Copy, Debug)]
pub struct UnlimitedExecution;

impl ExecutionPolicy for UnlimitedExecution {
    open spec fn limits_spec(&self) -> ExecutionLimits {
        ExecutionLimits { steps: None, state_bytes: None, return_bytes: None }
    }

    fn limits(&self) -> (limits: ExecutionLimits) {
        ExecutionLimits { steps: None, state_bytes: None, return_bytes: None }
    }
}

/// Sets the bounds that it holds.
#[derive(Clone, Copy, Debug)]
pub struct LimitedExecution {
    pub limits: ExecutionLimits,
}

impl ExecutionPolicy for LimitedExecution {
    open spec fn limits_spec(&self) -> ExecutionLimits {
        self.limits
    }

    fn limits(&self) -> (limits: ExecutionLimits) {
        self.limits
    }
}

/// Sets no bound on rule attempts.
#[derive(Clone, Copy, Debug)]
pub struct UnlimitedRuleAttempts;

impl RuleAttemptPolicy for UnlimitedRuleAttempts {
    open spec fn attempt_limit_spec(&self) -> Option<RuleAttemptCount> {
        None
    }

    fn attempt_limit(&self) -> (limit: Option<RuleAttemptCount>) {
        None
    }
}

/// Admits at most `limit` rule attempts.
#[derive(Clone, Copy, Debug)]
pub struct LimitedRuleAttempts {
    pub limit: RuleAttemptCount,
}

impl RuleAttemptPolicy for LimitedRuleAttempts {
    open spec fn attempt_limit_spec(&self) -> Option<RuleAttemptCount> {
        Some(self.limit)
    }

    fn attempt_limit(&self) -> (limit: Option<RuleAttemptCount>) {
        Some(self.limit)
    }
}

} // verus!
