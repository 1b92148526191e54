use vstd::prelude::*;

use crate::bytes::{ReturnOutputByteCount, RuntimeStateByteCount};
use crate::limits::{RuleAttemptCount, StepCount};

verus! {

/// Why a matched rule could not be prepared.
#[derive(Clone, Copy, Debug, PartialEq, Eq, Structural)]
#[allow(inconsistent_fields)]
pub enum StepError {
    /// The run has committed as many steps as its policy admits.
    StepLimitReached { limit: StepCount, state_len: RuntimeStateByteCount },
    /// The next step count cannot be represented.
    StepCountOverflow { state_len: RuntimeStateByteCount },
    /// The length of the rewritten state cannot be represented.
    StateLengthOverflow { state_len: RuntimeStateByteCount },
    /// The rewritten state would be longer than the policy admits.
    StateTooLong { limit: RuntimeStateByteCount, required: RuntimeStateByteCount },
    /// The return output is longer than the policy admits.
    ReturnOutputTooLong { limit: ReturnOutputByteCount, required: ReturnOutputByteCount },
    /// The allocator refused room for this many bytes.
    AllocationFailed { requested: usize },
}

/// Why a rule attempt failed before it committed anything.
#[derive(Clone, Copy, Debug, PartialEq, Eq, Structural)]
pub enum RuleAttemptStepError {
    /// The run has committed as many attempts as its policy admits.
    AttemptLimitReached { limit: RuleAttemptCount, state_len: RuntimeStateByteCount },
    /// The next attempt count cannot be represented.
    AttemptCountOverflow { state_len: RuntimeStateByteCount },
    /// The matched rule could not be prepared.
    Step(StepError),
}

impl From<StepError> for RuleAttemptStepError {
    fn from(error: StepError) -> (wrapped: RuleAttemptStepError) {
        RuleAttemptStepError::Step(error)
    }
}

impl vstd::std_specs::convert::FromSpecImpl<StepError> for RuleAttemptStepError {
    open spec fn obeys_from_spec() -> bool {
        true
    }

    open spec fn from_spec(error: StepError) -> RuleAttemptStepError {
        RuleAttemptStepError::Step(error)
    }
}

} // verus!
