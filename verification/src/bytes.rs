use vstd::prelude::*;

verus! {

/// Length in bytes of a runtime state.
#[derive(Clone, Copy, Debug, PartialEq, Eq, Structural)]
pub struct RuntimeStateByteCount {
    pub bytes: usize,
}

/// Length in bytes of the output of a return rule.
#[derive(Clone, Copy, Debug, PartialEq, Eq, Structural)]
pub struct ReturnOutputByteCount {
    pub bytes: usize,
}

} // verus!
