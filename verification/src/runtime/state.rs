use vstd::prelude::*;

use crate::bytes::RuntimeStateByteCount;

verus! {

/// The bytes that a run rewrites.
#[derive(Debug, PartialEq, Eq)]
pub struct State {
    pub bytes: Vec<u8>,
}

impl View for State {
    type V = Seq<u8>;

    open spec fn view(&self) -> Seq<u8> {
        self.bytes@
    }
}

impl State {
    /// The length of the state.
    pub fn byte_count(&self) -> (count: RuntimeStateByteCount)
        ensures
            count.bytes == self@.len(),
    {
        RuntimeStateByteCount { bytes: self.bytes.len() }
    }
}

} // verus!
