use vstd::prelude::*;

use crate::bytes::RuntimeStateByteCount;
use crate::error::StepError;
use crate::limits::ExecutionLimits;
use crate::program::RewriteRule;
use crate::runtime::state::State;

verus! {

/// `state` with the `width` bytes from `start` on replaced by `replacement`.
pub open spec fn spliced(state: Seq<u8>, start: int, width: nat, replacement: Seq<u8>) -> Seq<u8> {
    state.subrange(0, start) + replacement + state.subrange(start + width, state.len() as int)
}

/// Length of a state of `state_len` bytes after `rule` has rewritten it.
pub open spec fn rewritten_len(rule: RewriteRule, state_len: RuntimeStateByteCount) -> int {
    state_len.bytes - rule.pattern@.len() + rule.replacement@.len()
}

/// What keeps `rule` from rewriting a state of `state_len` bytes, if anything does.
///
/// `allocated` is the allocator's answer to the request for room, which is made only for a
/// rewritten state that is within its limits and not empty.
pub open spec fn rewrite_error(
    limits: ExecutionLimits,
    rule: RewriteRule,
    state_len: RuntimeStateByteCount,
    allocated: bool,
) -> Option<StepError> {
    let required = rewritten_len(rule, state_len);
    if required > usize::MAX {
        Some(StepError::StateLengthOverflow { state_len })
    } else if limits.state_bytes matches Some(limit) && required > limit.bytes {
        Some(
            StepError::StateTooLong {
                limit: limits.state_bytes->0,
                required: RuntimeStateByteCount { bytes: required as usize },
            },
        )
    } else if required > 0 && !allocated {
        Some(StepError::AllocationFailed { requested: required as usize })
    } else {
        None
    }
}

/// Whether an error is the allocator's refusal.
pub open spec fn is_allocation_failure(error: StepError) -> bool {
    error is AllocationFailed
}

/// The place in a state that a rewrite rule matched.
#[derive(Clone, Copy, Debug)]
pub struct RewriteSite<'state> {
    pub state: &'state State,
    pub start: usize,
}

/// Buffer in which the next state is built while the current one is still in place.
#[derive(Debug)]
pub struct RewriteScratch {
    pub buffer: Vec<u8>,
}

impl View for RewriteScratch {
    type V = Seq<u8>;

    open spec fn view(&self) -> Seq<u8> {
        self.buffer@
    }
}

/// Asks the allocator for room for `additional` more bytes; a request for none is granted.
pub fn reserve_bytes(buffer: &mut Vec<u8>, additional: usize) -> (reserved: bool)
    ensures
        final(buffer)@ == old(buffer)@,
        additional == 0 ==> reserved,
{
    if additional == 0 {
        return true;
    }
    match buffer.try_reserve(additional) {
        Ok(()) => true,
        Err(_) => false,
    }
}

/// Appends the bytes of `source` from `start` up to `end`.
pub fn append_range(buffer: &mut Vec<u8>, source: &Vec<u8>, start: usize, end: usize)
    requires
        start <= end <= source@.len(),
    ensures
        final(buffer)@ == old(buffer)@ + source@.subrange(start as int, end as int),
{
    let mut next: usize = start;
    while next < end
        invariant
            start <= next <= end <= source@.len(),
            buffer@ == old(buffer)@ + source@.subrange(start as int, next as int),
        decreases end - next,
    {
        buffer.push(source[next]);
        next = next + 1;
        assert(buffer@ =~= old(buffer)@ + source@.subrange(start as int, next as int));
    }
}

impl RewriteScratch {
    /// Checks the length of the rewritten state against the limits.
    pub fn required_len(
        limits: ExecutionLimits,
        rule: &RewriteRule,
        state_len: RuntimeStateByteCount,
    ) -> (result: Result<usize, StepError>)
        requires
            rule.pattern@.len() <= state_len.bytes,
        ensures
            match result {
                Ok(required) => {
                    &&& required == rewritten_len(*rule, state_len)
                    &&& rewrite_error(limits, *rule, state_len, true) is None
                },
                Err(error) => rewrite_error(limits, *rule, state_len, true) == Some(error),
            },
    {
        let kept: usize = state_len.bytes - rule.pattern.len();
        let required: usize = match kept.checked_add(rule.replacement.len()) {
            Some(required) => required,
            None => return Err(StepError::StateLengthOverflow { state_len }),
        };
        if let Some(limit) = limits.state_bytes {
            if required > limit.bytes {
                return Err(
                    StepError::StateTooLong {
                        limit,
                        required: RuntimeStateByteCount { bytes: required },
                    },
                );
            }
        }
        Ok(required)
    }

    /// Builds the rewritten state in an empty buffer, given the allocator's answer.
    pub fn fill(
        &mut self,
        reserved: bool,
        required: usize,
        rule: &RewriteRule,
        site: RewriteSite<'_>,
    ) -> (result: Result<(), StepError>)
        requires
            old(self)@.len() == 0,
            site.start + rule.pattern@.len() <= site.state@.len(),
        ensures
            match result {
                Ok(()) => {
                    &&& reserved
                    &&& final(self)@ == spliced(
                        site.state@,
                        site.start as int,
                        rule.pattern@.len(),
                        rule.replacement@,
                    )
                },
                Err(error) => {
                    &&& !reserved
                    &&& error == (StepError::AllocationFailed { requested: required })
                    &&& final(self)@ == old(self)@
                },
            },
    {
        if !reserved {
            return Err(StepError::AllocationFailed { requested: required });
        }
        let bytes = &site.state.bytes;
        let end: usize = bytes.len();
        append_range(&mut self.buffer, bytes, 0, site.start);
        append_range(&mut self.buffer, &rule.replacement, 0, rule.replacement.len());
        append_range(&mut self.buffer, bytes, site.start + rule.pattern.len(), end);
        assert(self@ =~= spliced(
            site.state@,
            site.start as int,
            rule.pattern@.len(),
            rule.replacement@,
        ));
        Ok(())
    }

    /// Prepares the rewritten state without touching the current one.
    ///
    /// # Errors
    ///
    /// Fails if the rewritten state cannot be represented, is longer than the limits admit, or
    /// finds no room.
    pub fn prepare(
        &mut self,
        limits: ExecutionLimits,
        state_len: RuntimeStateByteCount,
        rule: &RewriteRule,
        site: RewriteSite<'_>,
    ) -> (result: Result<(), StepError>)
        requires
            state_len.bytes == site.state@.len(),
            site.start + rule.pattern@.len() <= site.state@.len(),
        ensures
            match result {
                Ok(()) => {
                    &&& rewrite_error(limits, *rule, state_len, true) is None
                    &&& final(self)@ == spliced(
                        site.state@,
                        site.start as int,
                        rule.pattern@.len(),
                        rule.replacement@,
                    )
                },
                Err(error) => {
                    &&& rewrite_error(limits, *rule, state_len, !is_allocation_failure(error))
                        == Some(error)
                    &&& final(self)@ == if is_allocation_failure(error) {
                        Seq::<u8>::empty()
                    } else {
                        old(self)@
                    }
                },
            },
    {
        let required: usize = match Self::required_len(limits, rule, state_len) {
            Ok(required) => required,
            Err(error) => return Err(error),
        };
        self.buffer.clear();
        let reserved = reserve_bytes(&mut self.buffer, required);
        self.fill(reserved, required, rule, site)
    }
}

} // verus!
