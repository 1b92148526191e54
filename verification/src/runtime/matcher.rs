use vstd::prelude::*;

use crate::program::{ExecutableRule, ReturnRuleRef, RewriteRuleRef};
use crate::runtime::once::OnceSlot;
use crate::runtime::rewrite::RewriteSite;
use crate::runtime::state::State;

verus! {

/// `pattern` stands in `state` at `start`.
pub open spec fn occurs_at(state: Seq<u8>, pattern: Seq<u8>, start: int) -> bool {
    &&& 0 <= start
    &&& start + pattern.len() <= state.len()
    &&& state.subrange(start, start + pattern.len()) =~= pattern
}

/// `pattern` stands somewhere in `state`.
pub open spec fn occurs(state: Seq<u8>, pattern: Seq<u8>) -> bool {
    exists|start: int| occurs_at(state, pattern, start)
}

/// `pattern` stands in `state` at `start` and nowhere before.
pub open spec fn is_leftmost(state: Seq<u8>, pattern: Seq<u8>, start: int) -> bool {
    &&& occurs_at(state, pattern, start)
    &&& forall|earlier: int| 0 <= earlier < start ==> !occurs_at(state, pattern, earlier)
}

/// Where `pattern` first stands in `state`, if it does.
pub open spec fn leftmost(state: Seq<u8>, pattern: Seq<u8>) -> int {
    choose|start: int| is_leftmost(state, pattern, start)
}

/// Exact result of a rule that did not apply.
#[derive(Clone, Copy, Debug)]
pub enum EvaluatedRuleMiss<'program> {
    /// The pattern of an always-rewrite rule does not occur in the state.
    AlwaysRewriteStateMismatch(RewriteRuleRef<'program>),
    /// The pattern of an unconsumed once-rewrite rule does not occur in the state.
    OnceRewriteStateMismatch(RewriteRuleRef<'program>),
    /// The pattern of an always-return rule does not occur in the state.
    AlwaysReturnStateMismatch(ReturnRuleRef<'program>),
    /// The pattern of a once-return rule does not occur in the state.
    OnceReturnStateMismatch(ReturnRuleRef<'program>),
    /// The once-rewrite rule has already rewritten.
    OnceRewriteConsumed(RewriteRuleRef<'program>),
}

impl<'program> EvaluatedRuleMiss<'program> {
    /// The rule that missed.
    pub open spec fn rule(self) -> ExecutableRule {
        match self {
            EvaluatedRuleMiss::AlwaysRewriteStateMismatch(rule) => ExecutableRule::AlwaysRewrite(
                *rule.rule,
            ),
            EvaluatedRuleMiss::OnceRewriteStateMismatch(rule) => ExecutableRule::OnceRewrite(
                *rule.rule,
            ),
            EvaluatedRuleMiss::AlwaysReturnStateMismatch(rule) => ExecutableRule::AlwaysReturn(
                *rule.rule,
            ),
            EvaluatedRuleMiss::OnceReturnStateMismatch(rule) => ExecutableRule::OnceReturn(
                *rule.rule,
            ),
            EvaluatedRuleMiss::OnceRewriteConsumed(rule) => ExecutableRule::OnceRewrite(*rule.rule),
        }
    }

    /// The place of the rule in its program.
    pub open spec fn position(self) -> int {
        match self {
            EvaluatedRuleMiss::AlwaysRewriteStateMismatch(rule) => rule.position as int,
            EvaluatedRuleMiss::OnceRewriteStateMismatch(rule) => rule.position as int,
            EvaluatedRuleMiss::AlwaysReturnStateMismatch(rule) => rule.position as int,
            EvaluatedRuleMiss::OnceReturnStateMismatch(rule) => rule.position as int,
            EvaluatedRuleMiss::OnceRewriteConsumed(rule) => rule.position as int,
        }
    }

    /// Whether the rule missed because it was consumed.
    pub open spec fn consumed(self) -> bool {
        self is OnceRewriteConsumed
    }
}

/// A rule that applies to the state, before anything of it is prepared.
#[allow(inconsistent_fields)]
pub enum MatchedRuleApplication<'program, 'state, 'once> {
    AlwaysRewrite { rule: RewriteRuleRef<'program>, site: RewriteSite<'state> },
    OnceRewrite {
        rule: RewriteRuleRef<'program>,
        site: RewriteSite<'state>,
        slot: OnceSlot<'once>,
    },
    AlwaysReturn { rule: ReturnRuleRef<'program> },
    OnceReturn { rule: ReturnRuleRef<'program> },
}

impl<'program, 'state, 'once> MatchedRuleApplication<'program, 'state, 'once> {
    /// The rule that matched.
    pub open spec fn rule(self) -> ExecutableRule {
        match self {
            MatchedRuleApplication::AlwaysRewrite { rule, .. } => ExecutableRule::AlwaysRewrite(
                *rule.rule,
            ),
            MatchedRuleApplication::OnceRewrite { rule, .. } => ExecutableRule::OnceRewrite(
                *rule.rule,
            ),
            MatchedRuleApplication::AlwaysReturn { rule } => ExecutableRule::AlwaysReturn(
                *rule.rule,
            ),
            MatchedRuleApplication::OnceReturn { rule } => ExecutableRule::OnceReturn(*rule.rule),
        }
    }

    /// The place of the rule in its program.
    pub open spec fn position(self) -> int {
        match self {
            MatchedRuleApplication::AlwaysRewrite { rule, .. } => rule.position as int,
            MatchedRuleApplication::OnceRewrite { rule, .. } => rule.position as int,
            MatchedRuleApplication::AlwaysReturn { rule } => rule.position as int,
            MatchedRuleApplication::OnceReturn { rule } => rule.position as int,
        }
    }

    /// The place in the state that a rewrite rule matched.
    pub open spec fn site(self) -> Option<RewriteSite<'state>> {
        match self {
            MatchedRuleApplication::AlwaysRewrite { site, .. } => Some(site),
            MatchedRuleApplication::OnceRewrite { site, .. } => Some(site),
            _ => None,
        }
    }

    /// A rewrite matched the leftmost occurrence of its pattern in a state of `state_len` bytes.
    pub open spec fn matched_in(self, state_len: int) -> bool {
        self.site() matches Some(site) ==> {
            &&& site.state@.len() == state_len
            &&& is_leftmost(site.state@, self.rule().pattern(), site.start as int)
        }
    }
}

/// What trying a rule against the state gave.
pub enum RuleAttemptEvaluation<'program, 'state, 'once> {
    Miss(EvaluatedRuleMiss<'program>),
    Matched(MatchedRuleApplication<'program, 'state, 'once>),
}

/// Whether `pattern` stands in `state` at `start`.
pub fn pattern_stands_at(state: &State, pattern: &Vec<u8>, start: usize) -> (stands: bool)
    requires
        start + pattern@.len() <= state@.len(),
    ensures
        stands == occurs_at(state@, pattern@, start as int),
        stands <==> forall|i: int|
            0 <= i < pattern@.len() ==> state@[start + i] == #[trigger] pattern@[i],
{
    let state_len: usize = state.bytes.len();
    let mut next: usize = 0;
    while next < pattern.len()
        invariant
            next <= pattern@.len(),
            start + pattern@.len() <= state_len == state@.len(),
            forall|i: int| 0 <= i < next ==> state@[start + i] == pattern@[i],
        decreases pattern@.len() - next,
    {
        if state.bytes[start + next] != pattern[next] {
            assert(state@.subrange(start as int, start + pattern@.len())[next as int]
                != pattern@[next as int]);
            return false;
        }
        next = next + 1;
    }
    true
}

/// Finds the leftmost occurrence of `pattern` in `state`.
pub fn find_leftmost(state: &State, pattern: &Vec<u8>) -> (found: Option<usize>)
    ensures
        found is Some <==> occurs(state@, pattern@),
        found matches Some(start) ==> {
            &&& is_leftmost(state@, pattern@, start as int)
            &&& start == leftmost(state@, pattern@)
        },
{
    if pattern.len() > state.bytes.len() {
        return None;
    }
    let last: usize = state.bytes.len() - pattern.len();
    let mut start: usize = 0;
    loop
        invariant
            start <= last,
            last + pattern@.len() == state@.len(),
            forall|earlier: int| 0 <= earlier < start ==> !occurs_at(state@, pattern@, earlier),
        decreases last - start,
    {
        if pattern_stands_at(state, pattern, start) {
            assert(is_leftmost(state@, pattern@, start as int));
            return Some(start);
        }
        if start == last {
            return None;
        }
        start = start + 1;
    }
}

} // verus!
