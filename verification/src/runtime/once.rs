use vstd::prelude::*;

use crate::program::{ExecutableProgram, ExecutableRule, ReturnRuleRef, RewriteRuleRef};
use crate::runtime::matcher::{
    find_leftmost, leftmost, occurs, EvaluatedRuleMiss, MatchedRuleApplication,
    RuleAttemptEvaluation,
};
use crate::runtime::rewrite::RewriteSite;
use crate::runtime::state::State;

verus! {

/// Whether a once-rewrite rule is consumed, borrowed for the attempt that may consume it.
pub struct OnceSlot<'once> {
    pub consumed: &'once mut bool,
}

/// Place of a run in its program, with the slots of the once-rewrite rules.
#[derive(Debug)]
pub struct RuntimeRules<'program> {
    pub program: &'program ExecutableProgram,
    /// One slot per rule; only those of once-rewrite rules are ever set.
    pub consumed: Vec<bool>,
    /// The rule that the next attempt tries.
    pub position: usize,
}

/// Pass whose current rule has successors.
#[derive(Debug)]
pub struct ContinuingRuntimeRulePass<'program> {
    pub rules: RuntimeRules<'program>,
}

/// Pass whose current rule is the last one.
#[derive(Debug)]
pub struct FinalRuntimeRulePass<'program> {
    pub rules: RuntimeRules<'program>,
}

/// Pass of either shape.
#[derive(Debug)]
pub enum RuntimeRulePass<'program> {
    Continuing(ContinuingRuntimeRulePass<'program>),
    Final(FinalRuntimeRulePass<'program>),
}

impl<'program> RuntimeRules<'program> {
    /// There is a current rule, every rule has a slot, and only once-rewrite rules are consumed.
    pub open spec fn wf(self) -> bool {
        &&& self.position < self.program.rules@.len()
        &&& self.consumed@.len() == self.program.rules@.len()
        &&& forall|i: int|
            0 <= i < self.consumed@.len() && #[trigger] self.consumed@[i]
                ==> self.program.rules@[i] is OnceRewrite
    }

    /// The rule that the next attempt tries.
    pub open spec fn current(self) -> ExecutableRule {
        self.program.rules@[self.position as int]
    }

    /// Whether the current rule applies to `state`.
    pub open spec fn applies(self, state: Seq<u8>) -> bool {
        !self.consumed@[self.position as int] && occurs(state, self.current().pattern())
    }

    /// `evaluation` is what the current rule gives on `state`.
    pub open spec fn evaluates_to(
        self,
        state: Seq<u8>,
        evaluation: RuleAttemptEvaluation<'program, '_, '_>,
    ) -> bool {
        match evaluation {
            RuleAttemptEvaluation::Miss(miss) => {
                &&& !self.applies(state)
                &&& miss.rule() == self.current()
                &&& miss.position() == self.position
                &&& miss.consumed() == self.consumed@[self.position as int]
            },
            RuleAttemptEvaluation::Matched(matched) => {
                &&& self.applies(state)
                &&& matched.rule() == self.current()
                &&& matched.position() == self.position
                &&& matched.matched_in(state.len() as int)
                &&& matched.site() matches Some(site) ==> {
                    &&& site.state@ == state
                    &&& site.start == leftmost(state, self.current().pattern())
                }
            },
        }
    }

    /// Tries the current rule against `state`.
    ///
    /// The slot of a once-rewrite rule that matched stays borrowed by the result; nothing else
    /// of the pass can change through it.
    pub fn attempt_current_rule<'state, 'once>(
        &'once mut self,
        state: &'state State,
    ) -> (evaluation: RuleAttemptEvaluation<'program, 'state, 'once>)
        requires
            old(self).wf(),
        ensures
            old(self).evaluates_to(state@, evaluation),
            final(self).program == old(self).program,
            final(self).position == old(self).position,
            match evaluation {
                RuleAttemptEvaluation::Matched(
                    MatchedRuleApplication::OnceRewrite { slot, .. },
                ) => {
                    &&& !*slot.consumed
                    &&& final(self).consumed@ == old(self).consumed@.update(
                        old(self).position as int,
                        *final(slot.consumed),
                    )
                },
                _ => final(self).consumed@ == old(self).consumed@,
            },
    {
        let program: &'program ExecutableProgram = self.program;
        let position: usize = self.position;
        match &program.rules[position] {
            ExecutableRule::AlwaysRewrite(rewrite) => {
                let rule = RewriteRuleRef { position, rule: rewrite };
                match find_leftmost(state, &rewrite.pattern) {
                    Some(start) => RuleAttemptEvaluation::Matched(
                        MatchedRuleApplication::AlwaysRewrite {
                            rule,
                            site: RewriteSite { state, start },
                        },
                    ),
                    None => RuleAttemptEvaluation::Miss(
                        EvaluatedRuleMiss::AlwaysRewriteStateMismatch(rule),
                    ),
                }
            },
            ExecutableRule::OnceRewrite(rewrite) => {
                let rule = RewriteRuleRef { position, rule: rewrite };
                if self.consumed[position] {
                    return RuleAttemptEvaluation::Miss(EvaluatedRuleMiss::OnceRewriteConsumed(rule));
                }
                match find_leftmost(state, &rewrite.pattern) {
                    Some(start) => RuleAttemptEvaluation::Matched(
                        MatchedRuleApplication::OnceRewrite {
                            rule,
                            site: RewriteSite { state, start },
                            slot: OnceSlot { consumed: &mut self.consumed[position] },
                        },
                    ),
                    None => RuleAttemptEvaluation::Miss(
                        EvaluatedRuleMiss::OnceRewriteStateMismatch(rule),
                    ),
                }
            },
            ExecutableRule::AlwaysReturn(returning) => {
                let rule = ReturnRuleRef { position, rule: returning };
                match find_leftmost(state, &returning.pattern) {
                    Some(_) => RuleAttemptEvaluation::Matched(
                        MatchedRuleApplication::AlwaysReturn { rule },
                    ),
                    None => RuleAttemptEvaluation::Miss(
                        EvaluatedRuleMiss::AlwaysReturnStateMismatch(rule),
                    ),
                }
            },
            ExecutableRule::OnceReturn(returning) => {
                let rule = ReturnRuleRef { position, rule: returning };
                match find_leftmost(state, &returning.pattern) {
                    Some(_) => RuleAttemptEvaluation::Matched(
                        MatchedRuleApplication::OnceReturn { rule },
                    ),
                    None => RuleAttemptEvaluation::Miss(
                        EvaluatedRuleMiss::OnceReturnStateMismatch(rule),
                    ),
                }
            },
        }
    }

    /// The pass at the current position, in the shape that its successors give it.
    pub fn into_pass(self) -> (pass: RuntimeRulePass<'program>)
        requires
            self.wf(),
        ensures
            pass.wf(),
            pass.rules() == self,
    {
        if self.program.rules.len() - self.position > 1 {
            RuntimeRulePass::Continuing(ContinuingRuntimeRulePass { rules: self })
        } else {
            RuntimeRulePass::Final(FinalRuntimeRulePass { rules: self })
        }
    }
}

impl<'program> RuntimeRulePass<'program> {
    /// The place of the pass.
    pub open spec fn rules(self) -> RuntimeRules<'program> {
        match self {
            RuntimeRulePass::Continuing(pass) => pass.rules,
            RuntimeRulePass::Final(pass) => pass.rules,
        }
    }

    /// The shape says truly whether the current rule has successors.
    pub open spec fn wf(self) -> bool {
        match self {
            RuntimeRulePass::Continuing(pass) => pass.wf(),
            RuntimeRulePass::Final(pass) => pass.wf(),
        }
    }

    /// The first pass over a program, with no once rule consumed; `None` if it has no rules.
    pub fn start(program: &'program ExecutableProgram) -> (pass: Option<RuntimeRulePass<'program>>)
        ensures
            pass is None <==> program.rules@.len() == 0,
            pass matches Some(pass) ==> {
                &&& pass.wf()
                &&& pass.rules().program == program
                &&& pass.rules().position == 0
                &&& forall|i: int|
                    0 <= i < program.rules@.len() ==> !#[trigger] pass.rules().consumed@[i]
            },
    {
        if program.rules.len() == 0 {
            return None;
        }
        let consumed: Vec<bool> = vec![false; program.rules.len()];
        Some(RuntimeRules { program, consumed, position: 0 }.into_pass())
    }
}

impl<'program> ContinuingRuntimeRulePass<'program> {
    /// The current rule has a successor.
    pub open spec fn wf(self) -> bool {
        &&& self.rules.wf()
        &&& self.rules.position + 1 < self.rules.program.rules@.len()
    }

    /// Tries the current rule against `state`.
    pub fn attempt_current_rule<'state, 'once>(
        &'once mut self,
        state: &'state State,
    ) -> (evaluation: RuleAttemptEvaluation<'program, 'state, 'once>)
        requires
            old(self).wf(),
        ensures
            old(self).rules.evaluates_to(state@, evaluation),
            final(self).rules.program == old(self).rules.program,
            final(self).rules.position == old(self).rules.position,
            match evaluation {
                RuleAttemptEvaluation::Matched(
                    MatchedRuleApplication::OnceRewrite { slot, .. },
                ) => {
                    &&& !*slot.consumed
                    &&& final(self).rules.consumed@ == old(self).rules.consumed@.update(
                        old(self).rules.position as int,
                        *final(slot.consumed),
                    )
                },
                _ => final(self).rules.consumed@ == old(self).rules.consumed@,
            },
    {
        self.rules.attempt_current_rule(state)
    }

    /// Moves on to the next rule after a miss.
    pub fn commit_miss(self) -> (pass: RuntimeRulePass<'program>)
        requires
            self.wf(),
        ensures
            pass.wf(),
            pass.rules().position == self.rules.position + 1,
            pass.rules().program == self.rules.program,
            pass.rules().consumed == self.rules.consumed,
    {
        let mut rules = self.rules;
        assert(rules.position + 1 < rules.program.rules.len());
        rules.position = rules.position + 1;
        rules.into_pass()
    }

    /// Starts over at the first rule after a rewrite; consumed rules stay consumed.
    pub fn reset_after_rewrite(self) -> (pass: RuntimeRulePass<'program>)
        requires
            self.wf(),
        ensures
            pass.wf(),
            pass.rules() == (RuntimeRules { position: 0, ..self.rules }),
    {
        let mut rules = self.rules;
        rules.position = 0;
        rules.into_pass()
    }
}

impl<'program> FinalRuntimeRulePass<'program> {
    /// The current rule is the last one.
    pub open spec fn wf(self) -> bool {
        &&& self.rules.wf()
        &&& self.rules.position + 1 == self.rules.program.rules@.len()
    }

    /// Tries the current rule against `state`.
    pub fn attempt_current_rule<'state, 'once>(
        &'once mut self,
        state: &'state State,
    ) -> (evaluation: RuleAttemptEvaluation<'program, 'state, 'once>)
        requires
            old(self).wf(),
        ensures
            old(self).rules.evaluates_to(state@, evaluation),
            final(self).rules.program == old(self).rules.program,
            final(self).rules.position == old(self).rules.position,
            match evaluation {
                RuleAttemptEvaluation::Matched(
                    MatchedRuleApplication::OnceRewrite { slot, .. },
                ) => {
                    &&& !*slot.consumed
                    &&& final(self).rules.consumed@ == old(self).rules.consumed@.update(
                        old(self).rules.position as int,
                        *final(slot.consumed),
                    )
                },
                _ => final(self).rules.consumed@ == old(self).rules.consumed@,
            },
    {
        self.rules.attempt_current_rule(state)
    }

    /// Starts over at the first rule after a rewrite; consumed rules stay consumed.
    pub fn reset_after_rewrite(self) -> (pass: RuntimeRulePass<'program>)
        requires
            self.wf(),
        ensures
            pass.wf(),
            pass.rules() == (RuntimeRules { position: 0, ..self.rules }),
    {
        let mut rules = self.rules;
        rules.position = 0;
        rules.into_pass()
    }
}

} // verus!
