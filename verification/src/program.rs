use vstd::prelude::*;

verus! {

/// Replaces the leftmost occurrence of `pattern` in the state by `replacement`.
#[derive(Debug, PartialEq, Eq)]
pub struct RewriteRule {
    pub pattern: Vec<u8>,
    pub replacement: Vec<u8>,
}

/// Ends the run with `output` when `pattern` occurs in the state.
#[derive(Debug, PartialEq, Eq)]
pub struct ReturnRule {
    pub pattern: Vec<u8>,
    pub output: Vec<u8>,
}

/// One rule of a program.
#[derive(Debug, PartialEq, Eq)]
pub enum ExecutableRule {
    /// Rewrites whenever it matches.
    AlwaysRewrite(RewriteRule),
    /// Rewrites the first time it matches and is consumed by that.
    OnceRewrite(RewriteRule),
    /// Returns whenever it matches.
    AlwaysReturn(ReturnRule),
    /// Returns once; the return ends the run.
    OnceReturn(ReturnRule),
}

impl ExecutableRule {
    /// The bytes that the rule looks for.
    pub open spec fn pattern(self) -> Seq<u8> {
        match self {
            ExecutableRule::AlwaysRewrite(rule) => rule.pattern@,
            ExecutableRule::OnceRewrite(rule) => rule.pattern@,
            ExecutableRule::AlwaysReturn(rule) => rule.pattern@,
            ExecutableRule::OnceReturn(rule) => rule.pattern@,
        }
    }
}

/// Rules in the order in which a pass tries them.
#[derive(Debug, PartialEq, Eq)]
pub struct ExecutableProgram {
    pub rules: Vec<ExecutableRule>,
}

/// A rewrite rule of a program, with its place in the rule list.
#[derive(Clone, Copy, Debug, PartialEq, Eq)]
pub struct RewriteRuleRef<'program> {
    pub position: usize,
    pub rule: &'program RewriteRule,
}

/// A return rule of a program, with its place in the rule list.
#[derive(Clone, Copy, Debug, PartialEq, Eq)]
pub struct ReturnRuleRef<'program> {
    pub position: usize,
    pub rule: &'program ReturnRule,
}

} // verus!
