use vstd::prelude::*;

use crate::execution::engine::{
    AttemptRunCoreParts, ContinuingRuleAttemptCore, ContinuingRuleAttemptRun, FinalRuleAttemptCore,
    FinalRuleAttemptRun,
};
use crate::execution::model::{run_model, RunModel};
use crate::policy::{ExecutionPolicy, RuleAttemptPolicy};
use crate::program::ExecutableProgram;
use crate::runtime::once::{RuntimeRulePass, RuntimeRules};

verus! {

/// A run that can make another attempt, in the shape of its pass.
#[derive(Debug)]
pub enum BorrowedRuleAttemptCursor<'program, E: ExecutionPolicy, A: RuleAttemptPolicy> {
    Continuing(ContinuingRuleAttemptRun<'program, E, A>),
    Final(FinalRuleAttemptRun<'program, E, A>),
}

impl<'program, E: ExecutionPolicy, A: RuleAttemptPolicy> BorrowedRuleAttemptCursor<
    'program,
    E,
    A,
> {
    /// The program that the run borrows.
    pub open spec fn program(self) -> &'program ExecutableProgram {
        match self {
            BorrowedRuleAttemptCursor::Continuing(run) => run.program,
            BorrowedRuleAttemptCursor::Final(run) => run.program,
        }
    }

    /// The parts of the run.
    pub open spec fn parts(self) -> AttemptRunCoreParts<E, A> {
        match self {
            BorrowedRuleAttemptCursor::Continuing(run) => run.core.parts,
            BorrowedRuleAttemptCursor::Final(run) => run.core.parts,
        }
    }

    /// The pass of the run.
    pub open spec fn pass(self) -> RuntimeRulePass<'program> {
        match self {
            BorrowedRuleAttemptCursor::Continuing(run) => RuntimeRulePass::Continuing(
                run.core.runtime_rules,
            ),
            BorrowedRuleAttemptCursor::Final(run) => RuntimeRulePass::Final(run.core.runtime_rules),
        }
    }

    /// The place of the run in its program.
    pub open spec fn rules(self) -> RuntimeRules<'program> {
        self.pass().rules()
    }

    /// The pass has its shape and runs over the program of the run.
    pub open spec fn wf(self) -> bool {
        &&& self.pass().wf()
        &&& self.rules().program == self.program()
    }

    /// The run as values.
    pub open spec fn model(self) -> RunModel<E, A> {
        run_model(self.parts(), self.rules())
    }

    /// Puts a run together again in the shape of its pass.
    pub fn from_runtime_pass(
        program: &'program ExecutableProgram,
        parts: AttemptRunCoreParts<E, A>,
        pass: RuntimeRulePass<'program>,
    ) -> (cursor: BorrowedRuleAttemptCursor<'program, E, A>)
        ensures
            cursor.program() == program,
            cursor.parts() == parts,
            cursor.pass() == pass,
    {
        match pass {
            RuntimeRulePass::Continuing(runtime_rules) => BorrowedRuleAttemptCursor::Continuing(
                ContinuingRuleAttemptRun {
                    program,
                    core: ContinuingRuleAttemptCore { parts, runtime_rules },
                },
            ),
            RuntimeRulePass::Final(runtime_rules) => BorrowedRuleAttemptCursor::Final(
                FinalRuleAttemptRun { program, core: FinalRuleAttemptCore { parts, runtime_rules } },
            ),
        }
    }
}

} // verus!
