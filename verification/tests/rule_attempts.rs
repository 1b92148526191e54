use rule_attempts::bytes::{ReturnOutputByteCount, RuntimeStateByteCount};
use rule_attempts::error::{RuleAttemptStepError, StepError};
use rule_attempts::execution::advance::{
    advance_continuing_borrowed_rule_attempt, advance_continuing_rule_attempt,
    advance_final_borrowed_rule_attempt, advance_final_rule_attempt,
    failed_continuing_rule_attempt, failed_final_rule_attempt, prepare_rule_attempt_application,
    reserve_next_rule_attempt, CommittedRuleAttemptApplication, CommittedRuleAttemptMiss,
    PreparedRuleAttemptApplication,
};
use rule_attempts::execution::engine::{
    AttemptRunCoreParts, ContinuingRuleAttemptRun, FinalRuleAttemptRun, TerminalRunCore,
};
use rule_attempts::execution::session::BorrowedRuleAttemptCursor;
use rule_attempts::execution::transition::{
    BorrowedContinuingRuleAttemptTransition as Continuing,
    BorrowedFinalRuleAttemptTransition as Final, BorrowedRuleAttemptFailedRun,
};
use rule_attempts::limits::{ExecutionLimits, RuleAttemptCount, StepCount};
use rule_attempts::policy::{
    ExecutionPolicy, LimitedExecution, LimitedRuleAttempts, RuleAttemptPolicy, UnlimitedExecution,
    UnlimitedRuleAttempts,
};
use rule_attempts::program::{
    ExecutableProgram, ExecutableRule, ReturnRule, RewriteRule, RewriteRuleRef,
};
use rule_attempts::runtime::action::{
    AppliedRule, CommittedRewrite, PreparedRuleAction, ReturnOutput,
};
use rule_attempts::runtime::budget::{RuleAttemptBudgetState, RuntimeBudgetState};
use rule_attempts::runtime::matcher::{
    find_leftmost, EvaluatedRuleMiss, MatchedRuleApplication, RuleAttemptEvaluation,
};
use rule_attempts::runtime::once::{
    ContinuingRuntimeRulePass, FinalRuntimeRulePass, RuntimeRulePass,
};
use rule_attempts::runtime::rewrite::{RewriteScratch, RewriteSite};
use rule_attempts::runtime::state::State;

fn always(pattern: &str, replacement: &str) -> ExecutableRule {
    ExecutableRule::AlwaysRewrite(rewrite(pattern, replacement))
}

fn once(pattern: &str, replacement: &str) -> ExecutableRule {
    ExecutableRule::OnceRewrite(rewrite(pattern, replacement))
}

fn rewrite(pattern: &str, replacement: &str) -> RewriteRule {
    RewriteRule {
        pattern: pattern.as_bytes().to_vec(),
        replacement: replacement.as_bytes().to_vec(),
    }
}

fn returning(pattern: &str, output: &str) -> ReturnRule {
    ReturnRule { pattern: pattern.as_bytes().to_vec(), output: output.as_bytes().to_vec() }
}

fn always_return(pattern: &str, output: &str) -> ExecutableRule {
    ExecutableRule::AlwaysReturn(returning(pattern, output))
}

fn once_return(pattern: &str, output: &str) -> ExecutableRule {
    ExecutableRule::OnceReturn(returning(pattern, output))
}

fn program(rules: Vec<ExecutableRule>) -> ExecutableProgram {
    ExecutableProgram { rules }
}

fn state(bytes: &str) -> State {
    State { bytes: bytes.as_bytes().to_vec() }
}

fn unlimited(input: &str) -> AttemptRunCoreParts<UnlimitedExecution, UnlimitedRuleAttempts> {
    AttemptRunCoreParts::new(input.as_bytes().to_vec(), UnlimitedExecution, UnlimitedRuleAttempts)
}

fn limited(
    input: &str,
    limits: ExecutionLimits,
) -> AttemptRunCoreParts<LimitedExecution, UnlimitedRuleAttempts> {
    AttemptRunCoreParts::new(
        input.as_bytes().to_vec(),
        LimitedExecution { limits },
        UnlimitedRuleAttempts,
    )
}

fn no_limits() -> ExecutionLimits {
    ExecutionLimits { steps: None, state_bytes: None, return_bytes: None }
}

fn len(bytes: usize) -> RuntimeStateByteCount {
    RuntimeStateByteCount { bytes }
}

fn attempts(value: u64) -> RuleAttemptCount {
    RuleAttemptCount { value }
}

fn steps(value: u64) -> StepCount {
    StepCount { value }
}

fn start<'p, E: ExecutionPolicy, A: RuleAttemptPolicy>(
    program: &'p ExecutableProgram,
    parts: AttemptRunCoreParts<E, A>,
) -> BorrowedRuleAttemptCursor<'p, E, A> {
    let pass = RuntimeRulePass::start(program).unwrap();
    BorrowedRuleAttemptCursor::from_runtime_pass(program, parts, pass)
}

fn continuing<'p, E: ExecutionPolicy, A: RuleAttemptPolicy>(
    cursor: BorrowedRuleAttemptCursor<'p, E, A>,
) -> ContinuingRuleAttemptRun<'p, E, A> {
    match cursor {
        BorrowedRuleAttemptCursor::Continuing(run) => run,
        BorrowedRuleAttemptCursor::Final(_) => panic!("the current rule is the last one"),
    }
}

fn finishing<'p, E: ExecutionPolicy, A: RuleAttemptPolicy>(
    cursor: BorrowedRuleAttemptCursor<'p, E, A>,
) -> FinalRuleAttemptRun<'p, E, A> {
    match cursor {
        BorrowedRuleAttemptCursor::Final(run) => run,
        BorrowedRuleAttemptCursor::Continuing(_) => panic!("the current rule has successors"),
    }
}

fn continuing_pass(program: &ExecutableProgram) -> ContinuingRuntimeRulePass<'_> {
    match RuntimeRulePass::start(program).unwrap() {
        RuntimeRulePass::Continuing(pass) => pass,
        RuntimeRulePass::Final(_) => panic!("the current rule is the last one"),
    }
}

fn final_pass(program: &ExecutableProgram) -> FinalRuntimeRulePass<'_> {
    match RuntimeRulePass::start(program).unwrap() {
        RuntimeRulePass::Final(pass) => pass,
        RuntimeRulePass::Continuing(_) => panic!("the current rule has successors"),
    }
}

#[derive(Debug, PartialEq, Eq)]
enum End {
    Stable { attempts: u64, steps: u64, state: String },
    Returned { attempts: u64, steps: u64, output: String },
    Failed { error: RuleAttemptStepError, attempts: u64, steps: u64, state: String },
}

fn text(bytes: Vec<u8>) -> String {
    String::from_utf8(bytes).unwrap()
}

fn stable_end(attempts: RuleAttemptCount, core: TerminalRunCore) -> End {
    End::Stable {
        attempts: attempts.value,
        steps: core.steps.value,
        state: text(core.state.bytes),
    }
}

fn returned_end(attempt: RuleAttemptCount, step: StepCount, output: ReturnOutput) -> End {
    End::Returned { attempts: attempt.value, steps: step.value, output: text(output.bytes) }
}

fn failed_end(failed: BorrowedRuleAttemptFailedRun<'_>) -> End {
    End::Failed {
        error: failed.error,
        attempts: failed.core.attempts.value,
        steps: failed.core.steps.value,
        state: text(failed.core.state.bytes),
    }
}

fn run<E: ExecutionPolicy, A: RuleAttemptPolicy>(
    program: &ExecutableProgram,
    parts: AttemptRunCoreParts<E, A>,
) -> End {
    let mut cursor = start(program, parts);
    loop {
        cursor = match cursor {
            BorrowedRuleAttemptCursor::Continuing(run) => {
                match advance_continuing_borrowed_rule_attempt(run) {
                    Continuing::AlwaysRewriteStateMismatch(missed) => missed.cursor,
                    Continuing::OnceRewriteStateMismatch(missed) => missed.cursor,
                    Continuing::AlwaysReturnStateMismatch(missed) => missed.cursor,
                    Continuing::OnceReturnStateMismatch(missed) => missed.cursor,
                    Continuing::OnceRewriteConsumed(missed) => missed.cursor,
                    Continuing::AlwaysRewritten(applied) => applied.cursor,
                    Continuing::OnceRewritten(applied) => applied.cursor,
                    Continuing::AlwaysReturned(r) => {
                        return returned_end(r.attempt, r.step, r.output);
                    }
                    Continuing::OnceReturned(r) => {
                        return returned_end(r.attempt, r.step, r.output);
                    }
                    Continuing::Failed(failed) => return failed_end(failed),
                }
            }
            BorrowedRuleAttemptCursor::Final(run) => {
                match advance_final_borrowed_rule_attempt(run) {
                    Final::StableAfterAlwaysRewriteStateMismatch(s) => {
                        return stable_end(s.attempts, s.core);
                    }
                    Final::StableAfterOnceRewriteStateMismatch(s) => {
                        return stable_end(s.attempts, s.core);
                    }
                    Final::StableAfterAlwaysReturnStateMismatch(s) => {
                        return stable_end(s.attempts, s.core);
                    }
                    Final::StableAfterOnceReturnStateMismatch(s) => {
                        return stable_end(s.attempts, s.core);
                    }
                    Final::StableAfterOnceRewriteConsumed(s) => {
                        return stable_end(s.attempts, s.core);
                    }
                    Final::AlwaysRewritten(applied) => applied.cursor,
                    Final::OnceRewritten(applied) => applied.cursor,
                    Final::AlwaysReturned(r) => {
                        return returned_end(r.attempt, r.step, r.output);
                    }
                    Final::OnceReturned(r) => {
                        return returned_end(r.attempt, r.step, r.output);
                    }
                    Final::Failed(failed) => return failed_end(failed),
                }
            }
        };
    }
}

// Whole runs.

#[test]
fn sorting_program_ends_stable() {
    let p = program(vec![always("ba", "ab"), always("ca", "ac"), always("cb", "bc")]);
    match run(&p, unlimited("cbacab")) {
        End::Stable { state, steps, attempts } => {
            assert_eq!(state, "aabbcc");
            // Each swap removes one inversion of "cbacab".
            assert_eq!(steps, 8);
            assert!(attempts > steps);
        }
        other => panic!("{:?}", other),
    }
}

#[test]
fn stable_state_matches_no_rule() {
    let p = program(vec![always("aa", "a"), always("bb", "b")]);
    let end = run(&p, unlimited("aabba"));
    assert_eq!(end, End::Stable { attempts: 5, steps: 2, state: "aba".to_string() });
    assert!(find_leftmost(&state("aba"), &b"aa".to_vec()).is_none());
    assert!(find_leftmost(&state("aba"), &b"bb".to_vec()).is_none());
}

#[test]
fn return_ends_the_run_with_its_output() {
    let p = program(vec![always("a", "b"), always_return("bb", "done")]);
    let end = run(&p, unlimited("aa"));
    assert_eq!(end, End::Returned { attempts: 4, steps: 3, output: "done".to_string() });
}

#[test]
fn once_rule_rewrites_at_most_once() {
    let p = program(vec![once("a", "x"), always("y", "z")]);
    let end = run(&p, unlimited("aay"));
    // Rewrite, consumed, rewrite, consumed, miss.
    assert_eq!(end, End::Stable { attempts: 5, steps: 2, state: "xaz".to_string() });
}

#[test]
fn bounded_run_ends_by_its_attempt_limit() {
    let p = program(vec![always("a", "a")]);
    let parts = AttemptRunCoreParts::new(
        b"ba".to_vec(),
        UnlimitedExecution,
        LimitedRuleAttempts { limit: attempts(7) },
    );
    assert_eq!(
        run(&p, parts),
        End::Failed {
            error: RuleAttemptStepError::AttemptLimitReached {
                limit: attempts(7),
                state_len: len(2),
            },
            attempts: 7,
            steps: 7,
            state: "ba".to_string(),
        }
    );
}

#[test]
fn program_without_rules_has_no_pass() {
    assert!(RuntimeRulePass::start(&program(vec![])).is_none());
}

// Misses at a rule with successors.

#[test]
fn continuing_always_rewrite_mismatch_moves_on() {
    let p = program(vec![always("x", "y"), always("a", "b")]);
    match advance_continuing_borrowed_rule_attempt(continuing(start(&p, unlimited("a")))) {
        Continuing::AlwaysRewriteStateMismatch(missed) => {
            assert_eq!(missed.attempt, attempts(1));
            assert_eq!(missed.rule.position, 0);
            assert_eq!(*missed.rule.rule, rewrite("x", "y"));
            let next = finishing(missed.cursor);
            assert_eq!(next.core.runtime_rules.rules.position, 1);
            assert_eq!(next.core.parts.attempt_budget.attempts, attempts(1));
            assert_eq!(next.core.parts.budget.steps, steps(0));
            assert_eq!(next.core.parts.state, state("a"));
        }
        other => panic!("{:?}", other),
    }
}

#[test]
fn continuing_once_rewrite_mismatch_leaves_slot() {
    let p = program(vec![once("x", "y"), always("a", "b"), always("c", "d")]);
    match advance_continuing_borrowed_rule_attempt(continuing(start(&p, unlimited("a")))) {
        Continuing::OnceRewriteStateMismatch(missed) => {
            assert_eq!(missed.attempt, attempts(1));
            let next = continuing(missed.cursor);
            assert_eq!(next.core.runtime_rules.rules.consumed, vec![false, false, false]);
            assert_eq!(next.core.runtime_rules.rules.position, 1);
        }
        other => panic!("{:?}", other),
    }
}

#[test]
fn continuing_return_mismatches_move_on() {
    let p = program(vec![always_return("x", "1"), once_return("y", "2"), always("a", "b")]);
    let next = match advance_continuing_borrowed_rule_attempt(continuing(start(&p, unlimited("z"))))
    {
        Continuing::AlwaysReturnStateMismatch(missed) => {
            assert_eq!(missed.attempt, attempts(1));
            assert_eq!(*missed.rule.rule, returning("x", "1"));
            continuing(missed.cursor)
        }
        other => panic!("{:?}", other),
    };
    match advance_continuing_borrowed_rule_attempt(next) {
        Continuing::OnceReturnStateMismatch(missed) => {
            assert_eq!(missed.attempt, attempts(2));
            assert_eq!(missed.rule.position, 1);
            assert_eq!(finishing(missed.cursor).core.parts.attempt_budget.attempts, attempts(2));
        }
        other => panic!("{:?}", other),
    }
}

#[test]
fn continuing_consumed_once_rule_misses_though_it_occurs() {
    let p = program(vec![once("a", "a"), always("x", "y")]);
    let next = match advance_continuing_borrowed_rule_attempt(continuing(start(&p, unlimited("a"))))
    {
        Continuing::OnceRewritten(applied) => {
            assert_eq!(applied.attempt, attempts(1));
            assert_eq!(applied.step, steps(1));
            continuing(applied.cursor)
        }
        other => panic!("{:?}", other),
    };
    assert_eq!(next.core.runtime_rules.rules.position, 0);
    assert_eq!(next.core.runtime_rules.rules.consumed, vec![true, false]);
    match advance_continuing_borrowed_rule_attempt(next) {
        Continuing::OnceRewriteConsumed(missed) => {
            assert_eq!(missed.attempt, attempts(2));
            let next = finishing(missed.cursor);
            assert_eq!(next.core.parts.budget.steps, steps(1));
            assert_eq!(next.core.runtime_rules.rules.consumed, vec![true, false]);
        }
        other => panic!("{:?}", other),
    }
}

// Misses at the last rule.

#[test]
fn final_always_rewrite_mismatch_is_stable() {
    let p = program(vec![always("x", "y")]);
    match advance_final_borrowed_rule_attempt(finishing(start(&p, unlimited("abc")))) {
        Final::StableAfterAlwaysRewriteStateMismatch(stable) => {
            assert_eq!(stable.attempts, attempts(1));
            assert_eq!(stable.rule.position, 0);
            assert_eq!(*stable.program, p);
            assert_eq!(stable.core.state, state("abc"));
            assert_eq!(stable.core.steps, steps(0));
        }
        other => panic!("{:?}", other),
    }
}

#[test]
fn final_once_rewrite_mismatch_is_stable() {
    let p = program(vec![once("x", "y")]);
    match advance_final_borrowed_rule_attempt(finishing(start(&p, unlimited("")))) {
        Final::StableAfterOnceRewriteStateMismatch(stable) => {
            assert_eq!(stable.attempts, attempts(1));
            assert_eq!(stable.core.state, state(""));
        }
        other => panic!("{:?}", other),
    }
}

#[test]
fn final_return_mismatches_are_stable() {
    let p = program(vec![always_return("x", "1")]);
    match advance_final_borrowed_rule_attempt(finishing(start(&p, unlimited("a")))) {
        Final::StableAfterAlwaysReturnStateMismatch(stable) => {
            assert_eq!(stable.attempts, attempts(1));
            assert_eq!(*stable.rule.rule, returning("x", "1"));
        }
        other => panic!("{:?}", other),
    }
    let p = program(vec![once_return("x", "1")]);
    match advance_final_borrowed_rule_attempt(finishing(start(&p, unlimited("a")))) {
        Final::StableAfterOnceReturnStateMismatch(stable) => {
            assert_eq!(stable.core.state, state("a"));
        }
        other => panic!("{:?}", other),
    }
}

#[test]
fn final_consumed_once_rule_is_stable() {
    let p = program(vec![once("a", "aa")]);
    let next = match advance_final_borrowed_rule_attempt(finishing(start(&p, unlimited("ba")))) {
        Final::OnceRewritten(applied) => {
            assert_eq!(applied.rule.position, 0);
            finishing(applied.cursor)
        }
        other => panic!("{:?}", other),
    };
    assert_eq!(next.core.parts.state, state("baa"));
    match advance_final_borrowed_rule_attempt(next) {
        Final::StableAfterOnceRewriteConsumed(stable) => {
            assert_eq!(stable.attempts, attempts(2));
            assert_eq!(stable.core.steps, steps(1));
            assert_eq!(stable.core.state, state("baa"));
        }
        other => panic!("{:?}", other),
    }
}

// Applications.

#[test]
fn continuing_rewrite_starts_over_at_the_first_rule() {
    let p = program(vec![always("x", "y"), always("a", "bc"), always("q", "r")]);
    let next = match advance_continuing_borrowed_rule_attempt(continuing(start(&p, unlimited("za-a"))))
    {
        Continuing::AlwaysRewriteStateMismatch(missed) => continuing(missed.cursor),
        other => panic!("{:?}", other),
    };
    match advance_continuing_borrowed_rule_attempt(next) {
        Continuing::AlwaysRewritten(applied) => {
            assert_eq!(applied.attempt, attempts(2));
            assert_eq!(applied.step, steps(1));
            assert_eq!(applied.rule.position, 1);
            let next = continuing(applied.cursor);
            assert_eq!(next.core.runtime_rules.rules.position, 0);
            assert_eq!(next.core.parts.state, state("zbc-a"));
        }
        other => panic!("{:?}", other),
    }
}

#[test]
fn continuing_returns_report_exact_rule() {
    let p = program(vec![always_return("a", "out"), always("x", "y")]);
    match advance_continuing_borrowed_rule_attempt(continuing(start(&p, unlimited("a")))) {
        Continuing::AlwaysReturned(returned) => {
            assert_eq!(returned.attempt, attempts(1));
            assert_eq!(returned.step, steps(1));
            assert_eq!(*returned.rule.rule, returning("a", "out"));
            assert_eq!(*returned.program, p);
            assert_eq!(returned.output.bytes, b"out".to_vec());
        }
        other => panic!("{:?}", other),
    }
    let p = program(vec![once_return("a", ""), always("x", "y")]);
    match advance_continuing_borrowed_rule_attempt(continuing(start(&p, unlimited("a")))) {
        Continuing::OnceReturned(returned) => {
            assert_eq!(returned.output.bytes, Vec::<u8>::new());
        }
        other => panic!("{:?}", other),
    }
}

#[test]
fn final_applications_report_exact_rule() {
    let p = program(vec![always("", "a")]);
    match advance_final_borrowed_rule_attempt(finishing(start(&p, unlimited("z")))) {
        Final::AlwaysRewritten(applied) => {
            assert_eq!(finishing(applied.cursor).core.parts.state, state("az"));
        }
        other => panic!("{:?}", other),
    }
    let p = program(vec![always_return("z", "1")]);
    match advance_final_borrowed_rule_attempt(finishing(start(&p, unlimited("z")))) {
        Final::AlwaysReturned(returned) => assert_eq!(returned.output.bytes, b"1".to_vec()),
        other => panic!("{:?}", other),
    }
    let p = program(vec![once_return("z", "2")]);
    match advance_final_borrowed_rule_attempt(finishing(start(&p, unlimited("z")))) {
        Final::OnceReturned(returned) => {
            assert_eq!(returned.step, steps(1));
            assert_eq!(returned.output.bytes, b"2".to_vec());
        }
        other => panic!("{:?}", other),
    }
}

// Failures commit nothing.

#[test]
fn attempt_count_overflow_fails_both_shapes() {
    let p = program(vec![always("a", "b"), always("a", "b")]);
    let mut parts = unlimited("aaa");
    parts.attempt_budget.attempts = attempts(u64::MAX);
    let error = RuleAttemptStepError::AttemptCountOverflow { state_len: len(3) };
    match advance_continuing_rule_attempt(&p, parts, continuing_pass(&p)) {
        Continuing::Failed(failed) => {
            assert_eq!(failed.error, error);
            assert_eq!(failed.core.attempts, attempts(u64::MAX));
            assert_eq!(failed.core.state, state("aaa"));
        }
        other => panic!("{:?}", other),
    }
    let p = program(vec![always("a", "b")]);
    let mut parts = unlimited("aaa");
    parts.attempt_budget.attempts = attempts(u64::MAX);
    match advance_final_rule_attempt(&p, parts, final_pass(&p)) {
        Final::Failed(failed) => assert_eq!(failed.error, error),
        other => panic!("{:?}", other),
    }
}

#[test]
fn last_representable_attempt_is_admitted() {
    let p = program(vec![always("x", "y")]);
    let mut parts = unlimited("a");
    parts.attempt_budget.attempts = attempts(u64::MAX - 1);
    match advance_final_rule_attempt(&p, parts, final_pass(&p)) {
        Final::StableAfterAlwaysRewriteStateMismatch(stable) => {
            assert_eq!(stable.attempts, attempts(u64::MAX));
        }
        other => panic!("{:?}", other),
    }
}

#[test]
fn step_limit_fails_a_match_but_not_a_miss() {
    let p = program(vec![always("x", "y"), always("a", "b")]);
    let limits = ExecutionLimits { steps: Some(steps(0)), ..no_limits() };
    assert_eq!(
        run(&p, limited("a", limits)),
        End::Failed {
            error: RuleAttemptStepError::Step(StepError::StepLimitReached {
                limit: steps(0),
                state_len: len(1),
            }),
            attempts: 1,
            steps: 0,
            state: "a".to_string(),
        }
    );
}

#[test]
fn step_count_overflow_fails() {
    let p = program(vec![once("a", "b"), always("a", "b")]);
    let mut parts = unlimited("a");
    parts.budget.steps = steps(u64::MAX);
    match advance_continuing_rule_attempt(&p, parts, continuing_pass(&p)) {
        Continuing::Failed(failed) => {
            assert_eq!(
                failed.error,
                RuleAttemptStepError::Step(StepError::StepCountOverflow { state_len: len(1) })
            );
            assert_eq!(failed.core.attempts, attempts(0));
            assert_eq!(failed.core.steps, steps(u64::MAX));
        }
        other => panic!("{:?}", other),
    }
}

#[test]
fn state_limit_bounds_rewrites() {
    let p = program(vec![always("a", "bbb")]);
    let limits = ExecutionLimits { state_bytes: Some(len(3)), ..no_limits() };
    assert_eq!(
        run(&p, limited("aa", limits)),
        End::Failed {
            error: RuleAttemptStepError::Step(StepError::StateTooLong {
                limit: len(3),
                required: len(4),
            }),
            attempts: 0,
            steps: 0,
            state: "aa".to_string(),
        }
    );
    assert_eq!(
        run(&p, limited("a", limits)),
        End::Stable { attempts: 2, steps: 1, state: "bbb".to_string() }
    );
}

#[test]
fn return_limit_bounds_outputs() {
    let p = program(vec![always_return("a", "four")]);
    let limits = ExecutionLimits {
        return_bytes: Some(ReturnOutputByteCount { bytes: 3 }),
        ..no_limits()
    };
    assert_eq!(
        run(&p, limited("a", limits)),
        End::Failed {
            error: RuleAttemptStepError::Step(StepError::ReturnOutputTooLong {
                limit: ReturnOutputByteCount { bytes: 3 },
                required: ReturnOutputByteCount { bytes: 4 },
            }),
            attempts: 0,
            steps: 0,
            state: "a".to_string(),
        }
    );
}

#[test]
fn rewritten_length_overflow_is_an_error() {
    let result = RewriteScratch::required_len(no_limits(), &rewrite("", "a"), len(usize::MAX));
    assert_eq!(result, Err(StepError::StateLengthOverflow { state_len: len(usize::MAX) }));
    let result = RewriteScratch::required_len(no_limits(), &rewrite("b", "a"), len(usize::MAX));
    assert_eq!(result, Ok(usize::MAX));
}

#[test]
fn refused_allocation_is_an_error() {
    let current = state("xay");
    let rule = rewrite("a", "bb");
    let mut scratch = RewriteScratch { buffer: vec![] };
    let site = RewriteSite { state: &current, start: 1 };
    assert_eq!(
        scratch.fill(false, 4, &rule, site),
        Err(StepError::AllocationFailed { requested: 4 })
    );
    assert_eq!(scratch.buffer, Vec::<u8>::new());
    assert_eq!(scratch.fill(true, 4, &rule, site), Ok(()));
    assert_eq!(scratch.buffer, b"xbby".to_vec());
    assert_eq!(
        ReturnOutput::fill(false, &returning("a", "out"), vec![]),
        Err(StepError::AllocationFailed { requested: 3 })
    );
}

// The pieces of an attempt.

#[test]
fn dropped_reservation_counts_nothing() {
    let mut budget = RuleAttemptBudgetState {
        policy: LimitedRuleAttempts { limit: attempts(1) },
        attempts: attempts(0),
    };
    {
        let reservation = reserve_next_rule_attempt(&mut budget, len(0));
        assert!(reservation.is_ok());
    }
    assert_eq!(budget.attempts, attempts(0));
    let count = match reserve_next_rule_attempt(&mut budget, len(0)) {
        Ok(reservation) => reservation.commit(),
        Err(error) => panic!("{:?}", error),
    };
    assert_eq!(count, attempts(1));
    assert_eq!(budget.attempts, attempts(1));
    match reserve_next_rule_attempt(&mut budget, len(9)) {
        Ok(_) => panic!("the budget is exhausted"),
        Err(error) => assert_eq!(
            error,
            RuleAttemptStepError::AttemptLimitReached { limit: attempts(1), state_len: len(9) }
        ),
    };
}

#[test]
fn committed_miss_keeps_its_rule() {
    let rule = rewrite("x", "y");
    let p = program(vec![always("x", "y")]);
    let mut budget = RuleAttemptBudgetState {
        policy: UnlimitedRuleAttempts,
        attempts: attempts(4),
    };
    let reservation = match reserve_next_rule_attempt(&mut budget, len(0)) {
        Ok(reservation) => reservation,
        Err(error) => panic!("{:?}", error),
    };
    let miss =
        EvaluatedRuleMiss::OnceRewriteConsumed(RewriteRuleRef { position: 3, rule: &rule });
    let committed = CommittedRuleAttemptMiss::commit(reservation, miss);
    assert_eq!(budget.attempts, attempts(5));
    assert_eq!(committed.attempt, attempts(5));
    let core = TerminalRunCore { state: state("s"), steps: steps(2) };
    match committed.into_final_transition::<UnlimitedExecution, UnlimitedRuleAttempts>(&p, core) {
        Final::StableAfterOnceRewriteConsumed(stable) => {
            assert_eq!(stable.attempts, attempts(5));
            assert_eq!(stable.rule.position, 3);
            assert_eq!(stable.core.state, state("s"));
        }
        other => panic!("{:?}", other),
    }
    let committed = CommittedRuleAttemptMiss { attempt: attempts(6), miss };
    let cursor = start(&p, unlimited("s"));
    match committed.into_continuing_transition(cursor) {
        Continuing::OnceRewriteConsumed(missed) => {
            assert_eq!(missed.attempt, attempts(6));
            assert_eq!(finishing(missed.cursor).core.parts.state, state("s"));
        }
        other => panic!("{:?}", other),
    }
}

#[test]
fn prepared_once_rewrite_consumes_only_on_commit() {
    let p = program(vec![once("a", "bb"), always("x", "y")]);
    let mut current = state("cad");
    let mut scratch = RewriteScratch { buffer: b"old".to_vec() };
    let mut budget = RuntimeBudgetState { policy: UnlimitedExecution, steps: steps(1) };
    let mut attempt_budget = RuleAttemptBudgetState {
        policy: UnlimitedRuleAttempts,
        attempts: attempts(1),
    };
    let mut pass = continuing_pass(&p);

    // Prepared and dropped: nothing is committed.
    {
        let matched = match pass.attempt_current_rule(&current) {
            RuleAttemptEvaluation::Matched(matched) => matched,
            RuleAttemptEvaluation::Miss(miss) => panic!("{:?}", miss),
        };
        let prepared =
            prepare_rule_attempt_application(&mut scratch, &mut budget, len(3), matched);
        assert!(prepared.is_ok());
    }
    assert_eq!(pass.rules.consumed, vec![false, false]);
    assert_eq!(budget.steps, steps(1));
    assert_eq!(current, state("cad"));
    assert_eq!(scratch.buffer, b"cbbd".to_vec());

    // Prepared and committed.
    let matched = match pass.attempt_current_rule(&current) {
        RuleAttemptEvaluation::Matched(matched) => matched,
        RuleAttemptEvaluation::Miss(miss) => panic!("{:?}", miss),
    };
    assert!(matches!(matched, MatchedRuleApplication::OnceRewrite { .. }));
    let prepared =
        match prepare_rule_attempt_application(&mut scratch, &mut budget, len(3), matched) {
            Ok(prepared) => prepared,
            Err(error) => panic!("{:?}", error),
        };
    assert!(matches!(prepared.action, PreparedRuleAction::OnceRewrite { .. }));
    let reservation = match reserve_next_rule_attempt(&mut attempt_budget, len(3)) {
        Ok(reservation) => reservation,
        Err(error) => panic!("{:?}", error),
    };
    let application = PreparedRuleAttemptApplication::new(reservation, prepared);
    let committed = application.commit(&mut current, &mut scratch);
    assert_eq!(committed.attempt, attempts(2));
    match committed.applied {
        AppliedRule::OnceRewritten(applied) => {
            assert_eq!(applied.step(), steps(2));
            assert_eq!(applied.rule().position, 0);
        }
        other => panic!("{:?}", other),
    }
    assert_eq!(current, state("cbbd"));
    assert_eq!(scratch.buffer, b"cad".to_vec());
    assert_eq!(pass.rules.consumed, vec![true, false]);
    assert_eq!(budget.steps, steps(2));
    assert_eq!(attempt_budget.attempts, attempts(2));
}

#[test]
fn committed_application_resets_the_pass() {
    let p = program(vec![always("x", "y"), always("a", "b")]);
    let rule = rewrite("a", "b");
    let applied = AppliedRule::AlwaysRewritten(CommittedRewrite {
        step: steps(3),
        rule: RewriteRuleRef { position: 1, rule: &rule },
    });
    let committed = CommittedRuleAttemptApplication { attempt: attempts(8), applied };
    let pass = continuing_pass(&p);
    match committed.into_continuing_transition(&p, unlimited("s"), pass) {
        Continuing::AlwaysRewritten(applied) => {
            assert_eq!(applied.attempt, attempts(8));
            assert_eq!(applied.step, steps(3));
            assert_eq!(applied.rule.position, 1);
            assert_eq!(continuing(applied.cursor).core.runtime_rules.rules.position, 0);
        }
        other => panic!("{:?}", other),
    }
    let single = program(vec![always("a", "b")]);
    let applied = AppliedRule::OnceRewritten(CommittedRewrite {
        step: steps(4),
        rule: RewriteRuleRef { position: 0, rule: &rule },
    });
    let committed = CommittedRuleAttemptApplication { attempt: attempts(9), applied };
    match committed.into_final_transition(&single, unlimited("s"), final_pass(&single)) {
        Final::OnceRewritten(applied) => {
            assert_eq!(applied.step, steps(4));
            assert_eq!(finishing(applied.cursor).core.parts.state, state("s"));
        }
        other => panic!("{:?}", other),
    }
}

#[test]
fn failure_projection_keeps_what_is_left() {
    let p = program(vec![always("a", "b")]);
    let error = RuleAttemptStepError::from(StepError::AllocationFailed { requested: 12 });
    assert_eq!(
        error,
        RuleAttemptStepError::Step(StepError::AllocationFailed { requested: 12 })
    );
    let mut parts = unlimited("left");
    parts.budget.steps = steps(2);
    parts.attempt_budget.attempts = attempts(5);
    match failed_continuing_rule_attempt(&p, parts, error) {
        Continuing::Failed(failed) => assert_eq!(
            failed_end(failed),
            End::Failed { error, attempts: 5, steps: 2, state: "left".to_string() }
        ),
        other => panic!("{:?}", other),
    }
    match failed_final_rule_attempt(&p, unlimited("left"), error) {
        Final::Failed(failed) => assert_eq!(
            failed_end(failed),
            End::Failed { error, attempts: 0, steps: 0, state: "left".to_string() }
        ),
        other => panic!("{:?}", other),
    }
}

#[test]
fn leftmost_occurrence_is_found() {
    assert_eq!(find_leftmost(&state("abab"), &b"ab".to_vec()), Some(0));
    assert_eq!(find_leftmost(&state("xxab"), &b"ab".to_vec()), Some(2));
    assert_eq!(find_leftmost(&state("aab"), &b"ab".to_vec()), Some(1));
    assert_eq!(find_leftmost(&state("a"), &b"ab".to_vec()), None);
    assert_eq!(find_leftmost(&state(""), &b"".to_vec()), Some(0));
}
