# rule_attempts

Steps a byte-rewriting program one rule attempt at a time, verified with Verus.

A program is a list of rules. A rule looks for a pattern in the state; when it finds one it
either replaces the leftmost occurrence or ends the run with an output. A rule marked *once*
rewrites a single time and is consumed by that. A run tries its rules in order, starts over
after each rewrite, and is stable when a whole pass has missed.

- `src/execution/advance.rs` makes one attempt and projects it into an exact transition.
- `src/execution/model.rs` says what an attempt reports and how it changes a run;
  `src/execution/laws.rs` proves what follows for attempts and for whole runs.
- `src/execution/{engine,session,transition}.rs` hold the runs, cursors and transitions.
- `src/runtime/` holds what an attempt is made of: budgets with reservations, matching,
  the pass with the slots of once rules, rewriting, and prepared and committed steps.
- `src/{bytes,limits,error,policy,program}.rs` hold the plain types.

An attempt reserves its count, evaluates the rule, and prepares the next state or the output
before it commits anything, so a failed attempt leaves the run as it was.
