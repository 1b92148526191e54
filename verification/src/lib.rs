//! Stepping a byte-rewriting program one rule attempt at a time.
//!
//! A program is a list of rules. A run keeps a byte state and a place in the list; each
//! attempt tries the rule at that place and reports exactly what became of it. Whatever an
//! attempt changes (the attempt count, the step count, the state, the slot of a once rule) is
//! reserved or prepared first and committed only when nothing can fail any more.
pub mod bytes;
pub mod error;
pub mod execution;
pub mod limits;
pub mod policy;
pub mod program;
pub mod runtime;
