pub mod action;
pub mod budget;
pub mod laws;
pub mod matcher;
pub mod once;
pub mod rewrite;
pub mod state;
