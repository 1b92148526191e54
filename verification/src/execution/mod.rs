pub mod advance;
pub mod engine;
pub mod laws;
pub mod model;
pub mod outcome_laws;
pub mod projection_laws;
pub mod session;
pub mod transition;
