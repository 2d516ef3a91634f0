pub mod contracts;
pub mod orchestrator;
pub mod verification;
