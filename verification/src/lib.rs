//! Axiom Assistant routes a query to a generative backend, to a deterministic
//! backend, or to both, and composes what they answer into one sequence of
//! tokens.
//!
//! - [`modules::neuro_symbolic`] classifies a query by the keywords it holds.
//! - [`modules::deterministic`] evaluates arithmetic and answers logic
//!   queries from a table of proofs.
//! - [`modules::probabilistic`] stands in for a language model: it drafts an
//!   answer and streams tokens.
//! - [`ipc::verification`] finds the claims of a draft and reports on their
//!   verification.
//! - [`ipc::orchestrator`] validates, classifies, counts and answers.
//! - [`engine::deterministic_viz`] holds the scene graph of the renderer.
//! - [`text`] has the functions on text that the others share, and
//!   [`trusted`] the contracts that are believed without proof.
//!
//! Every function states in its contract what it returns; Verus proves that
//! it does.

pub mod engine;
pub mod ipc;
pub mod modules;
pub mod text;
pub mod trusted;

pub use engine::Scene;
pub use ipc::orchestrator::Orchestrator;
pub use modules::{DeterministicModule, NeuroSymbolicRouter, ProbabilisticModule};
