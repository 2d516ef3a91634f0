pub mod deterministic;
pub mod neuro_symbolic;
pub mod probabilistic;

pub use deterministic::DeterministicModule;
pub use neuro_symbolic::NeuroSymbolicRouter;
pub use probabilistic::ProbabilisticModule;
