pub mod deterministic_viz;

pub use deterministic_viz::Scene;
