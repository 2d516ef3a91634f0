//! Records exchanged with the layers around the orchestrator.

use vstd::prelude::*;

verus! {

/// How a query was routed, in a form fit for a wire: the intent by name, the
/// modules that answer, and how their answers are merged.
#[derive(Debug, Clone)]
pub struct RoutingDecision {
    pub intent: String,
    pub modules: Vec<String>,
    pub merge_strategy: String,
}

} // verus!
