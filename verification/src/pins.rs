//! Pins of the upstream CommitLLM verifier this toolkit is built against.

use vstd::prelude::*;

verus! {

/// Full upstream CommitLLM commit SHA used by the verifier.
pub const COMMITLLM_PIN: &'static str = "25541e83347655e44ad6e84eb901e1e7ae392a66";

/// Buyer-facing short CommitLLM pin carried in demo proof bundles.
pub const COMMITLLM_SHORT_PIN: &'static str = "25541e83";

/// Link-graph anchor; does nothing.
pub fn placeholder() {
}

} // verus!
