//! Coordination core between a frame-based control scheduler and a
//! real-time audio engine: parameter cells shared across the two
//! contexts, a graph topology with deferred, batched mutations, an
//! engine state machine with an explicit check-out/check-in slot, and
//! a bridge that keeps logical entities associated with graph nodes.

pub mod bridge;
pub mod engine;
pub mod errors;
pub mod param;
pub mod mutation;
pub mod node;
pub mod topology;
