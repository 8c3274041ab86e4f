//! Error taxonomy of the coordination core. Every variant is returned
//! from exactly one failure condition, stated in the `ensures` of the
//! function that produces it.

use vstd::prelude::*;

verus! {

/// Opening or restarting an audio device failed. Non-fatal: the engine
/// stays (or returns to) inactive and the caller may retry.
#[derive(Clone, Copy, Debug, PartialEq, Eq, Structural)]
pub enum DeviceError {
    /// The requested device identifier is not among the openable devices.
    UnknownDevice,
    /// No device was requested and no device is available as a default.
    NoDefaultDevice,
}

/// A topology edit would violate port arity or structural constraints.
/// The edit is aborted; the prior topology is unaffected.
#[derive(Clone, Copy, Debug, PartialEq, Eq, Structural)]
pub enum ConnectError {
    /// The source node does not exist in the topology.
    SourceMissing,
    /// The destination node does not exist in the topology.
    DestinationMissing,
    /// The source port index is not below the source's output port count.
    SourcePortOutOfRange,
    /// The destination port index is not below the destination's input port count.
    DestinationPortOutOfRange,
    /// The two endpoints are the same node, which would form a trivial cycle.
    SelfLoop,
    /// The exact connection is already present.
    DuplicateEdge,
}

/// The referenced node or connection is not present in the topology.
#[derive(Clone, Copy, Debug, PartialEq, Eq, Structural)]
pub enum NotFoundError {
    /// No node with the given identifier exists.
    NodeMissing,
    /// No such connection exists.
    EdgeMissing,
}

/// A node failed to build its real-time processor; the add-node
/// mutation fails and the node is not inserted.
#[derive(Clone, Copy, Debug, PartialEq, Eq, Structural)]
pub enum ActivationError {
    /// The requested input port count is outside the described range.
    InputCountOutOfRange,
    /// The requested output port count is outside the described range.
    OutputCountOutOfRange,
    /// The sample rate is outside the range the node supports.
    UnsupportedSampleRate,
}

/// A logic error in the surrounding system, surfaced loudly rather
/// than recovered from silently.
#[derive(Clone, Copy, Debug, PartialEq, Eq, Structural)]
pub enum ConsistencyError {
    /// A "lost" signal arrived for an entity with no recorded node.
    LostWithoutGained,
    /// A "gained" signal arrived for an entity that already has a node.
    GainedTwice,
    /// The engine slot was empty when the engine was needed.
    EngineMissing,
}

} // verus!
