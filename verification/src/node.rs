//! The node lifecycle contract: a node describes the port counts it
//! can take, activates into a real-time processor on the control side,
//! and the processor then fills one block per call on the real-time
//! path without ever failing, blocking or allocating.

use vstd::prelude::*;

use crate::errors::ActivationError;

verus! {

/// An inclusive range of acceptable port counts.
#[derive(Clone, Copy, Debug, PartialEq, Eq, Structural)]
pub struct PortCountRange {
    pub min: u32,
    pub max: u32,
}

impl PortCountRange {
    /// `count` lies within the range.
    pub open spec fn admits(self, count: u32) -> bool {
        self.min <= count <= self.max
    }
}

/// What a node type answers when asked to describe itself: the input
/// and output port counts it can be activated with, and the sample
/// rates it supports (inclusive bounds).
#[derive(Clone, Copy, Debug, PartialEq, Eq, Structural)]
pub struct NodeDescriptor {
    pub inputs: PortCountRange,
    pub outputs: PortCountRange,
    pub min_sample_rate: u32,
    pub max_sample_rate: u32,
}

/// The closed set of processing behaviors the core ships: a silent
/// source and a constant-valued source. Concrete synthesis math is a
/// collaborator's concern; the lifecycle and its guarantees are not.
#[derive(Clone, Copy, Debug, PartialEq, Eq, Structural)]
pub enum ProcessorBehavior {
    /// Emits silence on every frame.
    Silence,
    /// Emits the same sample value on every frame.
    Constant { value: i64 },
}

/// The sample a behavior writes on every frame of a block.
pub open spec fn behavior_sample(b: ProcessorBehavior) -> i64 {
    match b {
        ProcessorBehavior::Silence => 0,
        ProcessorBehavior::Constant { value } => value,
    }
}

/// A real-time processor, built by a successful activation. Holds only
/// plain values, so a processing call can never allocate or fail.
#[derive(Clone, Copy, Debug, PartialEq, Eq, Structural)]
pub struct Processor {
    pub behavior: ProcessorBehavior,
    pub inputs: u32,
    pub outputs: u32,
    pub sample_rate: u32,
}

/// Why activating `desc` with these parameters would fail, if it
/// would; the checks are made in this order, so exactly one reason is
/// reported.
pub open spec fn activation_refusal(
    desc: NodeDescriptor,
    sample_rate: u32,
    in_count: u32,
    out_count: u32,
) -> Option<ActivationError> {
    if !desc.inputs.admits(in_count) {
        Some(ActivationError::InputCountOutOfRange)
    } else if !desc.outputs.admits(out_count) {
        Some(ActivationError::OutputCountOutOfRange)
    } else if !(desc.min_sample_rate <= sample_rate <= desc.max_sample_rate) {
        Some(ActivationError::UnsupportedSampleRate)
    } else {
        None
    }
}

/// Builds the real-time processor for a node. Runs on the control
/// side and may fail; succeeds if and only if both port counts and the
/// sample rate are within the described ranges, and the error names
/// the first violated condition.
pub fn activate(
    desc: &NodeDescriptor,
    behavior: ProcessorBehavior,
    sample_rate: u32,
    in_count: u32,
    out_count: u32,
) -> (r: Result<Processor, ActivationError>)
    ensures
        match r {
            Ok(p) => {
                &&& activation_refusal(*desc, sample_rate, in_count, out_count) is None
                &&& p == (Processor { behavior, inputs: in_count, outputs: out_count, sample_rate })
            },
            Err(e) => activation_refusal(*desc, sample_rate, in_count, out_count) == Some(e),
        },
{
    if in_count < desc.inputs.min || in_count > desc.inputs.max {
        Err(ActivationError::InputCountOutOfRange)
    } else if out_count < desc.outputs.min || out_count > desc.outputs.max {
        Err(ActivationError::OutputCountOutOfRange)
    } else if sample_rate < desc.min_sample_rate || sample_rate > desc.max_sample_rate {
        Err(ActivationError::UnsupportedSampleRate)
    } else {
        Ok(Processor { behavior, inputs: in_count, outputs: out_count, sample_rate })
    }
}

impl Processor {
    /// Fills one block, overwriting every frame of the caller's output
    /// buffer. Total: there is no failure path on the real-time thread,
    /// and the buffer is reused, never reallocated.
    pub fn process(&self, out: &mut Vec<i64>)
        ensures
            final(out)@.len() == old(out)@.len(),
            forall|i: int|
                0 <= i < final(out)@.len() ==> final(out)@[i] == behavior_sample(self.behavior),
    {
        let sample: i64 = match self.behavior {
            ProcessorBehavior::Silence => 0,
            ProcessorBehavior::Constant { value } => value,
        };
        let mut i: usize = 0;
        while i < out.len()
            invariant
                0 <= i <= out@.len(),
                out@.len() == old(out)@.len(),
                sample == behavior_sample(self.behavior),
                forall|j: int| 0 <= j < i ==> out@[j] == behavior_sample(self.behavior),
            decreases out@.len() - i,
        {
            out[i] = sample;
            i = i + 1;
        }
    }
}

} // verus!
