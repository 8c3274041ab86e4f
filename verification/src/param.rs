//! Parameter cells: single-writer holders for one scalar control value
//! each, written by the control scheduler and read on the real-time
//! path once per processed block.
//!
//! A cell stores the value as a 64-bit pattern so that any scalar
//! encoding the host chooses fits without the core interpreting it.
//! Within one owner the contract is exact: a read returns the most
//! recent completed write, or the initial value if none occurred.
//! Cross-context visibility (last-write-wins under relaxed ordering)
//! is the host's concern; the core never orders two writes.

use vstd::prelude::*;

verus! {

/// A holder for a single scalar control value.
pub struct ParamCell {
    bits: u64,
}

impl View for ParamCell {
    type V = u64;

    closed spec fn view(&self) -> u64 {
        self.bits
    }
}

impl ParamCell {
    /// The cell as it stands after a completed write of `v`.
    pub closed spec fn spec_written(self, v: u64) -> ParamCell {
        ParamCell { bits: v }
    }

    /// Creates a cell holding the initial value `initial`.
    pub fn new(initial: u64) -> (cell: ParamCell)
        ensures
            cell@ == initial,
    {
        ParamCell { bits: initial }
    }

    /// Overwrites any prior value. Never blocks, never fails.
    pub fn write(&mut self, v: u64)
        ensures
            final(self)@ == v,
            *final(self) == old(self).spec_written(v),
    {
        self.bits = v;
    }

    /// Returns the most recent completed write, or the initial value if
    /// no write occurred. Never blocks, never fails.
    pub fn read(&self) -> (r: u64)
        ensures
            r == self@,
    {
        self.bits
    }
}

/// Round trip: writing value `v` and then reading, with no intervening
/// write, yields `v` again, whatever the cell held before.
pub proof fn lemma_param_round_trip(cell: ParamCell, v: u64)
    ensures
        cell.spec_written(v)@ == v,
{
}

} // verus!
