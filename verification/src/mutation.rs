//! Deferred graph mutations: the control scheduler enqueues edits
//! during a frame; the whole batch is applied in emission order inside
//! one exclusive window. A mutation that fails aborts only itself —
//! the edits before and after it still apply, and the topology stays
//! well-formed throughout.

use vstd::prelude::*;

use crate::errors::ActivationError;
use crate::errors::ConnectError;
use crate::errors::NotFoundError;
use crate::node::NodeDescriptor;
use crate::node::Processor;
use crate::node::ProcessorBehavior;
use crate::node::activate;
use crate::node::activation_refusal;
use crate::topology::Connection;
use crate::topology::Topology;
use crate::topology::TopologyModel;

verus! {

/// One structural edit of the topology.
#[derive(Clone, Copy, Debug, PartialEq, Eq, Structural)]
pub enum Mutation {
    /// Activate a node of the given description and insert it.
    AddNode {
        desc: NodeDescriptor,
        behavior: ProcessorBehavior,
        inputs: u32,
        outputs: u32,
    },
    /// Add a connection.
    Connect { conn: Connection },
    /// Remove a connection.
    Disconnect { conn: Connection },
    /// Remove a node and all connections incident to it.
    RemoveNode { id: u64 },
}

/// Why a single mutation failed. The failure never touches the
/// topology.
#[derive(Clone, Copy, Debug, PartialEq, Eq, Structural)]
pub enum MutationError {
    /// The node to add refused to build its processor.
    Activation(ActivationError),
    /// The connection to add was refused.
    Connect(ConnectError),
    /// The connection or node to remove was not there.
    NotFound(NotFoundError),
    /// The identifier counter is exhausted; no node can be added.
    IdsExhausted,
}

/// What a successful mutation produced.
#[derive(Clone, Copy, Debug, PartialEq, Eq, Structural)]
pub enum MutationOutcome {
    /// A node was inserted: its identifier, and the processor the host
    /// must hand to the real-time thread.
    NodeAdded { id: u64, processor: Processor },
    /// A connection was added or removed, or a node was removed.
    Edited,
}

/// Why applying `m` to `t` would fail, if it would; `None` means the
/// mutation applies.
pub open spec fn mutation_refusal(t: TopologyModel, m: Mutation, sample_rate: u32) -> Option<
    MutationError,
> {
    match m {
        Mutation::AddNode { desc, inputs, outputs, .. } => {
            if t.next_id == u64::MAX {
                Some(MutationError::IdsExhausted)
            } else {
                match activation_refusal(desc, sample_rate, inputs, outputs) {
                    Some(e) => Some(MutationError::Activation(e)),
                    None => None,
                }
            }
        },
        Mutation::Connect { conn } => match t.connect_refusal(conn) {
            Some(e) => Some(MutationError::Connect(e)),
            None => None,
        },
        Mutation::Disconnect { conn } => {
            if t.contains_edge(conn) {
                None
            } else {
                Some(MutationError::NotFound(NotFoundError::EdgeMissing))
            }
        },
        Mutation::RemoveNode { id } => {
            if t.contains_node(id) {
                None
            } else {
                Some(MutationError::NotFound(NotFoundError::NodeMissing))
            }
        },
    }
}

/// The topology after one mutation: changed if the mutation applies,
/// untouched if it is refused.
pub open spec fn step_mutation(t: TopologyModel, m: Mutation, sample_rate: u32) -> TopologyModel {
    if mutation_refusal(t, m, sample_rate) is Some {
        t
    } else {
        match m {
            Mutation::AddNode { inputs, outputs, .. } => t.with_node(inputs, outputs),
            Mutation::Connect { conn } => t.with_edge(conn),
            Mutation::Disconnect { conn } => t.without_edge(conn),
            Mutation::RemoveNode { id } => t.without_node(id),
        }
    }
}

/// The topology after a whole batch, applied in emission order; each
/// refused mutation leaves its step unchanged.
pub open spec fn run_mutations(t: TopologyModel, ms: Seq<Mutation>, sample_rate: u32) -> TopologyModel
    decreases ms.len(),
{
    if ms.len() == 0 {
        t
    } else {
        step_mutation(run_mutations(t, ms.drop_last(), sample_rate), ms.last(), sample_rate)
    }
}

/// The report owed for the `i`-th mutation of a batch applied to
/// `t0`: it succeeds exactly when the topology reached by the
/// mutations before it admits it, and both the outcome and the error
/// are determined.
pub open spec fn is_batch_report(
    t0: TopologyModel,
    ms: Seq<Mutation>,
    sample_rate: u32,
    i: int,
    r: Result<MutationOutcome, MutationError>,
) -> bool {
    let before = run_mutations(t0, ms.take(i), sample_rate);
    match r {
        Ok(outcome) => {
            &&& mutation_refusal(before, ms[i], sample_rate) is None
            &&& match ms[i] {
                Mutation::AddNode { behavior, inputs, outputs, .. } => outcome matches
                    MutationOutcome::NodeAdded { id, processor } && id == before.next_id
                    && processor == (Processor { behavior, inputs, outputs, sample_rate }),
                _ => outcome == MutationOutcome::Edited,
            }
        },
        Err(e) => mutation_refusal(before, ms[i], sample_rate) == Some(e),
    }
}

/// Applies one mutation under exclusive access. Succeeds if and only
/// if `mutation_refusal` allows it; a failure changes nothing and
/// names its reason exactly.
pub fn apply_mutation(t: &mut Topology, m: &Mutation, sample_rate: u32) -> (r: Result<
    MutationOutcome,
    MutationError,
>)
    requires
        old(t)@.wf(),
    ensures
        final(t)@.wf(),
        final(t)@ == step_mutation(old(t)@, *m, sample_rate),
        match r {
            Ok(outcome) => {
                &&& mutation_refusal(old(t)@, *m, sample_rate) is None
                &&& match *m {
                    Mutation::AddNode { behavior, inputs, outputs, .. } => outcome matches
                        MutationOutcome::NodeAdded { id, processor }
                        && id == old(t)@.next_id
                        && processor == (Processor { behavior, inputs, outputs, sample_rate }),
                    _ => outcome == MutationOutcome::Edited,
                }
            },
            Err(e) => mutation_refusal(old(t)@, *m, sample_rate) == Some(e),
        },
{
    match m {
        Mutation::AddNode { desc, behavior, inputs, outputs } => {
            if t.next_id == u64::MAX {
                return Err(MutationError::IdsExhausted);
            }
            match activate(desc, *behavior, sample_rate, *inputs, *outputs) {
                Ok(processor) => {
                    let id = t.add_node(*inputs, *outputs);
                    Ok(MutationOutcome::NodeAdded { id, processor })
                },
                Err(e) => Err(MutationError::Activation(e)),
            }
        },
        Mutation::Connect { conn } => match t.connect(*conn) {
            Ok(()) => Ok(MutationOutcome::Edited),
            Err(e) => Err(MutationError::Connect(e)),
        },
        Mutation::Disconnect { conn } => match t.disconnect(*conn) {
            Ok(()) => Ok(MutationOutcome::Edited),
            Err(e) => Err(MutationError::NotFound(e)),
        },
        Mutation::RemoveNode { id } => match t.remove_node(*id) {
            Ok(()) => Ok(MutationOutcome::Edited),
            Err(e) => Err(MutationError::NotFound(e)),
        },
    }
}

/// The deferred mutation queue: edits wait here, in emission order,
/// until the next exclusive application window.
pub struct MutationQueue {
    items: Vec<Mutation>,
}

impl View for MutationQueue {
    type V = Seq<Mutation>;

    closed spec fn view(&self) -> Seq<Mutation> {
        self.items@
    }
}

impl MutationQueue {
    /// An empty queue.
    pub fn new() -> (q: MutationQueue)
        ensures
            q@ =~= Seq::<Mutation>::empty(),
    {
        MutationQueue { items: Vec::new() }
    }

    /// Appends one mutation behind all earlier ones.
    pub fn enqueue(&mut self, m: Mutation)
        ensures
            final(self)@ =~= old(self)@.push(m),
    {
        self.items.push(m);
    }

    /// How many mutations are waiting.
    pub fn len(&self) -> (n: usize)
        ensures
            n == self@.len(),
    {
        self.items.len()
    }

    /// Whether nothing is waiting.
    pub fn is_empty(&self) -> (r: bool)
        ensures
            r == (self@.len() == 0),
    {
        self.items.len() == 0
    }

    /// Applies every queued mutation to the topology, in emission
    /// order, and empties the queue. The result of each mutation is
    /// reported in order; a refused mutation aborts only itself, so
    /// the final topology is the fold of the successful edits alone.
    pub fn apply_all(&mut self, t: &mut Topology, sample_rate: u32) -> (results: Vec<
        Result<MutationOutcome, MutationError>,
    >)
        requires
            old(t)@.wf(),
        ensures
            final(t)@.wf(),
            final(self)@.len() == 0,
            final(t)@ == run_mutations(old(t)@, old(self)@, sample_rate),
            results@.len() == old(self)@.len(),
            forall|i: int|
                0 <= i < results@.len() ==> is_batch_report(
                    old(t)@,
                    old(self)@,
                    sample_rate,
                    i,
                    #[trigger] results@[i],
                ),
    {
        let ghost ms = self.items@;
        let ghost t0 = old(t)@;
        let mut results: Vec<Result<MutationOutcome, MutationError>> = Vec::new();
        let mut i: usize = 0;
        while i < self.items.len()
            invariant
                0 <= i <= ms.len(),
                self.items@ == ms,
                t@.wf(),
                t@ == run_mutations(t0, ms.take(i as int), sample_rate),
                results@.len() == i,
                forall|j: int|
                    0 <= j < i ==> is_batch_report(t0, ms, sample_rate, j, #[trigger] results@[j]),
            decreases ms.len() - i,
        {
            let m = self.items[i];
            let r = apply_mutation(t, &m, sample_rate);
            proof {
                assert(ms.take(i as int + 1).drop_last() =~= ms.take(i as int));
                assert(ms.take(i as int + 1).last() == ms[i as int]);
            }
            results.push(r);
            i = i + 1;
        }
        proof {
            assert(ms.take(ms.len() as int) =~= ms);
        }
        self.items = Vec::new();
        results
    }
}

/// Node identifiers are never reissued: an identifier below the
/// counter and absent from the topology stays absent under any batch
/// of mutations, and the counter never decreases.
pub proof fn lemma_stale_id_stays_absent(
    t: TopologyModel,
    ms: Seq<Mutation>,
    sample_rate: u32,
    id: u64,
)
    requires
        !t.contains_node(id),
        id < t.next_id,
    ensures
        !run_mutations(t, ms, sample_rate).contains_node(id),
        id < run_mutations(t, ms, sample_rate).next_id,
    decreases ms.len(),
{
    if ms.len() > 0 {
        lemma_stale_id_stays_absent(t, ms.drop_last(), sample_rate, id);
        let t1 = run_mutations(t, ms.drop_last(), sample_rate);
        let m = ms.last();
        let t2 = step_mutation(t1, m, sample_rate);
        if mutation_refusal(t1, m, sample_rate) is None {
            match m {
                Mutation::AddNode { inputs, outputs, .. } => {
                    if t2.contains_node(id) {
                        let w = choose|w: int| 0 <= w < t2.nodes.len() && t2.nodes[w].id == id;
                        if w < t1.nodes.len() {
                            assert(t1.nodes[w].id == id);
                        }
                        assert(false);
                    }
                },
                Mutation::Connect { conn } => {
                    if t2.contains_node(id) {
                        let w = choose|w: int| 0 <= w < t2.nodes.len() && t2.nodes[w].id == id;
                        assert(t1.nodes[w].id == id);
                    }
                },
                Mutation::Disconnect { conn } => {
                    if t2.contains_node(id) {
                        let w = choose|w: int| 0 <= w < t2.nodes.len() && t2.nodes[w].id == id;
                        assert(t1.nodes[w].id == id);
                    }
                },
                Mutation::RemoveNode { id: removed } => {
                    crate::topology::lemma_without_node_absent(t1, removed, id);
                },
            }
        }
    }
}

/// Batches leave the topology exactly at the fold of their successful
/// edits: a refused mutation in the middle neither undoes the edits
/// before it nor stops the edits after it, and well-formedness holds
/// at every intermediate step.
pub proof fn lemma_batch_atomicity(t: TopologyModel, ms: Seq<Mutation>, sample_rate: u32, i: int)
    requires
        0 <= i < ms.len(),
        mutation_refusal(run_mutations(t, ms.take(i), sample_rate), ms[i], sample_rate) is Some,
    ensures
        run_mutations(t, ms.take(i + 1), sample_rate) == run_mutations(t, ms.take(i), sample_rate),
{
    assert(ms.take(i + 1).drop_last() =~= ms.take(i));
    assert(ms.take(i + 1).last() == ms[i]);
}

} // verus!
