//! The tracked-component bridge: translates the scheduler's three
//! signals — gained, lost, changed — into graph edits and parameter
//! writes, and owns the entity-to-node map. The map's invariant: an
//! entity has at most one live mapping, a mapping exists only for a
//! node that currently exists in the graph, and no two entities share
//! a node.

use vstd::prelude::*;

use std::collections::HashMap;

use crate::errors::ConsistencyError;
use crate::mutation::Mutation;
use crate::mutation::MutationQueue;
use crate::param::ParamCell;
use crate::topology::Connection;
use crate::topology::NodeInfo;
use crate::topology::Topology;
use crate::topology::TopologyModel;
use crate::topology::lemma_node_at_of;

verus! {

broadcast use vstd::std_specs::hash::group_hash_axioms;

/// The connection wiring output port `port` of node `id` to input
/// port `port` of the sink node.
pub open spec fn output_wire(id: u64, sink: u64, port: u32) -> Connection {
    Connection { src_node: id, src_port: port, dst_node: sink, dst_port: port }
}

/// One signal from the scheduler's change detection, as the bridge's
/// model sees it: a gained component with the node created for it, or
/// a lost component.
#[derive(Clone, Copy, Debug, PartialEq, Eq, Structural)]
pub enum Signal {
    Gained { entity: u64, node: u64 },
    Lost { entity: u64 },
}

/// The entity-to-node map after one signal.
pub open spec fn apply_signal(m: Map<u64, u64>, s: Signal) -> Map<u64, u64> {
    match s {
        Signal::Gained { entity, node } => m.insert(entity, node),
        Signal::Lost { entity } => m.remove(entity),
    }
}

/// The entity-to-node map after a sequence of signals, in order.
pub open spec fn run_signals(m: Map<u64, u64>, ss: Seq<Signal>) -> Map<u64, u64>
    decreases ss.len(),
{
    if ss.len() == 0 {
        m
    } else {
        apply_signal(run_signals(m, ss.drop_last()), ss.last())
    }
}

/// The set of currently gained entities after a sequence of signals.
pub open spec fn live_entities(live: Set<u64>, ss: Seq<Signal>) -> Set<u64>
    decreases ss.len(),
{
    if ss.len() == 0 {
        live
    } else {
        let prev = live_entities(live, ss.drop_last());
        match ss.last() {
            Signal::Gained { entity, .. } => prev.insert(entity),
            Signal::Lost { entity } => prev.remove(entity),
        }
    }
}

/// A signal sequence is well-formed when no entity gains twice without
/// losing in between, and nothing is lost that is not live.
pub open spec fn wf_signals(live: Set<u64>, ss: Seq<Signal>) -> bool
    decreases ss.len(),
{
    if ss.len() == 0 {
        true
    } else {
        &&& wf_signals(live, ss.drop_last())
        &&& match ss.last() {
            Signal::Gained { entity, .. } => !live_entities(live, ss.drop_last()).contains(entity),
            Signal::Lost { entity } => live_entities(live, ss.drop_last()).contains(entity),
        }
    }
}

/// For every well-formed signal sequence, the entity-to-node map holds
/// exactly the currently gained entities — so its size equals their
/// count.
pub proof fn lemma_map_tracks_live_entities(m: Map<u64, u64>, live: Set<u64>, ss: Seq<Signal>)
    requires
        m.dom() == live,
        m.dom().finite(),
        wf_signals(live, ss),
    ensures
        run_signals(m, ss).dom() == live_entities(live, ss),
        run_signals(m, ss).dom().finite(),
        run_signals(m, ss).len() == live_entities(live, ss).len(),
    decreases ss.len(),
{
    if ss.len() > 0 {
        lemma_map_tracks_live_entities(m, live, ss.drop_last());
        let prev = run_signals(m, ss.drop_last());
        match ss.last() {
            Signal::Gained { entity, node } => {
                assert(prev.insert(entity, node).dom() =~= prev.dom().insert(entity));
            },
            Signal::Lost { entity } => {
                assert(prev.remove(entity).dom() =~= prev.dom().remove(entity));
            },
        }
    }
}

/// Once a node identifier is out of the map, it never reappears as a
/// value as long as every later gained signal carries a different
/// identifier — which the topology guarantees, since identifiers are
/// never reissued (`lemma_stale_id_stays_absent`).
pub proof fn lemma_removed_id_never_value(m: Map<u64, u64>, ss: Seq<Signal>, id: u64)
    requires
        forall|e: u64| #[trigger] m.contains_key(e) ==> m[e] != id,
        forall|i: int|
            0 <= i < ss.len() ==> ((#[trigger] ss[i]) matches Signal::Gained { node, .. } ==> node
                != id),
    ensures
        forall|e: u64| #[trigger]
            run_signals(m, ss).contains_key(e) ==> run_signals(m, ss)[e] != id,
    decreases ss.len(),
{
    if ss.len() > 0 {
        let tt = ss.drop_last();
        assert forall|i: int|
            0 <= i < tt.len() implies ((#[trigger] tt[i]) matches Signal::Gained { node, .. }
            ==> node != id) by {
            assert(tt[i] == ss[i]);
        }
        lemma_removed_id_never_value(m, tt, id);
        let prev = run_signals(m, tt);
        let run = run_signals(m, ss);
        assert(ss[ss.len() - 1] == ss.last());
        match ss.last() {
            Signal::Gained { entity, node } => {
                assert(node != id);
                assert forall|e: u64| #[trigger] run.contains_key(e) implies run[e] != id by {
                    if e != entity {
                        assert(prev.contains_key(e));
                    }
                }
            },
            Signal::Lost { entity } => {
                assert forall|e: u64| #[trigger] run.contains_key(e) implies run[e] != id by {
                    assert(prev.contains_key(e));
                }
            },
        }
    }
}

/// What a changed component asks for: a cheap parameter write, or a
/// full topology edit for the rare change that affects structure.
#[derive(Clone, Copy, Debug, PartialEq, Eq, Structural)]
pub enum ChangeEffect {
    /// Write this value into the component's parameter cell.
    ParamWrite { value: u64 },
    /// Defer this structural edit to the next application window.
    TopologyEdit { mutation: Mutation },
}

/// Routes one changed-component signal: a parameter change is written
/// to the cell at once and enqueues nothing; a structural change is
/// enqueued and leaves every cell untouched.
pub fn route_change(cell: &mut ParamCell, queue: &mut MutationQueue, effect: &ChangeEffect)
    ensures
        match *effect {
            ChangeEffect::ParamWrite { value } => {
                &&& final(cell)@ == value
                &&& final(queue)@ == old(queue)@
            },
            ChangeEffect::TopologyEdit { mutation } => {
                &&& final(cell)@ == old(cell)@
                &&& final(queue)@ == old(queue)@.push(mutation)
            },
        },
{
    match effect {
        ChangeEffect::ParamWrite { value } => {
            cell.write(*value);
        },
        ChangeEffect::TopologyEdit { mutation } => {
            queue.enqueue(*mutation);
        },
    }
}

/// The bridge for one tracked component type: its entity-to-node map.
pub struct Bridge {
    map: HashMap<u64, u64>,
}

impl View for Bridge {
    type V = Map<u64, u64>;

    closed spec fn view(&self) -> Map<u64, u64> {
        self.map@
    }
}

impl Bridge {
    /// The map agrees with the topology: every mapped node exists in
    /// the graph, and no two entities map to the same node.
    pub open spec fn consistent_with(self, t: TopologyModel) -> bool {
        &&& forall|e: u64| #[trigger] self@.contains_key(e) ==> t.contains_node(self@[e])
        &&& forall|e1: u64, e2: u64|
            self@.contains_key(e1) && self@.contains_key(e2) && e1 != e2 ==> #[trigger] self@[e1]
                != #[trigger] self@[e2]
    }

    /// A bridge with no mappings.
    pub fn new() -> (b: Bridge)
        ensures
            b@ =~= Map::<u64, u64>::empty(),
            b@.dom().finite(),
    {
        Bridge { map: HashMap::new() }
    }

    /// How many entities currently have a node.
    pub fn len(&self) -> (n: usize)
        ensures
            n == self@.len(),
    {
        self.map.len()
    }

    /// Whether `entity` currently has a node.
    pub fn is_tracked(&self, entity: u64) -> (r: bool)
        ensures
            r == self@.contains_key(entity),
    {
        self.map.contains_key(&entity)
    }

    /// The node mapped to `entity`, if any.
    pub fn node_of(&self, entity: u64) -> (r: Option<u64>)
        ensures
            match r {
                Some(id) => self@.contains_key(entity) && id == self@[entity],
                None => !self@.contains_key(entity),
            },
    {
        match self.map.get(&entity) {
            Some(id) => Some(*id),
            None => None,
        }
    }

    /// Handles a gained signal: creates the component's node — a
    /// source with `outputs` output ports, each wired to the same
    /// input port of the sink node — and records the mapping. A
    /// gained signal for an entity that already has a node is a logic
    /// error in the surrounding system; it is refused loudly and
    /// nothing changes.
    #[verifier::loop_isolation(false)]
    pub fn handle_gained(
        &mut self,
        t: &mut Topology,
        entity: u64,
        sink: u64,
        outputs: u32,
    ) -> (r: Result<u64, ConsistencyError>)
        requires
            old(t)@.wf(),
            old(self).consistent_with(old(t)@),
            old(t)@.next_id < u64::MAX,
            old(t)@.contains_node(sink),
            outputs <= old(t)@.node_at(sink).inputs,
        ensures
            final(t)@.wf(),
            final(self).consistent_with(final(t)@),
            match r {
                Ok(id) => {
                    &&& !old(self)@.contains_key(entity)
                    &&& id == old(t)@.next_id
                    &&& final(self)@ == old(self)@.insert(entity, id)
                    &&& final(self)@ == apply_signal(old(self)@, Signal::Gained { entity, node: id })
                    &&& final(t)@.contains_node(id)
                    &&& final(t)@.nodes == old(t)@.nodes.push(
                        NodeInfo { id, inputs: 0, outputs },
                    )
                    &&& final(t)@.next_id == old(t)@.next_id + 1
                    &&& final(t)@.edges.len() == old(t)@.edges.len() + outputs
                    &&& forall|p: u32|
                        p < outputs ==> final(t)@.contains_edge(#[trigger] output_wire(id, sink, p))
                    &&& forall|e: Connection| #[trigger]
                        old(t)@.contains_edge(e) ==> final(t)@.contains_edge(e)
                },
                Err(err) => {
                    &&& err == ConsistencyError::GainedTwice
                    &&& old(self)@.contains_key(entity)
                    &&& final(self)@ == old(self)@
                    &&& final(t)@ == old(t)@
                },
            },
    {
        if self.map.contains_key(&entity) {
            return Err(ConsistencyError::GainedTwice);
        }
        let ghost t0 = old(t)@;
        let ghost m0 = old(self)@;
        let id = t.add_node(0, outputs);
        let ghost new_info = NodeInfo { id, inputs: 0, outputs };
        let ghost sink_info = t0.node_at(sink);
        proof {
            assert(t@.nodes[t0.nodes.len() as int] == new_info);
            assert(t@.nodes.contains(new_info));
            let w = choose|w: int| 0 <= w < t0.nodes.len() && t0.nodes[w].id == sink;
            assert(t0.nodes[w] == sink_info);
            assert(t@.nodes[w] == sink_info);
            assert(t@.nodes.contains(sink_info));
            assert(sink_info.id == sink);
            assert(sink != id);
        }
        let mut p: u32 = 0;
        while p < outputs
            invariant
                p <= outputs,
                id == t0.next_id,
                new_info == (NodeInfo { id, inputs: 0, outputs }),
                sink_info == t0.node_at(sink),
                t0 == old(t)@,
                t0.contains_node(sink),
                sink_info.id == sink,
                sink != id,
                outputs <= sink_info.inputs,
                t0.wf(),
                t@.wf(),
                t@.nodes == t0.nodes.push(new_info),
                t@.next_id == t0.next_id + 1,
                t@.edges.len() == t0.edges.len() + p,
                forall|j: int| 0 <= j < t0.edges.len() ==> #[trigger] t@.edges[j] == t0.edges[j],
                forall|q: int|
                    0 <= q < p ==> #[trigger] t@.edges[t0.edges.len() + q] == output_wire(
                        id,
                        sink,
                        q as u32,
                    ),
            decreases outputs - p,
        {
            let c = Connection { src_node: id, src_port: p, dst_node: sink, dst_port: p };
            proof {
                assert(t@.nodes[t0.nodes.len() as int] == new_info);
                assert(t@.nodes.contains(new_info));
                let w = choose|w: int| 0 <= w < t0.nodes.len() && t0.nodes[w].id == sink;
                assert(t0.nodes[w] == sink_info);
                assert(t@.nodes[w] == sink_info);
                assert(t@.nodes.contains(sink_info));
                lemma_node_at_of(t@, new_info);
                lemma_node_at_of(t@, sink_info);
                assert(t@.connect_refusal(c) is None) by {
                    if t@.contains_edge(c) {
                        let j = choose|j: int| 0 <= j < t@.edges.len() && t@.edges[j] == c;
                        if j < t0.edges.len() {
                            assert(t0.edges[j] == c);
                            assert(t0.edge_wf(t0.edges[j]));
                            let v = choose|v: int|
                                0 <= v < t0.nodes.len() && t0.nodes[v].id == c.src_node;
                            assert(t0.nodes[v].id < t0.next_id);
                            assert(false);
                        } else {
                            let q = j - t0.edges.len();
                            assert(t@.edges[t0.edges.len() + q] == output_wire(
                                id,
                                sink,
                                q as u32,
                            ));
                            assert(c.src_port == p && 0 <= q < p);
                            assert(false);
                        }
                    }
                }
            }
            let r = t.connect(c);
            proof {
                assert(r is Ok);
                assert(t@.edges[t0.edges.len() + p as int] == c);
            }
            p = p + 1;
        }
        proof {
            assert forall|pp: u32| pp < outputs implies t@.contains_edge(
                output_wire(id, sink, pp),
            ) by {
                let q = pp as int;
                assert(t@.edges[t0.edges.len() + q] == output_wire(id, sink, pp));
                assert(t@.edges.contains(output_wire(id, sink, pp)));
            }
            assert forall|e: Connection| #[trigger] t0.contains_edge(e) implies t@.contains_edge(
                e,
            ) by {
                let j = choose|j: int| 0 <= j < t0.edges.len() && t0.edges[j] == e;
                assert(t@.edges[j] == e);
            }
        }
        self.map.insert(entity, id);
        proof {
            assert(self@ == m0.insert(entity, id));
            assert forall|e: u64| #[trigger] self@.contains_key(e) implies t@.contains_node(
                self@[e],
            ) by {
                if e == entity {
                    assert(t@.nodes[t0.nodes.len() as int] == new_info);
                } else {
                    assert(m0.contains_key(e));
                    let v = m0[e];
                    let w = choose|w: int| 0 <= w < t0.nodes.len() && t0.nodes[w].id == v;
                    assert(t@.nodes[w].id == v);
                }
            }
            assert forall|e1: u64, e2: u64|
                self@.contains_key(e1) && self@.contains_key(e2) && e1 != e2 implies
                #[trigger] self@[e1] != #[trigger] self@[e2] by {
                if e1 == entity || e2 == entity {
                    let other = if e1 == entity {
                        e2
                    } else {
                        e1
                    };
                    assert(m0.contains_key(other));
                    let v = m0[other];
                    let w = choose|w: int| 0 <= w < t0.nodes.len() && t0.nodes[w].id == v;
                    assert(t0.nodes[w].id < t0.next_id);
                }
            }
        }
        Ok(id)
    }

    /// Handles a lost signal: erases the mapping and removes the
    /// node, together with every connection incident to it. A lost
    /// signal for an entity with no recorded node means the
    /// surrounding system lost something it never gained — a logic
    /// error, refused loudly with nothing changed. After success the
    /// removed identifier no longer appears as any entity's node.
    pub fn handle_lost(&mut self, t: &mut Topology, entity: u64) -> (r: Result<
        u64,
        ConsistencyError,
    >)
        requires
            old(t)@.wf(),
            old(self).consistent_with(old(t)@),
        ensures
            final(t)@.wf(),
            final(self).consistent_with(final(t)@),
            match r {
                Ok(id) => {
                    &&& old(self)@.contains_key(entity)
                    &&& id == old(self)@[entity]
                    &&& final(self)@ == old(self)@.remove(entity)
                    &&& final(self)@ == apply_signal(old(self)@, Signal::Lost { entity })
                    &&& final(t)@ == old(t)@.without_node(id)
                    &&& !final(t)@.contains_node(id)
                    &&& final(t)@.next_id == old(t)@.next_id
                    &&& forall|e: u64| #[trigger]
                        final(self)@.contains_key(e) ==> final(self)@[e] != id
                },
                Err(err) => {
                    &&& err == ConsistencyError::LostWithoutGained
                    &&& !old(self)@.contains_key(entity)
                    &&& final(self)@ == old(self)@
                    &&& final(t)@ == old(t)@
                },
            },
    {
        let ghost t0 = old(t)@;
        let ghost m0 = old(self)@;
        let id = match self.map.remove(&entity) {
            Some(id) => id,
            None => {
                proof {
                    assert(self@ =~= m0);
                }
                return Err(ConsistencyError::LostWithoutGained);
            },
        };
        proof {
            assert(m0.contains_key(entity) && m0[entity] == id);
            assert(self@ == m0.remove(entity));
            assert(t0.contains_node(id));
        }
        let r = t.remove_node(id);
        proof {
            assert(r is Ok);
            assert forall|e: u64| #[trigger] self@.contains_key(e) implies self@[e] != id by {
                assert(m0.contains_key(e) && e != entity);
                assert(m0[e] != m0[entity]);
            }
            assert forall|e: u64| #[trigger] self@.contains_key(e) implies t@.contains_node(
                self@[e],
            ) by {
                assert(m0.contains_key(e));
                assert(t0.contains_node(m0[e]));
                assert(self@[e] != id);
            }
        }
        Ok(id)
    }
}

} // verus!
