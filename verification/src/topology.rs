//! The graph topology: the set of processing nodes and the directed
//! port-to-port connections between them. The topology is owned by the
//! engine and is only edited under exclusive access; every edit either
//! applies completely or leaves the topology untouched and reports why.
//!
//! Node identifiers come from a monotone counter and are never reused:
//! once a node is removed, no later insertion hands its identifier out
//! again.

use vstd::prelude::*;

use crate::errors::ConnectError;
use crate::errors::NotFoundError;

verus! {

/// The elements of `s` that satisfy `pred` are exactly the elements of
/// `s.filter(pred)`, which is never longer than `s` and stays free of
/// duplicates when `s` is.
proof fn lemma_filter_props<A>(s: Seq<A>, pred: spec_fn(A) -> bool)
    ensures
        s.filter(pred).len() <= s.len(),
        forall|x: A| #[trigger] s.filter(pred).contains(x) <==> s.contains(x) && pred(x),
        (forall|i: int, j: int| 0 <= i < j < s.len() ==> s[i] != s[j]) ==> (forall|i: int, j: int|
            0 <= i < j < s.filter(pred).len() ==> #[trigger] s.filter(pred)[i] != #[trigger] s.filter(
                pred,
            )[j]),
    decreases s.len(),
{
    reveal(Seq::filter);
    if s.len() == 0 {
        assert forall|x: A| #[trigger] s.filter(pred).contains(x) implies s.contains(x) && pred(
            x,
        ) by {}
    } else {
        let t = s.drop_last();
        let last = s.last();
        lemma_filter_props(t, pred);
        assert forall|x: A| s.contains(x) implies t.contains(x) || x == last by {
            let i = choose|i: int| 0 <= i < s.len() && s[i] == x;
            if i < s.len() - 1 {
                assert(t[i] == x);
            }
        }
        assert forall|x: A| t.contains(x) implies s.contains(x) by {
            let i = choose|i: int| 0 <= i < t.len() && t[i] == x;
            assert(s[i] == x);
        }
        assert(s.contains(last)) by {
            assert(s[s.len() - 1] == last);
        }
        let ft = t.filter(pred);
        assert forall|x: A| #[trigger] s.filter(pred).contains(x) implies s.contains(x) && pred(
            x,
        ) by {
            if pred(last) {
                let i = choose|i: int| 0 <= i < s.filter(pred).len() && s.filter(pred)[i] == x;
                if i < ft.len() {
                    assert(ft.contains(x)) by {
                        assert(ft[i] == x);
                    }
                } else {
                    assert(x == last);
                }
            }
        }
        assert forall|x: A| s.contains(x) && pred(x) implies #[trigger] s.filter(pred).contains(
            x,
        ) by {
            if t.contains(x) {
                assert(ft.contains(x));
                let i = choose|i: int| 0 <= i < ft.len() && ft[i] == x;
                assert(s.filter(pred)[i] == x);
            } else {
                assert(x == last);
                assert(s.filter(pred)[s.filter(pred).len() - 1] == x);
            }
        }
        if forall|i: int, j: int| 0 <= i < j < s.len() ==> s[i] != s[j] {
            assert(forall|i: int, j: int| 0 <= i < j < t.len() ==> t[i] != t[j]) by {
                assert(forall|i: int| 0 <= i < t.len() ==> t[i] == s[i]);
            }
            assert(!t.contains(last)) by {
                if t.contains(last) {
                    let i = choose|i: int| 0 <= i < t.len() && t[i] == last;
                    assert(s[i] == last && s[s.len() - 1] == last);
                }
            }
            if pred(last) {
                assert(!ft.contains(last));
                assert forall|i: int, j: int|
                    0 <= i < j < s.filter(pred).len() implies #[trigger] s.filter(pred)[i]
                    != #[trigger] s.filter(pred)[j] by {
                    if j < ft.len() {
                        assert(s.filter(pred)[i] == ft[i] && s.filter(pred)[j] == ft[j]);
                    } else {
                        assert(s.filter(pred)[j] == last);
                        assert(ft.contains(ft[i]));
                    }
                }
            }
        }
    }
}

/// One processing node: its identifier and its port counts.
#[derive(Clone, Copy, Debug, PartialEq, Eq, Structural)]
pub struct NodeInfo {
    pub id: u64,
    pub inputs: u32,
    pub outputs: u32,
}

/// One directed connection from an output port of `src_node` to an
/// input port of `dst_node`.
#[derive(Clone, Copy, Debug, PartialEq, Eq, Structural)]
pub struct Connection {
    pub src_node: u64,
    pub src_port: u32,
    pub dst_node: u64,
    pub dst_port: u32,
}

/// Whether `c` touches the node `id` at either endpoint.
pub open spec fn incident(c: Connection, id: u64) -> bool {
    c.src_node == id || c.dst_node == id
}

/// Keeps every node but the one with identifier `id`.
pub open spec fn keep_node(id: u64) -> spec_fn(NodeInfo) -> bool {
    |n: NodeInfo| n.id != id
}

/// Keeps every connection other than `c`.
pub open spec fn keep_conn(c: Connection) -> spec_fn(Connection) -> bool {
    |e: Connection| e != c
}

/// Keeps every connection not incident to the node `id`.
pub open spec fn keep_edge(id: u64) -> spec_fn(Connection) -> bool {
    |e: Connection| !incident(e, id)
}

/// The node list after the node `id` is removed.
pub open spec fn nodes_without(nodes: Seq<NodeInfo>, id: u64) -> Seq<NodeInfo> {
    nodes.filter(keep_node(id))
}

/// The connections that survive the removal of node `id`.
pub open spec fn surviving_edges(edges: Seq<Connection>, id: u64) -> Seq<Connection> {
    edges.filter(keep_edge(id))
}

/// One step of filtering: extending the prefix by `s[i]` extends the
/// filtered prefix by `s[i]` exactly when the predicate keeps it.
proof fn lemma_filter_take_step<A>(s: Seq<A>, pred: spec_fn(A) -> bool, i: int)
    requires
        0 <= i < s.len(),
    ensures
        s.take(i + 1).filter(pred) == if pred(s[i]) {
            s.take(i).filter(pred).push(s[i])
        } else {
            s.take(i).filter(pred)
        },
{
    reveal(Seq::filter);
    assert(s.take(i + 1).drop_last() =~= s.take(i));
    assert(s.take(i + 1).last() == s[i]);
}

/// The mathematical value of a topology: its node list, its connection
/// list, and the identifier counter.
#[verifier::ext_equal]
pub struct TopologyModel {
    pub nodes: Seq<NodeInfo>,
    pub edges: Seq<Connection>,
    pub next_id: u64,
}

impl TopologyModel {
    /// There is a node with identifier `id`.
    pub open spec fn contains_node(self, id: u64) -> bool {
        exists|i: int| 0 <= i < self.nodes.len() && self.nodes[i].id == id
    }

    /// The port counts of the node with identifier `id`.
    pub open spec fn node_at(self, id: u64) -> NodeInfo {
        self.nodes[choose|i: int| 0 <= i < self.nodes.len() && self.nodes[i].id == id]
    }

    /// The connection `c` is present.
    pub open spec fn contains_edge(self, c: Connection) -> bool {
        self.edges.contains(c)
    }

    /// Well-formedness: node identifiers are pairwise distinct and all
    /// below the counter, and every connection joins existing nodes on
    /// ports within their counts, with no connection listed twice.
    pub open spec fn wf(self) -> bool {
        &&& forall|i: int| 0 <= i < self.nodes.len() ==> (#[trigger] self.nodes[i]).id < self.next_id
        &&& forall|i: int, j: int|
            0 <= i < j < self.nodes.len() ==> (#[trigger] self.nodes[i]).id != (
            #[trigger] self.nodes[j]).id
        &&& forall|k: int| 0 <= k < self.edges.len() ==> self.edge_wf(#[trigger] self.edges[k])
        &&& forall|k: int, l: int|
            0 <= k < l < self.edges.len() ==> #[trigger] self.edges[k] != #[trigger] self.edges[l]
    }

    /// A single connection is structurally valid for this topology.
    pub open spec fn edge_wf(self, c: Connection) -> bool {
        &&& self.contains_node(c.src_node)
        &&& self.contains_node(c.dst_node)
        &&& c.src_node != c.dst_node
        &&& c.src_port < self.node_at(c.src_node).outputs
        &&& c.dst_port < self.node_at(c.dst_node).inputs
    }

    /// Why connecting `c` would be refused, if it would be; the checks
    /// are made in this order, so exactly one reason is reported.
    pub open spec fn connect_refusal(self, c: Connection) -> Option<ConnectError> {
        if !self.contains_node(c.src_node) {
            Some(ConnectError::SourceMissing)
        } else if !self.contains_node(c.dst_node) {
            Some(ConnectError::DestinationMissing)
        } else if c.src_node == c.dst_node {
            Some(ConnectError::SelfLoop)
        } else if c.src_port >= self.node_at(c.src_node).outputs {
            Some(ConnectError::SourcePortOutOfRange)
        } else if c.dst_port >= self.node_at(c.dst_node).inputs {
            Some(ConnectError::DestinationPortOutOfRange)
        } else if self.contains_edge(c) {
            Some(ConnectError::DuplicateEdge)
        } else {
            None
        }
    }

    /// The topology after a fresh node with these port counts is added.
    pub open spec fn with_node(self, inputs: u32, outputs: u32) -> TopologyModel {
        TopologyModel {
            nodes: self.nodes.push(NodeInfo { id: self.next_id, inputs, outputs }),
            edges: self.edges,
            next_id: (self.next_id + 1) as u64,
        }
    }

    /// The topology after the connection `c` is added.
    pub open spec fn with_edge(self, c: Connection) -> TopologyModel {
        TopologyModel { nodes: self.nodes, edges: self.edges.push(c), next_id: self.next_id }
    }

    /// The topology after the connection `c` is removed.
    pub open spec fn without_edge(self, c: Connection) -> TopologyModel {
        TopologyModel {
            nodes: self.nodes,
            edges: self.edges.filter(keep_conn(c)),
            next_id: self.next_id,
        }
    }

    /// The topology after the node `id` and every connection incident
    /// to it are removed. The counter is untouched: the identifier is
    /// never reissued.
    pub open spec fn without_node(self, id: u64) -> TopologyModel {
        TopologyModel {
            nodes: nodes_without(self.nodes, id),
            edges: surviving_edges(self.edges, id),
            next_id: self.next_id,
        }
    }
}

/// In a well-formed topology, a node listed in `nodes` is found by
/// `node_at` under its own identifier.
pub proof fn lemma_node_at_of(t: TopologyModel, info: NodeInfo)
    requires
        t.wf(),
        t.nodes.contains(info),
    ensures
        t.contains_node(info.id),
        t.node_at(info.id) == info,
{
    let i = choose|i: int| 0 <= i < t.nodes.len() && t.nodes[i] == info;
    assert(t.nodes[i].id == info.id);
    let j = choose|j: int| 0 <= j < t.nodes.len() && t.nodes[j].id == info.id;
    assert(t.nodes[j].id == info.id);
    if i != j {
        assert(false);
    }
}

/// Removing one node never makes another identifier appear: an absent
/// identifier stays absent.
pub proof fn lemma_without_node_absent(t: TopologyModel, removed: u64, id: u64)
    requires
        !t.contains_node(id),
    ensures
        !t.without_node(removed).contains_node(id),
{
    lemma_filter_props(t.nodes, keep_node(removed));
    let u = t.without_node(removed);
    if u.contains_node(id) {
        let w = choose|w: int| 0 <= w < u.nodes.len() && u.nodes[w].id == id;
        assert(u.nodes.contains(u.nodes[w]));
        assert(t.nodes.contains(u.nodes[w]));
        let v = choose|v: int| 0 <= v < t.nodes.len() && t.nodes[v] == u.nodes[w];
        assert(t.nodes[v].id == id);
    }
}

/// The set of nodes and connections, plus the identifier counter.
pub struct Topology {
    pub nodes: Vec<NodeInfo>,
    pub edges: Vec<Connection>,
    pub next_id: u64,
}

impl View for Topology {
    type V = TopologyModel;

    open spec fn view(&self) -> TopologyModel {
        TopologyModel { nodes: self.nodes@, edges: self.edges@, next_id: self.next_id }
    }
}

impl Topology {
    /// An empty topology.
    pub fn new() -> (t: Topology)
        ensures
            t@.wf(),
            t@.nodes =~= Seq::<NodeInfo>::empty(),
            t@.edges =~= Seq::<Connection>::empty(),
            t.next_id == 0,
    {
        Topology { nodes: Vec::new(), edges: Vec::new(), next_id: 0 }
    }

    /// How many nodes the topology holds.
    pub fn node_count(&self) -> (n: usize)
        ensures
            n == self@.nodes.len(),
    {
        self.nodes.len()
    }

    /// How many connections the topology holds.
    pub fn edge_count(&self) -> (n: usize)
        ensures
            n == self@.edges.len(),
    {
        self.edges.len()
    }

    /// Looks a node up by identifier.
    pub fn find_node(&self, id: u64) -> (r: Option<NodeInfo>)
        ensures
            match r {
                Some(info) => self@.contains_node(id) && info.id == id && self@.nodes.contains(info),
                None => !self@.contains_node(id),
            },
            self@.wf() && self@.contains_node(id) ==> r == Some(self@.node_at(id)),
    {
        let mut i: usize = 0;
        while i < self.nodes.len()
            invariant
                0 <= i <= self@.nodes.len(),
                forall|j: int| 0 <= j < i ==> (#[trigger] self@.nodes[j]).id != id,
            decreases self@.nodes.len() - i,
        {
            if self.nodes[i].id == id {
                proof {
                    if self@.wf() {
                        let w = choose|k: int| 0 <= k < self@.nodes.len() && self@.nodes[k].id == id;
                        assert(self@.nodes[w].id == id && self@.nodes[i as int].id == id);
                        assert(w == i as int);
                    }
                }
                return Some(self.nodes[i]);
            }
            i = i + 1;
        }
        None
    }

    /// Whether a node with identifier `id` exists.
    pub fn has_node(&self, id: u64) -> (r: bool)
        ensures
            r == self@.contains_node(id),
    {
        self.find_node(id).is_some()
    }

    /// Whether the exact connection `c` is present.
    pub fn has_edge(&self, c: &Connection) -> (r: bool)
        ensures
            r == self@.contains_edge(*c),
    {
        let mut i: usize = 0;
        while i < self.edges.len()
            invariant
                0 <= i <= self@.edges.len(),
                forall|j: int| 0 <= j < i ==> #[trigger] self@.edges[j] != *c,
            decreases self@.edges.len() - i,
        {
            if self.edges[i] == *c {
                return true;
            }
            i = i + 1;
        }
        false
    }

    /// Inserts a fresh node with the given port counts and returns its
    /// identifier, which no node has held before.
    pub fn add_node(&mut self, inputs: u32, outputs: u32) -> (id: u64)
        requires
            old(self)@.wf(),
            old(self).next_id < u64::MAX,
        ensures
            final(self)@.wf(),
            id == old(self).next_id,
            final(self)@ == old(self)@.with_node(inputs, outputs),
            !old(self)@.contains_node(id),
            final(self)@.contains_node(id),
            final(self)@.node_at(id) == (NodeInfo { id, inputs, outputs }),
            final(self)@.nodes =~= old(self)@.nodes.push(NodeInfo { id, inputs, outputs }),
            final(self)@.edges == old(self)@.edges,
            final(self).next_id == old(self).next_id + 1,
            forall|n: u64| final(self)@.contains_node(n) <==> old(self)@.contains_node(n) || n == id,
            forall|n: u64| old(self)@.contains_node(n) ==> final(self)@.node_at(n) == old(self)@.node_at(n),
    {
        let id = self.next_id;
        self.nodes.push(NodeInfo { id, inputs, outputs });
        self.next_id = self.next_id + 1;
        proof {
            let last = self@.nodes.len() - 1;
            assert(self@.nodes[last].id == id);
            assert forall|n: u64| self@.contains_node(n) implies old(self)@.contains_node(n) || n
                == id by {
                let w = choose|w: int| 0 <= w < self@.nodes.len() && self@.nodes[w].id == n;
                if w < last {
                    assert(old(self)@.nodes[w].id == n);
                }
            }
            assert forall|n: u64| old(self)@.contains_node(n) implies self@.contains_node(n) by {
                let w = choose|w: int| 0 <= w < old(self)@.nodes.len() && old(self)@.nodes[w].id
                    == n;
                assert(self@.nodes[w].id == n);
            }
            assert(self@.contains_node(id));
            assert forall|i: int, j: int| 0 <= i < j < self@.nodes.len() implies (
            #[trigger] self@.nodes[i]).id != (#[trigger] self@.nodes[j]).id by {
                if j == last {
                    assert(old(self)@.nodes[i].id < old(self).next_id);
                }
            }
            assert forall|n: u64| old(self)@.contains_node(n) implies self@.node_at(n) == old(
                self,
            )@.node_at(n) by {
                let w = choose|i: int|
                    0 <= i < old(self)@.nodes.len() && old(self)@.nodes[i].id == n;
                assert(self@.nodes[w].id == n);
                let v = choose|i: int| 0 <= i < self@.nodes.len() && self@.nodes[i].id == n;
                assert(self@.nodes[v].id == n);
                assert(v == w);
            }
            assert(self@.node_at(id) == (NodeInfo { id, inputs, outputs })) by {
                let v = choose|i: int| 0 <= i < self@.nodes.len() && self@.nodes[i].id == id;
                assert(v == last);
            }
            assert forall|k: int| 0 <= k < self@.edges.len() implies self@.edge_wf(
                #[trigger] self@.edges[k],
            ) by {
                assert(old(self)@.edge_wf(old(self)@.edges[k]));
                let e = self@.edges[k];
                assert(self@.node_at(e.src_node) == old(self)@.node_at(e.src_node));
                assert(self@.node_at(e.dst_node) == old(self)@.node_at(e.dst_node));
            }
            assert(self@ =~= old(self)@.with_node(inputs, outputs));
        }
        id
    }

    /// Why `connect(c)` would be refused, if it would be.
    pub open spec fn connect_refusal(self, c: Connection) -> Option<ConnectError> {
        self@.connect_refusal(c)
    }

    /// Adds the connection `c`. Succeeds if and only if both endpoints
    /// exist, they differ, the ports are within the endpoints' counts,
    /// and the connection is not already present; on failure nothing
    /// changes and the error names the first violated condition.
    pub fn connect(&mut self, c: Connection) -> (r: Result<(), ConnectError>)
        requires
            old(self)@.wf(),
        ensures
            final(self)@.wf(),
            final(self)@.nodes == old(self)@.nodes,
            final(self).next_id == old(self).next_id,
            match r {
                Ok(()) => {
                    &&& old(self)@.connect_refusal(c) is None
                    &&& final(self)@ == old(self)@.with_edge(c)
                    &&& final(self)@.edges =~= old(self)@.edges.push(c)
                },
                Err(e) => {
                    &&& old(self)@.connect_refusal(c) == Some(e)
                    &&& final(self)@ == old(self)@
                },
            },
    {
        let src = self.find_node(c.src_node);
        let dst = self.find_node(c.dst_node);
        match (src, dst) {
            (None, _) => Err(ConnectError::SourceMissing),
            (_, None) => Err(ConnectError::DestinationMissing),
            (Some(s), Some(d)) => {
                if c.src_node == c.dst_node {
                    Err(ConnectError::SelfLoop)
                } else if c.src_port >= s.outputs {
                    Err(ConnectError::SourcePortOutOfRange)
                } else if c.dst_port >= d.inputs {
                    Err(ConnectError::DestinationPortOutOfRange)
                } else if self.has_edge(&c) {
                    Err(ConnectError::DuplicateEdge)
                } else {
                    self.edges.push(c);
                    proof {
                        let last = self@.edges.len() - 1;
                        assert forall|k: int, l: int|
                            0 <= k < l < self@.edges.len() implies #[trigger] self@.edges[k]
                            != #[trigger] self@.edges[l] by {
                            if l == last {
                                assert(self@.edges[l] == c);
                                assert(old(self)@.edges[k] == self@.edges[k]);
                                if self@.edges[k] == c {
                                    assert(old(self)@.edges[k as int] == c);
                                    assert(old(self)@.contains_edge(c));
                                    assert(false);
                                }
                            } else {
                                assert(old(self)@.edges[k] == self@.edges[k]);
                                assert(old(self)@.edges[l] == self@.edges[l]);
                            }
                        }
                        assert forall|k: int| 0 <= k < self@.edges.len() implies self@.edge_wf(
                            #[trigger] self@.edges[k],
                        ) by {
                            let e = self@.edges[k];
                            if k < last {
                                assert(e == old(self)@.edges[k]);
                                assert(old(self)@.edge_wf(e));
                            } else {
                                assert(e == c);
                                assert(old(self)@.edge_wf(c));
                            }
                            let ws = choose|i2: int|
                                0 <= i2 < old(self)@.nodes.len() && old(self)@.nodes[i2].id
                                    == e.src_node;
                            assert(self@.nodes[ws].id == e.src_node);
                            let wd = choose|i2: int|
                                0 <= i2 < old(self)@.nodes.len() && old(self)@.nodes[i2].id
                                    == e.dst_node;
                            assert(self@.nodes[wd].id == e.dst_node);
                        }
                        assert(self@ =~= old(self)@.with_edge(c));
                    }
                    Ok(())
                }
            },
        }
    }

    /// Removes the node `id` together with every connection incident to
    /// it, leaving no half-connected remains. Succeeds if and only if
    /// the node exists; on failure nothing changes. The identifier is
    /// not reissued: the counter is untouched.
    pub fn remove_node(&mut self, id: u64) -> (r: Result<(), NotFoundError>)
        requires
            old(self)@.wf(),
        ensures
            final(self)@.wf(),
            final(self).next_id == old(self).next_id,
            match r {
                Ok(()) => {
                    &&& old(self)@.contains_node(id)
                    &&& final(self)@ == old(self)@.without_node(id)
                    &&& final(self)@.nodes == nodes_without(old(self)@.nodes, id)
                    &&& final(self)@.edges == surviving_edges(old(self)@.edges, id)
                    &&& final(self)@.nodes.len() == old(self)@.nodes.len() - 1
                    &&& !final(self)@.contains_node(id)
                    &&& forall|n: u64|
                        n != id ==> (final(self)@.contains_node(n) <==> old(self)@.contains_node(n))
                    &&& forall|n: u64|
                        n != id && old(self)@.contains_node(n) ==> final(self)@.node_at(n) == old(
                            self,
                        )@.node_at(n)
                    &&& forall|e: Connection|
                        final(self)@.contains_edge(e) <==> (old(self)@.contains_edge(e) && !incident(
                            e,
                            id,
                        ))
                },
                Err(e) => {
                    &&& e == NotFoundError::NodeMissing
                    &&& !old(self)@.contains_node(id)
                    &&& final(self)@.nodes == old(self)@.nodes
                    &&& final(self)@.edges == old(self)@.edges
                },
            },
    {
        if !self.has_node(id) {
            return Err(NotFoundError::NodeMissing);
        }
        let ghost pre = *self;
        let mut kept_nodes: Vec<NodeInfo> = Vec::new();
        let mut i: usize = 0;
        while i < self.nodes.len()
            invariant
                0 <= i <= self@.nodes.len(),
                kept_nodes@ == self@.nodes.take(i as int).filter(keep_node(id)),
                kept_nodes@.len() + (if exists|j: int|
                    0 <= j < i && self@.nodes[j].id == id {
                    1int
                } else {
                    0int
                }) == i,
                self@.wf(),
            decreases self@.nodes.len() - i,
        {
            let info = self.nodes[i];
            proof {
                lemma_filter_take_step(self@.nodes, keep_node(id), i as int);
                if info.id == id {
                    assert forall|j: int| 0 <= j < i implies self@.nodes[j].id != id by {
                        assert(self@.nodes[j] != self@.nodes[i as int]);
                    }
                } else {
                    assert((exists|j: int| 0 <= j < i + 1 && self@.nodes[j].id == id)
                        == (exists|j: int| 0 <= j < i && self@.nodes[j].id == id));
                }
            }
            if info.id != id {
                kept_nodes.push(info);
            }
            i = i + 1;
        }
        let mut kept_edges: Vec<Connection> = Vec::new();
        let mut k: usize = 0;
        while k < self.edges.len()
            invariant
                0 <= k <= self@.edges.len(),
                kept_edges@ == self@.edges.take(k as int).filter(keep_edge(id)),
            decreases self@.edges.len() - k,
        {
            let e = self.edges[k];
            proof {
                lemma_filter_take_step(self@.edges, keep_edge(id), k as int);
            }
            if !(e.src_node == id || e.dst_node == id) {
                kept_edges.push(e);
            }
            k = k + 1;
        }
        proof {
            assert(self@.nodes.take(self@.nodes.len() as int) =~= self@.nodes);
            assert(self@.edges.take(self@.edges.len() as int) =~= self@.edges);
        }
        self.nodes = kept_nodes;
        self.edges = kept_edges;
        proof {
            lemma_filter_props(pre@.nodes, keep_node(id));
            lemma_filter_props(pre@.edges, keep_edge(id));
            let fln = pre@.nodes.filter(keep_node(id));
            let fle = pre@.edges.filter(keep_edge(id));
            assert(self@.nodes == fln);
            assert(self@.edges == fle);
            assert forall|x: NodeInfo| #[trigger] self@.nodes.contains(x) implies
                pre@.nodes.contains(x) && x.id != id by {
                assert(fln.contains(x));
            }
            assert forall|x: NodeInfo| pre@.nodes.contains(x) && x.id != id implies
                #[trigger] self@.nodes.contains(x) by {
                assert(fln.contains(x));
            }
            assert forall|x: Connection| #[trigger] self@.edges.contains(x) implies
                pre@.edges.contains(x) && !incident(x, id) by {
                assert(fle.contains(x));
            }
            assert forall|x: Connection| pre@.edges.contains(x) && !incident(x, id) implies
                #[trigger] self@.edges.contains(x) by {
                assert(fle.contains(x));
            }
            assert forall|a: int, b: int| 0 <= a < b < self@.nodes.len() implies (
            #[trigger] self@.nodes[a]).id != (#[trigger] self@.nodes[b]).id by {
                assert(fln[a] != fln[b]);
                assert(self@.nodes.contains(self@.nodes[a]));
                assert(self@.nodes.contains(self@.nodes[b]));
                if self@.nodes[a].id == self@.nodes[b].id {
                    let pa = choose|p: int|
                        0 <= p < pre@.nodes.len() && pre@.nodes[p] == self@.nodes[a];
                    let pb = choose|p: int|
                        0 <= p < pre@.nodes.len() && pre@.nodes[p] == self@.nodes[b];
                    assert(pre@.nodes[pa].id == pre@.nodes[pb].id);
                    assert(pa == pb);
                    assert(false);
                }
            }
            assert forall|a: int, b: int| 0 <= a < b < self@.edges.len() implies
                #[trigger] self@.edges[a] != #[trigger] self@.edges[b] by {
                assert(fle[a] != fle[b]);
            }
            assert forall|a: int| 0 <= a < self@.nodes.len() implies (
            #[trigger] self@.nodes[a]).id < self.next_id by {
                assert(self@.nodes.contains(self@.nodes[a]));
                let p = choose|p: int|
                    0 <= p < pre@.nodes.len() && pre@.nodes[p] == self@.nodes[a];
                assert(pre@.nodes[p].id < pre.next_id);
            }
            assert(!self@.contains_node(id)) by {
                if self@.contains_node(id) {
                    let w = choose|w: int| 0 <= w < self@.nodes.len() && self@.nodes[w].id == id;
                    assert(self@.nodes.contains(self@.nodes[w]));
                }
            }
            assert forall|n: u64| n != id implies (self@.contains_node(n) <==> pre@.contains_node(
                n,
            )) by {
                if pre@.contains_node(n) {
                    let w = choose|w: int| 0 <= w < pre@.nodes.len() && pre@.nodes[w].id == n;
                    assert(pre@.nodes.contains(pre@.nodes[w]));
                    assert(self@.nodes.contains(pre@.nodes[w]));
                    let v = choose|v: int| 0 <= v < self@.nodes.len() && self@.nodes[v]
                        == pre@.nodes[w];
                    assert(self@.nodes[v].id == n);
                }
                if self@.contains_node(n) {
                    let w = choose|w: int| 0 <= w < self@.nodes.len() && self@.nodes[w].id == n;
                    assert(self@.nodes.contains(self@.nodes[w]));
                    assert(pre@.nodes.contains(self@.nodes[w]));
                    let v = choose|v: int| 0 <= v < pre@.nodes.len() && pre@.nodes[v]
                        == self@.nodes[w];
                    assert(pre@.nodes[v].id == n);
                }
            }
            assert forall|n: u64| n != id && pre@.contains_node(n) implies self@.node_at(n)
                == pre@.node_at(n) by {
                let w = choose|w: int| 0 <= w < pre@.nodes.len() && pre@.nodes[w].id == n;
                let info = pre@.nodes[w];
                assert(pre@.nodes.contains(info));
                assert(self@.nodes.contains(info));
                let v = choose|v: int| 0 <= v < self@.nodes.len() && self@.nodes[v] == info;
                assert(self@.nodes[v].id == n);
                let c1 = choose|c: int| 0 <= c < self@.nodes.len() && self@.nodes[c].id == n;
                assert(self@.nodes[c1].id == n);
                assert(c1 == v || self@.nodes[c1] == self@.nodes[v]) by {
                    if c1 != v {
                        assert(false);
                    }
                }
                let c0 = choose|c: int| 0 <= c < pre@.nodes.len() && pre@.nodes[c].id == n;
                assert(c0 == w) by {
                    if c0 != w {
                        assert(false);
                    }
                }
            }
            assert forall|k2: int| 0 <= k2 < self@.edges.len() implies self@.edge_wf(
                #[trigger] self@.edges[k2],
            ) by {
                let e = self@.edges[k2];
                assert(self@.edges.contains(e));
                let w = choose|w: int| 0 <= w < pre@.edges.len() && pre@.edges[w] == e;
                assert(pre@.edge_wf(pre@.edges[w]));
                assert(!incident(e, id));
                assert(self@.node_at(e.src_node) == pre@.node_at(e.src_node));
                assert(self@.node_at(e.dst_node) == pre@.node_at(e.dst_node));
            }
            assert(self@.nodes.len() == pre@.nodes.len() - 1) by {
                assert(exists|j: int| 0 <= j < pre@.nodes.len() && pre@.nodes[j].id == id);
            }
            assert(self@ =~= pre@.without_node(id));
        }
        Ok(())
    }

    /// Removes the connection `c`. Succeeds if and only if it was
    /// present; nothing else changes either way.
    pub fn disconnect(&mut self, c: Connection) -> (r: Result<(), NotFoundError>)
        requires
            old(self)@.wf(),
        ensures
            final(self)@.wf(),
            final(self)@.nodes == old(self)@.nodes,
            final(self).next_id == old(self).next_id,
            match r {
                Ok(()) => {
                    &&& old(self)@.contains_edge(c)
                    &&& final(self)@ == old(self)@.without_edge(c)
                    &&& !final(self)@.contains_edge(c)
                    &&& forall|e: Connection|
                        e != c ==> (final(self)@.contains_edge(e) <==> old(self)@.contains_edge(e))
                    &&& final(self)@.edges.len() == old(self)@.edges.len() - 1
                },
                Err(e) => {
                    &&& e == NotFoundError::EdgeMissing
                    &&& !old(self)@.contains_edge(c)
                    &&& final(self)@ == old(self)@
                },
            },
    {
        if !self.has_edge(&c) {
            return Err(NotFoundError::EdgeMissing);
        }
        let ghost pre = *self;
        let mut kept: Vec<Connection> = Vec::new();
        let mut k: usize = 0;
        while k < self.edges.len()
            invariant
                0 <= k <= self@.edges.len(),
                kept@ == self@.edges.take(k as int).filter(keep_conn(c)),
                kept@.len() + (if exists|j: int|
                    0 <= j < k && self@.edges[j] == c {
                    1int
                } else {
                    0int
                }) == k,
                self@.wf(),
            decreases self@.edges.len() - k,
        {
            let e = self.edges[k];
            proof {
                lemma_filter_take_step(self@.edges, keep_conn(c), k as int);
                if e == c {
                    assert forall|j: int| 0 <= j < k implies self@.edges[j] != c by {
                        assert(self@.edges[j] != self@.edges[k as int]);
                    }
                } else {
                    assert((exists|j: int| 0 <= j < k + 1 && self@.edges[j] == c) == (exists|j: int|
                        0 <= j < k && self@.edges[j] == c));
                }
            }
            if !(e == c) {
                kept.push(e);
            }
            k = k + 1;
        }
        proof {
            assert(self@.edges.take(self@.edges.len() as int) =~= self@.edges);
        }
        self.edges = kept;
        proof {
            lemma_filter_props(pre@.edges, keep_conn(c));
            let fle = pre@.edges.filter(keep_conn(c));
            assert(self@.edges == fle);
            assert forall|x: Connection| #[trigger] self@.edges.contains(x) implies
                pre@.edges.contains(x) && x != c by {
                assert(fle.contains(x));
            }
            assert forall|x: Connection| pre@.edges.contains(x) && x != c implies
                #[trigger] self@.edges.contains(x) by {
                assert(fle.contains(x));
            }
            assert forall|a: int, b: int| 0 <= a < b < self@.edges.len() implies
                #[trigger] self@.edges[a] != #[trigger] self@.edges[b] by {
                assert(fle[a] != fle[b]);
            }
            assert forall|k2: int| 0 <= k2 < self@.edges.len() implies self@.edge_wf(
                #[trigger] self@.edges[k2],
            ) by {
                let e = self@.edges[k2];
                assert(self@.edges.contains(e));
                let w = choose|w: int| 0 <= w < pre@.edges.len() && pre@.edges[w] == e;
                assert(pre@.edge_wf(pre@.edges[w]));
                let ws = choose|i2: int|
                    0 <= i2 < pre@.nodes.len() && pre@.nodes[i2].id == e.src_node;
                assert(self@.nodes[ws].id == e.src_node);
                let wd = choose|i2: int|
                    0 <= i2 < pre@.nodes.len() && pre@.nodes[i2].id == e.dst_node;
                assert(self@.nodes[wd].id == e.dst_node);
            }
            assert(!self@.contains_edge(c)) by {
                if self@.edges.contains(c) {
                    assert(fle.contains(c));
                }
            }
            assert(self@.edges.len() == pre@.edges.len() - 1) by {
                assert(exists|j: int| 0 <= j < pre@.edges.len() && pre@.edges[j] == c);
            }
            assert(self@ =~= pre@.without_edge(c));
        }
        Ok(())
    }
}

} // verus!
