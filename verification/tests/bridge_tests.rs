use audio_bridge::bridge::Bridge;
use audio_bridge::bridge::ChangeEffect;
use audio_bridge::bridge::route_change;
use audio_bridge::engine::Engine;
use audio_bridge::errors::ConsistencyError;
use audio_bridge::mutation::Mutation;
use audio_bridge::mutation::MutationQueue;
use audio_bridge::param::ParamCell;
use audio_bridge::topology::Connection;
use audio_bridge::topology::Topology;

const ENTITY: u64 = 41;
const OTHER_ENTITY: u64 = 42;

/// A topology holding only the two-channel output sink, as node 0.
fn topology_with_sink() -> (Topology, u64) {
    let mut t = Topology::new();
    let sink = t.add_node(2, 0);
    (t, sink)
}

#[test]
fn test_on_add_node() {
    let (mut t, sink) = topology_with_sink();
    let mut bridge = Bridge::new();
    bridge.handle_gained(&mut t, ENTITY, sink, 1).unwrap();
    assert!(bridge.is_tracked(ENTITY));
}

#[test]
fn test_on_remove_node() {
    let (mut t, sink) = topology_with_sink();
    let mut bridge = Bridge::new();
    bridge.handle_gained(&mut t, ENTITY, sink, 1).unwrap();
    bridge.handle_lost(&mut t, ENTITY).unwrap();
    assert!(!bridge.is_tracked(ENTITY));
}

#[test]
fn test_detect_changes() {
    let mut cell = ParamCell::new(0);
    let mut queue = MutationQueue::new();
    route_change(&mut cell, &mut queue, &ChangeEffect::ParamWrite { value: 1 });
}

#[test]
fn test_map_size_tracks_gained_entities() {
    // With no duplicate gained and no lost-without-gained, the map
    // holds exactly the currently gained entities.
    let (mut t, sink) = topology_with_sink();
    let mut bridge = Bridge::new();
    assert_eq!(bridge.len(), 0);
    bridge.handle_gained(&mut t, ENTITY, sink, 1).unwrap();
    assert_eq!(bridge.len(), 1);
    bridge.handle_gained(&mut t, OTHER_ENTITY, sink, 1).unwrap();
    assert_eq!(bridge.len(), 2);
    bridge.handle_lost(&mut t, ENTITY).unwrap();
    assert_eq!(bridge.len(), 1);
    bridge.handle_gained(&mut t, ENTITY, sink, 1).unwrap();
    assert_eq!(bridge.len(), 2);
    bridge.handle_lost(&mut t, ENTITY).unwrap();
    bridge.handle_lost(&mut t, OTHER_ENTITY).unwrap();
    assert_eq!(bridge.len(), 0);
}

#[test]
fn test_gained_twice_is_loud() {
    let (mut t, sink) = topology_with_sink();
    let mut bridge = Bridge::new();
    bridge.handle_gained(&mut t, ENTITY, sink, 1).unwrap();
    let nodes_before = t.node_count();
    assert_eq!(
        bridge.handle_gained(&mut t, ENTITY, sink, 1),
        Err(ConsistencyError::GainedTwice)
    );
    assert_eq!(t.node_count(), nodes_before);
}

#[test]
fn test_removed_node_id_leaves_the_map() {
    let (mut t, sink) = topology_with_sink();
    let mut bridge = Bridge::new();
    let first = bridge.handle_gained(&mut t, ENTITY, sink, 1).unwrap();
    bridge.handle_gained(&mut t, OTHER_ENTITY, sink, 1).unwrap();
    let removed = bridge.handle_lost(&mut t, ENTITY).unwrap();
    assert_eq!(removed, first);
    // The removed identifier no longer appears as any entity's node,
    // and a fresh gain is given a brand-new identifier.
    assert_ne!(bridge.node_of(OTHER_ENTITY), Some(removed));
    let fresh = bridge.handle_gained(&mut t, ENTITY, sink, 1).unwrap();
    assert_ne!(fresh, removed);
}

#[test]
fn test_gained_component_scenario() {
    // An entity gains a component with amplitude 0 and frequency 440:
    // one node is created and both output channels are wired; a later
    // amplitude change only writes the parameter cell; losing the
    // component removes the node, and a second lost signal is loud.
    let (mut t, sink) = topology_with_sink();
    let mut bridge = Bridge::new();
    let mut amplitude = ParamCell::new(0.0f32.to_bits() as u64);
    let mut frequency = ParamCell::new(440.0f32.to_bits() as u64);
    let mut queue = MutationQueue::new();

    let node = bridge.handle_gained(&mut t, ENTITY, sink, 2).unwrap();
    assert_eq!(t.node_count(), 2);
    assert_eq!(t.edge_count(), 2);
    assert!(t.has_edge(&Connection { src_node: node, src_port: 0, dst_node: sink, dst_port: 0 }));
    assert!(t.has_edge(&Connection { src_node: node, src_port: 1, dst_node: sink, dst_port: 1 }));
    assert_eq!(bridge.node_of(ENTITY), Some(node));
    assert_eq!(f32::from_bits(frequency.read() as u32), 440.0);

    route_change(
        &mut amplitude,
        &mut queue,
        &ChangeEffect::ParamWrite { value: 1.0f32.to_bits() as u64 },
    );
    assert_eq!(f32::from_bits(amplitude.read() as u32), 1.0);
    assert!(queue.is_empty());
    assert_eq!(t.node_count(), 2);

    bridge.handle_lost(&mut t, ENTITY).unwrap();
    assert!(!t.has_node(node));
    assert_eq!(bridge.node_of(ENTITY), None);
    assert_eq!(
        bridge.handle_lost(&mut t, ENTITY),
        Err(ConsistencyError::LostWithoutGained)
    );
}

#[test]
fn test_route_change_topology_edit_enqueues() {
    let mut cell = ParamCell::new(17);
    let mut queue = MutationQueue::new();
    route_change(
        &mut cell,
        &mut queue,
        &ChangeEffect::TopologyEdit { mutation: Mutation::RemoveNode { id: 3 } },
    );
    assert_eq!(queue.len(), 1);
    assert_eq!(cell.read(), 17);
}

#[test]
fn test_queued_edits_apply_through_engine() {
    let (mut t, sink) = topology_with_sink();
    let mut bridge = Bridge::new();
    let node = bridge.handle_gained(&mut t, ENTITY, sink, 2).unwrap();
    let mut engine = Engine::new(48000, vec![1], t);
    engine.activate(Some(1)).unwrap();
    let mut queue = MutationQueue::new();
    queue.enqueue(Mutation::Disconnect {
        conn: Connection { src_node: node, src_port: 1, dst_node: sink, dst_port: 1 },
    });
    let results = engine.apply_queued(&mut queue);
    assert!(results[0].is_ok());
    assert!(queue.is_empty());
    assert_eq!(engine.topology.edge_count(), 1);
    assert!(engine.is_active());
}
