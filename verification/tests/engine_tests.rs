use audio_bridge::engine::Engine;
use audio_bridge::engine::EngineAction;
use audio_bridge::engine::EngineSlot;
use audio_bridge::engine::StreamStatus;
use audio_bridge::engine::UpdateOutcome;
use audio_bridge::engine::apply_window;
use audio_bridge::engine::frame_update;
use audio_bridge::mutation::Mutation;
use audio_bridge::mutation::MutationQueue;
use audio_bridge::node::NodeDescriptor;
use audio_bridge::node::PortCountRange;
use audio_bridge::node::ProcessorBehavior;
use audio_bridge::errors::ConsistencyError;
use audio_bridge::errors::DeviceError;
use audio_bridge::topology::Topology;

const DEFAULT_DEVICE: u64 = 1;
const OTHER_DEVICE: u64 = 2;
const MISSING_DEVICE: u64 = 99;

fn test_engine() -> Engine {
    Engine::new(48000, vec![DEFAULT_DEVICE, OTHER_DEVICE], Topology::new())
}

#[test]
fn test_activate_missing_device_then_default() {
    // `activate` on a device that cannot be opened fails, the engine
    // stays inactive, and a later activation succeeds.
    let mut e = test_engine();
    assert_eq!(e.activate(Some(MISSING_DEVICE)), Err(DeviceError::UnknownDevice));
    assert!(!e.is_active());
    assert_eq!(e.activate(None), Ok(DEFAULT_DEVICE));
    assert!(e.is_active());
}

#[test]
fn test_activate_without_any_device() {
    let mut e = Engine::new(48000, Vec::new(), Topology::new());
    assert_eq!(e.activate(None), Err(DeviceError::NoDefaultDevice));
    assert!(!e.is_active());
}

#[test]
fn test_deactivate_closes_stream_once() {
    let mut e = test_engine();
    e.activate(None).unwrap();
    assert_eq!(e.deactivate(), EngineAction::CloseStream);
    assert!(!e.is_active());
    // Deactivating an already inactive engine owes the host nothing.
    assert_eq!(e.deactivate(), EngineAction::Idle);
}

#[test]
fn test_deactivate_after_stream_failure_owes_no_close() {
    // An engine that `update` already moved to inactive must not have
    // its device resources released a second time.
    let mut e = test_engine();
    e.activate(None).unwrap();
    let outcome = e.update(StreamStatus::Failed { error_code: Some(5) });
    assert_eq!(outcome, UpdateOutcome::Deactivated { error_code: Some(5) });
    assert!(!e.is_active());
    assert_eq!(e.deactivate(), EngineAction::Idle);
    // Reactivation is allowed afterwards.
    assert_eq!(e.activate(Some(OTHER_DEVICE)), Ok(OTHER_DEVICE));
}

#[test]
fn test_update_running_keeps_engine_active() {
    let mut e = test_engine();
    e.activate(None).unwrap();
    let outcome = e.update(StreamStatus::Running { graph_error: None });
    assert_eq!(outcome, UpdateOutcome::StillActive { graph_error: None });
    assert!(e.is_active());
    let outcome = e.update(StreamStatus::Running { graph_error: Some(3) });
    assert_eq!(outcome, UpdateOutcome::StillActive { graph_error: Some(3) });
    assert!(e.is_active());
}

#[test]
fn test_change_device_keeps_topology() {
    let mut t = Topology::new();
    let sink = t.add_node(2, 0);
    let src = t.add_node(0, 2);
    t.connect(audio_bridge::topology::Connection {
        src_node: src,
        src_port: 0,
        dst_node: sink,
        dst_port: 0,
    })
    .unwrap();
    let mut e = Engine::new(48000, vec![DEFAULT_DEVICE, OTHER_DEVICE], t);
    e.activate(Some(DEFAULT_DEVICE)).unwrap();
    assert_eq!(e.change_device(Some(OTHER_DEVICE)), Ok(OTHER_DEVICE));
    assert!(e.is_active());
    assert_eq!(e.topology.node_count(), 2);
    assert_eq!(e.topology.edge_count(), 1);
    // A failed switch leaves the engine inactive for the caller to retry.
    assert_eq!(e.change_device(Some(MISSING_DEVICE)), Err(DeviceError::UnknownDevice));
    assert!(!e.is_active());
    assert_eq!(e.topology.node_count(), 2);
}

#[test]
fn test_slot_check_out_and_in() {
    let mut slot = EngineSlot::new(test_engine());
    assert!(slot.is_occupied());
    let engine = slot.check_out().unwrap();
    assert!(!slot.is_occupied());
    assert_eq!(slot.check_out().map(|_| ()), Err(ConsistencyError::EngineMissing));
    slot.check_in(engine);
    assert!(slot.is_occupied());
}

#[test]
fn test_frame_update_refills_slot() {
    let mut e = test_engine();
    e.activate(None).unwrap();
    let mut slot = EngineSlot::new(e);
    let (outcome, action) =
        frame_update(&mut slot, false, StreamStatus::Running { graph_error: None }).unwrap();
    assert_eq!(outcome, UpdateOutcome::StillActive { graph_error: None });
    assert_eq!(action, EngineAction::Idle);
    assert!(slot.is_occupied());
    let (outcome, action) =
        frame_update(&mut slot, false, StreamStatus::Failed { error_code: None }).unwrap();
    assert_eq!(outcome, UpdateOutcome::Deactivated { error_code: None });
    assert_eq!(action, EngineAction::Idle);
    assert!(slot.is_occupied());
    // Nothing to drain while inactive.
    let (outcome, _) =
        frame_update(&mut slot, false, StreamStatus::Running { graph_error: None }).unwrap();
    assert_eq!(outcome, UpdateOutcome::Idle);
}

#[test]
fn test_frame_update_on_exit_closes_stream() {
    let mut e = test_engine();
    e.activate(None).unwrap();
    let mut slot = EngineSlot::new(e);
    let (outcome, action) =
        frame_update(&mut slot, true, StreamStatus::Running { graph_error: None }).unwrap();
    assert_eq!(outcome, UpdateOutcome::Idle);
    assert_eq!(action, EngineAction::CloseStream);
    assert!(slot.is_occupied());
}

#[test]
fn test_apply_window_edits_under_exclusive_ownership() {
    let mut e = test_engine();
    e.activate(None).unwrap();
    let mut slot = EngineSlot::new(e);
    let mut queue = MutationQueue::new();
    queue.enqueue(Mutation::AddNode {
        desc: NodeDescriptor {
            inputs: PortCountRange { min: 0, max: 0 },
            outputs: PortCountRange { min: 1, max: 1 },
            min_sample_rate: 48000,
            max_sample_rate: 48000,
        },
        behavior: ProcessorBehavior::Silence,
        inputs: 0,
        outputs: 1,
    });
    let results = apply_window(&mut slot, &mut queue).unwrap();
    assert_eq!(results.len(), 1);
    assert!(results[0].is_ok());
    assert!(queue.is_empty());
    assert!(slot.is_occupied());
    let engine = slot.check_out().unwrap();
    assert_eq!(engine.topology.node_count(), 1);
    assert!(engine.is_active());
}

#[test]
fn test_frame_update_empty_slot_is_loud() {
    let mut slot = EngineSlot::empty();
    let r = frame_update(&mut slot, false, StreamStatus::Running { graph_error: None });
    assert_eq!(r.map(|_| ()), Err(ConsistencyError::EngineMissing));
}
