use audio_bridge::errors::ActivationError;
use audio_bridge::errors::ConnectError;
use audio_bridge::errors::NotFoundError;
use audio_bridge::mutation::Mutation;
use audio_bridge::mutation::MutationError;
use audio_bridge::mutation::MutationOutcome;
use audio_bridge::mutation::MutationQueue;
use audio_bridge::node::NodeDescriptor;
use audio_bridge::node::PortCountRange;
use audio_bridge::node::ProcessorBehavior;
use audio_bridge::node::activate;
use audio_bridge::param::ParamCell;
use audio_bridge::topology::Connection;
use audio_bridge::topology::Topology;

fn wide_descriptor() -> NodeDescriptor {
    NodeDescriptor {
        inputs: PortCountRange { min: 0, max: 8 },
        outputs: PortCountRange { min: 0, max: 8 },
        min_sample_rate: 8000,
        max_sample_rate: 192000,
    }
}

#[test]
fn test_param_cell_round_trip() {
    let mut cell = ParamCell::new(0);
    assert_eq!(cell.read(), 0);
    cell.write(440u64);
    assert_eq!(cell.read(), 440u64);
    let bits = 1.0f32.to_bits() as u64;
    cell.write(bits);
    assert_eq!(cell.read(), bits);
    assert_eq!(f32::from_bits(cell.read() as u32), 1.0f32);
}

#[test]
fn test_param_cell_last_write_wins() {
    let mut cell = ParamCell::new(7);
    cell.write(1);
    cell.write(2);
    cell.write(3);
    assert_eq!(cell.read(), 3);
}

#[test]
fn test_add_node_assigns_fresh_ids() {
    let mut t = Topology::new();
    let a = t.add_node(2, 0);
    let b = t.add_node(0, 2);
    assert_eq!(a, 0);
    assert_eq!(b, 1);
    assert_eq!(t.node_count(), 2);
    assert!(t.has_node(a) && t.has_node(b));
    let info = t.find_node(b).unwrap();
    assert_eq!(info.inputs, 0);
    assert_eq!(info.outputs, 2);
}

#[test]
fn test_connect_error_variants() {
    let mut t = Topology::new();
    let sink = t.add_node(2, 0);
    let src = t.add_node(0, 2);
    let ok = Connection { src_node: src, src_port: 0, dst_node: sink, dst_port: 0 };
    assert_eq!(t.connect(ok), Ok(()));
    assert_eq!(t.connect(ok), Err(ConnectError::DuplicateEdge));
    let missing_src = Connection { src_node: 9, src_port: 0, dst_node: sink, dst_port: 0 };
    assert_eq!(t.connect(missing_src), Err(ConnectError::SourceMissing));
    let missing_dst = Connection { src_node: src, src_port: 0, dst_node: 9, dst_port: 0 };
    assert_eq!(t.connect(missing_dst), Err(ConnectError::DestinationMissing));
    let self_loop = Connection { src_node: src, src_port: 0, dst_node: src, dst_port: 0 };
    assert_eq!(t.connect(self_loop), Err(ConnectError::SelfLoop));
    let bad_src_port = Connection { src_node: src, src_port: 2, dst_node: sink, dst_port: 1 };
    assert_eq!(t.connect(bad_src_port), Err(ConnectError::SourcePortOutOfRange));
    let bad_dst_port = Connection { src_node: src, src_port: 1, dst_node: sink, dst_port: 2 };
    assert_eq!(t.connect(bad_dst_port), Err(ConnectError::DestinationPortOutOfRange));
    assert_eq!(t.edge_count(), 1);
}

#[test]
fn test_disconnect() {
    let mut t = Topology::new();
    let sink = t.add_node(2, 0);
    let src = t.add_node(0, 2);
    let c = Connection { src_node: src, src_port: 0, dst_node: sink, dst_port: 0 };
    assert_eq!(t.disconnect(c), Err(NotFoundError::EdgeMissing));
    assert_eq!(t.connect(c), Ok(()));
    assert_eq!(t.disconnect(c), Ok(()));
    assert_eq!(t.edge_count(), 0);
    assert!(!t.has_edge(&c));
}

#[test]
fn test_remove_node_cascades_edges() {
    let mut t = Topology::new();
    let sink = t.add_node(2, 0);
    let src = t.add_node(0, 2);
    let other = t.add_node(0, 1);
    t.connect(Connection { src_node: src, src_port: 0, dst_node: sink, dst_port: 0 }).unwrap();
    t.connect(Connection { src_node: src, src_port: 1, dst_node: sink, dst_port: 1 }).unwrap();
    t.connect(Connection { src_node: other, src_port: 0, dst_node: sink, dst_port: 0 }).unwrap();
    assert_eq!(t.edge_count(), 3);
    assert_eq!(t.remove_node(src), Ok(()));
    // Both edges incident to the removed node are gone; the third stays.
    assert_eq!(t.edge_count(), 1);
    assert!(t.has_edge(&Connection { src_node: other, src_port: 0, dst_node: sink, dst_port: 0 }));
    assert!(!t.has_node(src));
    assert_eq!(t.remove_node(src), Err(NotFoundError::NodeMissing));
}

#[test]
fn test_removed_id_is_never_reissued() {
    let mut t = Topology::new();
    let a = t.add_node(0, 1);
    let b = t.add_node(0, 1);
    assert_eq!(t.remove_node(a), Ok(()));
    let c = t.add_node(0, 1);
    let d = t.add_node(0, 1);
    assert_ne!(c, a);
    assert_ne!(d, a);
    assert_eq!(c, 2);
    assert_eq!(d, 3);
    assert!(t.has_node(b));
}

#[test]
fn test_activation_error_variants() {
    let desc = NodeDescriptor {
        inputs: PortCountRange { min: 0, max: 0 },
        outputs: PortCountRange { min: 1, max: 2 },
        min_sample_rate: 8000,
        max_sample_rate: 192000,
    };
    let p = activate(&desc, ProcessorBehavior::Silence, 48000, 0, 2).unwrap();
    assert_eq!(p.outputs, 2);
    assert_eq!(p.sample_rate, 48000);
    assert_eq!(
        activate(&desc, ProcessorBehavior::Silence, 48000, 1, 2),
        Err(ActivationError::InputCountOutOfRange)
    );
    assert_eq!(
        activate(&desc, ProcessorBehavior::Silence, 48000, 0, 3),
        Err(ActivationError::OutputCountOutOfRange)
    );
    assert_eq!(
        activate(&desc, ProcessorBehavior::Silence, 100, 0, 2),
        Err(ActivationError::UnsupportedSampleRate)
    );
}

#[test]
fn test_process_fills_block() {
    let desc = wide_descriptor();
    let silence = activate(&desc, ProcessorBehavior::Silence, 48000, 0, 1).unwrap();
    let mut block: Vec<i64> = vec![5; 64];
    silence.process(&mut block);
    assert_eq!(block.len(), 64);
    assert!(block.iter().all(|&s| s == 0));
    let constant = activate(&desc, ProcessorBehavior::Constant { value: -3 }, 48000, 0, 1).unwrap();
    constant.process(&mut block);
    assert_eq!(block.len(), 64);
    assert!(block.iter().all(|&s| s == -3));
}

#[test]
fn test_batch_failing_connect_aborts_only_itself() {
    // A failing connect inside a batch of three leaves the two
    // successful mutations applied and no half-connected remains.
    let mut t = Topology::new();
    let sink = t.add_node(2, 0);
    let src = t.add_node(0, 2);
    let mut queue = MutationQueue::new();
    queue.enqueue(Mutation::Connect {
        conn: Connection { src_node: src, src_port: 0, dst_node: sink, dst_port: 0 },
    });
    queue.enqueue(Mutation::Connect {
        conn: Connection { src_node: 9, src_port: 0, dst_node: sink, dst_port: 1 },
    });
    queue.enqueue(Mutation::Connect {
        conn: Connection { src_node: src, src_port: 1, dst_node: sink, dst_port: 1 },
    });
    let results = queue.apply_all(&mut t, 48000);
    assert_eq!(results.len(), 3);
    assert_eq!(results[0], Ok(MutationOutcome::Edited));
    assert_eq!(results[1], Err(MutationError::Connect(ConnectError::SourceMissing)));
    assert_eq!(results[2], Ok(MutationOutcome::Edited));
    assert_eq!(t.edge_count(), 2);
    assert_eq!(t.node_count(), 2);
    assert!(queue.is_empty());
}

#[test]
fn test_batch_add_and_remove() {
    let mut t = Topology::new();
    let sink = t.add_node(1, 0);
    let mut queue = MutationQueue::new();
    queue.enqueue(Mutation::AddNode {
        desc: wide_descriptor(),
        behavior: ProcessorBehavior::Silence,
        inputs: 0,
        outputs: 1,
    });
    let results = queue.apply_all(&mut t, 48000);
    let added = match results[0] {
        Ok(MutationOutcome::NodeAdded { id, processor }) => {
            assert_eq!(processor.sample_rate, 48000);
            id
        },
        ref other => panic!("expected a node insertion, got {other:?}"),
    };
    assert!(t.has_node(added));
    queue.enqueue(Mutation::Connect {
        conn: Connection { src_node: added, src_port: 0, dst_node: sink, dst_port: 0 },
    });
    queue.enqueue(Mutation::RemoveNode { id: added });
    let results = queue.apply_all(&mut t, 48000);
    assert_eq!(results[0], Ok(MutationOutcome::Edited));
    assert_eq!(results[1], Ok(MutationOutcome::Edited));
    assert!(!t.has_node(added));
    assert_eq!(t.edge_count(), 0);
}

#[test]
fn test_batch_activation_failure_adds_nothing() {
    let mut t = Topology::new();
    let mut queue = MutationQueue::new();
    let narrow = NodeDescriptor {
        inputs: PortCountRange { min: 0, max: 0 },
        outputs: PortCountRange { min: 1, max: 1 },
        min_sample_rate: 44100,
        max_sample_rate: 44100,
    };
    queue.enqueue(Mutation::AddNode {
        desc: narrow,
        behavior: ProcessorBehavior::Silence,
        inputs: 0,
        outputs: 1,
    });
    let results = queue.apply_all(&mut t, 48000);
    assert_eq!(
        results[0],
        Err(MutationError::Activation(ActivationError::UnsupportedSampleRate))
    );
    assert_eq!(t.node_count(), 0);
}
