use cim_keys::events::{EventStack, GraphEvent};
use cim_keys::graph_model::{ColorBits, EdgeType, GraphNode, NodeData, NodeType, OrganizationGraph, Position};

fn pos(x: f32, y: f32) -> Position {
    Position { x_bits: x.to_bits(), y_bits: y.to_bits() }
}

fn gray() -> ColorBits {
    ColorBits { r_bits: 0.5f32.to_bits(), g_bits: 0.5f32.to_bits(), b_bits: 0.5f32.to_bits(), a_bits: 1.0f32.to_bits() }
}

fn now() -> i64 {
    chrono::Utc::now().timestamp_millis()
}

fn created(id: u128, label: &str, x: f32) -> GraphEvent {
    GraphEvent::NodeCreated {
        node_id: id,
        node_type: NodeType::Person,
        position: pos(x, 200.0),
        color: gray(),
        label: label.to_string(),
        data: NodeData::Plain,
        timestamp: now(),
    }
}

#[test]
fn test_event_stack_push() {
    let mut stack = EventStack::new(10);
    let event = created(uuid::Uuid::now_v7().as_u128(), "Test", 100.0);

    stack.push(event);
    assert!(stack.can_undo());
    assert!(!stack.can_redo());
}

#[test]
fn test_event_compensation() {
    let created = created(uuid::Uuid::now_v7().as_u128(), "Test", 100.0);

    let compensating = created.compensate();
    assert!(matches!(compensating, GraphEvent::NodeDeleted { .. }));
}

#[test]
fn test_undo_redo() {
    let mut stack = EventStack::new(10);
    let event = created(uuid::Uuid::now_v7().as_u128(), "Test", 100.0);

    stack.push(event);
    assert!(stack.can_undo());

    let undo_event = stack.undo();
    assert!(undo_event.is_some());
    assert!(stack.can_redo());
    assert!(!stack.can_undo());

    let redo_event = stack.redo();
    assert!(redo_event.is_some());
    assert!(stack.can_undo());
    assert!(!stack.can_redo());
}

#[test]
fn test_max_size() {
    let mut stack = EventStack::new(3);

    for i in 0..5 {
        let event = created(uuid::Uuid::now_v7().as_u128(), &format!("Test {}", i), i as f32 * 100.0);
        stack.push(event);
    }

    assert_eq!(stack.applied_count(), 3);
}

#[test]
fn events_trimming_keeps_the_newest() {
    let mut stack = EventStack::new(2);
    for i in 0..4u128 {
        stack.push(created(i, &format!("n{}", i), 0.0));
    }
    assert_eq!(stack.undo_description(), Some("Created node 'n3'".to_string()));
    let _ = stack.undo();
    assert_eq!(stack.undo_description(), Some("Created node 'n2'".to_string()));
    let _ = stack.undo();
    assert_eq!(stack.undo(), None);
    assert_eq!(stack.redo_description(), Some("Created node 'n2'".to_string()));
}

#[test]
fn events_undo_returns_compensation_and_redo_returns_the_event() {
    let mut stack = EventStack::default();
    let e = created(9, "Alice", 10.0);
    stack.push(e.clone());
    match stack.undo() {
        Some(GraphEvent::NodeDeleted { node_id, label, .. }) => {
            assert_eq!(node_id, 9);
            assert_eq!(label, "Alice");
        }
        other => panic!("unexpected {:?}", other),
    }
    assert_eq!(stack.redo(), Some(e));
    assert_eq!(stack.redo(), None);
}

#[test]
fn events_push_clears_redo_and_clear_forgets_all() {
    let mut stack = EventStack::new(5);
    stack.push(created(1, "a", 0.0));
    let _ = stack.undo();
    assert!(stack.can_redo());
    stack.push(created(2, "b", 0.0));
    assert!(!stack.can_redo());
    stack.clear();
    assert!(!stack.can_undo());
    assert!(!stack.can_redo());
    assert_eq!(stack.undo_description(), None);
}

#[test]
fn events_zero_sized_history_keeps_nothing() {
    let mut stack = EventStack::new(0);
    stack.push(created(1, "a", 0.0));
    assert_eq!(stack.applied_count(), 0);
    assert!(!stack.can_undo());
}

#[test]
fn events_descriptions() {
    let changed = GraphEvent::NodePropertiesChanged {
        node_id: 1,
        old_node_type: NodeType::Person,
        old_label: "Alice".to_string(),
        new_node_type: NodeType::Person,
        new_label: "Alicia".to_string(),
        timestamp: 0,
    };
    assert_eq!(changed.description(), "Changed 'Alice' to 'Alicia'");
    let moved = GraphEvent::NodeMoved {
        node_id: 0x67e5504410b1426f9247bb680e5fe0c8,
        old_position: pos(0.0, 0.0),
        new_position: pos(1.0, 1.0),
        timestamp: 0,
    };
    assert_eq!(moved.description(), "Moved node 67e55044-10b1-426f-9247-bb680e5fe0c8");
    let edge = GraphEvent::EdgeCreated { from: 1, to: 2, edge_type: EdgeType::MemberOf, color: gray(), timestamp: 0 };
    assert_eq!(edge.description(), "Created edge");
    assert_eq!(edge.compensate().description(), "Deleted edge");
    let deleted = created(3, "Bob", 0.0).compensate();
    assert_eq!(deleted.description(), "Deleted node 'Bob'");
}

#[test]
fn events_compensating_twice_gives_the_event_back() {
    let e = GraphEvent::NodeMoved { node_id: 4, old_position: pos(1.0, 2.0), new_position: pos(3.0, 4.0), timestamp: 77 };
    let twice = e.compensate().compensate();
    match (twice, e) {
        (
            GraphEvent::NodeMoved { node_id: a, old_position: b, new_position: c, .. },
            GraphEvent::NodeMoved { node_id: x, old_position: y, new_position: z, .. },
        ) => {
            assert_eq!((a, b, c), (x, y, z));
        }
        _ => panic!("wrong variant"),
    }
}

#[test]
fn events_applying_then_compensating_restores_the_graph() {
    let mut graph = OrganizationGraph::new();
    graph.add_node(GraphNode { id: 1, node_type: NodeType::Organization, label: "Acme".to_string(), position: pos(0.0, 0.0), color: gray(), data: NodeData::Plain });
    graph.add_edge(1, 1, EdgeType::Trusts, gray());
    let before_nodes = graph.nodes.clone();
    let before_edges = graph.edges.clone();

    let events = vec![
        created(2, "Alice", 5.0),
        GraphEvent::NodeMoved { node_id: 1, old_position: pos(0.0, 0.0), new_position: pos(9.0, 9.0), timestamp: 0 },
        GraphEvent::NodePropertiesChanged {
            node_id: 1,
            old_node_type: NodeType::Organization,
            old_label: "Acme".to_string(),
            new_node_type: NodeType::OrganizationalUnit,
            new_label: "Acme Labs".to_string(),
            timestamp: 0,
        },
        GraphEvent::EdgeCreated { from: 1, to: 2, edge_type: EdgeType::ParentChild, color: gray(), timestamp: 0 },
    ];
    for e in events {
        graph.apply_event(&e);
        assert!(graph.nodes != before_nodes || graph.edges != before_edges);
        graph.apply_event(&e.compensate());
        assert_eq!(graph.nodes, before_nodes);
        assert_eq!(graph.edges, before_edges);
    }
}

#[test]
fn events_node_deletion_removes_its_edges_and_selection() {
    let mut graph = OrganizationGraph::new();
    graph.apply_event(&created(1, "a", 0.0));
    graph.apply_event(&created(2, "b", 0.0));
    graph.apply_event(&GraphEvent::EdgeCreated { from: 1, to: 2, edge_type: EdgeType::MemberOf, color: gray(), timestamp: 0 });
    graph.select_node(2);
    graph.apply_event(&GraphEvent::NodeDeleted {
        node_id: 2,
        node_type: NodeType::Person,
        position: pos(0.0, 200.0),
        color: gray(),
        label: "b".to_string(),
        data: NodeData::Plain,
        timestamp: 0,
    });
    assert_eq!(graph.node_count(), 1);
    assert!(graph.edges.is_empty());
    assert_eq!(graph.selected_node, None);
}
