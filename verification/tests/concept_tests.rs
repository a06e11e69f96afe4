use cim_keys::badges::{DragSource, RoleBadge};
use cim_keys::concept::{OrganizationConcept, OrganizationIntent};
use cim_keys::events::GraphEvent;
use cim_keys::graph_model::{ColorBits, EdgeType, NodeType, Position, NodeData};
use cim_keys::role_palette::SeparationClass;

fn pos(x: f32, y: f32) -> Position {
    Position { x_bits: x.to_bits(), y_bits: y.to_bits() }
}

fn color() -> ColorBits {
    ColorBits { r_bits: 0, g_bits: 0, b_bits: 0, a_bits: 0 }
}

fn create(c: &mut OrganizationConcept, id: u128, label: &str, p: Position) {
    let e = GraphEvent::NodeCreated {
        node_id: id,
        node_type: NodeType::Person,
        position: p,
        color: color(),
        label: label.to_string(),
        timestamp: 0,
        data: NodeData::Plain,
    };
    c.apply_event(&e);
    c.push_event(e);
}

#[test]
fn concept_drag_records_a_move_that_undo_takes_back() {
    let mut c = OrganizationConcept::new();
    create(&mut c, 1, "Alice", pos(10.0, 10.0));
    c.handle_message(OrganizationIntent::NodeDragStarted(1));
    assert_eq!(c.dragging_node(), Some(1));
    c.handle_message(OrganizationIntent::NodeDraggedTo(pos(50.0, 60.0)));
    assert_eq!(c.graph().nodes[0].position, pos(50.0, 60.0));
    c.handle_message(OrganizationIntent::NodeDragEnded { moved: true });
    assert_eq!(c.dragging_node(), None);

    c.handle_message(OrganizationIntent::Undo);
    assert_eq!(c.graph().nodes[0].position, pos(10.0, 10.0));
    c.handle_message(OrganizationIntent::Redo);
    assert_eq!(c.graph().nodes[0].position, pos(50.0, 60.0));
}

#[test]
fn concept_small_drag_is_not_recorded() {
    let mut c = OrganizationConcept::new();
    create(&mut c, 1, "Alice", pos(10.0, 10.0));
    c.handle_message(OrganizationIntent::NodeDragStarted(1));
    c.handle_message(OrganizationIntent::NodeDraggedTo(pos(10.05, 10.0)));
    c.handle_message(OrganizationIntent::NodeDragEnded { moved: false });
    c.handle_message(OrganizationIntent::Undo);
    assert_eq!(c.graph().node_count(), 0);
}

#[test]
fn concept_edge_deletion_is_undoable() {
    let mut c = OrganizationConcept::new();
    create(&mut c, 1, "Org", pos(0.0, 0.0));
    create(&mut c, 2, "Alice", pos(0.0, 0.0));
    c.handle_message(OrganizationIntent::AddEdge { from: 1, to: 2, edge_type: EdgeType::MemberOf, color: color() });
    c.handle_message(OrganizationIntent::EdgeSelected(0));
    assert_eq!(c.selected_edge(), Some(0));
    c.handle_message(OrganizationIntent::EdgeDeleted(0));
    assert!(c.graph().edges.is_empty());
    assert_eq!(c.selected_edge(), None);
    c.handle_message(OrganizationIntent::EdgeDeleted(5));
    c.handle_message(OrganizationIntent::Undo);
    assert_eq!(c.graph().edges.len(), 1);
    assert_eq!(c.graph().edges[0].edge_type, EdgeType::MemberOf);
}

#[test]
fn concept_clicks_and_edge_selection_exclude_each_other() {
    let mut c = OrganizationConcept::default();
    c.handle_message(OrganizationIntent::NodeClicked(7));
    assert_eq!(c.graph().selected_node, Some(7));
    c.handle_message(OrganizationIntent::EdgeSelected(3));
    assert_eq!(c.graph().selected_node, None);
    assert_eq!(c.selected_edge(), Some(3));
    assert!(!c.can_undo());
    assert!(!c.can_redo());
}

#[test]
fn concept_clear_and_badges() {
    let mut c = OrganizationConcept::new();
    create(&mut c, 1, "Alice", pos(0.0, 0.0));
    c.set_person_role_badges(
        1,
        vec![RoleBadge { name: "Developer".to_string(), separation_class: SeparationClass::Operational, level: 1 }],
        true,
    );
    assert!(c.get_person_role_badges(&1).unwrap().has_more);
    assert!(c.get_person_role_badges(&2).is_none());
    c.clear_role_badges();
    assert!(c.get_person_role_badges(&1).is_none());
    c.clear();
    assert_eq!(c.graph().node_count(), 0);
    assert!(!c.can_undo());
}

#[test]
fn concept_undo_of_creation_removes_the_node() {
    let mut c = OrganizationConcept::new();
    create(&mut c, 1, "Alice", pos(0.0, 0.0));
    assert!(c.can_undo());
    c.handle_message(OrganizationIntent::Undo);
    assert_eq!(c.graph().node_count(), 0);
    assert!(c.can_redo());
    c.handle_message(OrganizationIntent::Redo);
    assert_eq!(c.graph().node_count(), 1);
    assert_eq!(c.graph().nodes[0].label, "Alice");
}

#[test]
fn concept_type_filters_decide_what_is_drawn() {
    let mut c = OrganizationConcept::new();
    let mk = |t: NodeType| cim_keys::graph_model::GraphNode {
        id: 1,
        node_type: t,
        label: String::new(),
        position: pos(0.0, 0.0),
        color: color(),
        data: NodeData::Plain,
    };
    assert!(c.should_show_node(&mk(NodeType::Location)));
    c.filters.show_orgs = false;
    assert!(!c.should_show_node(&mk(NodeType::Location)));
    assert!(!c.should_show_node(&mk(NodeType::Policy)));
    assert!(c.should_show_node(&mk(NodeType::NatsServiceAccount)));
    c.filters.show_nats = false;
    assert!(!c.should_show_node(&mk(NodeType::NatsServiceAccount)));
    assert!(c.should_show_node(&mk(NodeType::LeafCertificate)));
}

#[test]
fn concept_role_drag_follows_the_cursor_until_dropped() {
    let mut c = OrganizationConcept::new();
    assert_eq!(c.get_dragging_role_name(), None);
    c.handle_message(OrganizationIntent::RoleDragMoved { position: pos(1.0, 1.0), hover_person: Some(7) });
    assert_eq!(c.get_dragging_role_name(), None);

    c.handle_message(OrganizationIntent::RoleDragStarted(DragSource::RoleFromPalette {
        role_name: "Auditor".to_string(),
        separation_class: SeparationClass::Audit,
    }));
    assert_eq!(c.get_dragging_role_name(), Some("Auditor"));
    assert_eq!(c.get_dragging_role_class(), Some(SeparationClass::Audit));

    c.handle_message(OrganizationIntent::RoleDragMoved { position: pos(5.0, 6.0), hover_person: Some(3) });
    assert_eq!(c.get_dragging_role_name(), Some("Auditor"));

    c.handle_message(OrganizationIntent::RoleAssigned { person_id: 3, role_name: "Auditor".to_string() });
    assert_eq!(c.get_dragging_role_name(), Some("Auditor"));

    c.handle_message(OrganizationIntent::RoleDragDropped);
    assert_eq!(c.get_dragging_role_name(), None);
    assert_eq!(c.get_dragging_role_class(), None);

    c.start_role_drag(
        DragSource::RoleFromPerson { person_id: 3, role_name: "Operator".to_string(), separation_class: SeparationClass::Operational },
        pos(2.0, 2.0),
    );
    assert_eq!(c.get_dragging_role_class(), Some(SeparationClass::Operational));
    c.cancel_role_drag();
    assert_eq!(c.get_dragging_role_name(), None);
}
