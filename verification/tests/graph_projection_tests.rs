use cim_keys::graph_model::NodeType;
use cim_keys::graph_projection::{
    create_edge_view, derive_edge_color, derive_edge_style, DomainRelation, EdgePalette, EdgeStyle,
    GraphDomainEvent, GraphProjection, RelationCategory, RelationType,
};

fn relation_type(label: &str, temporal: bool, bidirectional: bool, category: RelationCategory) -> RelationType {
    RelationType { label: label.to_string(), temporal, bidirectional, category }
}

#[test]
fn test_edge_color_derivation() {
    assert_eq!(derive_edge_color(RelationCategory::Organizational), EdgePalette::Gray);
    assert_eq!(derive_edge_color(RelationCategory::Pki), EdgePalette::Red);
}

#[test]
fn test_edge_style_derivation() {
    let temporal = relation_type("has role", true, false, RelationCategory::Policy);
    assert_eq!(derive_edge_style(&temporal), EdgeStyle::Dashed);

    let bidirectional = relation_type("incompatible with", false, true, RelationCategory::Policy);
    assert_eq!(derive_edge_style(&bidirectional), EdgeStyle::Dotted);

    let normal = relation_type("parent of", false, false, RelationCategory::Organizational);
    assert_eq!(derive_edge_style(&normal), EdgeStyle::Solid);
}

#[test]
fn test_create_edge_view() {
    let relation = DomainRelation {
        id: uuid::Uuid::now_v7().as_u128(),
        from: uuid::Uuid::now_v7().as_u128(),
        to: uuid::Uuid::now_v7().as_u128(),
        relation_type: relation_type("signs", false, false, RelationCategory::Nats),
    };

    let view = create_edge_view(&relation);

    assert_eq!(view.from_id, relation.from);
    assert_eq!(view.to_id, relation.to);
    assert_eq!(view.label, Some("signs".to_string()));
}

#[test]
fn projection_palette_covers_every_category() {
    assert_eq!(derive_edge_color(RelationCategory::KeyManagement), EdgePalette::Cyan);
    assert_eq!(derive_edge_color(RelationCategory::Policy), EdgePalette::Purple);
    assert_eq!(derive_edge_color(RelationCategory::Trust), EdgePalette::Gold);
    assert_eq!(derive_edge_color(RelationCategory::Nats), EdgePalette::Green);
    assert_eq!(derive_edge_color(RelationCategory::YubiKey), EdgePalette::Blue);
    let both = relation_type("x", true, true, RelationCategory::Trust);
    assert_eq!(derive_edge_style(&both), EdgeStyle::Dashed);
    let view = create_edge_view(&DomainRelation { id: 1, from: 2, to: 3, relation_type: both });
    assert_eq!(view.color, EdgePalette::Gold);
    assert_eq!(view.style, EdgeStyle::Dashed);
}

fn member_of() -> RelationType {
    relation_type("member of", false, false, RelationCategory::Organizational)
}

fn established(relation_id: u128, from: u128, to: u128, relation_type: RelationType, timestamp: i64) -> GraphDomainEvent {
    GraphDomainEvent::RelationEstablished { relation_id, from, to, relation_type, timestamp }
}

#[test]
fn test_projection_creation() {
    let projection = GraphProjection::new();
    assert_eq!(projection.entity_count(), 0);
    assert_eq!(projection.relation_count(), 0);
    assert_eq!(projection.version(), 0);
}

#[test]
fn test_relation_established_event() {
    let mut projection = GraphProjection::new();

    let from = uuid::Uuid::now_v7().as_u128();
    let to = uuid::Uuid::now_v7().as_u128();

    let event = GraphDomainEvent::relation_established(from, to, member_of());

    projection.apply(&event);

    assert_eq!(projection.relation_count(), 1);
    assert_eq!(projection.version(), 1);
}

#[test]
fn projection_indexes_relations_by_end_and_category() {
    let mut projection = GraphProjection::new();
    projection.apply(&established(10, 1, 2, member_of(), 100));
    projection.apply(&established(11, 1, 3, relation_type("signs", false, false, RelationCategory::Pki), 200));

    let out: Vec<u128> = projection.outgoing_from(&1).iter().map(|r| r.id).collect();
    assert_eq!(out, vec![10, 11]);
    assert_eq!(projection.incoming_to(&3).len(), 1);
    assert_eq!(projection.incoming_to(&3)[0].id, 11);
    assert!(projection.outgoing_from(&2).is_empty());
    assert_eq!(projection.relations_in_category(RelationCategory::Pki).len(), 1);
    assert_eq!(projection.relations_in_category(RelationCategory::Organizational)[0].id, 10);
    assert_eq!(projection.get_relation(&11).unwrap().to, 3);
    assert_eq!(projection.last_updated(), Some(200));
    assert_eq!(projection.version(), 2);
    assert_eq!(projection.relations().len(), 2);
}

#[test]
fn projection_dissolving_a_relation_takes_it_out_of_every_index() {
    let mut projection = GraphProjection::new();
    projection.apply(&established(10, 1, 2, member_of(), 1));
    projection.apply(&GraphDomainEvent::RelationDissolved { relation_id: 10, timestamp: 2 });
    assert_eq!(projection.relation_count(), 0);
    assert!(projection.outgoing_from(&1).is_empty());
    assert!(projection.incoming_to(&2).is_empty());
    assert!(projection.relations_in_category(RelationCategory::Organizational).is_empty());
    assert!(projection.get_relation(&10).is_none());
    assert_eq!(projection.version(), 2);
}

#[test]
fn projection_removing_an_entity_dissolves_its_relations() {
    let mut projection = GraphProjection::new();
    projection.add_entity(1, NodeType::Person);
    projection.add_entity(2, NodeType::OrganizationalUnit);
    projection.add_entity(3, NodeType::Person);
    projection.apply(&established(10, 1, 2, member_of(), 1));
    projection.apply(&established(11, 3, 2, member_of(), 2));
    projection.apply(&established(12, 3, 1, member_of(), 3));
    assert_eq!(projection.version(), 6);
    assert_eq!(projection.entities_of_type(NodeType::Person), vec![1, 3]);

    projection.apply(&GraphDomainEvent::EntityRemoved { entity_id: 1, timestamp: 4 });

    assert_eq!(projection.entity_count(), 2);
    assert_eq!(projection.get_entity(&1), None);
    assert_eq!(projection.get_entity(&3), Some(NodeType::Person));
    assert_eq!(projection.entities_of_type(NodeType::Person), vec![3]);
    assert_eq!(projection.relation_count(), 1);
    assert!(projection.get_relation(&11).is_some());
    let into_unit: Vec<u128> = projection.incoming_to(&2).iter().map(|r| r.id).collect();
    assert_eq!(into_unit, vec![11]);
    assert!(projection.outgoing_from(&3).iter().all(|r| r.id == 11));
    assert_eq!(projection.version(), 7);
    assert_eq!(projection.last_updated(), Some(4));
    let entities = projection.entities();
    assert_eq!(entities.len(), 2);
    assert!(entities.contains(&(2, NodeType::OrganizationalUnit)));
    assert!(entities.contains(&(3, NodeType::Person)));
}

#[test]
fn projection_other_events_only_count() {
    let mut projection = GraphProjection::new();
    projection.apply(&GraphDomainEvent::EntityAdded { entity_id: 5, entity_type: "Person".to_string(), timestamp: 7 });
    projection.apply(&GraphDomainEvent::GraphRestructured { timestamp: 8 });
    projection.apply(&GraphDomainEvent::EntityRemoved { entity_id: 5, timestamp: 9 });
    assert_eq!(projection.entity_count(), 0);
    assert_eq!(projection.version(), 3);
    assert_eq!(projection.last_updated(), Some(9));
}
