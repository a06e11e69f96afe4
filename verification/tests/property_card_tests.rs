use cim_keys::graph_model::EdgeType;
use cim_keys::location::LocationType;
use cim_keys::property_card::{NodeEditFields, PropertyCard, PropertyCardMessage};

/// The edit fields of the organization "Test Org".
fn test_org_fields() -> NodeEditFields {
    NodeEditFields {
        name: "Test Org".to_string(),
        description: "A test org".to_string(),
        email: String::new(),
        enabled: true,
        role_types: Vec::new(),
        policy_claims: Vec::new(),
        location_type: None,
        address: None,
        coordinates: None,
        virtual_location: None,
    }
}

const ORG_ID: u128 = 0x0190_0000_0000_7000_8000_0000_0000_0001;

#[test]
fn test_property_card_creation() {
    let card = PropertyCard::new();
    assert!(!card.is_editing());
    assert!(!card.is_dirty());
}

#[test]
fn test_property_card_set_node() {
    let mut card = PropertyCard::new();
    card.set_node(ORG_ID, test_org_fields());
    assert!(card.is_editing());
    assert!(!card.is_dirty());
    assert_eq!(card.name(), "Test Org");
    assert_eq!(card.description(), "A test org");
}

#[test]
fn test_property_card_dirty_state() {
    let mut card = PropertyCard::new();
    card.set_node(ORG_ID, test_org_fields());
    assert!(!card.is_dirty());
    card.update(PropertyCardMessage::NameChanged("New Name".to_string()));
    assert!(card.is_dirty());
    assert_eq!(card.name(), "New Name");
}

#[test]
fn test_property_card_clear() {
    let mut card = PropertyCard::new();
    card.set_node(ORG_ID, test_org_fields());
    card.update(PropertyCardMessage::NameChanged("Modified".to_string()));
    assert!(card.is_editing());
    assert!(card.is_dirty());
    card.clear();
    assert!(!card.is_editing());
    assert!(!card.is_dirty());
    assert_eq!(card.name(), "");
}

#[test]
fn property_card_toggles_claims_and_roles_as_sets() {
    let mut card = PropertyCard::new();
    card.set_node(ORG_ID, test_org_fields());
    card.update(PropertyCardMessage::ClaimToggled("CanSignCode".to_string(), true));
    card.update(PropertyCardMessage::ClaimToggled("CanSignCode".to_string(), true));
    card.update(PropertyCardMessage::ClaimToggled("CanAudit".to_string(), true));
    assert_eq!(card.claims().len(), 2);
    card.update(PropertyCardMessage::ClaimToggled("CanSignCode".to_string(), false));
    assert_eq!(card.claims(), vec!["CanAudit".to_string()]);
    card.update(PropertyCardMessage::RoleToggled("Operator".to_string(), true));
    assert_eq!(card.roles(), vec!["Operator".to_string()]);
    card.update(PropertyCardMessage::RoleToggled("Operator".to_string(), false));
    assert!(card.roles().is_empty());
    assert!(card.is_dirty());
}

#[test]
fn property_card_edits_an_edge() {
    let mut card = PropertyCard::new();
    card.set_edge(3, 1, 2, EdgeType::HasRole);
    assert!(card.is_editing_edge());
    assert!(!card.is_editing_node());
    assert_eq!(card.edge_index(), Some(3));
    assert_eq!(card.node_id(), None);
    assert_eq!(card.edge_type(), EdgeType::HasRole);
    card.update(PropertyCardMessage::EdgeTypeChanged(EdgeType::Manages));
    assert_eq!(card.edge_type(), EdgeType::Manages);
    assert!(card.is_dirty());
    card.clear();
    assert_eq!(card.edge_type(), EdgeType::MemberOf);
}

#[test]
fn property_card_leaves_parent_actions_alone() {
    let mut card = PropertyCard::new();
    card.set_node(ORG_ID, test_org_fields());
    card.update(PropertyCardMessage::Save);
    card.update(PropertyCardMessage::GenerateRootCA);
    card.update(PropertyCardMessage::LocationTypeChanged(LocationType::Virtual));
    assert!(card.is_dirty());
    assert_eq!(card.node_id(), Some(ORG_ID));
    assert!(card.enabled());
    assert_eq!(card.email(), "");
}
