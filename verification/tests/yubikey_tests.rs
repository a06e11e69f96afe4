use cim_keys::yubikey::{slots_for_role, KeyOwnerRole, PIVSlot};

#[test]
fn test_slots_for_role() {
    let slots = slots_for_role(&KeyOwnerRole::RootAuthority);
    assert_eq!(slots, vec![PIVSlot::DigitalSignature]);

    let slots = slots_for_role(&KeyOwnerRole::SecurityAdmin);
    assert_eq!(slots.len(), 3);
    assert!(slots.contains(&PIVSlot::Authentication));
    assert!(slots.contains(&PIVSlot::DigitalSignature));
    assert!(slots.contains(&PIVSlot::KeyManagement));

    let slots = slots_for_role(&KeyOwnerRole::Developer);
    assert_eq!(slots, vec![PIVSlot::Authentication]);
}

#[test]
fn test_user_story_role_based_slot_allocation() {
    let root_slots = slots_for_role(&KeyOwnerRole::RootAuthority);
    let security_slots = slots_for_role(&KeyOwnerRole::SecurityAdmin);
    let developer_slots = slots_for_role(&KeyOwnerRole::Developer);
    let service_slots = slots_for_role(&KeyOwnerRole::ServiceAccount);

    assert_eq!(root_slots.len(), 1);
    assert!(root_slots.contains(&PIVSlot::DigitalSignature));

    assert!(security_slots.len() >= 3);
    assert!(security_slots.contains(&PIVSlot::Authentication));
    assert!(security_slots.contains(&PIVSlot::DigitalSignature));
    assert!(security_slots.contains(&PIVSlot::KeyManagement));

    assert_eq!(developer_slots.len(), 1);
    assert!(developer_slots.contains(&PIVSlot::Authentication));

    assert_eq!(service_slots.len(), 1);
    assert!(service_slots.contains(&PIVSlot::CardAuthentication));
}

#[test]
fn yubikey_slot_hex_and_descriptions() {
    assert_eq!(PIVSlot::Authentication.hex(), "9A");
    assert_eq!(PIVSlot::DigitalSignature.hex(), "9C");
    assert_eq!(PIVSlot::KeyManagement.hex(), "9D");
    assert_eq!(PIVSlot::CardAuthentication.hex(), "9E");
    assert_eq!(PIVSlot::KeyManagement.description(), "Key Management (Encryption, key escrow)");
    assert_eq!(slots_for_role(&KeyOwnerRole::BackupHolder), vec![PIVSlot::KeyManagement]);
    assert_eq!(slots_for_role(&KeyOwnerRole::Auditor), vec![PIVSlot::Authentication]);
}


use cim_keys::graph_model::{ColorBits, EdgeType, GraphNode, NodeData, NodeType, OrganizationGraph, Position};
use cim_keys::yubikey::{add_yubikey_status_to_graph, analyze_graph_for_yubikey, generate_yubikey_provision_from_graph};

fn graph_node(id: u128, node_type: NodeType, label: &str) -> GraphNode {
    GraphNode {
        id,
        node_type,
        label: label.to_string(),
        position: Position { x_bits: 0, y_bits: 0 },
        color: ColorBits { r_bits: 0, g_bits: 0, b_bits: 0, a_bits: 0 },
        data: NodeData::Plain,
    }
}

#[test]
fn test_analyze_graph_for_yubikey() {
    let mut graph = OrganizationGraph::new();
    let org_id = uuid::Uuid::now_v7().as_u128();
    graph.add_node(graph_node(org_id, NodeType::Organization, "TestOrg"));
    let person_id = uuid::Uuid::now_v7().as_u128();
    graph.add_node(graph_node(person_id, NodeType::Person, "Alice Developer"));

    let hierarchy = analyze_graph_for_yubikey(&graph);

    assert_eq!(hierarchy.provision_plans.len(), 1);
    let plan = &hierarchy.provision_plans[0];
    assert_eq!(plan.person_name, "Alice Developer");
    assert_eq!(plan.slots, vec![PIVSlot::Authentication]);
}

#[test]
fn yubikey_provisioning_status_nodes() {
    let mut graph = OrganizationGraph::new();
    assert_eq!(
        generate_yubikey_provision_from_graph(&graph).unwrap_err(),
        "No people found in graph. Add people to the Organization tab first."
    );
    graph.add_node(graph_node(1, NodeType::Person, "Bob"));
    graph.add_node(graph_node(2, NodeType::Role, "Security Admin"));
    graph.add_edge(1, 2, EdgeType::HasRole, ColorBits { r_bits: 0, g_bits: 0, b_bits: 0, a_bits: 0 });
    let plans = analyze_graph_for_yubikey(&graph);
    assert_eq!(plans.provision_plans[0].role, KeyOwnerRole::SecurityAdmin);
    let nodes = generate_yubikey_provision_from_graph(&graph).unwrap();
    assert_eq!(nodes.len(), 1);
    assert_eq!(nodes[0].1, 1);
    assert_eq!(nodes[0].0.label, "⏳ Bob YubiKey (3 slots needed)");
    assert_eq!(nodes[0].0.node_type, NodeType::YubiKeyStatus);
    assert_eq!(f32::from_bits(nodes[0].0.position.x_bits), 400.0);
    assert_eq!(f32::from_bits(nodes[0].0.color.r_bits), 0.9);
    let status_id = nodes[0].0.id;
    let edges_before = graph.edges.len();
    add_yubikey_status_to_graph(&mut graph, nodes);
    assert_eq!(graph.node_count(), 3);
    assert_eq!(graph.edges.len(), edges_before + 1);
    let last = graph.edges[graph.edges.len() - 1];
    assert_eq!((last.from, last.to, last.edge_type), (1, status_id, EdgeType::Requires));
    assert_eq!(f32::from_bits(last.color.g_bits), 0.4);
}
