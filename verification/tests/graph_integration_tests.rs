use cim_keys::graph_certificate::CertificateType;
use cim_keys::graph_model::{ColorBits, EdgeType, GraphNode, NodeData, NodeType, OrganizationGraph, Position};
use cim_keys::graph_nats::{generate_nats_from_graph, NatsNode};
use cim_keys::graph_pki::generate_pki_from_graph;
use cim_keys::yubikey::{analyze_graph_for_yubikey, generate_yubikey_provision_from_graph};

fn color() -> ColorBits {
    ColorBits { r_bits: 0, g_bits: 0, b_bits: 0, a_bits: 0 }
}

fn new_id() -> u128 {
    uuid::Uuid::now_v7().as_u128()
}

fn add(graph: &mut OrganizationGraph, node_type: NodeType, label: &str) -> u128 {
    let id = new_id();
    graph.add_node(GraphNode { id, node_type, label: label.to_string(), position: Position { x_bits: 0, y_bits: 0 }, color: color(), data: NodeData::Plain });
    id
}

/// A person whose key-owner role comes from a role node of that name.
fn add_person_with_role(graph: &mut OrganizationGraph, name: &str, role_name: &str) -> u128 {
    let person = add(graph, NodeType::Person, name);
    let role = add(graph, NodeType::Role, role_name);
    graph.add_edge(person, role, EdgeType::HasRole, color());
    person
}

#[test]
fn test_user_story_generate_pki_from_simple_org() {
    let mut graph = OrganizationGraph::new();
    add(&mut graph, NodeType::Organization, "TestCorp");
    add(&mut graph, NodeType::OrganizationalUnit, "Engineering");
    add(&mut graph, NodeType::Person, "Alice Engineer");

    let result = generate_pki_from_graph(&graph, "test-passphrase");

    assert!(result.is_ok(), "PKI generation should succeed");
    let cert_nodes = result.unwrap();
    assert!(cert_nodes.len() >= 3, "Should generate at least 3 certificates");
    let root_certs = cert_nodes.iter().filter(|(_, _, parent)| parent.is_none()).count();
    assert_eq!(root_certs, 1, "Should have exactly one root CA");
}

#[test]
fn test_user_story_generate_nats_from_simple_org() {
    let mut graph = OrganizationGraph::new();
    add(&mut graph, NodeType::Organization, "TestCorp");
    add(&mut graph, NodeType::OrganizationalUnit, "Engineering");
    add(&mut graph, NodeType::Person, "Bob Developer");

    let result = generate_nats_from_graph(&graph);

    assert!(result.is_ok(), "NATS generation should succeed");
    let nats_nodes = result.unwrap();
    assert!(nats_nodes.len() >= 3, "Should generate at least 3 NATS entities");
    let operators = nats_nodes.iter().filter(|(_, _, parent)| parent.is_none()).count();
    assert_eq!(operators, 1, "Should have exactly one NATS Operator");
}

#[test]
fn test_user_story_analyze_yubikey_requirements() {
    let mut graph = OrganizationGraph::new();
    add(&mut graph, NodeType::Organization, "TestCorp");
    add_person_with_role(&mut graph, "Root Admin", "Root Authority");
    add_person_with_role(&mut graph, "Security Admin", "Security Admin");
    add_person_with_role(&mut graph, "Developer", "Developer");

    let result = generate_yubikey_provision_from_graph(&graph);

    assert!(result.is_ok(), "YubiKey analysis should succeed");
    let yubikey_nodes = result.unwrap();
    assert_eq!(yubikey_nodes.len(), 3, "Should have 3 YubiKey provision plans");
    for (node, _) in &yubikey_nodes {
        assert_eq!(node.node_type, NodeType::YubiKeyStatus, "Expected YubiKeyStatus node");
    }
    for plan in &analyze_graph_for_yubikey(&graph).provision_plans {
        assert!(!plan.slots.is_empty(), "Each person should need at least one PIV slot");
    }
}

#[test]
fn test_user_story_complete_infrastructure_generation() {
    let mut graph = OrganizationGraph::new();
    add(&mut graph, NodeType::Organization, "GlobalCorp");
    add(&mut graph, NodeType::OrganizationalUnit, "Engineering");
    add(&mut graph, NodeType::OrganizationalUnit, "Operations");
    add_person_with_role(&mut graph, "Engineering Lead", "Security Admin");
    add_person_with_role(&mut graph, "Operations Lead", "Security Admin");
    add(&mut graph, NodeType::Person, "Developer");

    let pki_result = generate_pki_from_graph(&graph, "test-pass");
    let nats_result = generate_nats_from_graph(&graph);
    let yubikey_result = generate_yubikey_provision_from_graph(&graph);

    assert!(pki_result.is_ok(), "PKI generation should succeed");
    assert!(nats_result.is_ok(), "NATS generation should succeed");
    assert!(yubikey_result.is_ok(), "YubiKey analysis should succeed");
    assert!(pki_result.unwrap().len() >= 6, "Should have certs for org + 2 units + 3 people");
    assert!(nats_result.unwrap().len() >= 6, "Should have NATS entities for org + 2 units + 3 people");
    assert_eq!(yubikey_result.unwrap().len(), 3, "Should have YubiKey plans for 3 people");
}

#[test]
fn test_user_story_empty_graph_handling() {
    let graph = OrganizationGraph::new();

    let pki_result = generate_pki_from_graph(&graph, "test-pass");
    assert!(pki_result.is_err());
    assert!(pki_result.unwrap_err().contains("No organization"), "Error should mention missing organization");

    let nats_result = generate_nats_from_graph(&graph);
    assert!(nats_result.is_err());
    assert!(nats_result.unwrap_err().contains("No organization"), "Error should mention missing organization");

    let yubikey_result = generate_yubikey_provision_from_graph(&graph);
    assert!(yubikey_result.is_err());
    assert!(yubikey_result.unwrap_err().contains("No people"), "Error should mention missing people");
}

#[test]
fn pki_certificates_follow_the_hierarchy() {
    let mut graph = OrganizationGraph::new();
    add(&mut graph, NodeType::Organization, "Acme");
    let unit = add(&mut graph, NodeType::OrganizationalUnit, "Ops");
    let alice = add_person_with_role(&mut graph, "Alice", "Security Admin");
    graph.add_edge(unit, alice, EdgeType::MemberOf, color());

    let certs = generate_pki_from_graph(&graph, "").unwrap();
    assert_eq!(certs.len(), 3);

    let (root, root_pos, root_parent) = &certs[0];
    assert_eq!(root.certificate_type, CertificateType::RootCA);
    assert_eq!(root.subject, "CN=Acme Root CA, O=Acme");
    assert_eq!(root.issuer, root.subject);
    assert_eq!(root.not_after - root.not_before, 3650 * 86_400_000);
    assert_eq!(root.key_usage, vec!["Certificate Sign".to_string(), "CRL Sign".to_string()]);
    assert_eq!(*root_parent, None);
    assert_eq!((f32::from_bits(root_pos.x_bits), f32::from_bits(root_pos.y_bits)), (400.0, 100.0));

    let (ca, ca_pos, ca_parent) = &certs[1];
    assert_eq!(ca.certificate_type, CertificateType::IntermediateCA);
    assert_eq!(ca.subject, "CN=Ops CA, OU=Ops");
    assert_eq!(*ca_parent, Some(root.id));
    assert_eq!(ca.issuer, format!("Parent CA {}", uuid::Uuid::from_u128(root.id)));
    assert_eq!(ca.not_after - ca.not_before, 1825 * 86_400_000);
    assert_eq!(f32::from_bits(ca_pos.y_bits), 250.0);

    let (leaf, leaf_pos, leaf_parent) = &certs[2];
    assert_eq!(leaf.certificate_type, CertificateType::Leaf);
    assert_eq!(leaf.subject, "CN=Alice");
    assert_eq!(*leaf_parent, Some(ca.id));
    assert_eq!(leaf.issuer, format!("Parent CA {}", uuid::Uuid::from_u128(ca.id)));
    assert_eq!(leaf.not_after - leaf.not_before, 365 * 86_400_000);
    assert_eq!(
        leaf.key_usage,
        vec!["Digital Signature".to_string(), "Key Encipherment".to_string(), "Certificate Sign".to_string()]
    );
    assert_eq!(f32::from_bits(leaf_pos.y_bits), 400.0);
}

#[test]
fn pki_unit_under_a_person_has_no_parent_certificate() {
    let mut graph = OrganizationGraph::new();
    add(&mut graph, NodeType::Organization, "Acme");
    let unit = add(&mut graph, NodeType::OrganizationalUnit, "Ops");
    let carol = add(&mut graph, NodeType::Person, "Carol");
    graph.add_edge(carol, unit, EdgeType::ManagesUnit, color());

    assert_eq!(
        generate_pki_from_graph(&graph, "").unwrap_err(),
        "Parent certificate not found for unit: Ops. Generate parent first."
    );
    assert_eq!(
        generate_nats_from_graph(&graph).unwrap_err(),
        "Parent NATS entity not found for unit: Ops. Generate parent first."
    );
}

#[test]
fn pki_person_in_a_later_unit_has_no_parent_certificate() {
    let mut graph = OrganizationGraph::new();
    add(&mut graph, NodeType::Organization, "Acme");
    let dave = add(&mut graph, NodeType::Person, "Dave");
    let unit = new_id();
    graph.add_edge(unit, dave, EdgeType::MemberOf, color());

    assert_eq!(
        generate_pki_from_graph(&graph, "").unwrap_err(),
        "Parent certificate not found for person: Dave. Generate parent first."
    );
    assert_eq!(
        generate_nats_from_graph(&graph).unwrap_err(),
        "Parent NATS entity not found for person: Dave. Generate parent first."
    );
}

#[test]
fn nats_entities_follow_the_hierarchy() {
    let mut graph = OrganizationGraph::new();
    let org = add(&mut graph, NodeType::Organization, "Acme");
    let unit = add(&mut graph, NodeType::OrganizationalUnit, "Ops");
    let bob = add(&mut graph, NodeType::Person, "  Bob Developer");
    graph.add_edge(unit, bob, EdgeType::MemberOf, color());

    let nodes = generate_nats_from_graph(&graph).unwrap();
    assert_eq!(nodes.len(), 3);
    let operator_id = match &nodes[0].0 {
        NatsNode::Operator { id, name, organization_id } => {
            assert_eq!(name, "Acme");
            assert_eq!(*organization_id, Some(org));
            *id
        },
        other => panic!("expected an operator, got {:?}", other),
    };
    assert_eq!(nodes[0].2, None);
    let account_id = match &nodes[1].0 {
        NatsNode::Account { id, name, unit_id, is_system } => {
            assert_eq!(name, "Ops");
            assert_eq!(*unit_id, Some(unit));
            assert!(!is_system);
            *id
        },
        other => panic!("expected an account, got {:?}", other),
    };
    assert_eq!(nodes[1].2, Some(operator_id));
    match &nodes[2].0 {
        NatsNode::User { name, person_id, account_name, .. } => {
            assert_eq!(name, "bob");
            assert_eq!(*person_id, Some(bob));
            assert_eq!(account_name, "default");
        },
        other => panic!("expected a user, got {:?}", other),
    }
    assert_eq!(nodes[2].2, Some(account_id));
    assert_eq!(f32::from_bits(nodes[2].1.y_bits), 400.0);
}

#[test]
fn nats_user_name_of_a_blank_name_is_the_name() {
    let mut graph = OrganizationGraph::new();
    add(&mut graph, NodeType::Organization, "Acme");
    add(&mut graph, NodeType::Person, "   ");
    let nodes = generate_nats_from_graph(&graph).unwrap();
    match &nodes[1].0 {
        NatsNode::User { name, .. } => assert_eq!(name, "   "),
        other => panic!("expected a user, got {:?}", other),
    }
}
