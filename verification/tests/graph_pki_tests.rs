use cim_keys::frp_integration::generate_infrastructure;
use cim_keys::graph_model::{ColorBits, EdgeType, GraphNode, NodeData, NodeType, OrganizationGraph, Position};
use cim_keys::graph_nats::{analyze_graph_for_nats, determine_generation_order as nats_generation_order, NatsGenerationOrder, NatsHierarchy};
use cim_keys::graph_pki::{
    analyze_graph_for_pki, derive_key_owner_role, determine_generation_order, find_person_key_role,
    CertificateOrder, PkiHierarchy, UnitPlacement,
};
use cim_keys::yubikey::KeyOwnerRole;

fn color() -> ColorBits {
    ColorBits { r_bits: 0, g_bits: 0, b_bits: 0, a_bits: 0 }
}

fn node(id: u128, node_type: NodeType, label: &str) -> GraphNode {
    GraphNode { id, node_type, label: label.to_string(), position: Position { x_bits: 0, y_bits: 0 }, color: color(), data: NodeData::Plain }
}

fn label_of(graph: &OrganizationGraph, id: u128) -> String {
    graph.nodes.iter().find(|n| n.id == id).unwrap().label.clone()
}

#[test]
fn test_analyze_simple_org_structure() {
    let mut graph = OrganizationGraph::new();
    graph.add_node(node(uuid::Uuid::now_v7().as_u128(), NodeType::Organization, "TestOrg"));

    let hierarchy = analyze_graph_for_pki(&graph);

    assert!(hierarchy.root_organization.is_some());
    assert_eq!(label_of(&graph, hierarchy.root_organization.unwrap()), "TestOrg");
}

#[test]
fn test_determine_generation_order() {
    let mut hierarchy = PkiHierarchy::new();

    let org_id = uuid::Uuid::now_v7().as_u128();
    let unit_id = uuid::Uuid::now_v7().as_u128();
    let _person_id = uuid::Uuid::now_v7().as_u128();

    hierarchy.root_organization = Some(org_id);
    hierarchy.intermediate_units.push(UnitPlacement { unit_id, parent_id: org_id });

    let order = determine_generation_order(&hierarchy);

    assert_eq!(order.len(), 2);
    assert_eq!(order[0], CertificateOrder::Root(org_id));
    assert_eq!(order[1], CertificateOrder::Intermediate(unit_id));
}

#[test]
fn test_analyze_simple_org_for_nats() {
    let mut graph = OrganizationGraph::new();
    graph.add_node(node(uuid::Uuid::now_v7().as_u128(), NodeType::Organization, "TestOrg"));

    let hierarchy = analyze_graph_for_nats(&graph);

    assert!(hierarchy.root_organization.is_some());
    assert_eq!(label_of(&graph, hierarchy.root_organization.unwrap()), "TestOrg");
}

#[test]
fn test_determine_nats_generation_order() {
    let mut hierarchy = NatsHierarchy::new();

    let org_uuid = uuid::Uuid::now_v7().as_u128();
    let unit_uuid = uuid::Uuid::now_v7().as_u128();

    hierarchy.root_organization = Some(org_uuid);
    hierarchy.nats_accounts.push(UnitPlacement { unit_id: unit_uuid, parent_id: org_uuid });

    let order = nats_generation_order(&hierarchy);

    assert_eq!(order.len(), 2);
    assert_eq!(order[0], NatsGenerationOrder::Operator(org_uuid));
    assert_eq!(order[1], NatsGenerationOrder::Account(unit_uuid));
}

#[test]
fn pki_role_names_map_to_key_owner_roles() {
    assert_eq!(derive_key_owner_role("Root Authority"), KeyOwnerRole::RootAuthority);
    assert_eq!(derive_key_owner_role("CA AUTHORITY"), KeyOwnerRole::RootAuthority);
    assert_eq!(derive_key_owner_role("Security Officer"), KeyOwnerRole::SecurityAdmin);
    assert_eq!(derive_key_owner_role("sysadmin"), KeyOwnerRole::SecurityAdmin);
    assert_eq!(derive_key_owner_role("Service Bot"), KeyOwnerRole::ServiceAccount);
    assert_eq!(derive_key_owner_role("Backup Keeper"), KeyOwnerRole::BackupHolder);
    assert_eq!(derive_key_owner_role("Disaster Recovery"), KeyOwnerRole::BackupHolder);
    assert_eq!(derive_key_owner_role("Auditor"), KeyOwnerRole::Auditor);
    assert_eq!(derive_key_owner_role("Software Engineer"), KeyOwnerRole::Developer);
    assert_eq!(derive_key_owner_role(""), KeyOwnerRole::Developer);
    assert_eq!(derive_key_owner_role("Root admin"), KeyOwnerRole::RootAuthority);
}

fn sample_graph() -> OrganizationGraph {
    let mut g = OrganizationGraph::new();
    g.add_node(node(1, NodeType::Organization, "CowboyAI"));
    g.add_node(node(2, NodeType::OrganizationalUnit, "Engineering"));
    g.add_node(node(3, NodeType::OrganizationalUnit, "Operations"));
    g.add_node(node(4, NodeType::Person, "Alice"));
    g.add_node(node(5, NodeType::Person, "Bob"));
    g.add_node(node(6, NodeType::Role, "Developer"));
    g.add_node(node(7, NodeType::Role, "Security Admin"));
    g.add_node(node(8, NodeType::Role, "Auditor"));
    g.add_edge(1, 2, EdgeType::ParentChild, color());
    g.add_edge(2, 4, EdgeType::MemberOf, color());
    g.add_edge(4, 6, EdgeType::HasRole, color());
    g.add_edge(5, 8, EdgeType::HasRole, color());
    g.add_edge(5, 7, EdgeType::HasRole, color());
    g
}

#[test]
fn pki_person_role_is_the_most_privileged() {
    let g = sample_graph();
    assert_eq!(find_person_key_role(4, &g), KeyOwnerRole::Developer);
    assert_eq!(find_person_key_role(5, &g), KeyOwnerRole::SecurityAdmin);
    assert_eq!(find_person_key_role(1, &g), KeyOwnerRole::Developer);
}

#[test]
fn pki_hierarchy_of_a_sample_graph() {
    let g = sample_graph();
    let h = analyze_graph_for_pki(&g);
    assert_eq!(h.root_organization, Some(1));
    let units: Vec<(u128, u128)> = h.intermediate_units.iter().map(|u| (u.unit_id, u.parent_id)).collect();
    assert_eq!(units, vec![(2, 1), (3, 1)]);
    let people: Vec<(u128, KeyOwnerRole, u128)> = h.leaf_people.iter().map(|p| (p.person_id, p.role, p.parent_id)).collect();
    assert_eq!(people, vec![(4, KeyOwnerRole::Developer, 2), (5, KeyOwnerRole::SecurityAdmin, 1)]);
    assert_eq!(h.hierarchy_edges, vec![(1, 2), (1, 3), (2, 4), (1, 5)]);
    let order = determine_generation_order(&h);
    assert_eq!(
        order,
        vec![
            CertificateOrder::Root(1),
            CertificateOrder::Intermediate(2),
            CertificateOrder::Intermediate(3),
            CertificateOrder::Leaf(4),
            CertificateOrder::Leaf(5),
        ]
    );
}

#[test]
fn pki_without_organization_places_only_members() {
    let mut g = OrganizationGraph::new();
    g.add_node(node(2, NodeType::OrganizationalUnit, "Eng"));
    g.add_node(node(4, NodeType::Person, "Alice"));
    g.add_node(node(5, NodeType::Person, "Bob"));
    g.add_edge(2, 4, EdgeType::MemberOf, color());
    let h = analyze_graph_for_pki(&g);
    assert_eq!(h.root_organization, None);
    assert!(h.intermediate_units.is_empty());
    assert_eq!(h.leaf_people.len(), 1);
    assert_eq!(h.leaf_people[0].person_id, 4);
    assert_eq!(determine_generation_order(&h), vec![CertificateOrder::Leaf(4)]);
}

#[test]
fn nats_and_infrastructure_plans_follow_the_graph() {
    let g = sample_graph();
    let h = analyze_graph_for_nats(&g);
    assert_eq!(
        nats_generation_order(&h),
        vec![
            NatsGenerationOrder::Operator(1),
            NatsGenerationOrder::Account(2),
            NatsGenerationOrder::Account(3),
            NatsGenerationOrder::User(4),
            NatsGenerationOrder::User(5),
        ]
    );
    let infra = generate_infrastructure(&g);
    // Root CA and its edge, then Engineering (the only parent-child child of
    // the organization) with its CA and two edges; Alice is a member, not a
    // parent-child child, of Engineering.
    assert_eq!(infra.pki_workflow.operations.events().len(), 2 + 3);
    assert_eq!(infra.nats_workflow.operations.events().len(), 2 + 3);
    let empty = generate_infrastructure(&OrganizationGraph::new());
    assert!(empty.pki_workflow.operations.events().is_empty());
    assert!(empty.nats_workflow.operations.events().is_empty());
}
