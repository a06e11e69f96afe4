use cim_keys::causality::{CausalChain, CausalEvent, CausalityError};
use cim_keys::graph_causality::{build_nats_from_graph, build_pki_from_graph, GraphOperation};
use cim_keys::graph_model::{ColorBits, EdgeType, GraphNode, NodeType, OrganizationGraph, Position, NodeData};

fn color() -> ColorBits {
    ColorBits { r_bits: 0, g_bits: 0, b_bits: 0, a_bits: 0 }
}

fn node(id: u128, node_type: NodeType, label: &str) -> GraphNode {
    GraphNode { id, node_type, label: label.to_string(), position: Position { x_bits: 0, y_bits: 0 }, color: color(), data: NodeData::Plain }
}

fn create_test_graph() -> (OrganizationGraph, u128, u128, u128) {
    let mut graph = OrganizationGraph::new();
    let org_id = uuid::Uuid::now_v7().as_u128();
    let unit_id = uuid::Uuid::now_v7().as_u128();
    let person_id = uuid::Uuid::now_v7().as_u128();
    graph.add_node(node(org_id, NodeType::Organization, "Acme Corp"));
    graph.add_node(node(unit_id, NodeType::OrganizationalUnit, "Engineering"));
    graph.add_node(node(person_id, NodeType::Person, "Alice"));
    graph.add_edge(org_id, unit_id, EdgeType::ParentChild, color());
    graph.add_edge(unit_id, person_id, EdgeType::ParentChild, color());
    (graph, org_id, unit_id, person_id)
}

#[test]
fn test_pki_causal_chain() {
    let (graph, _, _, _) = create_test_graph();

    let chain = build_pki_from_graph(&graph);

    assert!(chain.events().len() >= 8);

    let events = chain.events();
    for (i, event) in events.iter().enumerate() {
        if i > 0 {
            assert!(!event.dependencies().is_empty());
        }
    }
}

#[test]
fn test_nats_causal_chain() {
    let (graph, _, _, _) = create_test_graph();

    let chain = build_nats_from_graph(&graph);

    assert!(chain.events().len() >= 6);
}

#[test]
fn test_affected_nodes() {
    let node_id = uuid::Uuid::now_v7().as_u128();
    let op = GraphOperation::NodeAdded {
        node_id,
        node_type_name: "Person".to_string(),
        label: "Eve".to_string(),
        reason: "Test".to_string(),
    };

    let affected = op.affected_nodes();
    assert_eq!(affected.len(), 1);
    assert_eq!(affected[0], node_id);
}

#[test]
fn causality_pki_chain_in_detail() {
    let (graph, org_id, unit_id, person_id) = create_test_graph();
    let chain = build_pki_from_graph(&graph);
    let events = chain.events();
    assert_eq!(events.len(), 8);
    let added = |i: usize| match &events[i].payload {
        GraphOperation::NodeAdded { node_id, node_type_name, label, reason } => {
            (*node_id, node_type_name.clone(), label.clone(), reason.clone())
        }
        other => panic!("unexpected {:?}", other),
    };
    let edge = |i: usize| match &events[i].payload {
        GraphOperation::EdgeCreated { from, to, edge_type_name, reason } => (*from, *to, edge_type_name.clone(), reason.clone()),
        other => panic!("unexpected {:?}", other),
    };
    let (root, t, l, r) = added(0);
    assert_eq!((t.as_str(), l.as_str(), r.as_str()), ("RootCertificate", "Acme Corp Root CA", "Root CA for organization Acme Corp"));
    assert_eq!(edge(1), (org_id, root, "IssuedTo".to_string(), "Root CA issued to organization".to_string()));
    let (inter, t, l, _) = added(2);
    assert_eq!((t.as_str(), l.as_str()), ("IntermediateCertificate", "Engineering Intermediate CA"));
    assert_eq!(edge(3), (inter, unit_id, "IssuedTo".to_string(), "Intermediate CA issued to unit".to_string()));
    assert_eq!(edge(4), (inter, root, "SignedBy".to_string(), "Intermediate CA signed by root".to_string()));
    let (leaf, t, l, r) = added(5);
    assert_eq!((t.as_str(), l.as_str(), r.as_str()), ("LeafCertificate", "Alice Certificate", "Leaf certificate for Alice"));
    assert_eq!(edge(6), (leaf, person_id, "IssuedTo".to_string(), "Leaf certificate issued to person".to_string()));
    assert_eq!(edge(7), (leaf, inter, "SignedBy".to_string(), "Leaf signed by intermediate".to_string()));
    assert!(events[0].dependencies.is_empty());
    assert_eq!(events[1].dependencies, vec![events[0].id]);
    assert_eq!(events[2].dependencies, vec![events[1].id]);
    assert_eq!(events[5].dependencies, vec![events[4].id]);
    assert_eq!(events[7].dependencies, vec![events[5].id]);
}

#[test]
fn causality_nats_chain_in_detail() {
    let (graph, org_id, _unit_id, person_id) = create_test_graph();
    let chain = build_nats_from_graph(&graph);
    let events = chain.events();
    assert_eq!(events.len(), 9);
    match &events[1].payload {
        GraphOperation::EdgeCreated { to, edge_type_name, .. } => {
            assert_eq!(*to, org_id);
            assert_eq!(edge_type_name, "IssuedTo");
        }
        other => panic!("unexpected {:?}", other),
    }
    match &events[6].payload {
        GraphOperation::EdgeCreated { to, edge_type_name, reason, .. } => {
            assert_eq!(*to, person_id);
            assert_eq!(edge_type_name, "MapsToPerson");
            assert_eq!(reason, "NATS user maps to person");
        }
        other => panic!("unexpected {:?}", other),
    }
    match &events[8].payload {
        GraphOperation::EdgeCreated { edge_type_name, .. } => assert_eq!(edge_type_name, "BelongsToAccount"),
        other => panic!("unexpected {:?}", other),
    }
}

#[test]
fn causality_without_organizations_is_empty() {
    let mut graph = OrganizationGraph::new();
    graph.add_node(node(1, NodeType::Person, "Alice"));
    assert!(build_pki_from_graph(&graph).events().is_empty());
    assert!(build_nats_from_graph(&graph).events().is_empty());
}

#[test]
fn causality_chain_refuses_unknown_causes() {
    let chain: CausalChain<u32> = CausalChain::new();
    let first = CausalEvent::new(1u32);
    let first_id = first.id();
    let chain = chain.add(first).unwrap();
    let orphan = CausalEvent::caused_by(2u32, vec![first_id.wrapping_add(1)]);
    match chain.add(orphan) {
        Err(CausalityError::UnknownCause(d)) => assert_eq!(d, first_id.wrapping_add(1)),
        Ok(_) => panic!("orphan accepted"),
    }
}

#[test]
fn causality_chain_accepts_known_causes() {
    let chain: CausalChain<u32> = CausalChain::new();
    let first = CausalEvent::new(1u32);
    let first_id = first.id();
    let chain = chain.add(first).unwrap();
    let second = CausalEvent::caused_by(2u32, vec![first_id]);
    let chain = chain.add(second).unwrap();
    assert_eq!(chain.events().len(), 2);
    assert_eq!(chain.events()[1].dependencies(), &vec![first_id]);
}

#[test]
fn test_workflow_generation() {
    let graph = OrganizationGraph::new();
    let workflows = cim_keys::frp_integration::generate_infrastructure(&graph);
    assert!(workflows.pki_workflow.operations.events().len() >= 0);
    assert!(workflows.nats_workflow.operations.events().len() >= 0);
}
