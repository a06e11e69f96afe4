use cim_keys::graph_model::{ColorBits, EdgeType, GraphNode, NodeType, OrganizationGraph, Position, NodeData};
use cim_keys::graph_relationship::RelationshipAnalysis;

fn color() -> ColorBits {
    ColorBits { r_bits: 0, g_bits: 0, b_bits: 0, a_bits: 0 }
}

fn graph_with(edges: &[(u128, u128, EdgeType)]) -> OrganizationGraph {
    let mut graph = OrganizationGraph::new();
    for id in 1..=6u128 {
        graph.add_node(GraphNode {
            id,
            node_type: NodeType::Person,
            label: format!("n{}", id),
            position: Position { x_bits: 0, y_bits: 0 },
            color: color(),
            data: NodeData::Plain,
        });
    }
    for &(from, to, edge_type) in edges {
        graph.add_edge(from, to, edge_type, color());
    }
    graph
}

#[test]
fn relationship_analysis_gathers_each_kind() {
    let graph = graph_with(&[
        (1, 2, EdgeType::Trusts),
        (1, 3, EdgeType::Trust),
        (1, 4, EdgeType::DelegatesKey),
        (2, 5, EdgeType::HasRole),
        (2, 6, EdgeType::HasRole),
        (3, 6, EdgeType::HasAccess),
        (4, 6, EdgeType::HasAccess),
        (1, 5, EdgeType::MemberOf),
        (2, 5, EdgeType::MemberOf),
        (3, 4, EdgeType::Manages),
        (3, 4, EdgeType::OwnsKey),
    ]);
    let analysis = RelationshipAnalysis::analyze(&graph);

    assert_eq!(
        analysis.get_trusted_by(&1),
        vec![(2, "Trust".to_string()), (3, "Trust".to_string())]
    );
    assert!(analysis.get_trusted_by(&2).is_empty());
    assert_eq!(analysis.get_delegations_from(&1), vec![4]);
    assert_eq!(analysis.get_roles_for_person(&2), vec![5, 6]);
    assert!(analysis.get_roles_for_person(&1).is_empty());
    assert_eq!(analysis.get_unit_members(&5), vec![1, 2]);
    let mut with_access = analysis.get_people_with_access(&6);
    with_access.sort();
    assert_eq!(with_access, vec![3, 4]);
    assert!(analysis.get_people_with_access(&5).is_empty());
    assert_eq!(
        analysis.summary(),
        "Relationships: 1 trust, 1 delegations, 1 roles, 2 access grants, 2 members"
    );
}

#[test]
fn relationship_analysis_of_an_empty_graph() {
    let analysis = RelationshipAnalysis::analyze(&OrganizationGraph::new());
    assert_eq!(
        analysis.summary(),
        "Relationships: 0 trust, 0 delegations, 0 roles, 0 access grants, 0 members"
    );
    assert!(analysis.get_unit_members(&1).is_empty());
}
