use cim_keys::layout::{crossing_pairs, crossing_pairs_for_node, layout_tiers};
use cim_keys::graph_buttons::ButtonVariant;
use cim_keys::graph_certificate::CertificateType;
use cim_keys::graph_manifest::ExportFormat;
use cim_keys::graph_model::{
    get_edge_type_name, get_node_type_name, ColorBits, EdgeType, GraphNode, LayoutAlgorithm, NodeType,
    OrganizationGraph, Position, NodeData};

fn node(id: u128, label: &str) -> GraphNode {
    GraphNode {
        id,
        node_type: NodeType::Person,
        label: label.to_string(),
        position: Position { x_bits: 0, y_bits: 0 },
        color: ColorBits { r_bits: 0, g_bits: 0, b_bits: 0, a_bits: 0 },
        data: NodeData::Plain,
    }
}

#[test]
fn graph_type_names() {
    assert_eq!(get_node_type_name(&NodeType::RootCertificate), "RootCertificate");
    assert_eq!(get_node_type_name(&NodeType::OrganizationalUnit), "OrganizationalUnit");
    assert_eq!(get_node_type_name(&NodeType::YubiKeyStatus), "YubiKeyStatus");
    assert_eq!(get_edge_type_name(&EdgeType::SignedBy), "SignedBy");
    assert_eq!(get_edge_type_name(&EdgeType::DelegatesKey), "DelegatesKey");
}

#[test]
fn graph_add_node_replaces_same_id() {
    let mut g = OrganizationGraph::new();
    g.add_node(node(1, "a"));
    g.add_node(node(2, "b"));
    g.add_node(node(1, "c"));
    assert_eq!(g.node_count(), 2);
    assert_eq!(g.nodes[0].label, "c");
    assert_eq!(g.find_node(2), Some(1));
    assert_eq!(g.find_node(3), None);
}

#[test]
fn graph_delete_node_removes_edges_and_selection() {
    let mut g = OrganizationGraph::new();
    g.add_node(node(1, "a"));
    g.add_node(node(2, "b"));
    let c = ColorBits { r_bits: 1, g_bits: 2, b_bits: 3, a_bits: 4 };
    g.add_edge(1, 2, EdgeType::MemberOf, c);
    g.add_edge(2, 2, EdgeType::Trust, c);
    g.add_edge(1, 1, EdgeType::Trust, c);
    g.select_node(2);
    g.delete_node(2);
    assert_eq!(g.node_count(), 1);
    assert_eq!(g.edges.len(), 1);
    assert_eq!(g.edges[0].from, 1);
    assert_eq!(g.selected_node, None);
}

#[test]
fn graph_small_enums() {
    assert_eq!(ButtonVariant::default(), ButtonVariant::Standard);
    assert_ne!(CertificateType::RootCA, CertificateType::Leaf);
    assert_eq!(ExportFormat::Unknown("x".to_string()), ExportFormat::Unknown("x".to_string()));
    assert_ne!(LayoutAlgorithm::Tutte, LayoutAlgorithm::Circular);
}

#[test]
fn layout_tiers_follow_the_type_order() {
    let mut g = OrganizationGraph::new();
    let mk = |id: u128, t: NodeType, l: &str| GraphNode {
        id,
        node_type: t,
        label: l.to_string(),
        position: Position { x_bits: 0, y_bits: 0 },
        color: ColorBits { r_bits: 0, g_bits: 0, b_bits: 0, a_bits: 0 },
        data: NodeData::Plain,
    };
    g.add_node(mk(1, NodeType::YubiKey, "yk"));
    g.add_node(mk(2, NodeType::Person, "Alice"));
    g.add_node(mk(3, NodeType::Organization, "Acme"));
    g.add_node(mk(4, NodeType::Person, "Root"));
    g.add_node(mk(5, NodeType::Role, "Root Authority"));
    g.add_node(mk(6, NodeType::OrganizationalUnit, "Eng"));
    g.add_edge(4, 5, EdgeType::HasRole, ColorBits { r_bits: 0, g_bits: 0, b_bits: 0, a_bits: 0 });
    let tiers = layout_tiers(&g);
    assert_eq!(tiers, vec![vec![3], vec![6], vec![5], vec![4], vec![2], vec![1]]);
}

#[test]
fn crossing_pairs_skip_shared_ends_and_undrawn_edges() {
    let mut graph = OrganizationGraph::new();
    for id in 1..=4u128 {
        graph.add_node(node(id, "n"));
    }
    let c = ColorBits { r_bits: 0, g_bits: 0, b_bits: 0, a_bits: 0 };
    graph.add_edge(1, 2, EdgeType::MemberOf, c);
    graph.add_edge(3, 4, EdgeType::MemberOf, c);
    graph.add_edge(1, 3, EdgeType::MemberOf, c);
    graph.add_edge(4, 9, EdgeType::MemberOf, c);
    assert_eq!(crossing_pairs(&graph), vec![(0, 1)]);
    assert_eq!(crossing_pairs_for_node(&graph, 1), vec![(0, 1)]);
    assert_eq!(crossing_pairs_for_node(&graph, 3), Vec::<(usize, usize)>::new());
    graph.add_edge(2, 4, EdgeType::MemberOf, c);
    assert_eq!(crossing_pairs(&graph), vec![(0, 1), (2, 4)]);
    assert_eq!(crossing_pairs_for_node(&graph, 3), vec![(2, 4)]);
}
