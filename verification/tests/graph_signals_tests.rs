use cim_keys::graph_model::{ColorBits, GraphNode, NodeData, NodeType, OrganizationGraph, Position};
use cim_keys::graph_signals::{
    create_graph_state_signal, highlighted_nodes, update_graph_state, visible_nodes, FilterState,
};

fn node(id: u128, node_type: NodeType, label: &str) -> GraphNode {
    GraphNode {
        id,
        node_type,
        label: label.to_string(),
        position: Position { x_bits: 0, y_bits: 0 },
        color: ColorBits { r_bits: 0, g_bits: 0, b_bits: 0, a_bits: 0 },
        data: NodeData::Plain,
    }
}

fn fresh() -> u128 {
    uuid::Uuid::now_v7().as_u128()
}

#[test]
fn test_visible_nodes_all_enabled() {
    let mut graph = OrganizationGraph::new();
    graph.add_node(node(fresh(), NodeType::Person, "Alice"));
    graph.add_node(node(fresh(), NodeType::Organization, "Acme Corp"));

    let filters = FilterState::default();
    let visible = visible_nodes(&graph, &filters);

    assert_eq!(visible.len(), 2);
}

#[test]
fn test_visible_nodes_people_only() {
    let mut graph = OrganizationGraph::new();
    let person_id = fresh();
    graph.add_node(node(person_id, NodeType::Person, "Alice"));
    graph.add_node(node(fresh(), NodeType::Organization, "Acme Corp"));

    let mut filters = FilterState::default();
    filters.show_orgs = false;

    let visible = visible_nodes(&graph, &filters);

    assert_eq!(visible.len(), 1);
    assert_eq!(visible[0].id, person_id);
}

#[test]
fn test_search_filter() {
    let mut graph = OrganizationGraph::new();
    graph.add_node(node(fresh(), NodeType::Person, "Alice"));
    graph.add_node(node(fresh(), NodeType::Person, "Bob"));

    let mut filters = FilterState::default();
    filters.search_query = "alice".to_string();

    let visible = visible_nodes(&graph, &filters);

    assert_eq!(visible.len(), 1);
    assert_eq!(visible[0].label, "Alice");
}

#[test]
fn test_highlighted_nodes() {
    let mut graph = OrganizationGraph::new();
    let alice_id = fresh();
    graph.add_node(node(alice_id, NodeType::Person, "Alice"));
    graph.add_node(node(fresh(), NodeType::Person, "Bob"));

    let highlighted = highlighted_nodes(&graph, "alice");

    assert_eq!(highlighted.len(), 1);
    assert_eq!(highlighted[0], alice_id);
}

#[test]
fn test_graph_state_signal() {
    let graph = OrganizationGraph::new();
    let signal = create_graph_state_signal(graph.clone());

    let sampled = signal.sample(0.0);
    assert_eq!(sampled.nodes.len(), 0);
}

#[test]
fn signals_update_replaces_the_sampled_graph() {
    let signal = create_graph_state_signal(OrganizationGraph::new());
    let mut next = OrganizationGraph::new();
    next.add_node(node(5, NodeType::YubiKey, "YK-1"));
    let signal = update_graph_state(signal, next);
    assert_eq!(signal.sample(3.5).nodes.len(), 1);
    assert_eq!(signal.sample(0u64).nodes[0].id, 5);
}

#[test]
fn signals_categories_and_search_combine() {
    let mut graph = OrganizationGraph::new();
    graph.add_node(node(1, NodeType::NatsAccount, "Engineering"));
    graph.add_node(node(2, NodeType::RootCertificate, "Engineering Root CA"));
    graph.add_node(node(3, NodeType::PivSlot, "9A"));
    graph.add_node(node(4, NodeType::Role, "Engineer"));
    graph.add_node(node(5, NodeType::NatsServiceAccount, "svc"));

    let mut filters = FilterState::default();
    filters.show_nats = false;
    filters.show_pki = false;
    filters.show_yubikey = false;
    let ids: Vec<u128> = visible_nodes(&graph, &filters).iter().map(|n| n.id).collect();
    assert_eq!(ids, vec![4, 5]);

    let mut filters = FilterState::default();
    filters.search_query = "ENGINEER".to_string();
    let ids: Vec<u128> = visible_nodes(&graph, &filters).iter().map(|n| n.id).collect();
    assert_eq!(ids, vec![1, 2, 4]);

    assert!(highlighted_nodes(&graph, "").is_empty());
    assert_eq!(highlighted_nodes(&graph, "root"), vec![2]);
}
