//! The graph as signals: which nodes the filters and the search let
//! through, and a step signal that holds the current graph.

use vstd::prelude::*;
use crate::graph_model::{GraphNode, NodeType, OrganizationGraph};
use crate::text::{contains_seq, contains_text, lowercase, lowercase_of};

verus! {

/// The filters of the graph view.
#[derive(Clone, Debug, PartialEq)]
pub struct FilterState {
    pub show_people: bool,
    pub show_orgs: bool,
    pub show_nats: bool,
    pub show_pki: bool,
    pub show_yubikey: bool,
    pub search_query: String,
}

impl Default for FilterState {
    /// Every category shown, no search.
    fn default() -> (r: Self)
        ensures
            r.show_people && r.show_orgs && r.show_nats && r.show_pki && r.show_yubikey,
            r.search_query@.len() == 0,
    {
        FilterState {
            show_people: true,
            show_orgs: true,
            show_nats: true,
            show_pki: true,
            show_yubikey: true,
            search_query: String::new(),
        }
    }
}

/// Whether the category filters let a node of type `t` through; nodes of
/// the other types are always shown.
pub open spec fn category_shown(f: FilterState, t: NodeType) -> bool {
    match t {
        NodeType::Person => f.show_people,
        NodeType::Organization | NodeType::OrganizationalUnit => f.show_orgs,
        NodeType::NatsOperator | NodeType::NatsAccount | NodeType::NatsUser => f.show_nats,
        NodeType::RootCertificate | NodeType::IntermediateCertificate | NodeType::LeafCertificate => f.show_pki,
        NodeType::YubiKey | NodeType::PivSlot | NodeType::YubiKeyStatus => f.show_yubikey,
        _ => true,
    }
}

/// Whether a label matches a search query: an empty query matches every
/// label, another one those that contain it, ignoring case.
pub open spec fn search_matches(query: Seq<char>, label: Seq<char>) -> bool {
    query.len() == 0 || contains_seq(lowercase_of(label), lowercase_of(query))
}

/// Whether the filters show the node.
pub open spec fn node_visible(f: FilterState, n: GraphNode) -> bool {
    category_shown(f, n.node_type) && search_matches(f.search_query@, n.label@)
}

/// The filters decide what the view shows. A shown node is a node of the
/// graph whose category is switched on: people with the people filter,
/// organizations and units with the organizations filter, NATS operators,
/// accounts and users with the NATS filter, certificates with the PKI
/// filter, YubiKeys, their slots and status with the YubiKey filter; and
/// under a search its label contains the query, case aside. Without a
/// search, every node of the graph whose category is switched on is shown.
pub proof fn lemma_filters_decide_visibility(nodes: Seq<GraphNode>, f: FilterState, n: GraphNode)
    ensures
        nodes.filter(|m: GraphNode| node_visible(f, m)).contains(n) ==> {
            &&& nodes.contains(n)
            &&& n.node_type == NodeType::Person ==> f.show_people
            &&& (n.node_type == NodeType::Organization || n.node_type == NodeType::OrganizationalUnit) ==> f.show_orgs
            &&& (n.node_type == NodeType::NatsOperator || n.node_type == NodeType::NatsAccount || n.node_type
                == NodeType::NatsUser) ==> f.show_nats
            &&& (n.node_type == NodeType::RootCertificate || n.node_type == NodeType::IntermediateCertificate
                || n.node_type == NodeType::LeafCertificate) ==> f.show_pki
            &&& (n.node_type == NodeType::YubiKey || n.node_type == NodeType::PivSlot || n.node_type
                == NodeType::YubiKeyStatus) ==> f.show_yubikey
            &&& f.search_query@.len() > 0 ==> contains_seq(lowercase_of(n.label@), lowercase_of(f.search_query@))
        },
        ({
            &&& nodes.contains(n)
            &&& f.search_query@.len() == 0
            &&& n.node_type == NodeType::Person ==> f.show_people
            &&& (n.node_type == NodeType::Organization || n.node_type == NodeType::OrganizationalUnit) ==> f.show_orgs
            &&& (n.node_type == NodeType::NatsOperator || n.node_type == NodeType::NatsAccount || n.node_type
                == NodeType::NatsUser) ==> f.show_nats
            &&& (n.node_type == NodeType::RootCertificate || n.node_type == NodeType::IntermediateCertificate
                || n.node_type == NodeType::LeafCertificate) ==> f.show_pki
            &&& (n.node_type == NodeType::YubiKey || n.node_type == NodeType::PivSlot || n.node_type
                == NodeType::YubiKeyStatus) ==> f.show_yubikey
        }) ==> nodes.filter(|m: GraphNode| node_visible(f, m)).contains(n),
{
    broadcast use vstd::seq_lib::group_filter_ensures;

    let pred = |m: GraphNode| node_visible(f, m);
    let shown = nodes.filter(pred);
    if shown.contains(n) {
        let i = choose|i: int| 0 <= i < shown.len() && shown[i] == n;
        assert(pred(shown[i]));
        nodes.lemma_filter_contains_rev(pred, n);
    }
    if nodes.contains(n) && f.search_query@.len() == 0 && category_shown(f, n.node_type) {
        let i = choose|i: int| 0 <= i < nodes.len() && nodes[i] == n;
        assert(pred(nodes[i]));
        nodes.lemma_filter_contains(pred, i);
    }
}

/// Whether the category filters let a node of type `t` through.
fn shows_category(filters: &FilterState, t: NodeType) -> (r: bool)
    ensures
        r == category_shown(*filters, t),
{
    match t {
        NodeType::Person => filters.show_people,
        NodeType::Organization | NodeType::OrganizationalUnit => filters.show_orgs,
        NodeType::NatsOperator | NodeType::NatsAccount | NodeType::NatsUser => filters.show_nats,
        NodeType::RootCertificate | NodeType::IntermediateCertificate | NodeType::LeafCertificate => filters.show_pki,
        NodeType::YubiKey | NodeType::PivSlot | NodeType::YubiKeyStatus => filters.show_yubikey,
        _ => true,
    }
}

/// Whether `label` contains `query`, ignoring case.
fn label_contains(label: &str, query: &str) -> (r: bool)
    ensures
        r == contains_seq(lowercase_of(label@), lowercase_of(query@)),
{
    let l = lowercase(label);
    let q = lowercase(query);
    contains_text(l.as_str(), q.as_str())
}

/// The nodes the filters show, in the order of the graph.
pub fn visible_nodes(graph: &OrganizationGraph, filters: &FilterState) -> (r: Vec<GraphNode>)
    ensures
        r@ == graph.nodes@.filter(|n: GraphNode| node_visible(*filters, n)),
{
    let ghost pred = |n: GraphNode| node_visible(*filters, n);
    let no_search = filters.search_query.as_str().is_empty();
    let mut out: Vec<GraphNode> = Vec::new();
    let mut i: usize = 0;
    while i < graph.nodes.len()
        invariant
            i <= graph.nodes@.len(),
            pred == (|n: GraphNode| node_visible(*filters, n)),
            no_search == (filters.search_query@.len() == 0),
            out@ == graph.nodes@.take(i as int).filter(pred),
        decreases graph.nodes.len() - i,
    {
        proof {
            reveal_with_fuel(Seq::filter, 1);
            assert(graph.nodes@.take(i + 1).drop_last() =~= graph.nodes@.take(i as int));
        }
        let node = &graph.nodes[i];
        let shown = shows_category(filters, node.node_type) && (no_search || label_contains(
            node.label.as_str(),
            filters.search_query.as_str(),
        ));
        if shown {
            out.push(node.duplicate());
        }
        proof {
            assert(out@ =~= graph.nodes@.take(i + 1).filter(pred));
        }
        i = i + 1;
    }
    proof {
        assert(graph.nodes@.take(graph.nodes@.len() as int) =~= graph.nodes@);
    }
    out
}

/// The identifiers of the nodes whose label contains the query, ignoring
/// case, in the order of the graph; none for an empty query.
pub fn highlighted_nodes(graph: &OrganizationGraph, search_query: &str) -> (r: Vec<u128>)
    ensures
        search_query@.len() == 0 ==> r@.len() == 0,
        search_query@.len() > 0 ==> r@ == graph.nodes@.filter(
            |n: GraphNode| contains_seq(lowercase_of(n.label@), lowercase_of(search_query@)),
        ).map_values(|n: GraphNode| n.id),
{
    let mut out: Vec<u128> = Vec::new();
    if search_query.is_empty() {
        return out;
    }
    let ghost pred = |n: GraphNode| contains_seq(lowercase_of(n.label@), lowercase_of(search_query@));
    let mut i: usize = 0;
    while i < graph.nodes.len()
        invariant
            i <= graph.nodes@.len(),
            pred == (|n: GraphNode| contains_seq(lowercase_of(n.label@), lowercase_of(search_query@))),
            out@ == graph.nodes@.take(i as int).filter(pred).map_values(|n: GraphNode| n.id),
        decreases graph.nodes.len() - i,
    {
        proof {
            reveal_with_fuel(Seq::filter, 1);
            assert(graph.nodes@.take(i + 1).drop_last() =~= graph.nodes@.take(i as int));
        }
        let node = &graph.nodes[i];
        if label_contains(node.label.as_str(), search_query) {
            out.push(node.id);
        }
        proof {
            assert(out@ =~= graph.nodes@.take(i + 1).filter(pred).map_values(|n: GraphNode| n.id));
        }
        i = i + 1;
    }
    proof {
        assert(graph.nodes@.take(graph.nodes@.len() as int) =~= graph.nodes@);
    }
    out
}

/// Layout algorithms of the graph view.
#[derive(Clone, Copy, Debug, PartialEq, Eq, Structural)]
pub enum LayoutAlgorithm {
    Manual,
    Hierarchical,
    ForceDirected,
    Circular,
}

/// A piecewise-constant signal: it holds one value until it is given
/// another, whatever the time it is sampled at.
pub struct StepSignal<T> {
    value: T,
}

impl<T> StepSignal<T> {
    /// The value the signal holds.
    pub closed spec fn current(&self) -> T {
        self.value
    }

    /// A signal that holds `value`.
    pub fn step(value: T) -> (r: Self)
        ensures
            r.current() == value,
    {
        StepSignal { value }
    }

    /// The signal from now on holding `value`.
    pub fn with_value(self, value: T) -> (r: Self)
        ensures
            r.current() == value,
    {
        StepSignal { value }
    }

    /// The value of the signal at time `at`: the value it holds.
    pub fn sample<Tm>(&self, at: Tm) -> (r: &T)
        ensures
            *r == self.current(),
    {
        &self.value
    }
}

/// The signal of the current graph.
pub type GraphStateSignal = StepSignal<OrganizationGraph>;

/// A graph signal that starts with `initial_graph`.
pub fn create_graph_state_signal(initial_graph: OrganizationGraph) -> (r: GraphStateSignal)
    ensures
        r.current() == initial_graph,
{
    StepSignal::step(initial_graph)
}

/// The graph signal from now on holding `new_graph`.
pub fn update_graph_state(signal: GraphStateSignal, new_graph: OrganizationGraph) -> (r: GraphStateSignal)
    ensures
        r.current() == new_graph,
{
    signal.with_value(new_graph)
}

/// With every category shown and no search, every node is visible.
pub proof fn lemma_default_filters_show_all(f: FilterState, nodes: Seq<GraphNode>)
    requires
        f.show_people && f.show_orgs && f.show_nats && f.show_pki && f.show_yubikey,
        f.search_query@.len() == 0,
    ensures
        nodes.filter(|n: GraphNode| node_visible(f, n)) == nodes,
    decreases nodes.len(),
{
    reveal_with_fuel(Seq::filter, 1);
    if nodes.len() > 0 {
        lemma_default_filters_show_all(f, nodes.drop_last());
        assert(nodes.drop_last().push(nodes.last()) =~= nodes);
    }
}

/// Hiding a category never shows more: every node visible under the
/// narrower filters is visible under the wider ones.
pub proof fn lemma_narrower_filters_show_less(wide: FilterState, narrow: FilterState, n: GraphNode)
    requires
        narrow.show_people ==> wide.show_people,
        narrow.show_orgs ==> wide.show_orgs,
        narrow.show_nats ==> wide.show_nats,
        narrow.show_pki ==> wide.show_pki,
        narrow.show_yubikey ==> wide.show_yubikey,
        narrow.search_query@ == wide.search_query@,
        node_visible(narrow, n),
    ensures
        node_visible(wide, n),
{
}

} // verus!
