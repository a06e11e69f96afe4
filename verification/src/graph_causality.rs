//! Graph operations as causal chains: the certificates or NATS entities
//! that an organization graph calls for, each operation naming the one that
//! caused it. Organization → root CA or operator; unit → intermediate CA or
//! account; person → leaf certificate or user; with the edges between them.

use vstd::prelude::*;
use crate::causality::{CausalChain, CausalEvent, causally_ordered, causes_present, has_event};
use crate::graph_model::{GraphEdge, GraphNode, NodeType, OrganizationGraph, Position, EdgeType};
use crate::graph_pki::{lemma_node_with_id_at, node_with_id};
use crate::ids::fresh_id;
use crate::text::{concat, owned};

verus! {

/// An operation on the graph, as recorded in a causal chain.
#[derive(Clone, Debug, PartialEq)]
pub enum GraphOperation {
    NodeAdded { node_id: u128, node_type_name: String, label: String, reason: String },
    EdgeCreated { from: u128, to: u128, edge_type_name: String, reason: String },
    NodeDeleted { node_id: u128, reason: String },
    EdgeDeleted { from: u128, to: u128, reason: String },
    PositionUpdated { node_id: u128, old_position: Position, new_position: Position },
}

/// The nodes an operation touches.
pub open spec fn affected(op: GraphOperation) -> Seq<u128> {
    match op {
        GraphOperation::NodeAdded { node_id, .. } => seq![node_id],
        GraphOperation::EdgeCreated { from, to, .. } => seq![from, to],
        GraphOperation::NodeDeleted { node_id, .. } => seq![node_id],
        GraphOperation::EdgeDeleted { from, to, .. } => seq![from, to],
        GraphOperation::PositionUpdated { node_id, .. } => seq![node_id],
    }
}

impl GraphOperation {
    /// The nodes the operation touches: the node, or both ends of the edge.
    pub fn affected_nodes(&self) -> (r: Vec<u128>)
        ensures
            r@ == affected(*self),
    {
        let mut v: Vec<u128> = Vec::new();
        match self {
            GraphOperation::NodeAdded { node_id, .. } => v.push(*node_id),
            GraphOperation::EdgeCreated { from, to, .. } => {
                v.push(*from);
                v.push(*to);
            },
            GraphOperation::NodeDeleted { node_id, .. } => v.push(*node_id),
            GraphOperation::EdgeDeleted { from, to, .. } => {
                v.push(*from);
                v.push(*to);
            },
            GraphOperation::PositionUpdated { node_id, .. } => v.push(*node_id),
        }
        assert(v@ =~= affected(*self));
        v
    }
}

/// Which infrastructure a chain builds.
#[derive(Clone, Copy, Debug, PartialEq, Eq, Structural)]
pub enum InfraKind {
    /// Root CA, intermediate CAs and leaf certificates.
    Pki,
    /// Operator, accounts and users.
    Nats,
}

/// A node named by a shape: one of the graph, or the one an earlier event
/// of the chain added.
pub enum NodeRef {
    Entity(u128),
    AddedBy(int),
}

/// What an event of a chain does, up to the identifiers it makes up.
pub enum OpShape {
    Node { kind_name: Seq<char>, label: Seq<char>, reason: Seq<char> },
    Edge { from: NodeRef, to: NodeRef, kind_name: Seq<char>, reason: Seq<char> },
}

/// An event up to the identifiers it makes up: what it does, and the index
/// of the event that caused it.
pub struct EventShape {
    pub op: OpShape,
    pub cause: Option<int>,
}

/// The node an operation adds.
pub open spec fn added_node(op: GraphOperation) -> Option<u128> {
    match op {
        GraphOperation::NodeAdded { node_id, .. } => Some(node_id),
        _ => None,
    }
}

/// Whether `id` is the node that `r` names, seen from event `i`.
pub open spec fn names(chain: Seq<CausalEvent<GraphOperation>>, i: int, r: NodeRef, id: u128) -> bool {
    match r {
        NodeRef::Entity(e) => id == e,
        NodeRef::AddedBy(k) => 0 <= k < i && added_node(chain[k].payload) == Some(id),
    }
}

/// Whether `op`, as event `i` of the chain, does what `shape` says.
pub open spec fn op_fits(chain: Seq<CausalEvent<GraphOperation>>, i: int, op: GraphOperation, shape: OpShape) -> bool {
    match shape {
        OpShape::Node { kind_name, label, reason } => match op {
            GraphOperation::NodeAdded { node_type_name: t, label: l, reason: r, .. } => t@ == kind_name && l@ == label
                && r@ == reason,
            _ => false,
        },
        OpShape::Edge { from, to, kind_name, reason } => match op {
            GraphOperation::EdgeCreated { from: f, to: d, edge_type_name: t, reason: r } => names(chain, i, from, f)
                && names(chain, i, to, d) && t@ == kind_name && r@ == reason,
            _ => false,
        },
    }
}

/// Whether event `i` of the chain has the causes that `cause` says.
pub open spec fn cause_fits(chain: Seq<CausalEvent<GraphOperation>>, i: int, cause: Option<int>) -> bool {
    match cause {
        Some(k) => 0 <= k < i && chain[i].dependencies@ == seq![chain[k].id],
        None => chain[i].dependencies@.len() == 0,
    }
}

/// Whether event `i` of the chain has shape `s`.
pub open spec fn realizes(chain: Seq<CausalEvent<GraphOperation>>, i: int, s: EventShape) -> bool {
    cause_fits(chain, i, s.cause) && op_fits(chain, i, chain[i].payload, s.op)
}

/// Earlier events stay what they are when an event is added after them.
proof fn lemma_op_fits_push(
    chain: Seq<CausalEvent<GraphOperation>>,
    e: CausalEvent<GraphOperation>,
    i: int,
    op: GraphOperation,
    shape: OpShape,
)
    requires
        op_fits(chain, i, op, shape),
        i <= chain.len(),
    ensures
        op_fits(chain.push(e), i, op, shape),
{
    let c = chain.push(e);
    match shape {
        OpShape::Edge { from, to, .. } => {
            match from {
                NodeRef::AddedBy(k) => {
                    if 0 <= k < i {
                        assert(c[k] == chain[k]);
                    }
                },
                _ => {},
            }
            match to {
                NodeRef::AddedBy(k) => {
                    if 0 <= k < i {
                        assert(c[k] == chain[k]);
                    }
                },
                _ => {},
            }
        },
        _ => {},
    }
}

/// Whether the chain is, event by event, the sequence of shapes.
pub open spec fn follows(chain: Seq<CausalEvent<GraphOperation>>, shapes: Seq<EventShape>) -> bool {
    &&& chain.len() == shapes.len()
    &&& forall|i: int| 0 <= i < chain.len() ==> realizes(chain, i, #[trigger] shapes[i])
}

/// The children of `parent` of type `t`: the nodes that the parent-child
/// edges among `edges` lead to, in edge order.
pub open spec fn children_of(g: OrganizationGraph, edges: Seq<GraphEdge>, parent: u128, t: NodeType) -> Seq<GraphNode>
    decreases edges.len(),
{
    if edges.len() == 0 {
        Seq::empty()
    } else {
        let prev = children_of(g, edges.drop_last(), parent, t);
        let e = edges.last();
        if e.from == parent && e.edge_type == EdgeType::ParentChild {
            match node_with_id(g.nodes@, e.to) {
                Some(n) => if n.node_type == t { prev.push(n) } else { prev },
                None => prev,
            }
        } else {
            prev
        }
    }
}

/// A shape that adds a node.
pub open spec fn node_shape(kind_name: Seq<char>, label: Seq<char>, reason: Seq<char>, cause: Option<int>) -> EventShape {
    EventShape { op: OpShape::Node { kind_name, label, reason }, cause }
}

/// A shape that adds an edge.
pub open spec fn edge_shape(from: NodeRef, to: NodeRef, kind_name: Seq<char>, reason: Seq<char>, cause: int) -> EventShape {
    EventShape { op: OpShape::Edge { from, to, kind_name, reason }, cause: Some(cause) }
}

/// The events for an organization: its root CA or operator and the edge
/// between them.
pub open spec fn org_head(k: InfraKind, o: GraphNode, base: int) -> Seq<EventShape> {
    match k {
        InfraKind::Pki => seq![
            node_shape("RootCertificate"@, o.label@ + " Root CA"@, "Root CA for organization "@ + o.label@, None),
            edge_shape(NodeRef::Entity(o.id), NodeRef::AddedBy(base), "IssuedTo"@, "Root CA issued to organization"@, base),
        ],
        InfraKind::Nats => seq![
            node_shape(
                "NatsOperator"@,
                o.label@ + " NATS Operator"@,
                "NATS operator for organization "@ + o.label@,
                None,
            ),
            edge_shape(
                NodeRef::AddedBy(base),
                NodeRef::Entity(o.id),
                "IssuedTo"@,
                "NATS operator issued to organization"@,
                base,
            ),
        ],
    }
}

/// The events for a unit: its intermediate CA or account, the edge to the
/// unit, and the edge with the root CA or operator at `root`.
pub open spec fn unit_head(k: InfraKind, u: GraphNode, root: int, cause: int, base: int) -> Seq<EventShape> {
    match k {
        InfraKind::Pki => seq![
            node_shape(
                "IntermediateCertificate"@,
                u.label@ + " Intermediate CA"@,
                "Intermediate CA for unit "@ + u.label@,
                Some(cause),
            ),
            edge_shape(NodeRef::AddedBy(base), NodeRef::Entity(u.id), "IssuedTo"@, "Intermediate CA issued to unit"@, base),
            edge_shape(NodeRef::AddedBy(base), NodeRef::AddedBy(root), "SignedBy"@, "Intermediate CA signed by root"@, base),
        ],
        InfraKind::Nats => seq![
            node_shape("NatsAccount"@, u.label@ + " NATS Account"@, "NATS account for unit "@ + u.label@, Some(cause)),
            edge_shape(
                NodeRef::AddedBy(base),
                NodeRef::Entity(u.id),
                "MapsToOrgUnit"@,
                "NATS account maps to organizational unit"@,
                base,
            ),
            edge_shape(NodeRef::AddedBy(root), NodeRef::AddedBy(base), "Signs"@, "Operator signs account JWT"@, base),
        ],
    }
}

/// The events for a person: their leaf certificate or user and its edges
/// with the person and with the intermediate CA or account at `unit`.
pub open spec fn person_shapes(k: InfraKind, p: GraphNode, unit: int, cause: int, base: int) -> Seq<EventShape> {
    match k {
        InfraKind::Pki => seq![
            node_shape("LeafCertificate"@, p.label@ + " Certificate"@, "Leaf certificate for "@ + p.label@, Some(cause)),
            edge_shape(NodeRef::AddedBy(base), NodeRef::Entity(p.id), "IssuedTo"@, "Leaf certificate issued to person"@, base),
            edge_shape(NodeRef::AddedBy(base), NodeRef::AddedBy(unit), "SignedBy"@, "Leaf signed by intermediate"@, base),
        ],
        InfraKind::Nats => seq![
            node_shape("NatsUser"@, p.label@ + " NATS User"@, "NATS user for "@ + p.label@, Some(cause)),
            edge_shape(NodeRef::AddedBy(base), NodeRef::Entity(p.id), "MapsToPerson"@, "NATS user maps to person"@, base),
            edge_shape(NodeRef::AddedBy(unit), NodeRef::AddedBy(base), "Signs"@, "Account signs user JWT"@, base),
            edge_shape(NodeRef::AddedBy(base), NodeRef::AddedBy(unit), "BelongsToAccount"@, "User belongs to account"@, base),
        ],
    }
}

/// The events for the people `ps` of a unit, one person after the other.
pub open spec fn people_shapes(k: InfraKind, ps: Seq<GraphNode>, unit: int, cause: int, base: int) -> Seq<EventShape>
    decreases ps.len(),
{
    if ps.len() == 0 {
        Seq::empty()
    } else {
        let prev = people_shapes(k, ps.drop_last(), unit, cause, base);
        prev + person_shapes(k, ps.last(), unit, cause, base + prev.len())
    }
}

/// The events for a unit and its people.
pub open spec fn unit_shapes(k: InfraKind, g: OrganizationGraph, u: GraphNode, root: int, cause: int, base: int) -> Seq<EventShape> {
    unit_head(k, u, root, cause, base) + people_shapes(
        k,
        children_of(g, g.edges@, u.id, NodeType::Person),
        base,
        base + 2,
        base + 3,
    )
}

/// The events for the units `us` of an organization, one after the other.
pub open spec fn units_shapes(
    k: InfraKind,
    g: OrganizationGraph,
    us: Seq<GraphNode>,
    root: int,
    cause: int,
    base: int,
) -> Seq<EventShape>
    decreases us.len(),
{
    if us.len() == 0 {
        Seq::empty()
    } else {
        let prev = units_shapes(k, g, us.drop_last(), root, cause, base);
        prev + unit_shapes(k, g, us.last(), root, cause, base + prev.len())
    }
}

/// The events for an organization, its units and their people.
pub open spec fn org_shapes(k: InfraKind, g: OrganizationGraph, o: GraphNode, base: int) -> Seq<EventShape> {
    org_head(k, o, base) + units_shapes(
        k,
        g,
        children_of(g, g.edges@, o.id, NodeType::OrganizationalUnit),
        base,
        base + 1,
        base + 2,
    )
}

/// The events for the organizations `os`, one after the other.
pub open spec fn orgs_shapes(k: InfraKind, g: OrganizationGraph, os: Seq<GraphNode>) -> Seq<EventShape>
    decreases os.len(),
{
    if os.len() == 0 {
        Seq::empty()
    } else {
        let prev = orgs_shapes(k, g, os.drop_last());
        prev + org_shapes(k, g, os.last(), prev.len() as int)
    }
}

/// The events that the graph calls for: for each organization, in the order
/// of the graph, its block of events.
pub open spec fn infra_shapes(k: InfraKind, g: OrganizationGraph) -> Seq<EventShape> {
    orgs_shapes(k, g, g.nodes@.filter(|n: GraphNode| n.node_type == NodeType::Organization))
}

/// A chain that follows some shapes still follows them, with a new event
/// of the next shape after it.
proof fn lemma_follows_push(
    chain: Seq<CausalEvent<GraphOperation>>,
    shapes: Seq<EventShape>,
    e: CausalEvent<GraphOperation>,
    s: EventShape,
)
    requires
        follows(chain, shapes),
        realizes(chain.push(e), chain.len() as int, s),
    ensures
        follows(chain.push(e), shapes.push(s)),
{
    let c = chain.push(e);
    let sh = shapes.push(s);
    assert forall|i: int| 0 <= i < c.len() implies realizes(c, i, #[trigger] sh[i]) by {
        if i < chain.len() {
            assert(realizes(chain, i, shapes[i]));
            assert(sh[i] == shapes[i]);
            assert(c[i] == chain[i]);
            lemma_op_fits_push(chain, e, i, chain[i].payload, shapes[i].op);
            match shapes[i].cause {
                Some(k) => {
                    assert(c[k] == chain[k]);
                },
                None => {},
            }
        }
    }
}

/// The children of `parent` of type `t`, in edge order.
fn children(graph: &OrganizationGraph, parent: u128, t: NodeType) -> (r: Vec<GraphNode>)
    requires
        graph.well_formed(),
    ensures
        r@ == children_of(*graph, graph.edges@, parent, t),
{
    let mut out: Vec<GraphNode> = Vec::new();
    let mut i: usize = 0;
    while i < graph.edges.len()
        invariant
            graph.well_formed(),
            i <= graph.edges@.len(),
            out@ == children_of(*graph, graph.edges@.take(i as int), parent, t),
        decreases graph.edges.len() - i,
    {
        proof {
            assert(graph.edges@.take(i + 1).drop_last() =~= graph.edges@.take(i as int));
        }
        let e = graph.edges[i];
        if e.from == parent && e.edge_type == EdgeType::ParentChild {
            match graph.find_node(e.to) {
                Some(k) => {
                    proof {
                        lemma_node_with_id_at(graph.nodes@, k as int);
                    }
                    if graph.nodes[k].node_type == t {
                        out.push(graph.nodes[k].duplicate());
                    }
                },
                None => {},
            }
        }
        i = i + 1;
    }
    proof {
        assert(graph.edges@.take(graph.edges@.len() as int) =~= graph.edges@);
    }
    out
}

/// Adds an event caused by nothing, of shape `s`.
fn add_root_event(
    chain: CausalChain<GraphOperation>,
    op: GraphOperation,
    Ghost(shapes): Ghost<Seq<EventShape>>,
    Ghost(s): Ghost<EventShape>,
) -> (r: (CausalChain<GraphOperation>, u128))
    requires
        follows(chain@, shapes),
        s.cause is None,
        op_fits(chain@, chain@.len() as int, op, s.op),
    ensures
        follows(r.0@, shapes.push(s)),
        r.0@.len() == chain@.len() + 1,
        r.0@.take(chain@.len() as int) == chain@,
        r.0@[chain@.len() as int].id == r.1,
        r.0@[chain@.len() as int].payload == op,
{
    let e = CausalEvent::new(op);
    let id = e.id();
    let ghost before = chain@;
    proof {
        lemma_op_fits_push(before, e, before.len() as int, op, s.op);
        assert(before.push(e)[before.len() as int] == e);
        assert(realizes(before.push(e), before.len() as int, s));
    }
    let c = chain.add(e).unwrap();
    proof {
        lemma_follows_push(before, shapes, e, s);
        assert(c@.take(before.len() as int) =~= before);
    }
    (c, id)
}

/// Adds an event caused by event `cause` (whose identifier is `cause_id`),
/// of shape `s`.
fn add_caused_event(
    chain: CausalChain<GraphOperation>,
    op: GraphOperation,
    cause_id: u128,
    Ghost(cause): Ghost<int>,
    Ghost(shapes): Ghost<Seq<EventShape>>,
    Ghost(s): Ghost<EventShape>,
) -> (r: (CausalChain<GraphOperation>, u128))
    requires
        follows(chain@, shapes),
        0 <= cause < chain@.len(),
        chain@[cause].id == cause_id,
        s.cause == Some(cause),
        op_fits(chain@, chain@.len() as int, op, s.op),
    ensures
        follows(r.0@, shapes.push(s)),
        r.0@.len() == chain@.len() + 1,
        r.0@.take(chain@.len() as int) == chain@,
        r.0@[chain@.len() as int].id == r.1,
        r.0@[chain@.len() as int].payload == op,
{
    let mut deps: Vec<u128> = Vec::new();
    deps.push(cause_id);
    let e = CausalEvent::caused_by(op, deps);
    let id = e.id();
    let ghost before = chain@;
    proof {
        assert(e.dependencies@ =~= seq![cause_id]);
        assert(has_event(before, cause_id));
        assert(causes_present(before, e));
        lemma_op_fits_push(before, e, before.len() as int, op, s.op);
        assert(before.push(e)[before.len() as int] == e);
        assert(before.push(e)[cause] == before[cause]);
        assert(realizes(before.push(e), before.len() as int, s));
    }
    let c = chain.add(e).unwrap();
    proof {
        lemma_follows_push(before, shapes, e, s);
        assert(c@.take(before.len() as int) =~= before);
    }
    (c, id)
}

/// Adds the events for person `p`, whose certificate or user is signed or
/// held by the node added at `unit` (identifier `unit_id`) and caused by
/// event `trust` (identifier `trust_id`).
fn add_person(
    kind: InfraKind,
    p: &GraphNode,
    unit_id: u128,
    Ghost(unit): Ghost<int>,
    trust_id: u128,
    Ghost(trust): Ghost<int>,
    chain: CausalChain<GraphOperation>,
    Ghost(shapes): Ghost<Seq<EventShape>>,
) -> (r: CausalChain<GraphOperation>)
    requires
        follows(chain@, shapes),
        0 <= unit < chain@.len(),
        added_node(chain@[unit].payload) == Some(unit_id),
        0 <= trust < chain@.len(),
        chain@[trust].id == trust_id,
    ensures
        follows(r@, shapes + person_shapes(kind, *p, unit, trust, shapes.len() as int)),
        r@.take(chain@.len() as int) == chain@,
{
    let ghost base = chain@.len() as int;
    let ghost want = person_shapes(kind, *p, unit, trust, base);
    let own_id = fresh_id();
    let (kind_name, suffix, reason_head) = match kind {
        InfraKind::Pki => ("LeafCertificate", " Certificate", "Leaf certificate for "),
        InfraKind::Nats => ("NatsUser", " NATS User", "NATS user for "),
    };
    let op0 = GraphOperation::NodeAdded {
        node_id: own_id,
        node_type_name: owned(kind_name),
        label: concat(p.label.as_str(), suffix),
        reason: concat(reason_head, p.label.as_str()),
    };
    proof {
        reveal_strlit("LeafCertificate");
        reveal_strlit("NatsUser");
    }
    let (c1, e1) = add_caused_event(chain, op0, trust_id, Ghost(trust), Ghost(shapes), Ghost(want[0]));
    let op1 = match kind {
        InfraKind::Pki => GraphOperation::EdgeCreated {
            from: own_id,
            to: p.id,
            edge_type_name: owned("IssuedTo"),
            reason: owned("Leaf certificate issued to person"),
        },
        InfraKind::Nats => GraphOperation::EdgeCreated {
            from: own_id,
            to: p.id,
            edge_type_name: owned("MapsToPerson"),
            reason: owned("NATS user maps to person"),
        },
    };
    let (c2, _e2) = add_caused_event(c1, op1, e1, Ghost(base), Ghost(shapes.push(want[0])), Ghost(want[1]));
    let op2 = match kind {
        InfraKind::Pki => GraphOperation::EdgeCreated {
            from: own_id,
            to: unit_id,
            edge_type_name: owned("SignedBy"),
            reason: owned("Leaf signed by intermediate"),
        },
        InfraKind::Nats => GraphOperation::EdgeCreated {
            from: unit_id,
            to: own_id,
            edge_type_name: owned("Signs"),
            reason: owned("Account signs user JWT"),
        },
    };
    proof {
        assert(c1@[unit] == chain@[unit]);
        assert(c2@[unit] == c1@[unit]);
        assert(c2@[base] == c1@[base]);
    }
    let (c3, _e3) = add_caused_event(
        c2,
        op2,
        e1,
        Ghost(base),
        Ghost(shapes.push(want[0]).push(want[1])),
        Ghost(want[2]),
    );
    match kind {
        InfraKind::Pki => {
            proof {
                assert(shapes.push(want[0]).push(want[1]).push(want[2]) =~= shapes + want);
                assert(c3@.take(base) =~= chain@) by {
                    assert(c3@.take(base + 2).take(base) =~= c3@.take(base));
                    assert(c2@.take(base + 1).take(base) =~= c2@.take(base));
                }
            }
            c3
        },
        InfraKind::Nats => {
            let op3 = GraphOperation::EdgeCreated {
                from: own_id,
                to: unit_id,
                edge_type_name: owned("BelongsToAccount"),
                reason: owned("User belongs to account"),
            };
            proof {
                assert(c3@[unit] == c2@[unit]);
                assert(c3@[base] == c2@[base]);
            }
            let (c4, _e4) = add_caused_event(
                c3,
                op3,
                e1,
                Ghost(base),
                Ghost(shapes.push(want[0]).push(want[1]).push(want[2])),
                Ghost(want[3]),
            );
            proof {
                assert(shapes.push(want[0]).push(want[1]).push(want[2]).push(want[3]) =~= shapes + want);
                assert(c4@.take(base) =~= chain@) by {
                    assert(c4@.take(base + 3).take(base) =~= c4@.take(base));
                    assert(c3@.take(base + 2).take(base) =~= c3@.take(base));
                    assert(c2@.take(base + 1).take(base) =~= c2@.take(base));
                }
            }
            c4
        },
    }
}

/// Adds the events for unit `u` and its people: the unit's intermediate
/// CA or account is caused by event `cause` (identifier `cause_id`) and
/// signed by or signs the node added at `root` (identifier `root_id`).
fn add_unit(
    kind: InfraKind,
    graph: &OrganizationGraph,
    u: &GraphNode,
    root_id: u128,
    Ghost(root): Ghost<int>,
    cause_id: u128,
    Ghost(cause): Ghost<int>,
    chain: CausalChain<GraphOperation>,
    Ghost(shapes): Ghost<Seq<EventShape>>,
) -> (r: CausalChain<GraphOperation>)
    requires
        graph.well_formed(),
        follows(chain@, shapes),
        0 <= root < chain@.len(),
        added_node(chain@[root].payload) == Some(root_id),
        0 <= cause < chain@.len(),
        chain@[cause].id == cause_id,
    ensures
        follows(r@, shapes + unit_shapes(kind, *graph, *u, root, cause, shapes.len() as int)),
        r@.take(chain@.len() as int) == chain@,
{
    let ghost base = chain@.len() as int;
    let ghost head = unit_head(kind, *u, root, cause, base);
    let own_id = fresh_id();
    let (kind_name, suffix, reason_head) = match kind {
        InfraKind::Pki => ("IntermediateCertificate", " Intermediate CA", "Intermediate CA for unit "),
        InfraKind::Nats => ("NatsAccount", " NATS Account", "NATS account for unit "),
    };
    let op0 = GraphOperation::NodeAdded {
        node_id: own_id,
        node_type_name: owned(kind_name),
        label: concat(u.label.as_str(), suffix),
        reason: concat(reason_head, u.label.as_str()),
    };
    let (c1, e1) = add_caused_event(chain, op0, cause_id, Ghost(cause), Ghost(shapes), Ghost(head[0]));
    let op1 = match kind {
        InfraKind::Pki => GraphOperation::EdgeCreated {
            from: own_id,
            to: u.id,
            edge_type_name: owned("IssuedTo"),
            reason: owned("Intermediate CA issued to unit"),
        },
        InfraKind::Nats => GraphOperation::EdgeCreated {
            from: own_id,
            to: u.id,
            edge_type_name: owned("MapsToOrgUnit"),
            reason: owned("NATS account maps to organizational unit"),
        },
    };
    let (c2, _e2) = add_caused_event(c1, op1, e1, Ghost(base), Ghost(shapes.push(head[0])), Ghost(head[1]));
    let op2 = match kind {
        InfraKind::Pki => GraphOperation::EdgeCreated {
            from: own_id,
            to: root_id,
            edge_type_name: owned("SignedBy"),
            reason: owned("Intermediate CA signed by root"),
        },
        InfraKind::Nats => GraphOperation::EdgeCreated {
            from: root_id,
            to: own_id,
            edge_type_name: owned("Signs"),
            reason: owned("Operator signs account JWT"),
        },
    };
    proof {
        assert(c1@[root] == chain@[root]);
        assert(c2@[root] == c1@[root]);
        assert(c2@[base] == c1@[base]);
    }
    let (c3, e3) = add_caused_event(c2, op2, e1, Ghost(base), Ghost(shapes.push(head[0]).push(head[1])), Ghost(head[2]));
    proof {
        assert(shapes.push(head[0]).push(head[1]).push(head[2]) =~= shapes + head);
        assert(c3@.take(base) =~= chain@) by {
            assert(c3@.take(base + 2).take(base) =~= c3@.take(base));
            assert(c2@.take(base + 1).take(base) =~= c2@.take(base));
        }
        assert(c3@[base] == c1@[base]) by {
            assert(c3@.take(base + 2)[base] == c3@[base]);
        }
    }
    let people = children(graph, u.id, NodeType::Person);
    let mut c = c3;
    let mut j: usize = 0;
    while j < people.len()
        invariant
            j <= people@.len(),
            people@ == children_of(*graph, graph.edges@, u.id, NodeType::Person),
            follows(c@, shapes + head + people_shapes(kind, people@.take(j as int), base, base + 2, base + 3)),
            c@.len() >= base + 3,
            c@.take(base) == chain@,
            added_node(c@[base].payload) == Some(own_id),
            c@[base + 2].id == e3,
            base == shapes.len(),
            head == unit_head(kind, *u, root, cause, base),
        decreases people.len() - j,
    {
        let ghost before = c@;
        let ghost sofar = shapes + head + people_shapes(kind, people@.take(j as int), base, base + 2, base + 3);
        c = add_person(kind, &people[j], own_id, Ghost(base), e3, Ghost(base + 2), c, Ghost(sofar));
        proof {
            let ps = people@.take(j + 1);
            assert(ps.drop_last() =~= people@.take(j as int));
            let prev = people_shapes(kind, people@.take(j as int), base, base + 2, base + 3);
            assert(sofar.len() == base + 3 + prev.len());
            assert(people_shapes(kind, ps, base, base + 2, base + 3) == prev + person_shapes(
                kind,
                people@[j as int],
                base,
                base + 2,
                base + 3 + prev.len(),
            ));
            assert(sofar + person_shapes(kind, people@[j as int], base, base + 2, sofar.len() as int) =~= shapes + head
                + people_shapes(kind, ps, base, base + 2, base + 3));
            assert(c@.take(base) =~= chain@) by {
                assert(c@.take(before.len() as int).take(base) =~= c@.take(base));
            }
            assert(c@[base] == before[base]) by {
                assert(c@.take(before.len() as int)[base] == c@[base]);
            }
            assert(c@[base + 2] == before[base + 2]) by {
                assert(c@.take(before.len() as int)[base + 2] == c@[base + 2]);
            }
        }
        j = j + 1;
    }
    proof {
        assert(people@.take(people@.len() as int) =~= people@);
        assert(shapes + head + people_shapes(kind, people@, base, base + 2, base + 3) =~= shapes + unit_shapes(
            kind,
            *graph,
            *u,
            root,
            cause,
            base,
        ));
    }
    c
}

/// Adds the events for organization `o`, its units and their people.
fn add_org(
    kind: InfraKind,
    graph: &OrganizationGraph,
    o: &GraphNode,
    chain: CausalChain<GraphOperation>,
    Ghost(shapes): Ghost<Seq<EventShape>>,
) -> (r: CausalChain<GraphOperation>)
    requires
        graph.well_formed(),
        follows(chain@, shapes),
    ensures
        follows(r@, shapes + org_shapes(kind, *graph, *o, shapes.len() as int)),
        r@.take(chain@.len() as int) == chain@,
{
    let ghost base = chain@.len() as int;
    let ghost head = org_head(kind, *o, base);
    let own_id = fresh_id();
    let (kind_name, suffix, reason_head) = match kind {
        InfraKind::Pki => ("RootCertificate", " Root CA", "Root CA for organization "),
        InfraKind::Nats => ("NatsOperator", " NATS Operator", "NATS operator for organization "),
    };
    let op0 = GraphOperation::NodeAdded {
        node_id: own_id,
        node_type_name: owned(kind_name),
        label: concat(o.label.as_str(), suffix),
        reason: concat(reason_head, o.label.as_str()),
    };
    let (c1, e1) = add_root_event(chain, op0, Ghost(shapes), Ghost(head[0]));
    let op1 = match kind {
        InfraKind::Pki => GraphOperation::EdgeCreated {
            from: o.id,
            to: own_id,
            edge_type_name: owned("IssuedTo"),
            reason: owned("Root CA issued to organization"),
        },
        InfraKind::Nats => GraphOperation::EdgeCreated {
            from: own_id,
            to: o.id,
            edge_type_name: owned("IssuedTo"),
            reason: owned("NATS operator issued to organization"),
        },
    };
    let (c2, e2) = add_caused_event(c1, op1, e1, Ghost(base), Ghost(shapes.push(head[0])), Ghost(head[1]));
    proof {
        assert(shapes.push(head[0]).push(head[1]) =~= shapes + head);
        assert(c2@.take(base) =~= chain@) by {
            assert(c2@.take(base + 1).take(base) =~= c2@.take(base));
        }
        assert(c2@[base] == c1@[base]) by {
            assert(c2@.take(base + 1)[base] == c2@[base]);
        }
    }
    let units = children(graph, o.id, NodeType::OrganizationalUnit);
    let mut c = c2;
    let mut j: usize = 0;
    while j < units.len()
        invariant
            graph.well_formed(),
            j <= units@.len(),
            units@ == children_of(*graph, graph.edges@, o.id, NodeType::OrganizationalUnit),
            follows(c@, shapes + head + units_shapes(kind, *graph, units@.take(j as int), base, base + 1, base + 2)),
            c@.len() >= base + 2,
            c@.take(base) == chain@,
            added_node(c@[base].payload) == Some(own_id),
            c@[base + 1].id == e2,
            base == shapes.len(),
            head == org_head(kind, *o, base),
        decreases units.len() - j,
    {
        let ghost before = c@;
        let ghost sofar = shapes + head + units_shapes(kind, *graph, units@.take(j as int), base, base + 1, base + 2);
        c = add_unit(kind, graph, &units[j], own_id, Ghost(base), e2, Ghost(base + 1), c, Ghost(sofar));
        proof {
            let us = units@.take(j + 1);
            assert(us.drop_last() =~= units@.take(j as int));
            let prev = units_shapes(kind, *graph, units@.take(j as int), base, base + 1, base + 2);
            assert(sofar.len() == base + 2 + prev.len());
            assert(sofar + unit_shapes(kind, *graph, units@[j as int], base, base + 1, sofar.len() as int) =~= shapes
                + head + units_shapes(kind, *graph, us, base, base + 1, base + 2));
            assert(c@.take(base) =~= chain@) by {
                assert(c@.take(before.len() as int).take(base) =~= c@.take(base));
            }
            assert(c@[base] == before[base]) by {
                assert(c@.take(before.len() as int)[base] == c@[base]);
            }
            assert(c@[base + 1] == before[base + 1]) by {
                assert(c@.take(before.len() as int)[base + 1] == c@[base + 1]);
            }
        }
        j = j + 1;
    }
    proof {
        assert(units@.take(units@.len() as int) =~= units@);
        assert(shapes + head + units_shapes(kind, *graph, units@, base, base + 1, base + 2) =~= shapes + org_shapes(
            kind,
            *graph,
            *o,
            base,
        ));
    }
    c
}

/// The organization nodes of the graph, in order.
fn organizations(graph: &OrganizationGraph) -> (r: Vec<GraphNode>)
    ensures
        r@ == graph.nodes@.filter(|n: GraphNode| n.node_type == NodeType::Organization),
{
    let ghost pred = |n: GraphNode| n.node_type == NodeType::Organization;
    let mut out: Vec<GraphNode> = Vec::new();
    let mut i: usize = 0;
    while i < graph.nodes.len()
        invariant
            i <= graph.nodes@.len(),
            pred == (|n: GraphNode| n.node_type == NodeType::Organization),
            out@ == graph.nodes@.take(i as int).filter(pred),
        decreases graph.nodes.len() - i,
    {
        proof {
            reveal_with_fuel(Seq::filter, 1);
            assert(graph.nodes@.take(i + 1).drop_last() =~= graph.nodes@.take(i as int));
        }
        if graph.nodes[i].node_type == NodeType::Organization {
            out.push(graph.nodes[i].duplicate());
        }
        proof {
            assert(out@ =~= graph.nodes@.take(i + 1).filter(pred));
        }
        i = i + 1;
    }
    proof {
        assert(graph.nodes@.take(graph.nodes@.len() as int) =~= graph.nodes@);
    }
    out
}

/// The causal chain of the infrastructure of kind `kind` for the graph.
fn build_chain(graph: &OrganizationGraph, kind: InfraKind) -> (r: CausalChain<GraphOperation>)
    requires
        graph.well_formed(),
    ensures
        follows(r@, infra_shapes(kind, *graph)),
{
    let orgs = organizations(graph);
    let mut chain: CausalChain<GraphOperation> = CausalChain::new();
    let mut i: usize = 0;
    while i < orgs.len()
        invariant
            graph.well_formed(),
            i <= orgs@.len(),
            orgs@ == graph.nodes@.filter(|n: GraphNode| n.node_type == NodeType::Organization),
            follows(chain@, orgs_shapes(kind, *graph, orgs@.take(i as int))),
        decreases orgs.len() - i,
    {
        let ghost sofar = orgs_shapes(kind, *graph, orgs@.take(i as int));
        chain = add_org(kind, graph, &orgs[i], chain, Ghost(sofar));
        proof {
            assert(orgs@.take(i + 1).drop_last() =~= orgs@.take(i as int));
        }
        i = i + 1;
    }
    proof {
        assert(orgs@.take(orgs@.len() as int) =~= orgs@);
    }
    chain
}

/// The PKI that the graph calls for, as a causal chain: for each
/// organization its root CA, for each of its units (children by a
/// parent-child edge) an intermediate CA, and for each person under a unit
/// a leaf certificate, each with its edges; certificate identifiers are new.
pub fn build_pki_from_graph(graph: &OrganizationGraph) -> (r: CausalChain<GraphOperation>)
    requires
        graph.well_formed(),
    ensures
        follows(r@, infra_shapes(InfraKind::Pki, *graph)),
{
    build_chain(graph, InfraKind::Pki)
}

/// The NATS hierarchy that the graph calls for, as a causal chain: for each
/// organization its operator, for each of its units an account, and for
/// each person under a unit a user, each with its edges; entity
/// identifiers are new.
pub fn build_nats_from_graph(graph: &OrganizationGraph) -> (r: CausalChain<GraphOperation>)
    requires
        graph.well_formed(),
    ensures
        follows(r@, infra_shapes(InfraKind::Nats, *graph)),
{
    build_chain(graph, InfraKind::Nats)
}

/// A chain that follows shapes is in causal order: the cause of each event
/// comes before it in the chain.
pub proof fn lemma_followed_chain_is_causal(chain: Seq<CausalEvent<GraphOperation>>, shapes: Seq<EventShape>)
    requires
        follows(chain, shapes),
    ensures
        causally_ordered(chain),
{
    assert forall|i: int| 0 <= i < chain.len() implies causes_present(#[trigger] chain.take(i), chain[i]) by {
        assert(realizes(chain, i, shapes[i]));
        match shapes[i].cause {
            Some(k) => {
                assert(chain.take(i)[k] == chain[k]);
                assert forall|m: int| 0 <= m < chain[i].dependencies@.len() implies has_event(
                    chain.take(i),
                    #[trigger] chain[i].dependencies@[m],
                ) by {
                    assert(chain[i].dependencies@[m] == chain[k].id);
                }
            },
            None => {},
        }
    }
}

} // verus!
