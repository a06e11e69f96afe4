//! YubiKey provisioning: the PIV slots of a YubiKey and which of them each
//! key-owner role needs.

use vstd::prelude::*;
use crate::graph_model::{
    ColorBits, EdgeType, GraphEdge, GraphNode, NodeData, NodeType, OrganizationGraph, Position, SlotList, slot_items, with_node,
};
use crate::graph_pki::{find_person_key_role, person_role};
use crate::ids::fresh_id;
use crate::text::{concat3, decimal, decimal_chars, owned};

verus! {

/// Role of a key owner in the organization.
#[derive(Debug, Clone, Copy, PartialEq, Eq, Structural)]
pub enum KeyOwnerRole {
    RootAuthority,
    SecurityAdmin,
    Developer,
    ServiceAccount,
    BackupHolder,
    Auditor,
}

/// A PIV slot of a YubiKey.
#[derive(Debug, Clone, Copy, PartialEq, Eq, Structural)]
pub enum PIVSlot {
    /// 9A: PIV authentication.
    Authentication,
    /// 9C: digital signature.
    DigitalSignature,
    /// 9D: key management (encryption).
    KeyManagement,
    /// 9E: card authentication.
    CardAuthentication,
}

/// Hexadecimal slot number.
pub open spec fn slot_hex(s: PIVSlot) -> Seq<char> {
    match s {
        PIVSlot::Authentication => "9A"@,
        PIVSlot::DigitalSignature => "9C"@,
        PIVSlot::KeyManagement => "9D"@,
        PIVSlot::CardAuthentication => "9E"@,
    }
}

/// What the slot is used for.
pub open spec fn slot_description(s: PIVSlot) -> Seq<char> {
    match s {
        PIVSlot::Authentication => "Authentication (SSH, TLS client auth)"@,
        PIVSlot::DigitalSignature => "Digital Signature (CA signing, code signing)"@,
        PIVSlot::KeyManagement => "Key Management (Encryption, key escrow)"@,
        PIVSlot::CardAuthentication => "Card Authentication (Physical access, service accounts)"@,
    }
}

/// The slots a key owner with `role` needs, in provisioning order.
pub open spec fn role_slots(role: KeyOwnerRole) -> Seq<PIVSlot> {
    match role {
        KeyOwnerRole::RootAuthority => seq![PIVSlot::DigitalSignature],
        KeyOwnerRole::SecurityAdmin => seq![
            PIVSlot::Authentication,
            PIVSlot::DigitalSignature,
            PIVSlot::KeyManagement,
        ],
        KeyOwnerRole::Developer => seq![PIVSlot::Authentication],
        KeyOwnerRole::ServiceAccount => seq![PIVSlot::CardAuthentication],
        KeyOwnerRole::BackupHolder => seq![PIVSlot::KeyManagement],
        KeyOwnerRole::Auditor => seq![PIVSlot::Authentication],
    }
}

impl PIVSlot {
    /// The slot number in hexadecimal, e.g. "9A".
    pub fn hex(&self) -> (r: &'static str)
        ensures
            r@ == slot_hex(*self),
    {
        match self {
            PIVSlot::Authentication => "9A",
            PIVSlot::DigitalSignature => "9C",
            PIVSlot::KeyManagement => "9D",
            PIVSlot::CardAuthentication => "9E",
        }
    }

    /// What the slot is used for.
    pub fn description(&self) -> (r: &'static str)
        ensures
            r@ == slot_description(*self),
    {
        match self {
            PIVSlot::Authentication => "Authentication (SSH, TLS client auth)",
            PIVSlot::DigitalSignature => "Digital Signature (CA signing, code signing)",
            PIVSlot::KeyManagement => "Key Management (Encryption, key escrow)",
            PIVSlot::CardAuthentication => "Card Authentication (Physical access, service accounts)",
        }
    }
}

/// The PIV slots to provision for a key owner with `role`.
pub fn slots_for_role(role: &KeyOwnerRole) -> (r: Vec<PIVSlot>)
    ensures
        r@ == role_slots(*role),
{
    let mut v: Vec<PIVSlot> = Vec::new();
    match role {
        KeyOwnerRole::RootAuthority => {
            v.push(PIVSlot::DigitalSignature);
        },
        KeyOwnerRole::SecurityAdmin => {
            v.push(PIVSlot::Authentication);
            v.push(PIVSlot::DigitalSignature);
            v.push(PIVSlot::KeyManagement);
        },
        KeyOwnerRole::Developer => {
            v.push(PIVSlot::Authentication);
        },
        KeyOwnerRole::ServiceAccount => {
            v.push(PIVSlot::CardAuthentication);
        },
        KeyOwnerRole::BackupHolder => {
            v.push(PIVSlot::KeyManagement);
        },
        KeyOwnerRole::Auditor => {
            v.push(PIVSlot::Authentication);
        },
    }
    assert(v@ =~= role_slots(*role));
    v
}

/// The plan for one person's YubiKey.
#[derive(Clone, Debug, PartialEq)]
pub struct YubiKeyProvisionPlan {
    pub person_id: u128,
    /// The person's name, the label of their node.
    pub person_name: String,
    pub role: KeyOwnerRole,
    /// Serial number of the YubiKey, once one is detected.
    pub yubikey_serial: Option<String>,
    /// Slots to provision, in order.
    pub slots: Vec<PIVSlot>,
    pub already_provisioned: bool,
}

/// The YubiKey plans of an organization, one per person.
#[derive(Clone, Debug)]
pub struct YubiKeyProvisionHierarchy {
    pub provision_plans: Vec<YubiKeyProvisionPlan>,
}

impl YubiKeyProvisionHierarchy {
    /// No plans.
    pub fn new() -> (r: Self)
        ensures
            r.provision_plans@.len() == 0,
    {
        YubiKeyProvisionHierarchy { provision_plans: Vec::new() }
    }
}

/// The plan for person node `n`: their role from the graph and the slots
/// of that role, nothing detected or provisioned yet.
pub open spec fn plan_for(g: OrganizationGraph, n: GraphNode, p: YubiKeyProvisionPlan) -> bool {
    &&& p.person_id == n.id
    &&& p.person_name@ == n.label@
    &&& p.role == person_role(g.nodes@, g.edges@, n.id)
    &&& p.yubikey_serial is None
    &&& p.slots@ == role_slots(p.role)
    &&& !p.already_provisioned
}

/// The person nodes of a graph, in order.
pub open spec fn person_nodes(g: OrganizationGraph) -> Seq<GraphNode> {
    g.nodes@.filter(|n: GraphNode| n.node_type == NodeType::Person)
}

/// A YubiKey plan for every person of the graph, in the order of the graph.
pub fn analyze_graph_for_yubikey(graph: &OrganizationGraph) -> (r: YubiKeyProvisionHierarchy)
    requires
        graph.well_formed(),
    ensures
        r.provision_plans@.len() == person_nodes(*graph).len(),
        forall|i: int|
            0 <= i < r.provision_plans@.len() ==> plan_for(
                *graph,
                person_nodes(*graph)[i],
                #[trigger] r.provision_plans@[i],
            ),
{
    let ghost pred = |n: GraphNode| n.node_type == NodeType::Person;
    let mut plans: Vec<YubiKeyProvisionPlan> = Vec::new();
    let mut i: usize = 0;
    while i < graph.nodes.len()
        invariant
            graph.well_formed(),
            i <= graph.nodes@.len(),
            pred == (|n: GraphNode| n.node_type == NodeType::Person),
            plans@.len() == graph.nodes@.take(i as int).filter(pred).len(),
            forall|k: int|
                0 <= k < plans@.len() ==> plan_for(
                    *graph,
                    graph.nodes@.take(i as int).filter(pred)[k],
                    #[trigger] plans@[k],
                ),
        decreases graph.nodes.len() - i,
    {
        proof {
            reveal_with_fuel(Seq::filter, 1);
            assert(graph.nodes@.take(i + 1).drop_last() =~= graph.nodes@.take(i as int));
        }
        let n = &graph.nodes[i];
        if n.node_type == NodeType::Person {
            let role = find_person_key_role(n.id, graph);
            let plan = YubiKeyProvisionPlan {
                person_id: n.id,
                person_name: n.label.clone(),
                role,
                yubikey_serial: None,
                slots: slots_for_role(&role),
                already_provisioned: false,
            };
            plans.push(plan);
        }
        i = i + 1;
    }
    proof {
        assert(graph.nodes@.take(graph.nodes@.len() as int) =~= graph.nodes@);
    }
    YubiKeyProvisionHierarchy { provision_plans: plans }
}

/// Where status nodes are drawn: (400, 500) on the canvas.
pub open spec fn status_position() -> Position {
    Position { x_bits: 0x43c8_0000, y_bits: 0x43fa_0000 }
}

/// Orange, RGB (0.9, 0.6, 0.2): a YubiKey that still needs provisioning.
pub open spec fn pending_color() -> ColorBits {
    ColorBits { r_bits: 0x3f66_6666, g_bits: 0x3f19_999a, b_bits: 0x3e4c_cccd, a_bits: 0x3f80_0000 }
}

/// Purple, RGB (0.6, 0.4, 0.8): the edge from a person to the YubiKey they
/// require.
pub open spec fn requirement_color() -> ColorBits {
    ColorBits { r_bits: 0x3f19_999a, g_bits: 0x3ecc_cccd, b_bits: 0x3f4c_cccd, a_bits: 0x3f80_0000 }
}

/// The label of a pending YubiKey: "⏳ Alice YubiKey (3 slots needed)".
pub open spec fn pending_label(name: Seq<char>, slots: nat) -> Seq<char> {
    "⏳ "@ + name + " YubiKey ("@ + decimal_chars(slots) + " slots needed)"@
}

/// Whether `d` records a YubiKey of person `person_id` that still needs
/// `slots`, with none provisioned and no serial number yet.
pub open spec fn pending_status(d: NodeData, person_id: u128, slots: Seq<PIVSlot>) -> bool {
    match d {
        NodeData::YubiKeyStatus { person_id: owner, slots_needed, slots_provisioned, yubikey_serial } => {
            &&& owner == person_id
            &&& slot_items(slots_needed) == slots
            &&& slot_items(slots_provisioned).len() == 0
            &&& yubikey_serial is None
        },
        _ => false,
    }
}

/// Whether `node` is the status node of plan `p`.
pub open spec fn status_node_for(p: YubiKeyProvisionPlan, node: GraphNode) -> bool {
    &&& node.node_type == NodeType::YubiKeyStatus
    &&& pending_status(node.data, p.person_id, p.slots@)
    &&& node.label@ == pending_label(p.person_name@, p.slots@.len())
    &&& node.position == status_position()
    &&& node.color == pending_color()
}

/// A status node for every planned YubiKey, each with the person it belongs
/// to; an error when the graph has no people. The plans of an analysis are
/// never provisioned yet, so every node says how many slots are needed.
pub fn generate_yubikey_provision_from_graph(graph: &OrganizationGraph) -> (r: Result<Vec<(GraphNode, u128)>, String>)
    requires
        graph.well_formed(),
    ensures
        match r {
            Ok(nodes) => {
                &&& person_nodes(*graph).len() > 0
                &&& nodes@.len() == person_nodes(*graph).len()
                &&& forall|i: int|
                    0 <= i < nodes@.len() ==> {
                        &&& (#[trigger] nodes@[i]).1 == person_nodes(*graph)[i].id
                        &&& nodes@[i].0.node_type == NodeType::YubiKeyStatus
                        &&& nodes@[i].0.label@ == pending_label(
                            person_nodes(*graph)[i].label@,
                            role_slots(person_role(graph.nodes@, graph.edges@, person_nodes(*graph)[i].id)).len(),
                        )
                        &&& pending_status(
                            nodes@[i].0.data,
                            person_nodes(*graph)[i].id,
                            role_slots(person_role(graph.nodes@, graph.edges@, person_nodes(*graph)[i].id)),
                        )
                        &&& nodes@[i].0.position == status_position()
                        &&& nodes@[i].0.color == pending_color()
                    }
            },
            Err(e) => person_nodes(*graph).len() == 0 && e@
                == "No people found in graph. Add people to the Organization tab first."@,
        },
{
    let hierarchy = analyze_graph_for_yubikey(graph);
    if hierarchy.provision_plans.len() == 0 {
        return Err(owned("No people found in graph. Add people to the Organization tab first."));
    }
    let mut out: Vec<(GraphNode, u128)> = Vec::new();
    let mut i: usize = 0;
    while i < hierarchy.provision_plans.len()
        invariant
            i <= hierarchy.provision_plans@.len(),
            hierarchy.provision_plans@.len() == person_nodes(*graph).len(),
            forall|k: int|
                0 <= k < hierarchy.provision_plans@.len() ==> plan_for(
                    *graph,
                    person_nodes(*graph)[k],
                    #[trigger] hierarchy.provision_plans@[k],
                ),
            out@.len() == i,
            forall|k: int|
                0 <= k < i ==> {
                    &&& (#[trigger] out@[k]).1 == hierarchy.provision_plans@[k].person_id
                    &&& status_node_for(hierarchy.provision_plans@[k], out@[k].0)
                },
        decreases hierarchy.provision_plans.len() - i,
    {
        let plan = &hierarchy.provision_plans[i];
        let count = decimal(plan.slots.len());
        let head = concat3("⏳ ", plan.person_name.as_str(), " YubiKey (");
        let label = concat3(head.as_str(), count.as_str(), " slots needed)");
        let node = GraphNode {
            id: fresh_id(),
            node_type: NodeType::YubiKeyStatus,
            label,
            position: Position { x_bits: 0x43c8_0000, y_bits: 0x43fa_0000 },
            color: ColorBits { r_bits: 0x3f66_6666, g_bits: 0x3f19_999a, b_bits: 0x3e4c_cccd, a_bits: 0x3f80_0000 },
            data: NodeData::YubiKeyStatus {
                person_id: plan.person_id,
                slots_needed: SlotList::from_vec(&plan.slots),
                slots_provisioned: SlotList::End,
                yubikey_serial: None,
            },
        };
        out.push((node, plan.person_id));
        i = i + 1;
    }
    Ok(out)
}

/// Puts each status node into the graph with an edge from its person that
/// says the person requires it.
pub fn add_yubikey_status_to_graph(graph: &mut OrganizationGraph, provision_nodes: Vec<(GraphNode, u128)>)
    requires
        old(graph).well_formed(),
    ensures
        final(graph).well_formed(),
        final(graph).nodes@ == provision_nodes@.fold_left(
            old(graph).nodes@,
            |acc: Seq<GraphNode>, p: (GraphNode, u128)| with_node(acc, p.0),
        ),
        final(graph).edges@ == old(graph).edges@ + provision_nodes@.map_values(
            |p: (GraphNode, u128)|
                GraphEdge { from: p.1, to: p.0.id, edge_type: EdgeType::Requires, color: requirement_color() },
        ),
        final(graph).selected_node == old(graph).selected_node,
{
    let ghost start_nodes = graph.nodes@;
    let ghost start_edges = graph.edges@;
    let ghost step = |acc: Seq<GraphNode>, p: (GraphNode, u128)| with_node(acc, p.0);
    let ghost link = |p: (GraphNode, u128)|
        GraphEdge { from: p.1, to: p.0.id, edge_type: EdgeType::Requires, color: requirement_color() };
    let ghost mut taken: Seq<(GraphNode, u128)> = Seq::empty();
    let mut rest = provision_nodes;
    while rest.len() > 0
        invariant
            graph.well_formed(),
            taken + rest@ == provision_nodes@,
            step == (|acc: Seq<GraphNode>, p: (GraphNode, u128)| with_node(acc, p.0)),
            link == (|p: (GraphNode, u128)|
                GraphEdge { from: p.1, to: p.0.id, edge_type: EdgeType::Requires, color: requirement_color() }),
            graph.nodes@ == taken.fold_left(start_nodes, step),
            graph.edges@ == start_edges + taken.map_values(link),
            graph.selected_node == old(graph).selected_node,
        decreases rest.len(),
    {
        let ghost before_rest = rest@;
        let (node, person_id) = rest.remove(0);
        let ghost item = (node, person_id);
        let node_id = node.id;
        graph.add_node(node);
        graph.add_edge(
            person_id,
            node_id,
            EdgeType::Requires,
            ColorBits { r_bits: 0x3f19_999a, g_bits: 0x3ecc_cccd, b_bits: 0x3f4c_cccd, a_bits: 0x3f80_0000 },
        );
        proof {
            let before = taken;
            taken = taken.push(item);
            assert(taken.drop_last() =~= before);
            assert(taken.map_values(link) =~= before.map_values(link).push(link(item)));
            assert(before_rest[0] == item);
            assert(taken + rest@ =~= before + before_rest);
        }
    }
    proof {
        assert(taken =~= provision_nodes@);
    }
}

/// What each role's YubiKey is for: the root authority signs, with the
/// digital-signature slot alone; a security administrator authenticates,
/// signs and decrypts, in that order; developers and auditors only
/// authenticate; a service account uses card authentication alone; a
/// backup holder holds the key-management slot alone.
pub proof fn lemma_role_slot_purposes(role: KeyOwnerRole)
    ensures
        role == KeyOwnerRole::RootAuthority ==> role_slots(role) =~= seq![PIVSlot::DigitalSignature],
        role == KeyOwnerRole::SecurityAdmin ==> role_slots(role) =~= seq![
            PIVSlot::Authentication,
            PIVSlot::DigitalSignature,
            PIVSlot::KeyManagement,
        ],
        (role == KeyOwnerRole::Developer || role == KeyOwnerRole::Auditor) ==> role_slots(role) =~= seq![
            PIVSlot::Authentication,
        ],
        role == KeyOwnerRole::ServiceAccount ==> role_slots(role) =~= seq![PIVSlot::CardAuthentication],
        role == KeyOwnerRole::BackupHolder ==> role_slots(role) =~= seq![PIVSlot::KeyManagement],
{
}

/// Every role needs at least one slot, never the same slot twice, and only
/// service accounts use the card-authentication slot.
pub proof fn lemma_role_slots_shape(role: KeyOwnerRole)
    ensures
        role_slots(role).len() >= 1,
        role_slots(role).no_duplicates(),
        role_slots(role).contains(PIVSlot::CardAuthentication) <==> role == KeyOwnerRole::ServiceAccount,
{
    match role {
        KeyOwnerRole::SecurityAdmin => {
            assert(role_slots(role)[0] == PIVSlot::Authentication);
            assert(role_slots(role)[1] == PIVSlot::DigitalSignature);
            assert(role_slots(role)[2] == PIVSlot::KeyManagement);
        },
        KeyOwnerRole::ServiceAccount => {
            assert(role_slots(role)[0] == PIVSlot::CardAuthentication);
        },
        _ => {
            assert(role_slots(role).len() == 1);
        },
    }
}

} // verus!
