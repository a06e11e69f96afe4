//! The organization graph: nodes with a kind, a label, a place, a colour and
//! what they record of their entity, typed edges between them, and the node
//! that is selected.
//!
//! Node identifiers are the 128-bit values of UUIDs. Canvas coordinates and
//! colour channels are `f32` values, held here as their bit patterns.

use vstd::prelude::*;
use crate::org_unit::OrganizationUnitType;
use crate::yubikey::PIVSlot;

verus! {

/// A point of the canvas, as the bit patterns of its two `f32` coordinates.
#[derive(Clone, Copy, Debug, PartialEq, Eq, Structural)]
pub struct Position {
    pub x_bits: u32,
    pub y_bits: u32,
}

/// An RGBA colour, as the bit patterns of its four `f32` channels.
#[derive(Clone, Copy, Debug, PartialEq, Eq, Structural)]
pub struct ColorBits {
    pub r_bits: u32,
    pub g_bits: u32,
    pub b_bits: u32,
    pub a_bits: u32,
}

/// What a node of the graph stands for.
#[derive(Clone, Copy, Debug, PartialEq, Eq, Structural)]
pub enum NodeType {
    Person,
    Organization,
    OrganizationalUnit,
    NatsOperator,
    NatsAccount,
    NatsUser,
    NatsServiceAccount,
    RootCertificate,
    IntermediateCertificate,
    LeafCertificate,
    YubiKey,
    PivSlot,
    YubiKeyStatus,
    Location,
    Role,
    Policy,
    /// A cryptographic key.
    Key,
    /// An export manifest.
    Manifest,
}

/// What an edge of the graph stands for.
#[derive(Clone, Copy, Debug, PartialEq, Eq, Structural)]
pub enum EdgeType {
    ParentChild,
    ManagesUnit,
    MemberOf,
    OwnsKey,
    DelegatesKey,
    StoredAt,
    HasRole,
    RoleRequiresPolicy,
    PolicyGovernsEntity,
    Trusts,
    CertifiedBy,
    Signs,
    BelongsToAccount,
    MapsToOrgUnit,
    MapsToPerson,
    SignedBy,
    CertifiesKey,
    IssuedTo,
    OwnsYubiKey,
    AssignedTo,
    HasSlot,
    StoresKey,
    LoadedCertificate,
    Requires,
    Hierarchy,
    Trust,
    /// A person may enter a location.
    HasAccess,
    /// A person manages a unit or another entity.
    Manages,
    /// A certificate is made for a key.
    CertificateUsesKey,
    /// A certificate or key is held in a slot of a YubiKey.
    StoredInYubiKeySlot(PIVSlot),
    /// A key replaces an earlier one (from the earlier key).
    KeyRotation,
    /// A person answers for a unit.
    ResponsibleFor,
    /// An organization or unit manages a resource.
    ManagesResource,
    /// An organization defines a role.
    DefinesRole,
    /// An organization defines a policy.
    DefinesPolicy,
    /// A manifest lists an exported item.
    ExportedTo,
    /// A manifest is signed by a person.
    SignedByPerson,
    /// A location is managed by a unit.
    ManagedBy,
}

/// Layout algorithms of the organization graph view.
#[derive(Clone, Copy, Debug, PartialEq, Eq, Structural)]
pub enum LayoutAlgorithm {
    /// Tutte's barycentric embedding, for planar graphs.
    Tutte,
    /// Fruchterman-Reingold force-directed placement.
    FruchtermanReingold,
    /// Nodes on a circle.
    Circular,
    /// Layered (Sugiyama) drawing, for acyclic graphs.
    Hierarchical,
    /// Tutte's embedding refined by Fruchterman-Reingold.
    TuttePlusFR,
    /// YubiKeys with their slots grouped under them.
    YubiKeyGrouped,
    /// NATS operator on top, accounts in the middle, users below.
    NatsHierarchical,
}

/// The name of a node type.
pub open spec fn node_type_name(t: NodeType) -> Seq<char> {
    match t {
        NodeType::Person => "Person"@,
        NodeType::Organization => "Organization"@,
        NodeType::OrganizationalUnit => "OrganizationalUnit"@,
        NodeType::NatsOperator => "NatsOperator"@,
        NodeType::NatsAccount => "NatsAccount"@,
        NodeType::NatsUser => "NatsUser"@,
        NodeType::NatsServiceAccount => "NatsServiceAccount"@,
        NodeType::RootCertificate => "RootCertificate"@,
        NodeType::IntermediateCertificate => "IntermediateCertificate"@,
        NodeType::LeafCertificate => "LeafCertificate"@,
        NodeType::YubiKey => "YubiKey"@,
        NodeType::PivSlot => "PivSlot"@,
        NodeType::YubiKeyStatus => "YubiKeyStatus"@,
        NodeType::Location => "Location"@,
        NodeType::Role => "Role"@,
        NodeType::Policy => "Policy"@,
        NodeType::Key => "Key"@,
        NodeType::Manifest => "Manifest"@,
    }
}

/// The name of an edge type.
pub open spec fn edge_type_name(t: EdgeType) -> Seq<char> {
    match t {
        EdgeType::ParentChild => "ParentChild"@,
        EdgeType::ManagesUnit => "ManagesUnit"@,
        EdgeType::MemberOf => "MemberOf"@,
        EdgeType::OwnsKey => "OwnsKey"@,
        EdgeType::DelegatesKey => "DelegatesKey"@,
        EdgeType::StoredAt => "StoredAt"@,
        EdgeType::HasRole => "HasRole"@,
        EdgeType::RoleRequiresPolicy => "RoleRequiresPolicy"@,
        EdgeType::PolicyGovernsEntity => "PolicyGovernsEntity"@,
        EdgeType::Trusts => "Trusts"@,
        EdgeType::CertifiedBy => "CertifiedBy"@,
        EdgeType::Signs => "Signs"@,
        EdgeType::BelongsToAccount => "BelongsToAccount"@,
        EdgeType::MapsToOrgUnit => "MapsToOrgUnit"@,
        EdgeType::MapsToPerson => "MapsToPerson"@,
        EdgeType::SignedBy => "SignedBy"@,
        EdgeType::CertifiesKey => "CertifiesKey"@,
        EdgeType::IssuedTo => "IssuedTo"@,
        EdgeType::OwnsYubiKey => "OwnsYubiKey"@,
        EdgeType::AssignedTo => "AssignedTo"@,
        EdgeType::HasSlot => "HasSlot"@,
        EdgeType::StoresKey => "StoresKey"@,
        EdgeType::LoadedCertificate => "LoadedCertificate"@,
        EdgeType::Requires => "Requires"@,
        EdgeType::Hierarchy => "Hierarchy"@,
        EdgeType::Trust => "Trust"@,
        EdgeType::HasAccess => "HasAccess"@,
        EdgeType::Manages => "Manages"@,
        EdgeType::CertificateUsesKey => "CertificateUsesKey"@,
        EdgeType::StoredInYubiKeySlot(_) => "StoredInYubiKeySlot"@,
        EdgeType::KeyRotation => "KeyRotation"@,
        EdgeType::ResponsibleFor => "ResponsibleFor"@,
        EdgeType::ManagesResource => "ManagesResource"@,
        EdgeType::DefinesRole => "DefinesRole"@,
        EdgeType::DefinesPolicy => "DefinesPolicy"@,
        EdgeType::ExportedTo => "ExportedTo"@,
        EdgeType::SignedByPerson => "SignedByPerson"@,
        EdgeType::ManagedBy => "ManagedBy"@,
    }
}

/// The name of a node type, e.g. "RootCertificate".
pub fn get_node_type_name(node_type: &NodeType) -> (r: &'static str)
    ensures
        r@ == node_type_name(*node_type),
{
    match node_type {
        NodeType::Person => "Person",
        NodeType::Organization => "Organization",
        NodeType::OrganizationalUnit => "OrganizationalUnit",
        NodeType::NatsOperator => "NatsOperator",
        NodeType::NatsAccount => "NatsAccount",
        NodeType::NatsUser => "NatsUser",
        NodeType::NatsServiceAccount => "NatsServiceAccount",
        NodeType::RootCertificate => "RootCertificate",
        NodeType::IntermediateCertificate => "IntermediateCertificate",
        NodeType::LeafCertificate => "LeafCertificate",
        NodeType::YubiKey => "YubiKey",
        NodeType::PivSlot => "PivSlot",
        NodeType::YubiKeyStatus => "YubiKeyStatus",
        NodeType::Location => "Location",
        NodeType::Role => "Role",
        NodeType::Policy => "Policy",
        NodeType::Key => "Key",
        NodeType::Manifest => "Manifest",
    }
}

/// The name of an edge type, e.g. "SignedBy".
pub fn get_edge_type_name(edge_type: &EdgeType) -> (r: &'static str)
    ensures
        r@ == edge_type_name(*edge_type),
{
    match edge_type {
        EdgeType::ParentChild => "ParentChild",
        EdgeType::ManagesUnit => "ManagesUnit",
        EdgeType::MemberOf => "MemberOf",
        EdgeType::OwnsKey => "OwnsKey",
        EdgeType::DelegatesKey => "DelegatesKey",
        EdgeType::StoredAt => "StoredAt",
        EdgeType::HasRole => "HasRole",
        EdgeType::RoleRequiresPolicy => "RoleRequiresPolicy",
        EdgeType::PolicyGovernsEntity => "PolicyGovernsEntity",
        EdgeType::Trusts => "Trusts",
        EdgeType::CertifiedBy => "CertifiedBy",
        EdgeType::Signs => "Signs",
        EdgeType::BelongsToAccount => "BelongsToAccount",
        EdgeType::MapsToOrgUnit => "MapsToOrgUnit",
        EdgeType::MapsToPerson => "MapsToPerson",
        EdgeType::SignedBy => "SignedBy",
        EdgeType::CertifiesKey => "CertifiesKey",
        EdgeType::IssuedTo => "IssuedTo",
        EdgeType::OwnsYubiKey => "OwnsYubiKey",
        EdgeType::AssignedTo => "AssignedTo",
        EdgeType::HasSlot => "HasSlot",
        EdgeType::StoresKey => "StoresKey",
        EdgeType::LoadedCertificate => "LoadedCertificate",
        EdgeType::Requires => "Requires",
        EdgeType::Hierarchy => "Hierarchy",
        EdgeType::Trust => "Trust",
        EdgeType::HasAccess => "HasAccess",
        EdgeType::Manages => "Manages",
        EdgeType::CertificateUsesKey => "CertificateUsesKey",
        EdgeType::StoredInYubiKeySlot(_) => "StoredInYubiKeySlot",
        EdgeType::KeyRotation => "KeyRotation",
        EdgeType::ResponsibleFor => "ResponsibleFor",
        EdgeType::ManagesResource => "ManagesResource",
        EdgeType::DefinesRole => "DefinesRole",
        EdgeType::DefinesPolicy => "DefinesPolicy",
        EdgeType::ExportedTo => "ExportedTo",
        EdgeType::SignedByPerson => "SignedByPerson",
        EdgeType::ManagedBy => "ManagedBy",
    }
}

/// What a node records of the entity it stands for, beyond its kind and
/// label. Dates are milliseconds since the Unix epoch.
#[derive(Clone, Debug, PartialEq)]
pub enum NodeData {
    /// Nothing beyond the kind and the label.
    Plain,
    /// A key: its algorithm and what it is for.
    Key { algorithm: String, purpose: String },
    /// A certificate: subject and issuer, validity period, key usages and
    /// subject alternative names.
    Certificate {
        subject: String,
        issuer: String,
        not_before: i64,
        not_after: i64,
        key_usage: TextList,
        san: TextList,
    },
    /// An organization unit, by kind.
    Unit { unit_type: OrganizationUnitType },
    /// A YubiKey, by serial number.
    YubiKey { serial: String },
    /// The provisioning state of the YubiKey that a person needs.
    YubiKeyStatus {
        person_id: u128,
        slots_needed: SlotList,
        slots_provisioned: SlotList,
        yubikey_serial: Option<String>,
    },
    /// An export manifest, with its checksum once computed.
    Manifest { checksum: Option<String> },
}

/// A list of texts, held as a chain so that a copy is the same value.
#[derive(Debug, PartialEq)]
pub enum TextList {
    End,
    Item(String, Box<TextList>),
}

/// The texts of a list, in order.
pub open spec fn text_items(l: TextList) -> Seq<String>
    decreases l,
{
    match l {
        TextList::End => Seq::empty(),
        TextList::Item(s, rest) => seq![s] + text_items(*rest),
    }
}

impl Clone for TextList {
    fn clone(&self) -> (r: Self)
        ensures
            r == *self,
    {
        self.duplicate()
    }
}

impl TextList {
    /// A copy of this list.
    pub fn duplicate(&self) -> (r: TextList)
        ensures
            r == *self,
        decreases self,
    {
        match self {
            TextList::End => TextList::End,
            TextList::Item(s, rest) => TextList::Item(s.clone(), Box::new(rest.duplicate())),
        }
    }

    /// The list as a vector.
    pub fn to_vec(&self) -> (r: Vec<String>)
        ensures
            r@ == text_items(*self),
        decreases self,
    {
        match self {
            TextList::End => Vec::new(),
            TextList::Item(s, rest) => {
                let mut v = rest.to_vec();
                let ghost tail = v@;
                v.insert(0, s.clone());
                assert(v@ =~= seq![*s] + tail);
                v
            },
        }
    }

    /// The list of the strings of `v`, in order.
    pub fn from_vec(v: &Vec<String>) -> (r: TextList)
        ensures
            text_items(r) == v@,
    {
        let mut r = TextList::End;
        let mut i: usize = v.len();
        while i > 0
            invariant
                i <= v@.len(),
                text_items(r) == v@.subrange(i as int, v@.len() as int),
            decreases i,
        {
            i = i - 1;
            r = TextList::Item(v[i].clone(), Box::new(r));
            assert(v@.subrange(i as int, v@.len() as int) =~= seq![v@[i as int]] + v@.subrange(
                i + 1,
                v@.len() as int,
            ));
        }
        assert(v@.subrange(0, v@.len() as int) =~= v@);
        r
    }
}

/// A list of PIV slots, held as a chain so that a copy is the same value.
#[derive(Debug, PartialEq)]
pub enum SlotList {
    End,
    Item(PIVSlot, Box<SlotList>),
}

/// The slots of a list, in order.
pub open spec fn slot_items(l: SlotList) -> Seq<PIVSlot>
    decreases l,
{
    match l {
        SlotList::End => Seq::empty(),
        SlotList::Item(s, rest) => seq![s] + slot_items(*rest),
    }
}

impl Clone for SlotList {
    fn clone(&self) -> (r: Self)
        ensures
            r == *self,
    {
        self.duplicate()
    }
}

impl SlotList {
    /// A copy of this list.
    pub fn duplicate(&self) -> (r: SlotList)
        ensures
            r == *self,
        decreases self,
    {
        match self {
            SlotList::End => SlotList::End,
            SlotList::Item(s, rest) => SlotList::Item(*s, Box::new(rest.duplicate())),
        }
    }

    /// The list as a vector.
    pub fn to_vec(&self) -> (r: Vec<PIVSlot>)
        ensures
            r@ == slot_items(*self),
        decreases self,
    {
        match self {
            SlotList::End => Vec::new(),
            SlotList::Item(s, rest) => {
                let mut v = rest.to_vec();
                let ghost tail = v@;
                v.insert(0, *s);
                assert(v@ =~= seq![*s] + tail);
                v
            },
        }
    }

    /// The list of the slots of `v`, in order.
    pub fn from_vec(v: &Vec<PIVSlot>) -> (r: SlotList)
        ensures
            slot_items(r) == v@,
    {
        let mut r = SlotList::End;
        let mut i: usize = v.len();
        while i > 0
            invariant
                i <= v@.len(),
                slot_items(r) == v@.subrange(i as int, v@.len() as int),
            decreases i,
        {
            i = i - 1;
            r = SlotList::Item(v[i], Box::new(r));
            assert(v@.subrange(i as int, v@.len() as int) =~= seq![v@[i as int]] + v@.subrange(
                i + 1,
                v@.len() as int,
            ));
        }
        assert(v@.subrange(0, v@.len() as int) =~= v@);
        r
    }
}

/// A copy of an optional string.
pub fn copy_option_string(o: &Option<String>) -> (r: Option<String>)
    ensures
        r == *o,
{
    match o {
        Some(s) => Some(s.clone()),
        None => None,
    }
}

impl NodeData {
    /// A copy of this record.
    pub fn duplicate(&self) -> (r: NodeData)
        ensures
            r == *self,
    {
        match self {
            NodeData::Plain => NodeData::Plain,
            NodeData::Key { algorithm, purpose } => NodeData::Key {
                algorithm: algorithm.clone(),
                purpose: purpose.clone(),
            },
            NodeData::Certificate { subject, issuer, not_before, not_after, key_usage, san } => NodeData::Certificate {
                subject: subject.clone(),
                issuer: issuer.clone(),
                not_before: *not_before,
                not_after: *not_after,
                key_usage: key_usage.duplicate(),
                san: san.duplicate(),
            },
            NodeData::Unit { unit_type } => NodeData::Unit { unit_type: *unit_type },
            NodeData::YubiKey { serial } => NodeData::YubiKey { serial: serial.clone() },
            NodeData::YubiKeyStatus { person_id, slots_needed, slots_provisioned, yubikey_serial } =>
                NodeData::YubiKeyStatus {
                person_id: *person_id,
                slots_needed: slots_needed.duplicate(),
                slots_provisioned: slots_provisioned.duplicate(),
                yubikey_serial: copy_option_string(yubikey_serial),
            },
            NodeData::Manifest { checksum } => NodeData::Manifest { checksum: copy_option_string(checksum) },
        }
    }
}

/// A node of the graph.
#[derive(Clone, Debug, PartialEq)]
pub struct GraphNode {
    pub id: u128,
    pub node_type: NodeType,
    pub label: String,
    pub position: Position,
    pub color: ColorBits,
    pub data: NodeData,
}

impl GraphNode {
    /// A copy of this node.
    pub fn duplicate(&self) -> (r: GraphNode)
        ensures
            r == *self,
    {
        GraphNode {
            id: self.id,
            node_type: self.node_type,
            label: self.label.clone(),
            position: self.position,
            color: self.color,
            data: self.data.duplicate(),
        }
    }
}

/// An edge of the graph.
#[derive(Clone, Copy, Debug, PartialEq, Eq, Structural)]
pub struct GraphEdge {
    pub from: u128,
    pub to: u128,
    pub edge_type: EdgeType,
    pub color: ColorBits,
}

/// Whether a node with identifier `id` is among `nodes`.
pub open spec fn has_node(nodes: Seq<GraphNode>, id: u128) -> bool {
    exists|i: int| 0 <= i < nodes.len() && nodes[i].id == id
}

/// No two nodes share an identifier.
pub open spec fn ids_unique(nodes: Seq<GraphNode>) -> bool {
    forall|i: int, j: int| 0 <= i < j < nodes.len() ==> nodes[i].id != nodes[j].id
}

/// `nodes` with `node` put in: it replaces the node with the same
/// identifier, or comes last if there is none.
pub open spec fn with_node(nodes: Seq<GraphNode>, node: GraphNode) -> Seq<GraphNode> {
    if has_node(nodes, node.id) {
        nodes.map_values(|m: GraphNode| if m.id == node.id { node } else { m })
    } else {
        nodes.push(node)
    }
}

/// `nodes` without the node with identifier `id`.
pub open spec fn without_node(nodes: Seq<GraphNode>, id: u128) -> Seq<GraphNode> {
    nodes.filter(|m: GraphNode| m.id != id)
}

/// `edges` without the edges that start or end at `id`.
pub open spec fn edges_apart_from(edges: Seq<GraphEdge>, id: u128) -> Seq<GraphEdge> {
    edges.filter(|e: GraphEdge| e.from != id && e.to != id)
}

/// `edges` without the edges from `from` to `to` of type `edge_type`.
pub open spec fn edges_without(edges: Seq<GraphEdge>, from: u128, to: u128, edge_type: EdgeType) -> Seq<GraphEdge> {
    edges.filter(|e: GraphEdge| !(e.from == from && e.to == to && e.edge_type == edge_type))
}

/// The selection once the node `id` is gone.
pub open spec fn selection_without(selected: Option<u128>, id: u128) -> Option<u128> {
    if selected == Some(id) { None } else { selected }
}

/// The graph of an organization.
#[derive(Clone, Debug)]
pub struct OrganizationGraph {
    pub nodes: Vec<GraphNode>,
    pub edges: Vec<GraphEdge>,
    pub selected_node: Option<u128>,
}

/// What a graph holds: its nodes and edges in order, and the selection.
pub struct GraphState {
    pub nodes: Seq<GraphNode>,
    pub edges: Seq<GraphEdge>,
    pub selected: Option<u128>,
}

impl View for OrganizationGraph {
    type V = GraphState;

    open spec fn view(&self) -> GraphState {
        GraphState { nodes: self.nodes@, edges: self.edges@, selected: self.selected_node }
    }
}

impl OrganizationGraph {
    /// No two nodes share an identifier.
    pub open spec fn well_formed(&self) -> bool {
        ids_unique(self.nodes@)
    }

    /// An empty graph.
    pub fn new() -> (r: Self)
        ensures
            r.well_formed(),
            r.nodes@.len() == 0,
            r.edges@.len() == 0,
            r.selected_node is None,
    {
        OrganizationGraph { nodes: Vec::new(), edges: Vec::new(), selected_node: None }
    }

    /// The number of nodes.
    pub fn node_count(&self) -> (r: usize)
        ensures
            r == self.nodes@.len(),
    {
        self.nodes.len()
    }

    /// The index of the node with identifier `id`, if there is one.
    pub fn find_node(&self, id: u128) -> (r: Option<usize>)
        ensures
            match r {
                Some(i) => i < self.nodes@.len() && self.nodes@[i as int].id == id,
                None => !has_node(self.nodes@, id),
            },
    {
        let mut i: usize = 0;
        while i < self.nodes.len()
            invariant
                i <= self.nodes@.len(),
                forall|j: int| 0 <= j < i ==> self.nodes@[j].id != id,
            decreases self.nodes.len() - i,
        {
            if self.nodes[i].id == id {
                return Some(i);
            }
            i = i + 1;
        }
        None
    }

    /// Puts `node` into the graph, in place of the node with the same
    /// identifier if there is one.
    pub fn add_node(&mut self, node: GraphNode)
        requires
            old(self).well_formed(),
        ensures
            final(self).well_formed(),
            final(self).nodes@ == with_node(old(self).nodes@, node),
            final(self).edges@ == old(self).edges@,
            final(self).selected_node == old(self).selected_node,
    {
        match self.find_node(node.id) {
            Some(i) => {
                let ghost before = self.nodes@;
                let id = node.id;
                self.nodes.set(i, node);
                proof {
                    assert forall|k: int| 0 <= k < before.len() && k != i implies before[k].id != id by {
                        if k < i {
                            assert(before[k].id != before[i as int].id);
                        } else {
                            assert(before[i as int].id != before[k].id);
                        }
                    }
                    assert(self.nodes@ =~= with_node(before, self.nodes@[i as int]));
                }
            },
            None => {
                self.nodes.push(node);
            },
        }
    }

    /// Selects the node `node_id`.
    pub fn select_node(&mut self, node_id: u128)
        ensures
            final(self).nodes == old(self).nodes,
            final(self).edges == old(self).edges,
            final(self).selected_node == Some(node_id),
    {
        self.selected_node = Some(node_id);
    }

    /// Adds an edge after the present ones.
    pub fn add_edge(&mut self, from: u128, to: u128, edge_type: EdgeType, color: ColorBits)
        ensures
            final(self).nodes == old(self).nodes,
            final(self).edges@ == old(self).edges@.push(GraphEdge { from, to, edge_type, color }),
            final(self).selected_node == old(self).selected_node,
    {
        self.edges.push(GraphEdge { from, to, edge_type, color });
    }

    /// Deletes the node `node_id`, every edge that starts or ends at it, and
    /// the selection if it was on that node.
    pub fn delete_node(&mut self, node_id: u128)
        requires
            old(self).well_formed(),
        ensures
            final(self).well_formed(),
            final(self).nodes@ == without_node(old(self).nodes@, node_id),
            final(self).edges@ == edges_apart_from(old(self).edges@, node_id),
            final(self).selected_node == selection_without(old(self).selected_node, node_id),
    {
        let ghost pred = |m: GraphNode| m.id != node_id;
        let mut kept: Vec<GraphNode> = Vec::new();
        let mut i: usize = 0;
        while i < self.nodes.len()
            invariant
                i <= self.nodes@.len(),
                pred == (|m: GraphNode| m.id != node_id),
                kept@ == self.nodes@.take(i as int).filter(pred),
            decreases self.nodes.len() - i,
        {
            proof {
                reveal_with_fuel(Seq::filter, 1);
                assert(self.nodes@.take(i + 1).drop_last() =~= self.nodes@.take(i as int));
            }
            if self.nodes[i].id != node_id {
                kept.push(self.nodes[i].duplicate());
            }
            proof {
                assert(kept@ =~= self.nodes@.take(i + 1).filter(pred));
            }
            i = i + 1;
        }
        proof {
            assert(self.nodes@.take(self.nodes@.len() as int) =~= self.nodes@);
            lemma_filter_keeps_unique(self.nodes@, pred);
        }
        self.nodes = kept;
        self.edges = edges_filtered_apart_from(&self.edges, node_id);
        if self.selected_node == Some(node_id) {
            self.selected_node = None;
        }
    }
}

/// Filtering keeps identifiers unique.
pub proof fn lemma_filter_keeps_unique(nodes: Seq<GraphNode>, pred: spec_fn(GraphNode) -> bool)
    requires
        ids_unique(nodes),
    ensures
        ids_unique(nodes.filter(pred)),
    decreases nodes.len(),
{
    reveal_with_fuel(Seq::filter, 1);
    if nodes.len() > 0 {
        let rest = nodes.drop_last();
        lemma_filter_keeps_unique(rest, pred);
        let f = rest.filter(pred);
        if pred(nodes.last()) {
            assert forall|k: int| 0 <= k < f.len() implies f[k].id != nodes.last().id by {
                assert(f.contains(f[k]));
                rest.lemma_filter_contains_rev(pred, f[k]);
                let j = choose|j: int| 0 <= j < rest.len() && rest[j] == f[k];
                assert(nodes[j].id != nodes[nodes.len() - 1].id);
            }
        }
    }
}

/// The edges that neither start nor end at `id`, in order.
pub fn edges_filtered_apart_from(edges: &Vec<GraphEdge>, id: u128) -> (r: Vec<GraphEdge>)
    ensures
        r@ == edges_apart_from(edges@, id),
{
    let ghost pred = |e: GraphEdge| e.from != id && e.to != id;
    let mut kept: Vec<GraphEdge> = Vec::new();
    let mut i: usize = 0;
    while i < edges.len()
        invariant
            i <= edges@.len(),
            pred == (|e: GraphEdge| e.from != id && e.to != id),
            kept@ == edges@.take(i as int).filter(pred),
        decreases edges.len() - i,
    {
        proof {
            reveal_with_fuel(Seq::filter, 1);
            assert(edges@.take(i + 1).drop_last() =~= edges@.take(i as int));
        }
        let e = edges[i];
        if e.from != id && e.to != id {
            kept.push(e);
        }
        proof {
            assert(kept@ =~= edges@.take(i + 1).filter(pred));
        }
        i = i + 1;
    }
    proof {
        assert(edges@.take(edges@.len() as int) =~= edges@);
    }
    kept
}

/// The edges other than those from `from` to `to` of type `edge_type`, in
/// order.
pub fn edges_filtered_without(edges: &Vec<GraphEdge>, from: u128, to: u128, edge_type: EdgeType) -> (r: Vec<GraphEdge>)
    ensures
        r@ == edges_without(edges@, from, to, edge_type),
{
    let ghost pred = |e: GraphEdge| !(e.from == from && e.to == to && e.edge_type == edge_type);
    let mut kept: Vec<GraphEdge> = Vec::new();
    let mut i: usize = 0;
    while i < edges.len()
        invariant
            i <= edges@.len(),
            pred == (|e: GraphEdge| !(e.from == from && e.to == to && e.edge_type == edge_type)),
            kept@ == edges@.take(i as int).filter(pred),
        decreases edges.len() - i,
    {
        proof {
            reveal_with_fuel(Seq::filter, 1);
            assert(edges@.take(i + 1).drop_last() =~= edges@.take(i as int));
        }
        let e = edges[i];
        if !(e.from == from && e.to == to && e.edge_type == edge_type) {
            kept.push(e);
        }
        proof {
            assert(kept@ =~= edges@.take(i + 1).filter(pred));
        }
        i = i + 1;
    }
    proof {
        assert(edges@.take(edges@.len() as int) =~= edges@);
    }
    kept
}

} // verus!
