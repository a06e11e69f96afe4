//! Graph-first PKI: the organization graph decides the certificate
//! hierarchy. The organization becomes the root CA, each organizational
//! unit an intermediate CA under its parent, and each person a leaf
//! certificate under the unit they are a member of, with the key-owner role
//! that their roles in the graph give them.

use vstd::prelude::*;
use crate::events::{DAY_MILLIS, now_millis};
use crate::graph_certificate::CertificateType;
use crate::graph_model::{EdgeType, GraphEdge, GraphNode, NodeType, OrganizationGraph, Position, has_node};
use crate::ids::{fresh_id, uuid_string, uuid_text};
use crate::text::{concat, concat3, contains_seq, contains_text, lowercase, lowercase_of, owned};
use crate::yubikey::KeyOwnerRole;

verus! {

/// The key-owner role that a lower-case role name suggests.
pub open spec fn role_for_lowercase_name(lower: Seq<char>) -> KeyOwnerRole {
    if contains_seq(lower, "root"@) || contains_seq(lower, "authority"@) {
        KeyOwnerRole::RootAuthority
    } else if contains_seq(lower, "security"@) || contains_seq(lower, "admin"@) {
        KeyOwnerRole::SecurityAdmin
    } else if contains_seq(lower, "service"@) || contains_seq(lower, "account"@) {
        KeyOwnerRole::ServiceAccount
    } else if contains_seq(lower, "backup"@) || contains_seq(lower, "recovery"@) {
        KeyOwnerRole::BackupHolder
    } else if contains_seq(lower, "audit"@) {
        KeyOwnerRole::Auditor
    } else {
        KeyOwnerRole::Developer
    }
}

/// The key-owner role for a role called `name`, ignoring case.
pub open spec fn derived_role(name: Seq<char>) -> KeyOwnerRole {
    role_for_lowercase_name(lowercase_of(name))
}

/// The key-owner role for a role, from its name: "root" or "authority"
/// gives the root authority, then "security" or "admin" a security
/// administrator, "service" or "account" a service account, "backup" or
/// "recovery" a backup holder, "audit" an auditor, and any other name a
/// developer. Case does not matter.
pub fn derive_key_owner_role(role_name: &str) -> (r: KeyOwnerRole)
    ensures
        r == derived_role(role_name@),
{
    let lower = lowercase(role_name);
    let l = lower.as_str();
    if contains_text(l, "root") || contains_text(l, "authority") {
        KeyOwnerRole::RootAuthority
    } else if contains_text(l, "security") || contains_text(l, "admin") {
        KeyOwnerRole::SecurityAdmin
    } else if contains_text(l, "service") || contains_text(l, "account") {
        KeyOwnerRole::ServiceAccount
    } else if contains_text(l, "backup") || contains_text(l, "recovery") {
        KeyOwnerRole::BackupHolder
    } else if contains_text(l, "audit") {
        KeyOwnerRole::Auditor
    } else {
        KeyOwnerRole::Developer
    }
}

/// Privilege of a key-owner role: root authority, then security admin,
/// backup holder, auditor, service account and developer.
pub open spec fn privilege(r: KeyOwnerRole) -> nat {
    match r {
        KeyOwnerRole::RootAuthority => 5,
        KeyOwnerRole::SecurityAdmin => 4,
        KeyOwnerRole::BackupHolder => 3,
        KeyOwnerRole::Auditor => 2,
        KeyOwnerRole::ServiceAccount => 1,
        KeyOwnerRole::Developer => 0,
    }
}

/// The more privileged of two roles.
pub open spec fn higher_role(a: KeyOwnerRole, b: KeyOwnerRole) -> KeyOwnerRole {
    if privilege(b) > privilege(a) { b } else { a }
}

fn privilege_of(r: KeyOwnerRole) -> (p: u8)
    ensures
        p == privilege(r),
{
    match r {
        KeyOwnerRole::RootAuthority => 5,
        KeyOwnerRole::SecurityAdmin => 4,
        KeyOwnerRole::BackupHolder => 3,
        KeyOwnerRole::Auditor => 2,
        KeyOwnerRole::ServiceAccount => 1,
        KeyOwnerRole::Developer => 0,
    }
}

/// The node with identifier `id`, if there is one.
pub open spec fn node_with_id(nodes: Seq<GraphNode>, id: u128) -> Option<GraphNode> {
    if has_node(nodes, id) {
        Some(nodes[choose|i: int| 0 <= i < nodes.len() && nodes[i].id == id])
    } else {
        None
    }
}

/// The name of the role node `id`, if `id` is a role node.
pub open spec fn role_name_of(nodes: Seq<GraphNode>, id: u128) -> Option<Seq<char>> {
    match node_with_id(nodes, id) {
        Some(n) => if n.node_type == NodeType::Role { Some(n.label@) } else { None },
        None => None,
    }
}

/// The key-owner role of `person` from the roles that `edges` give them:
/// the most privileged role derived from the role nodes their `HasRole`
/// edges lead to, or developer when there is none.
pub open spec fn person_role(nodes: Seq<GraphNode>, edges: Seq<GraphEdge>, person: u128) -> KeyOwnerRole
    decreases edges.len(),
{
    if edges.len() == 0 {
        KeyOwnerRole::Developer
    } else {
        let prev = person_role(nodes, edges.drop_last(), person);
        let e = edges.last();
        if e.from == person && e.edge_type == EdgeType::HasRole {
            match role_name_of(nodes, e.to) {
                Some(name) => higher_role(prev, derived_role(name)),
                None => prev,
            }
        } else {
            prev
        }
    }
}

/// With unique identifiers, the node found at index `i` is the node with
/// its identifier.
pub(crate) proof fn lemma_node_with_id_at(nodes: Seq<GraphNode>, i: int)
    requires
        crate::graph_model::ids_unique(nodes),
        0 <= i < nodes.len(),
    ensures
        node_with_id(nodes, nodes[i].id) == Some(nodes[i]),
{
    let id = nodes[i].id;
    assert(has_node(nodes, id));
    let j = choose|j: int| 0 <= j < nodes.len() && nodes[j].id == id;
    if j != i {
        if j < i {
            assert(nodes[j].id != nodes[i].id);
        } else {
            assert(nodes[i].id != nodes[j].id);
        }
    }
}

/// The node with identifier `id`, if the graph has one.
pub fn lookup_node(graph: &OrganizationGraph, id: u128) -> (r: Option<&GraphNode>)
    requires
        graph.well_formed(),
    ensures
        match r {
            Some(n) => node_with_id(graph.nodes@, id) == Some(*n),
            None => node_with_id(graph.nodes@, id) is None,
        },
{
    match graph.find_node(id) {
        Some(i) => {
            proof {
                lemma_node_with_id_at(graph.nodes@, i as int);
            }
            Some(&graph.nodes[i])
        },
        None => None,
    }
}

/// The key-owner role of a person: the most privileged role derived from
/// the role nodes their `HasRole` edges lead to, developer if none.
pub fn find_person_key_role(person_id: u128, graph: &OrganizationGraph) -> (r: KeyOwnerRole)
    requires
        graph.well_formed(),
    ensures
        r == person_role(graph.nodes@, graph.edges@, person_id),
{
    let mut best = KeyOwnerRole::Developer;
    let mut i: usize = 0;
    while i < graph.edges.len()
        invariant
            graph.well_formed(),
            i <= graph.edges@.len(),
            best == person_role(graph.nodes@, graph.edges@.take(i as int), person_id),
        decreases graph.edges.len() - i,
    {
        proof {
            assert(graph.edges@.take(i + 1).drop_last() =~= graph.edges@.take(i as int));
        }
        let e = graph.edges[i];
        if e.from == person_id && e.edge_type == EdgeType::HasRole {
            match graph.find_node(e.to) {
                Some(k) => {
                    proof {
                        lemma_node_with_id_at(graph.nodes@, k as int);
                    }
                    if graph.nodes[k].node_type == NodeType::Role {
                        let derived = derive_key_owner_role(graph.nodes[k].label.as_str());
                        if privilege_of(derived) > privilege_of(best) {
                            best = derived;
                        }
                    }
                },
                None => {},
            }
        }
        i = i + 1;
    }
    proof {
        assert(graph.edges@.take(graph.edges@.len() as int) =~= graph.edges@);
    }
    best
}

/// The first node of type `t`, from the front.
pub open spec fn first_of_type(nodes: Seq<GraphNode>, t: NodeType) -> Option<u128>
    decreases nodes.len(),
{
    if nodes.len() == 0 {
        None
    } else if nodes[0].node_type == t {
        Some(nodes[0].id)
    } else {
        first_of_type(nodes.drop_first(), t)
    }
}

/// Whether an edge of type `t` places a unit under its parent.
pub open spec fn is_unit_link(t: EdgeType) -> bool {
    t == EdgeType::ParentChild || t == EdgeType::ManagesUnit
}

/// The start of the first edge into `id` that places a unit under its
/// parent.
pub open spec fn unit_parent(edges: Seq<GraphEdge>, id: u128) -> Option<u128>
    decreases edges.len(),
{
    if edges.len() == 0 {
        None
    } else if edges[0].to == id && is_unit_link(edges[0].edge_type) {
        Some(edges[0].from)
    } else {
        unit_parent(edges.drop_first(), id)
    }
}

/// A unit's parent is the start of the first parent-child or unit-managing
/// edge that leads into it; a unit without such an edge has none.
pub proof fn lemma_unit_parent_is_first_link(edges: Seq<GraphEdge>, id: u128, k: int)
    ensures
        (0 <= k < edges.len() && edges[k].to == id && (edges[k].edge_type == EdgeType::ParentChild
            || edges[k].edge_type == EdgeType::ManagesUnit) && forall|j: int|
            0 <= j < k ==> !(#[trigger] edges[j].to == id && (edges[j].edge_type == EdgeType::ParentChild
                || edges[j].edge_type == EdgeType::ManagesUnit))) ==> unit_parent(edges, id) == Some(edges[k].from),
        (forall|j: int|
            0 <= j < edges.len() ==> !(#[trigger] edges[j].to == id && (edges[j].edge_type == EdgeType::ParentChild
                || edges[j].edge_type == EdgeType::ManagesUnit))) ==> unit_parent(edges, id) is None,
    decreases edges.len(),
{
    if edges.len() > 0 {
        let rest = edges.drop_first();
        assert forall|j: int| 0 <= j < rest.len() implies rest[j] == edges[j + 1] by {}
        if k >= 1 {
            lemma_unit_parent_is_first_link(rest, id, k - 1);
            if 0 <= k < edges.len() && edges[k].to == id && (edges[k].edge_type == EdgeType::ParentChild
                || edges[k].edge_type == EdgeType::ManagesUnit) && forall|j: int|
                0 <= j < k ==> !(#[trigger] edges[j].to == id && (edges[j].edge_type == EdgeType::ParentChild
                    || edges[j].edge_type == EdgeType::ManagesUnit)) {
                assert(!(edges[0].to == id && (edges[0].edge_type == EdgeType::ParentChild || edges[0].edge_type
                    == EdgeType::ManagesUnit)));
                assert forall|j: int| 0 <= j < k - 1 implies !(#[trigger] rest[j].to == id && (rest[j].edge_type
                    == EdgeType::ParentChild || rest[j].edge_type == EdgeType::ManagesUnit)) by {
                    assert(rest[j] == edges[j + 1]);
                }
            }
        } else {
            lemma_unit_parent_is_first_link(rest, id, 0);
        }
        if forall|j: int|
            0 <= j < edges.len() ==> !(#[trigger] edges[j].to == id && (edges[j].edge_type == EdgeType::ParentChild
                || edges[j].edge_type == EdgeType::ManagesUnit)) {
            assert(!(edges[0].to == id && (edges[0].edge_type == EdgeType::ParentChild || edges[0].edge_type
                == EdgeType::ManagesUnit)));
            assert forall|j: int| 0 <= j < rest.len() implies !(#[trigger] rest[j].to == id && (rest[j].edge_type
                == EdgeType::ParentChild || rest[j].edge_type == EdgeType::ManagesUnit)) by {
                assert(rest[j] == edges[j + 1]);
            }
            lemma_unit_parent_is_first_link(rest, id, -1);
        }
    }
}

/// Where a unit goes in the PKI hierarchy: under the start of the first
/// parent-child or unit-managing edge into it, and under the organization
/// when no such edge leads into it.
pub proof fn lemma_unit_placed_under_first_link(edges: Seq<GraphEdge>, id: u128, org: u128, k: int)
    ensures
        (0 <= k < edges.len() && edges[k].to == id && (edges[k].edge_type == EdgeType::ParentChild
            || edges[k].edge_type == EdgeType::ManagesUnit) && forall|j: int|
            0 <= j < k ==> !(#[trigger] edges[j].to == id && (edges[j].edge_type == EdgeType::ParentChild
                || edges[j].edge_type == EdgeType::ManagesUnit))) ==> unit_parent_or(edges, id, org) == edges[k].from,
        (forall|j: int|
            0 <= j < edges.len() ==> !(#[trigger] edges[j].to == id && (edges[j].edge_type == EdgeType::ParentChild
                || edges[j].edge_type == EdgeType::ManagesUnit))) ==> unit_parent_or(edges, id, org) == org,
{
    lemma_unit_parent_is_first_link(edges, id, k);
}

/// What a role's name says of the key-owner role, case aside: "root" or
/// "authority" makes a root authority; otherwise "security" or "admin" a
/// security administrator; otherwise "service" or "account" a service
/// account; otherwise "backup" or "recovery" a backup holder; otherwise
/// "audit" an auditor; a name with none of these words a developer.
pub proof fn lemma_role_keywords(name: Seq<char>)
    ensures
        ({
            let l = lowercase_of(name);
            let top = contains_seq(l, "root"@) || contains_seq(l, "authority"@);
            let admin = contains_seq(l, "security"@) || contains_seq(l, "admin"@);
            let service = contains_seq(l, "service"@) || contains_seq(l, "account"@);
            let backup = contains_seq(l, "backup"@) || contains_seq(l, "recovery"@);
            let audit = contains_seq(l, "audit"@);
            &&& top ==> derived_role(name) == KeyOwnerRole::RootAuthority
            &&& (!top && admin) ==> derived_role(name) == KeyOwnerRole::SecurityAdmin
            &&& (!top && !admin && contains_seq(l, "service"@)) ==> derived_role(name) == KeyOwnerRole::ServiceAccount
            &&& (!top && !admin && contains_seq(l, "account"@)) ==> derived_role(name) == KeyOwnerRole::ServiceAccount
            &&& (!top && !admin && !service && backup) ==> derived_role(name) == KeyOwnerRole::BackupHolder
            &&& (!top && !admin && !service && !backup && audit) ==> derived_role(name) == KeyOwnerRole::Auditor
            &&& (!top && !admin && !service && !backup && !audit) ==> derived_role(name) == KeyOwnerRole::Developer
        }),
{
}

/// The start of the first membership edge into `id`.
pub open spec fn membership_parent(edges: Seq<GraphEdge>, id: u128) -> Option<u128>
    decreases edges.len(),
{
    if edges.len() == 0 {
        None
    } else if edges[0].to == id && edges[0].edge_type == EdgeType::MemberOf {
        Some(edges[0].from)
    } else {
        membership_parent(edges.drop_first(), id)
    }
}

/// The order of privilege: root authority above security administrator,
/// above backup holder, above auditor, above service account, above
/// developer.
pub proof fn lemma_privilege_order()
    ensures
        privilege(KeyOwnerRole::RootAuthority) > privilege(KeyOwnerRole::SecurityAdmin),
        privilege(KeyOwnerRole::SecurityAdmin) > privilege(KeyOwnerRole::BackupHolder),
        privilege(KeyOwnerRole::BackupHolder) > privilege(KeyOwnerRole::Auditor),
        privilege(KeyOwnerRole::Auditor) > privilege(KeyOwnerRole::ServiceAccount),
        privilege(KeyOwnerRole::ServiceAccount) > privilege(KeyOwnerRole::Developer),
{
}

/// A person's key-owner role is the most privileged one that their roles
/// give them: at least as privileged as the role derived from the name of
/// every role node a `HasRole` edge leads them to, and either one of those
/// or, where none is more than a developer, a developer.
pub proof fn lemma_person_role_is_highest(nodes: Seq<GraphNode>, edges: Seq<GraphEdge>, person: u128, k: int)
    ensures
        (0 <= k < edges.len() && edges[k].from == person && edges[k].edge_type == EdgeType::HasRole
            && role_name_of(nodes, edges[k].to) is Some) ==> privilege(person_role(nodes, edges, person)) >= privilege(
            derived_role(role_name_of(nodes, edges[k].to)->Some_0),
        ),
        person_role(nodes, edges, person) == KeyOwnerRole::Developer || exists|j: int|
            0 <= j < edges.len() && (#[trigger] edges[j]).from == person && edges[j].edge_type == EdgeType::HasRole
                && role_name_of(nodes, edges[j].to) is Some && derived_role(role_name_of(nodes, edges[j].to)->Some_0)
                == person_role(nodes, edges, person),
    decreases edges.len(),
{
    if edges.len() > 0 {
        let front = edges.drop_last();
        let last = edges.len() - 1;
        if 0 <= k < last {
            lemma_person_role_is_highest(nodes, front, person, k);
            assert(front[k] == edges[k]);
        } else {
            lemma_person_role_is_highest(nodes, front, person, -1);
        }
        let prev = person_role(nodes, front, person);
        if prev != KeyOwnerRole::Developer {
            let j = choose|j: int|
                0 <= j < front.len() && (#[trigger] front[j]).from == person && front[j].edge_type == EdgeType::HasRole
                    && role_name_of(nodes, front[j].to) is Some && derived_role(role_name_of(nodes, front[j].to)->Some_0)
                    == prev;
            assert(edges[j] == front[j]);
        }
        assert(edges[last] == edges.last());
    }
}

/// A person's parent is the start of the first membership edge that leads
/// into their node; without one they go under the root organization.
pub proof fn lemma_membership_parent_is_first(edges: Seq<GraphEdge>, id: u128, k: int)
    ensures
        (0 <= k < edges.len() && edges[k].to == id && edges[k].edge_type == EdgeType::MemberOf && forall|j: int|
            0 <= j < k ==> !(#[trigger] edges[j].to == id && edges[j].edge_type == EdgeType::MemberOf))
            ==> membership_parent(edges, id) == Some(edges[k].from),
        (forall|j: int| 0 <= j < edges.len() ==> !(#[trigger] edges[j].to == id && edges[j].edge_type == EdgeType::MemberOf))
            ==> membership_parent(edges, id) is None,
    decreases edges.len(),
{
    if edges.len() > 0 {
        let rest = edges.drop_first();
        assert forall|j: int| 0 <= j < rest.len() implies rest[j] == edges[j + 1] by {}
        lemma_membership_parent_is_first(rest, id, k - 1);
        if 0 <= k < edges.len() && edges[k].to == id && edges[k].edge_type == EdgeType::MemberOf && forall|j: int|
            0 <= j < k ==> !(#[trigger] edges[j].to == id && edges[j].edge_type == EdgeType::MemberOf) {
            if k > 0 {
                assert(!(edges[0].to == id && edges[0].edge_type == EdgeType::MemberOf));
                assert forall|j: int| 0 <= j < k - 1 implies !(#[trigger] rest[j].to == id && rest[j].edge_type
                    == EdgeType::MemberOf) by {
                    assert(rest[j] == edges[j + 1]);
                }
            }
        }
        if forall|j: int| 0 <= j < edges.len() ==> !(#[trigger] edges[j].to == id && edges[j].edge_type == EdgeType::MemberOf) {
            assert(!(edges[0].to == id && edges[0].edge_type == EdgeType::MemberOf));
            assert forall|j: int| 0 <= j < rest.len() implies !(#[trigger] rest[j].to == id && rest[j].edge_type
                == EdgeType::MemberOf) by {
                assert(rest[j] == edges[j + 1]);
            }
        }
    }
}

/// Where a unit goes: under the parent its edges give it, else under the
/// organization.
#[derive(Clone, Copy, Debug, PartialEq, Eq, Structural)]
pub struct UnitPlacement {
    pub unit_id: u128,
    pub parent_id: u128,
}

/// Where a person goes, and with which key-owner role.
#[derive(Clone, Copy, Debug, PartialEq, Eq, Structural)]
pub struct PersonPlacement {
    pub person_id: u128,
    pub role: KeyOwnerRole,
    pub parent_id: u128,
}

/// The parent of unit `id`: its linked parent, else `org`.
pub open spec fn unit_parent_or(edges: Seq<GraphEdge>, id: u128, org: u128) -> u128 {
    match unit_parent(edges, id) {
        Some(p) => p,
        None => org,
    }
}

/// The parent of person `id`: the unit they are a member of, else the root
/// organization if there is one.
pub open spec fn person_parent(edges: Seq<GraphEdge>, id: u128, root: Option<u128>) -> Option<u128> {
    match membership_parent(edges, id) {
        Some(p) => Some(p),
        None => root,
    }
}

/// The units of the graph, in order, each under its parent; none without a
/// root organization.
pub open spec fn unit_placements(g: OrganizationGraph, root: Option<u128>) -> Seq<UnitPlacement> {
    match root {
        Some(org) => g.nodes@.filter(|n: GraphNode| n.node_type == NodeType::OrganizationalUnit).map_values(
            |n: GraphNode| UnitPlacement { unit_id: n.id, parent_id: unit_parent_or(g.edges@, n.id, org) },
        ),
        None => Seq::empty(),
    }
}

/// Whether `n` is a person with a place in the hierarchy.
pub open spec fn placed_person(g: OrganizationGraph, root: Option<u128>, n: GraphNode) -> bool {
    n.node_type == NodeType::Person && person_parent(g.edges@, n.id, root) is Some
}

/// The people of the graph that have a parent, in order, with their role.
pub open spec fn person_placements(g: OrganizationGraph, root: Option<u128>) -> Seq<PersonPlacement> {
    g.nodes@.filter(|n: GraphNode| placed_person(g, root, n)).map_values(
        |n: GraphNode|
            PersonPlacement {
                person_id: n.id,
                role: person_role(g.nodes@, g.edges@, n.id),
                parent_id: person_parent(g.edges@, n.id, root)->Some_0,
            },
    )
}

/// The parent-to-child edges of the hierarchy: units first, then people.
pub open spec fn placement_links(units: Seq<UnitPlacement>, people: Seq<PersonPlacement>) -> Seq<(u128, u128)> {
    units.map_values(|u: UnitPlacement| (u.parent_id, u.unit_id)) + people.map_values(
        |p: PersonPlacement| (p.parent_id, p.person_id),
    )
}

/// The first organization node of the graph.
pub(crate) fn organization_root(graph: &OrganizationGraph) -> (r: Option<u128>)
    ensures
        r == first_of_type(graph.nodes@, NodeType::Organization),
{
    let mut i: usize = 0;
    assert(graph.nodes@.subrange(0, graph.nodes@.len() as int) =~= graph.nodes@);
    while i < graph.nodes.len()
        invariant
            i <= graph.nodes@.len(),
            first_of_type(graph.nodes@, NodeType::Organization) == first_of_type(
                graph.nodes@.subrange(i as int, graph.nodes@.len() as int),
                NodeType::Organization,
            ),
        decreases graph.nodes.len() - i,
    {
        let ghost rest = graph.nodes@.subrange(i as int, graph.nodes@.len() as int);
        assert(rest.drop_first() =~= graph.nodes@.subrange(i + 1, graph.nodes@.len() as int));
        if graph.nodes[i].node_type == NodeType::Organization {
            return Some(graph.nodes[i].id);
        }
        i = i + 1;
    }
    None
}

/// The linked parent of unit `id`.
fn find_unit_parent(edges: &Vec<GraphEdge>, id: u128) -> (r: Option<u128>)
    ensures
        r == unit_parent(edges@, id),
{
    let mut i: usize = 0;
    assert(edges@.subrange(0, edges@.len() as int) =~= edges@);
    while i < edges.len()
        invariant
            i <= edges@.len(),
            unit_parent(edges@, id) == unit_parent(edges@.subrange(i as int, edges@.len() as int), id),
        decreases edges.len() - i,
    {
        let ghost rest = edges@.subrange(i as int, edges@.len() as int);
        assert(rest.drop_first() =~= edges@.subrange(i + 1, edges@.len() as int));
        let e = edges[i];
        if e.to == id && (e.edge_type == EdgeType::ParentChild || e.edge_type == EdgeType::ManagesUnit) {
            return Some(e.from);
        }
        i = i + 1;
    }
    None
}

/// The unit that person `id` is a member of.
fn find_membership_parent(edges: &Vec<GraphEdge>, id: u128) -> (r: Option<u128>)
    ensures
        r == membership_parent(edges@, id),
{
    let mut i: usize = 0;
    assert(edges@.subrange(0, edges@.len() as int) =~= edges@);
    while i < edges.len()
        invariant
            i <= edges@.len(),
            membership_parent(edges@, id) == membership_parent(
                edges@.subrange(i as int, edges@.len() as int),
                id,
            ),
        decreases edges.len() - i,
    {
        let ghost rest = edges@.subrange(i as int, edges@.len() as int);
        assert(rest.drop_first() =~= edges@.subrange(i + 1, edges@.len() as int));
        let e = edges[i];
        if e.to == id && e.edge_type == EdgeType::MemberOf {
            return Some(e.from);
        }
        i = i + 1;
    }
    None
}

/// The units of the graph under their parents.
pub(crate) fn place_units(graph: &OrganizationGraph, root: Option<u128>) -> (r: Vec<UnitPlacement>)
    ensures
        r@ == unit_placements(*graph, root),
{
    let mut out: Vec<UnitPlacement> = Vec::new();
    match root {
        None => {
            return out;
        },
        Some(org) => {
            let ghost pred = |n: GraphNode| n.node_type == NodeType::OrganizationalUnit;
            let ghost place = |n: GraphNode| UnitPlacement { unit_id: n.id, parent_id: unit_parent_or(graph.edges@, n.id, org) };
            let mut i: usize = 0;
            while i < graph.nodes.len()
                invariant
                    i <= graph.nodes@.len(),
                    root == Some(org),
                    pred == (|n: GraphNode| n.node_type == NodeType::OrganizationalUnit),
                    place == (|n: GraphNode| UnitPlacement { unit_id: n.id, parent_id: unit_parent_or(graph.edges@, n.id, org) }),
                    out@ == graph.nodes@.take(i as int).filter(pred).map_values(place),
                decreases graph.nodes.len() - i,
            {
                proof {
                    reveal_with_fuel(Seq::filter, 1);
                    assert(graph.nodes@.take(i + 1).drop_last() =~= graph.nodes@.take(i as int));
                }
                let n = &graph.nodes[i];
                if n.node_type == NodeType::OrganizationalUnit {
                    let parent = match find_unit_parent(&graph.edges, n.id) {
                        Some(p) => p,
                        None => org,
                    };
                    out.push(UnitPlacement { unit_id: n.id, parent_id: parent });
                }
                proof {
                    assert(out@ =~= graph.nodes@.take(i + 1).filter(pred).map_values(place));
                }
                i = i + 1;
            }
            proof {
                assert(graph.nodes@.take(graph.nodes@.len() as int) =~= graph.nodes@);
            }
            out
        },
    }
}

/// The people of the graph that have a parent, with their role.
pub(crate) fn place_people(graph: &OrganizationGraph, root: Option<u128>) -> (r: Vec<PersonPlacement>)
    requires
        graph.well_formed(),
    ensures
        r@ == person_placements(*graph, root),
{
    let ghost pred = |n: GraphNode| placed_person(*graph, root, n);
    let ghost place = |n: GraphNode|
        PersonPlacement {
            person_id: n.id,
            role: person_role(graph.nodes@, graph.edges@, n.id),
            parent_id: person_parent(graph.edges@, n.id, root)->Some_0,
        };
    let mut out: Vec<PersonPlacement> = Vec::new();
    let mut i: usize = 0;
    while i < graph.nodes.len()
        invariant
            graph.well_formed(),
            i <= graph.nodes@.len(),
            pred == (|n: GraphNode| placed_person(*graph, root, n)),
            place == (|n: GraphNode|
                PersonPlacement {
                    person_id: n.id,
                    role: person_role(graph.nodes@, graph.edges@, n.id),
                    parent_id: person_parent(graph.edges@, n.id, root)->Some_0,
                }),
            out@ == graph.nodes@.take(i as int).filter(pred).map_values(place),
        decreases graph.nodes.len() - i,
    {
        proof {
            reveal_with_fuel(Seq::filter, 1);
            assert(graph.nodes@.take(i + 1).drop_last() =~= graph.nodes@.take(i as int));
        }
        let n = &graph.nodes[i];
        if n.node_type == NodeType::Person {
            let parent = match find_membership_parent(&graph.edges, n.id) {
                Some(p) => Some(p),
                None => root,
            };
            match parent {
                Some(p) => {
                    let role = find_person_key_role(n.id, graph);
                    out.push(PersonPlacement { person_id: n.id, role, parent_id: p });
                },
                None => {},
            }
        }
        proof {
            assert(out@ =~= graph.nodes@.take(i + 1).filter(pred).map_values(place));
        }
        i = i + 1;
    }
    proof {
        assert(graph.nodes@.take(graph.nodes@.len() as int) =~= graph.nodes@);
    }
    out
}

/// The parent-to-child links of the placements: units first, then people.
pub(crate) fn links_of(units: &Vec<UnitPlacement>, people: &Vec<PersonPlacement>) -> (r: Vec<(u128, u128)>)
    ensures
        r@ == placement_links(units@, people@),
{
    let mut out: Vec<(u128, u128)> = Vec::new();
    let mut i: usize = 0;
    while i < units.len()
        invariant
            i <= units@.len(),
            out@ == units@.take(i as int).map_values(|u: UnitPlacement| (u.parent_id, u.unit_id)),
        decreases units.len() - i,
    {
        out.push((units[i].parent_id, units[i].unit_id));
        proof {
            assert(out@ =~= units@.take(i + 1).map_values(|u: UnitPlacement| (u.parent_id, u.unit_id)));
        }
        i = i + 1;
    }
    let ghost front = out@;
    proof {
        assert(units@.take(units@.len() as int) =~= units@);
    }
    let mut j: usize = 0;
    while j < people.len()
        invariant
            j <= people@.len(),
            front == units@.map_values(|u: UnitPlacement| (u.parent_id, u.unit_id)),
            out@ == front + people@.take(j as int).map_values(|p: PersonPlacement| (p.parent_id, p.person_id)),
        decreases people.len() - j,
    {
        out.push((people[j].parent_id, people[j].person_id));
        proof {
            assert(out@ =~= front + people@.take(j + 1).map_values(
                |p: PersonPlacement| (p.parent_id, p.person_id),
            ));
        }
        j = j + 1;
    }
    proof {
        assert(people@.take(people@.len() as int) =~= people@);
    }
    out
}

/// The certificate hierarchy that the graph calls for.
#[derive(Clone, Debug)]
pub struct PkiHierarchy {
    /// The organization that becomes the root CA.
    pub root_organization: Option<u128>,
    /// The units that become intermediate CAs, each under its parent.
    pub intermediate_units: Vec<UnitPlacement>,
    /// The people who get leaf certificates, with their role and parent.
    pub leaf_people: Vec<PersonPlacement>,
    /// Parent-to-child edges of the hierarchy.
    pub hierarchy_edges: Vec<(u128, u128)>,
}

impl PkiHierarchy {
    /// An empty hierarchy.
    pub fn new() -> (r: Self)
        ensures
            r.root_organization is None,
            r.intermediate_units@.len() == 0,
            r.leaf_people@.len() == 0,
            r.hierarchy_edges@.len() == 0,
    {
        PkiHierarchy {
            root_organization: None,
            intermediate_units: Vec::new(),
            leaf_people: Vec::new(),
            hierarchy_edges: Vec::new(),
        }
    }
}

/// Reads the certificate hierarchy off the graph: the first organization
/// is the root; every unit goes under the organization or unit that a
/// parent-child or manages-unit edge gives it, else under the root; every
/// person goes under the unit a membership edge gives them, else under the
/// root, with the role their `HasRole` edges give them. Without an
/// organization there are no units, and only people with a membership.
pub fn analyze_graph_for_pki(graph: &OrganizationGraph) -> (r: PkiHierarchy)
    requires
        graph.well_formed(),
    ensures
        r.root_organization == first_of_type(graph.nodes@, NodeType::Organization),
        r.intermediate_units@ == unit_placements(*graph, r.root_organization),
        r.leaf_people@ == person_placements(*graph, r.root_organization),
        r.hierarchy_edges@ == placement_links(r.intermediate_units@, r.leaf_people@),
{
    let root = organization_root(graph);
    let units = place_units(graph, root);
    let people = place_people(graph, root);
    let links = links_of(&units, &people);
    PkiHierarchy { root_organization: root, intermediate_units: units, leaf_people: people, hierarchy_edges: links }
}

/// A certificate to generate, named by the entity it is for.
#[derive(Clone, Copy, Debug, PartialEq, Eq, Hash, Structural)]
pub enum CertificateOrder {
    /// The root CA of an organization.
    Root(u128),
    /// The intermediate CA of a unit.
    Intermediate(u128),
    /// The leaf certificate of a person.
    Leaf(u128),
}

/// The certificates of a hierarchy in generation order: the root CA, then
/// the intermediate CAs, then the leaf certificates.
pub open spec fn generation_order(
    root: Option<u128>,
    units: Seq<UnitPlacement>,
    people: Seq<PersonPlacement>,
) -> Seq<CertificateOrder> {
    let head = match root {
        Some(org) => seq![CertificateOrder::Root(org)],
        None => Seq::empty(),
    };
    head + units.map_values(|u: UnitPlacement| CertificateOrder::Intermediate(u.unit_id)) + people.map_values(
        |p: PersonPlacement| CertificateOrder::Leaf(p.person_id),
    )
}

/// The tier of a certificate: root, intermediate, leaf.
pub open spec fn tier(c: CertificateOrder) -> nat {
    match c {
        CertificateOrder::Root(_) => 0,
        CertificateOrder::Intermediate(_) => 1,
        CertificateOrder::Leaf(_) => 2,
    }
}

/// The order in which to generate the certificates of a hierarchy: root CA
/// first, then intermediate CAs, then leaf certificates.
pub fn determine_generation_order(hierarchy: &PkiHierarchy) -> (r: Vec<CertificateOrder>)
    ensures
        r@ == generation_order(hierarchy.root_organization, hierarchy.intermediate_units@, hierarchy.leaf_people@),
{
    let mut order: Vec<CertificateOrder> = Vec::new();
    match hierarchy.root_organization {
        Some(org) => order.push(CertificateOrder::Root(org)),
        None => {},
    }
    let ghost head = order@;
    let mut i: usize = 0;
    while i < hierarchy.intermediate_units.len()
        invariant
            i <= hierarchy.intermediate_units@.len(),
            head == (match hierarchy.root_organization {
                Some(org) => seq![CertificateOrder::Root(org)],
                None => Seq::<CertificateOrder>::empty(),
            }),
            order@ == head + hierarchy.intermediate_units@.take(i as int).map_values(
                |u: UnitPlacement| CertificateOrder::Intermediate(u.unit_id),
            ),
        decreases hierarchy.intermediate_units.len() - i,
    {
        order.push(CertificateOrder::Intermediate(hierarchy.intermediate_units[i].unit_id));
        proof {
            assert(order@ =~= head + hierarchy.intermediate_units@.take(i + 1).map_values(
                |u: UnitPlacement| CertificateOrder::Intermediate(u.unit_id),
            ));
        }
        i = i + 1;
    }
    proof {
        assert(hierarchy.intermediate_units@.take(hierarchy.intermediate_units@.len() as int)
            =~= hierarchy.intermediate_units@);
    }
    let ghost mid = order@;
    let mut j: usize = 0;
    while j < hierarchy.leaf_people.len()
        invariant
            j <= hierarchy.leaf_people@.len(),
            order@ == mid + hierarchy.leaf_people@.take(j as int).map_values(
                |p: PersonPlacement| CertificateOrder::Leaf(p.person_id),
            ),
        decreases hierarchy.leaf_people.len() - j,
    {
        order.push(CertificateOrder::Leaf(hierarchy.leaf_people[j].person_id));
        proof {
            assert(order@ =~= mid + hierarchy.leaf_people@.take(j + 1).map_values(
                |p: PersonPlacement| CertificateOrder::Leaf(p.person_id),
            ));
        }
        j = j + 1;
    }
    proof {
        assert(hierarchy.leaf_people@.take(hierarchy.leaf_people@.len() as int) =~= hierarchy.leaf_people@);
    }
    order
}

/// Issuers come first: in the generation order the root CA precedes every
/// intermediate CA, and every intermediate CA precedes every leaf
/// certificate; every unit and every person gets exactly one certificate.
pub proof fn lemma_generation_order_is_tiered(
    root: Option<u128>,
    units: Seq<UnitPlacement>,
    people: Seq<PersonPlacement>,
)
    ensures
        forall|i: int, j: int|
            0 <= i < j < generation_order(root, units, people).len() ==> tier(
                #[trigger] generation_order(root, units, people)[i],
            ) <= tier(#[trigger] generation_order(root, units, people)[j]),
        generation_order(root, units, people).len() == (if root is Some { 1int } else { 0int }) + units.len()
            + people.len(),
{
    let o = generation_order(root, units, people);
    let h: int = if root is Some { 1 } else { 0 };
    assert forall|i: int, j: int| 0 <= i < j < o.len() implies tier(#[trigger] o[i]) <= tier(#[trigger] o[j]) by {
        if i < h {
            assert(tier(o[i]) == 0);
        } else if i < h + units.len() {
            assert(tier(o[i]) == 1);
            assert(j >= h);
            if j < h + units.len() {
                assert(tier(o[j]) == 1);
            } else {
                assert(tier(o[j]) == 2);
            }
        } else {
            assert(tier(o[i]) == 2);
            assert(tier(o[j]) == 2);
        }
    }
}


/// A step of building a hierarchy from the graph: the entity it is for, its
/// tier (0 for the organization, 1 for a unit, 2 for a person), the entity
/// it goes under, and a person's key-owner role.
pub struct HierarchyStep {
    pub entity: u128,
    pub tier: u8,
    pub parent: Option<u128>,
    pub role: Option<KeyOwnerRole>,
}

/// The steps of a hierarchy in generation order: the organization, then the
/// units, then the people.
pub open spec fn hierarchy_steps(
    root: Option<u128>,
    units: Seq<UnitPlacement>,
    people: Seq<PersonPlacement>,
) -> Seq<HierarchyStep> {
    let head = match root {
        Some(org) => seq![HierarchyStep { entity: org, tier: 0, parent: None, role: None }],
        None => Seq::empty(),
    };
    head + units.map_values(
        |u: UnitPlacement| HierarchyStep { entity: u.unit_id, tier: 1, parent: Some(u.parent_id), role: None },
    ) + people.map_values(
        |p: PersonPlacement|
            HierarchyStep { entity: p.person_id, tier: 2, parent: Some(p.parent_id), role: Some(p.role) },
    )
}

/// The steps of the hierarchy that the graph calls for.
pub open spec fn graph_steps(g: OrganizationGraph) -> Seq<HierarchyStep> {
    let root = first_of_type(g.nodes@, NodeType::Organization);
    hierarchy_steps(root, unit_placements(g, root), person_placements(g, root))
}

/// Whether the entity that step `i` goes under has had its step before it.
pub open spec fn parent_ready(steps: Seq<HierarchyStep>, i: int) -> bool {
    match steps[i].parent {
        None => true,
        Some(p) => exists|j: int| 0 <= j < i && steps[j].entity == p,
    }
}

/// Whether every step finds its parent before it.
pub open spec fn all_parents_ready(steps: Seq<HierarchyStep>) -> bool {
    forall|i: int| 0 <= i < steps.len() ==> parent_ready(steps, i)
}

/// Whether step `i` is the first whose parent has no step before it.
pub open spec fn first_unready(steps: Seq<HierarchyStep>, i: int) -> bool {
    &&& 0 <= i < steps.len()
    &&& !parent_ready(steps, i)
    &&& forall|k: int| 0 <= k < i ==> parent_ready(steps, k)
}

/// Whether `j` is the first step before `i` for entity `p`.
pub open spec fn first_step_for(steps: Seq<HierarchyStep>, p: u128, j: int, i: int) -> bool {
    &&& 0 <= j < i
    &&& steps[j].entity == p
    &&& forall|k: int| 0 <= k < j ==> steps[k].entity != p
}

/// The label of node `id`, empty if there is no such node.
pub open spec fn label_for(nodes: Seq<GraphNode>, id: u128) -> Seq<char> {
    match node_with_id(nodes, id) {
        Some(n) => n.label@,
        None => Seq::empty(),
    }
}

/// The label of node `id`, empty if there is no such node.
pub(crate) fn label_of_node(graph: &OrganizationGraph, id: u128) -> (r: String)
    requires
        graph.well_formed(),
    ensures
        r@ == label_for(graph.nodes@, id),
{
    match graph.find_node(id) {
        Some(k) => {
            proof {
                lemma_node_with_id_at(graph.nodes@, k as int);
            }
            graph.nodes[k].label.clone()
        },
        None => String::new(),
    }
}

/// The first entry of `issued` for `entity`: entries pair an entity with
/// what was generated for it.
pub(crate) fn issued_for(issued: &Vec<(u128, u128)>, entity: u128) -> (r: Option<usize>)
    ensures
        match r {
            Some(j) => j < issued@.len() && issued@[j as int].0 == entity && forall|k: int|
                0 <= k < j ==> issued@[k].0 != entity,
            None => forall|k: int| 0 <= k < issued@.len() ==> issued@[k].0 != entity,
        },
{
    let mut i: usize = 0;
    while i < issued.len()
        invariant
            i <= issued@.len(),
            forall|k: int| 0 <= k < i ==> issued@[k].0 != entity,
        decreases issued.len() - i,
    {
        if issued[i].0 == entity {
            return Some(i);
        }
        i = i + 1;
    }
    None
}

/// A certificate that the graph calls for, as it goes into the graph:
/// validity times are milliseconds since the Unix epoch. The graph holds a
/// person's name but no e-mail address, so a leaf subject names the person
/// only and carries no alternative name.
#[derive(Clone, Debug)]
pub struct CertificateNode {
    pub id: u128,
    pub certificate_type: CertificateType,
    pub subject: String,
    pub issuer: String,
    pub not_before: i64,
    pub not_after: i64,
    pub key_usage: Vec<String>,
}

/// The kind of certificate of a tier.
pub open spec fn certificate_type_of(tier: u8) -> CertificateType {
    if tier == 0 {
        CertificateType::RootCA
    } else if tier == 1 {
        CertificateType::IntermediateCA
    } else {
        CertificateType::Leaf
    }
}

/// The subject of the certificate of a tier for an entity called `name`.
pub open spec fn certificate_subject(tier: u8, name: Seq<char>) -> Seq<char> {
    if tier == 0 {
        "CN="@ + name + " Root CA, O="@ + name
    } else if tier == 1 {
        "CN="@ + name + " CA, OU="@ + name
    } else {
        "CN="@ + name
    }
}

/// Days that a certificate of a tier is valid: ten years for a root CA,
/// five for an intermediate CA, one for a leaf.
pub open spec fn validity_days(tier: u8) -> int {
    if tier == 0 {
        3650
    } else if tier == 1 {
        1825
    } else {
        365
    }
}

/// Where the certificate of a tier is drawn: (400, 100) for a root CA,
/// (400, 250) for an intermediate CA, (400, 400) for a leaf.
pub open spec fn tier_position(tier: u8) -> Position {
    if tier == 0 {
        Position { x_bits: 0x43c8_0000, y_bits: 0x42c8_0000 }
    } else if tier == 1 {
        Position { x_bits: 0x43c8_0000, y_bits: 0x437a_0000 }
    } else {
        Position { x_bits: 0x43c8_0000, y_bits: 0x43c8_0000 }
    }
}

/// The key usages of a leaf certificate for a role.
pub open spec fn leaf_key_usage(role: KeyOwnerRole) -> Seq<Seq<char>> {
    match role {
        KeyOwnerRole::RootAuthority => seq!["Certificate Sign"@, "CRL Sign"@],
        KeyOwnerRole::SecurityAdmin => seq!["Digital Signature"@, "Key Encipherment"@, "Certificate Sign"@],
        KeyOwnerRole::Developer => seq!["Digital Signature"@, "Key Encipherment"@],
        KeyOwnerRole::ServiceAccount => seq!["Digital Signature"@],
        KeyOwnerRole::BackupHolder => seq!["Digital Signature"@, "Key Encipherment"@],
        KeyOwnerRole::Auditor => seq!["Digital Signature"@],
    }
}

/// The key usages of the certificate of a step: CA certificates sign
/// certificates and revocation lists; a leaf's depend on the role.
pub open spec fn step_key_usage(s: HierarchyStep) -> Seq<Seq<char>> {
    if s.tier < 2 {
        seq!["Certificate Sign"@, "CRL Sign"@]
    } else {
        match s.role {
            Some(role) => leaf_key_usage(role),
            None => seq!["Certificate Sign"@, "CRL Sign"@],
        }
    }
}

/// The characters of each string.
pub open spec fn texts(v: Seq<String>) -> Seq<Seq<char>> {
    v.map_values(|s: String| s@)
}

/// Whether the `i`th generated certificate is the one that step `i` calls
/// for: its kind, subject, validity, key usage and place follow from the
/// step, and its issuer is itself for the root, else the certificate of the
/// first step for the step's parent.
pub open spec fn certificate_fits(
    nodes: Seq<GraphNode>,
    steps: Seq<HierarchyStep>,
    out: Seq<(CertificateNode, Position, Option<u128>)>,
    i: int,
) -> bool {
    let s = steps[i];
    let c = out[i].0;
    &&& c.certificate_type == certificate_type_of(s.tier)
    &&& c.subject@ == certificate_subject(s.tier, label_for(nodes, s.entity))
    &&& c.not_after == c.not_before + validity_days(s.tier) * DAY_MILLIS
    &&& texts(c.key_usage@) == step_key_usage(s)
    &&& out[i].1 == tier_position(s.tier)
    &&& match s.parent {
        None => out[i].2 is None && c.issuer@ == c.subject@,
        Some(p) => exists|j: int|
            #![trigger out[j]]
            first_step_for(steps, p, j, i) && out[i].2 == Some(out[j].0.id) && c.issuer@ == "Parent CA "@
                + uuid_text(out[j].0.id),
    }
}

/// The error for a graph without an organization.
pub open spec fn no_organization_message() -> Seq<char> {
    "No organization found in graph. Create an organization node first."@
}

/// The error for a unit or person whose parent certificate is missing.
pub open spec fn missing_parent_certificate(tier: u8, name: Seq<char>) -> Seq<char> {
    if tier == 1 {
        "Parent certificate not found for unit: "@ + name + ". Generate parent first."@
    } else {
        "Parent certificate not found for person: "@ + name + ". Generate parent first."@
    }
}

/// The key usages of the certificate of a step.
fn key_usage_of(tier: u8, role: Option<KeyOwnerRole>) -> (r: Vec<String>)
    ensures
        texts(r@) == step_key_usage(HierarchyStep { entity: 0, tier, parent: None, role }),
{
    let r = if tier < 2 {
        vec![owned("Certificate Sign"), owned("CRL Sign")]
    } else {
        match role {
            Some(KeyOwnerRole::SecurityAdmin) => vec![
                owned("Digital Signature"),
                owned("Key Encipherment"),
                owned("Certificate Sign"),
            ],
            Some(KeyOwnerRole::Developer) | Some(KeyOwnerRole::BackupHolder) => vec![
                owned("Digital Signature"),
                owned("Key Encipherment"),
            ],
            Some(KeyOwnerRole::ServiceAccount) | Some(KeyOwnerRole::Auditor) => vec![owned("Digital Signature")],
            Some(KeyOwnerRole::RootAuthority) | None => vec![owned("Certificate Sign"), owned("CRL Sign")],
        }
    };
    assert(texts(r@) =~= step_key_usage(HierarchyStep { entity: 0, tier, parent: None, role }));
    r
}

/// The certificate of a tier for an entity called `name`, issued by the
/// certificate `parent` (itself when there is none), valid from now.
fn new_certificate(tier: u8, name: &String, role: Option<KeyOwnerRole>, parent: Option<u128>) -> (r: CertificateNode)
    requires
        tier <= 2,
    ensures
        r.certificate_type == certificate_type_of(tier),
        r.subject@ == certificate_subject(tier, name@),
        r.not_after == r.not_before + validity_days(tier) * DAY_MILLIS,
        texts(r.key_usage@) == step_key_usage(HierarchyStep { entity: 0, tier, parent: None, role }),
        match parent {
            None => r.issuer@ == r.subject@,
            Some(p) => r.issuer@ == "Parent CA "@ + uuid_text(p),
        },
{
    let id = fresh_id();
    let now = now_millis();
    let (certificate_type, subject, days) = if tier == 0 {
        let front = concat3("CN=", name.as_str(), " Root CA, O=");
        (CertificateType::RootCA, concat(front.as_str(), name.as_str()), 3650i64)
    } else if tier == 1 {
        let front = concat3("CN=", name.as_str(), " CA, OU=");
        (CertificateType::IntermediateCA, concat(front.as_str(), name.as_str()), 1825i64)
    } else {
        (CertificateType::Leaf, concat("CN=", name.as_str()), 365i64)
    };
    let issuer = match parent {
        None => subject.clone(),
        Some(p) => {
            let text = uuid_string(p);
            concat("Parent CA ", text.as_str())
        },
    };
    CertificateNode {
        id,
        certificate_type,
        subject,
        issuer,
        not_before: now,
        not_after: now + days * DAY_MILLIS,
        key_usage: key_usage_of(tier, role),
    }
}


/// Extending the generated list keeps what held of its earlier entries.
proof fn lemma_fits_after_push(
    nodes: Seq<GraphNode>,
    steps: Seq<HierarchyStep>,
    out: Seq<(CertificateNode, Position, Option<u128>)>,
    x: (CertificateNode, Position, Option<u128>),
    k: int,
)
    requires
        0 <= k < out.len(),
        certificate_fits(nodes, steps, out, k),
    ensures
        certificate_fits(nodes, steps, out.push(x), k),
{
    let o2 = out.push(x);
    assert(o2[k] == out[k]);
    match steps[k].parent {
        None => {},
        Some(p) => {
            let j = choose|j: int|
                #![trigger out[j]]
                first_step_for(steps, p, j, k) && out[k].2 == Some(out[j].0.id) && out[k].0.issuer@ == "Parent CA "@
                    + uuid_text(out[j].0.id);
            assert(o2[j] == out[j]);
        },
    }
}

/// The position of a tier, as `tier_position` gives it.
pub(crate) fn position_of_tier(tier: u8) -> (r: Position)
    ensures
        r == tier_position(tier),
{
    if tier == 0 {
        Position { x_bits: 0x43c8_0000, y_bits: 0x42c8_0000 }
    } else if tier == 1 {
        Position { x_bits: 0x43c8_0000, y_bits: 0x437a_0000 }
    } else {
        Position { x_bits: 0x43c8_0000, y_bits: 0x43c8_0000 }
    }
}

/// Adds the certificate of step `k` (tier 1 or 2, for `entity` under
/// `parent`) to the generated list, or gives the error that its parent has
/// no certificate yet.
#[verifier::spinoff_prover]
fn issue_step(
    graph: &OrganizationGraph,
    steps: Ghost<Seq<HierarchyStep>>,
    out: &mut Vec<(CertificateNode, Position, Option<u128>)>,
    issued: &mut Vec<(u128, u128)>,
    entity: u128,
    tier: u8,
    parent: u128,
    role: Option<KeyOwnerRole>,
) -> (r: Result<(), String>)
    requires
        graph.well_formed(),
        1 <= tier <= 2,
        old(out)@.len() < steps@.len(),
        old(issued)@.len() == old(out)@.len(),
        steps@[old(out)@.len() as int] == (HierarchyStep { entity, tier, parent: Some(parent), role }),
        forall|k: int|
            0 <= k < old(out)@.len() ==> #[trigger] old(issued)@[k].0 == steps@[k].entity && old(issued)@[k].1
                == old(out)@[k].0.id,
        forall|k: int| 0 <= k < old(out)@.len() ==> certificate_fits(graph.nodes@, steps@, old(out)@, k),
        forall|k: int| 0 <= k < old(out)@.len() ==> parent_ready(steps@, k),
    ensures
        match r {
            Ok(_) => {
                &&& final(out)@.len() == old(out)@.len() + 1
                &&& final(issued)@.len() == final(out)@.len()
                &&& forall|k: int|
                    0 <= k < final(out)@.len() ==> #[trigger] final(issued)@[k].0 == steps@[k].entity
                        && final(issued)@[k].1 == final(out)@[k].0.id
                &&& forall|k: int|
                    0 <= k < final(out)@.len() ==> certificate_fits(graph.nodes@, steps@, final(out)@, k)
                &&& forall|k: int| 0 <= k < final(out)@.len() ==> parent_ready(steps@, k)
            },
            Err(e) => {
                &&& first_unready(steps@, old(out)@.len() as int)
                &&& e@ == missing_parent_certificate(tier, label_for(graph.nodes@, entity))
            },
        },
{
    let ghost n = out@.len() as int;
    let name = label_of_node(graph, entity);
    match issued_for(issued, parent) {
        None => {
            proof {
                assert forall|j: int| 0 <= j < n implies steps@[j].entity != parent by {
                    assert(issued@[j].0 == steps@[j].entity);
                }
            }
            let front = if tier == 1 {
                concat("Parent certificate not found for unit: ", name.as_str())
            } else {
                concat("Parent certificate not found for person: ", name.as_str())
            };
            Err(concat(front.as_str(), ". Generate parent first."))
        },
        Some(j) => {
            let parent_certificate = issued[j].1;
            let certificate = new_certificate(tier, &name, role, Some(parent_certificate));
            let id = certificate.id;
            let ghost before = out@;
            let item = (certificate, position_of_tier(tier), Some(parent_certificate));
            proof {
                assert forall|k: int| 0 <= k < n implies certificate_fits(graph.nodes@, steps@, before.push(item), k) by {
                    lemma_fits_after_push(graph.nodes@, steps@, before, item, k);
                }
                assert(issued@[j as int].0 == steps@[j as int].entity);
                assert forall|k: int| 0 <= k < j implies steps@[k].entity != parent by {
                    assert(issued@[k].0 == steps@[k].entity);
                }
                assert(first_step_for(steps@, parent, j as int, n));
                assert(before.push(item)[j as int] == before[j as int]);
                assert(certificate_fits(graph.nodes@, steps@, before.push(item), n));
            }
            let ghost issued_before = issued@;
            out.push(item);
            issued.push((entity, id));
            proof {
                assert(parent_ready(steps@, n));
                assert(out@ == before.push(item));
                assert forall|k: int| 0 <= k < out@.len() implies #[trigger] issued@[k].0 == steps@[k].entity
                    && issued@[k].1 == out@[k].0.id by {
                    if k < n {
                        assert(issued@[k] == issued_before[k]);
                        assert(out@[k] == before[k]);
                    }
                }
            }
            Ok(())
        },
    }
}

/// The certificates of the hierarchy that the graph calls for, in
/// generation order, each with where it is drawn and the certificate that
/// issues it: a root CA for the organization, an intermediate CA for each
/// unit and a leaf certificate for each person, each issued by the
/// certificate of the entity it goes under. Without an organization, and
/// when a unit or person goes under an entity whose certificate does not
/// come before its own, the result is the error that says so. The
/// passphrase plays no part.
#[verifier::spinoff_prover]
pub fn generate_pki_from_graph(graph: &OrganizationGraph, _root_passphrase: &str) -> (r: Result<
    Vec<(CertificateNode, Position, Option<u128>)>,
    String,
>)
    requires
        graph.well_formed(),
    ensures
        match r {
            Ok(v) => {
                &&& first_of_type(graph.nodes@, NodeType::Organization) is Some
                &&& all_parents_ready(graph_steps(*graph))
                &&& v@.len() == graph_steps(*graph).len()
                &&& forall|i: int|
                    0 <= i < v@.len() ==> certificate_fits(graph.nodes@, graph_steps(*graph), v@, i)
            },
            Err(e) => match first_of_type(graph.nodes@, NodeType::Organization) {
                None => e@ == no_organization_message(),
                Some(_) => exists|i: int|
                    first_unready(graph_steps(*graph), i) && e@ == missing_parent_certificate(
                        graph_steps(*graph)[i].tier,
                        label_for(graph.nodes@, graph_steps(*graph)[i].entity),
                    ),
            },
        },
{
    let hierarchy = analyze_graph_for_pki(graph);
    let ghost steps = graph_steps(*graph);
    let org = match hierarchy.root_organization {
        None => {
            return Err(owned("No organization found in graph. Create an organization node first."));
        },
        Some(o) => o,
    };
    let ghost units = hierarchy.intermediate_units@;
    let ghost people = hierarchy.leaf_people@;
    let ghost nu = units.len() as int;
    proof {
        assert(steps.len() == 1 + nu + people.len());
        assert(steps[0] == HierarchyStep { entity: org, tier: 0, parent: None, role: None });
        assert forall|k: int| 0 <= k < nu implies #[trigger] steps[1 + k] == (HierarchyStep {
            entity: units[k].unit_id,
            tier: 1,
            parent: Some(units[k].parent_id),
            role: None,
        }) by {}
        assert forall|k: int| 0 <= k < people.len() implies #[trigger] steps[1 + nu + k] == (HierarchyStep {
            entity: people[k].person_id,
            tier: 2,
            parent: Some(people[k].parent_id),
            role: Some(people[k].role),
        }) by {}
    }
    let mut out: Vec<(CertificateNode, Position, Option<u128>)> = Vec::new();
    let mut issued: Vec<(u128, u128)> = Vec::new();
    let name = label_of_node(graph, org);
    let root = new_certificate(0, &name, None, None);
    let root_id = root.id;
    out.push((root, position_of_tier(0), None));
    issued.push((org, root_id));
    proof {
        assert(certificate_fits(graph.nodes@, steps, out@, 0));
        assert(parent_ready(steps, 0));
    }
    let mut i: usize = 0;
    while i < hierarchy.intermediate_units.len()
        invariant
            graph.well_formed(),
            steps == graph_steps(*graph),
            first_of_type(graph.nodes@, NodeType::Organization) == Some(org),
            i <= nu,
            nu == hierarchy.intermediate_units@.len(),
            units == hierarchy.intermediate_units@,
            steps.len() == 1 + nu + people.len(),
            forall|k: int| 0 <= k < nu ==> #[trigger] steps[1 + k] == (HierarchyStep {
                entity: units[k].unit_id,
                tier: 1,
                parent: Some(units[k].parent_id),
                role: None,
            }),
            out@.len() == 1 + i,
            issued@.len() == out@.len(),
            forall|k: int|
                0 <= k < out@.len() ==> #[trigger] issued@[k].0 == steps[k].entity && issued@[k].1 == out@[k].0.id,
            forall|k: int| 0 <= k < out@.len() ==> certificate_fits(graph.nodes@, steps, out@, k),
            forall|k: int| 0 <= k < out@.len() ==> parent_ready(steps, k),
        decreases nu - i,
    {
        let u = hierarchy.intermediate_units[i];
        proof {
            assert(steps[1 + i as int] == steps[out@.len() as int]);
        }
        match issue_step(graph, Ghost(steps), &mut out, &mut issued, u.unit_id, 1, u.parent_id, None) {
            Ok(_) => {},
            Err(e) => {
                proof {
                    let w = 1 + i as int;
                    assert(first_unready(steps, w) && e@ == missing_parent_certificate(
                        steps[w].tier,
                        label_for(graph.nodes@, steps[w].entity),
                    ));
                }
                return Err(e);
            },
        }
        i = i + 1;
    }
    let mut m: usize = 0;
    while m < hierarchy.leaf_people.len()
        invariant
            graph.well_formed(),
            steps == graph_steps(*graph),
            first_of_type(graph.nodes@, NodeType::Organization) == Some(org),
            m <= people.len(),
            people == hierarchy.leaf_people@,
            steps.len() == 1 + nu + people.len(),
            forall|k: int| 0 <= k < people.len() ==> #[trigger] steps[1 + nu + k] == (HierarchyStep {
                entity: people[k].person_id,
                tier: 2,
                parent: Some(people[k].parent_id),
                role: Some(people[k].role),
            }),
            out@.len() == 1 + nu + m,
            issued@.len() == out@.len(),
            forall|k: int|
                0 <= k < out@.len() ==> #[trigger] issued@[k].0 == steps[k].entity && issued@[k].1 == out@[k].0.id,
            forall|k: int| 0 <= k < out@.len() ==> certificate_fits(graph.nodes@, steps, out@, k),
            forall|k: int| 0 <= k < out@.len() ==> parent_ready(steps, k),
        decreases people.len() - m,
    {
        let p = hierarchy.leaf_people[m];
        proof {
            assert(steps[1 + nu + m as int] == steps[out@.len() as int]);
        }
        match issue_step(graph, Ghost(steps), &mut out, &mut issued, p.person_id, 2, p.parent_id, Some(p.role)) {
            Ok(_) => {},
            Err(e) => {
                proof {
                    let w = 1 + nu + m as int;
                    assert(first_unready(steps, w) && e@ == missing_parent_certificate(
                        steps[w].tier,
                        label_for(graph.nodes@, steps[w].entity),
                    ));
                }
                return Err(e);
            },
        }
        m = m + 1;
    }
    Ok(out)
}


/// Only the organization's step has no parent: with an organization, step
/// 0 is the organization's and every later step goes under some entity.
pub proof fn lemma_only_first_step_is_root(g: OrganizationGraph)
    requires
        first_of_type(g.nodes@, NodeType::Organization) is Some,
    ensures
        graph_steps(g).len() > 0,
        forall|i: int| 0 <= i < graph_steps(g).len() ==> (#[trigger] graph_steps(g)[i].parent is None <==> i == 0),
{
    let root = first_of_type(g.nodes@, NodeType::Organization);
    let units = unit_placements(g, root);
    let people = person_placements(g, root);
    let steps = graph_steps(g);
    assert(steps.len() == 1 + units.len() + people.len());
    assert forall|i: int| 0 <= i < steps.len() implies (#[trigger] steps[i].parent is None <==> i == 0) by {
        if i == 0 {
            assert(steps[0].parent is None);
        } else if i < 1 + units.len() {
            assert(steps[i].parent == Some(units[i - 1].parent_id));
        } else {
            assert(steps[i].parent == Some(people[i - 1 - units.len()].parent_id));
        }
    }
}

/// A generated certificate hierarchy has exactly one root CA: the first
/// certificate is the only one that no certificate issues.
pub proof fn lemma_one_root_certificate(g: OrganizationGraph, v: Seq<(CertificateNode, Position, Option<u128>)>)
    requires
        first_of_type(g.nodes@, NodeType::Organization) is Some,
        v.len() == graph_steps(g).len(),
        forall|i: int| 0 <= i < v.len() ==> certificate_fits(g.nodes@, graph_steps(g), v, i),
    ensures
        v.len() > 0,
        forall|i: int| 0 <= i < v.len() ==> (#[trigger] v[i].2 is None <==> i == 0),
        v[0].0.certificate_type == CertificateType::RootCA,
{
    lemma_only_first_step_is_root(g);
    let steps = graph_steps(g);
    assert forall|i: int| 0 <= i < v.len() implies (#[trigger] v[i].2 is None <==> i == 0) by {
        assert(certificate_fits(g.nodes@, steps, v, i));
        assert(steps[i].parent is None <==> i == 0);
    }
    assert(certificate_fits(g.nodes@, steps, v, 0));
    assert(steps[0].tier == 0);
}

} // verus!
