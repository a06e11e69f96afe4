//! Organization-centric and unit-centric views of the organization graph:
//! the units under an organization, its members directly and through its
//! units, the roles and policies it defines and the resources it manages;
//! and for a unit, its parent, child units, members, responsible person and
//! resources.

use std::collections::HashMap;
use vstd::prelude::*;
use crate::graph_certificate::{option_text, pair_texts};
use crate::graph_model::{
    EdgeType, GraphEdge, GraphNode, NodeData, NodeType, OrganizationGraph, get_node_type_name, node_type_name,
};
use crate::graph_pki::{find_person_key_role, lookup_node, node_with_id, person_role};
use crate::org_unit::OrganizationUnitType;
use crate::text::{concat, decimal, decimal_chars, owned};
use crate::yubikey::KeyOwnerRole;

verus! {

broadcast use vstd::std_specs::hash::group_hash_axioms;

/// Whether an edge of type `t` puts a unit under its start.
pub open spec fn is_unit_link(t: EdgeType) -> bool {
    t == EdgeType::ParentChild || t == EdgeType::ManagesUnit
}

/// The person node `id` as a member: their name and key-owner role; none
/// unless `id` is a person node.
pub open spec fn member_entry(nodes: Seq<GraphNode>, edges: Seq<GraphEdge>, id: u128) -> Option<(String, KeyOwnerRole)> {
    match node_with_id(nodes, id) {
        Some(n) => if n.node_type == NodeType::Person {
            Some((n.label, person_role(nodes, edges, id)))
        } else {
            None
        },
        None => None,
    }
}

/// What the edges of the graph say of an organization.
pub struct OrganizationLinks {
    pub child_units: Map<u128, String>,
    pub direct_members: Map<u128, (String, KeyOwnerRole)>,
    pub roles: Seq<u128>,
    pub policies: Seq<u128>,
    pub managed_resources: Seq<(u128, Seq<char>)>,
}

/// What `edges`, read in order, say of organization `id` (`all` is the
/// whole edge list, from which members' roles are read). An edge out of the
/// organization names a unit under it (with the unit's name), a role or a
/// policy it defines, or a resource it manages (with the resource's kind);
/// a membership edge into it from a person names a direct member.
pub open spec fn organization_links(
    nodes: Seq<GraphNode>,
    all: Seq<GraphEdge>,
    edges: Seq<GraphEdge>,
    id: u128,
) -> OrganizationLinks
    decreases edges.len(),
{
    if edges.len() == 0 {
        OrganizationLinks {
            child_units: Map::empty(),
            direct_members: Map::empty(),
            roles: Seq::empty(),
            policies: Seq::empty(),
            managed_resources: Seq::empty(),
        }
    } else {
        let l = organization_links(nodes, all, edges.drop_last(), id);
        let e = edges.last();
        if e.from == id {
            if is_unit_link(e.edge_type) {
                match node_with_id(nodes, e.to) {
                    Some(n) => if n.node_type == NodeType::OrganizationalUnit {
                        OrganizationLinks { child_units: l.child_units.insert(e.to, n.label), ..l }
                    } else {
                        l
                    },
                    None => l,
                }
            } else if e.edge_type == EdgeType::ManagesResource {
                match node_with_id(nodes, e.to) {
                    Some(n) => OrganizationLinks {
                        managed_resources: l.managed_resources.push((e.to, node_type_name(n.node_type))),
                        ..l
                    },
                    None => l,
                }
            } else if e.edge_type == EdgeType::DefinesRole {
                OrganizationLinks { roles: l.roles.push(e.to), ..l }
            } else if e.edge_type == EdgeType::DefinesPolicy {
                OrganizationLinks { policies: l.policies.push(e.to), ..l }
            } else {
                l
            }
        } else if e.to == id && e.edge_type == EdgeType::MemberOf {
            match member_entry(nodes, all, e.from) {
                Some(m) => OrganizationLinks { direct_members: l.direct_members.insert(e.from, m), ..l },
                None => l,
            }
        } else {
            l
        }
    }
}

/// The members of the units in `units`, read from `edges` in order: each
/// person with a membership edge into one of them, with their name, role
/// and the unit of their latest such edge.
pub open spec fn indirect_members_of(
    nodes: Seq<GraphNode>,
    all: Seq<GraphEdge>,
    edges: Seq<GraphEdge>,
    units: Set<u128>,
) -> Map<u128, (String, KeyOwnerRole, u128)>
    decreases edges.len(),
{
    if edges.len() == 0 {
        Map::empty()
    } else {
        let m = indirect_members_of(nodes, all, edges.drop_last(), units);
        let e = edges.last();
        if e.edge_type == EdgeType::MemberOf && units.contains(e.to) {
            match member_entry(nodes, all, e.from) {
                Some(p) => m.insert(e.from, (p.0, p.1, e.to)),
                None => m,
            }
        } else {
            m
        }
    }
}

/// An organization-centric view of the graph.
pub struct OrganizationAnalysis {
    pub organization_id: u128,
    /// The organization's name, the label of its node.
    pub name: String,
    /// Units directly under the organization, with their names.
    pub child_units: HashMap<u128, String>,
    /// Members of the organization itself, with name and role.
    pub direct_members: HashMap<u128, (String, KeyOwnerRole)>,
    /// Members of its units, with name, role and unit.
    pub indirect_members: HashMap<u128, (String, KeyOwnerRole, u128)>,
    pub roles: Vec<u128>,
    pub policies: Vec<u128>,
    /// (resource, its kind) for each resource the organization manages.
    pub managed_resources: Vec<(u128, String)>,
}

/// What an organization analysis holds.
pub struct OrganizationAnalysisView {
    pub organization_id: u128,
    pub name: Seq<char>,
    pub links: OrganizationLinks,
    pub indirect_members: Map<u128, (String, KeyOwnerRole, u128)>,
}

impl View for OrganizationAnalysis {
    type V = OrganizationAnalysisView;

    open spec fn view(&self) -> OrganizationAnalysisView {
        OrganizationAnalysisView {
            organization_id: self.organization_id,
            name: self.name@,
            links: OrganizationLinks {
                child_units: self.child_units@,
                direct_members: self.direct_members@,
                roles: self.roles@,
                policies: self.policies@,
                managed_resources: pair_texts(self.managed_resources@),
            },
            indirect_members: self.indirect_members@,
        }
    }
}

/// The analysis of organization `id`: none unless the graph has an
/// organization node with that identifier.
pub open spec fn organization_analysis(g: OrganizationGraph, id: u128) -> Option<OrganizationAnalysisView> {
    match node_with_id(g.nodes@, id) {
        Some(n) => if n.node_type == NodeType::Organization {
            let l = organization_links(g.nodes@, g.edges@, g.edges@, id);
            Some(
                OrganizationAnalysisView {
                    organization_id: id,
                    name: n.label@,
                    links: l,
                    indirect_members: indirect_members_of(g.nodes@, g.edges@, g.edges@, l.child_units.dom()),
                },
            )
        } else {
            None
        },
        None => None,
    }
}

/// "Acme: 2 units, 5 members, 1 roles, 0 policies".
pub open spec fn organization_summary(a: OrganizationAnalysisView) -> Seq<char> {
    a.name + ": "@ + decimal_chars(a.links.child_units.dom().len()) + " units, "@ + decimal_chars(
        a.links.direct_members.dom().len() + a.indirect_members.dom().len(),
    ) + " members, "@ + decimal_chars(a.links.roles.len()) + " roles, "@ + decimal_chars(a.links.policies.len())
        + " policies"@
}

/// The person node `id` as a member, if it is one.
fn member_of(graph: &OrganizationGraph, id: u128) -> (r: Option<(String, KeyOwnerRole)>)
    requires
        graph.well_formed(),
    ensures
        r == member_entry(graph.nodes@, graph.edges@, id),
{
    match lookup_node(graph, id) {
        Some(n) => if n.node_type == NodeType::Person {
            Some((n.label.clone(), find_person_key_role(id, graph)))
        } else {
            None
        },
        None => None,
    }
}

impl OrganizationAnalysis {
    /// The analysis of organization `organization_id`, or none where the
    /// graph has no organization node of that identifier.
    pub fn analyze(graph: &OrganizationGraph, organization_id: u128) -> (r: Option<OrganizationAnalysis>)
        requires
            graph.well_formed(),
        ensures
            match r {
                Some(a) => organization_analysis(*graph, organization_id) == Some(a@),
                None => organization_analysis(*graph, organization_id) is None,
            },
    {
        let node = match lookup_node(graph, organization_id) {
            Some(n) => n,
            None => return None,
        };
        if node.node_type != NodeType::Organization {
            return None;
        }
        let name = node.label.clone();
        let mut child_units: HashMap<u128, String> = HashMap::new();
        let mut direct_members: HashMap<u128, (String, KeyOwnerRole)> = HashMap::new();
        let mut roles: Vec<u128> = Vec::new();
        let mut policies: Vec<u128> = Vec::new();
        let mut managed_resources: Vec<(u128, String)> = Vec::new();
        let ghost nodes = graph.nodes@;
        let ghost edges = graph.edges@;
        let mut i: usize = 0;
        while i < graph.edges.len()
            invariant
                graph.well_formed(),
                nodes == graph.nodes@,
                edges == graph.edges@,
                i <= edges.len(),
                ({
                    let l = organization_links(nodes, edges, edges.take(i as int), organization_id);
                    &&& child_units@ == l.child_units
                    &&& direct_members@ == l.direct_members
                    &&& roles@ == l.roles
                    &&& policies@ == l.policies
                    &&& pair_texts(managed_resources@) == l.managed_resources
                }),
            decreases edges.len() - i,
        {
            let e = graph.edges[i];
            proof {
                assert(edges.take(i + 1).drop_last() =~= edges.take(i as int));
                assert(edges.take(i + 1).last() == e);
            }
            if e.from == organization_id {
                if e.edge_type == EdgeType::ParentChild || e.edge_type == EdgeType::ManagesUnit {
                    match lookup_node(graph, e.to) {
                        Some(n) => {
                            if n.node_type == NodeType::OrganizationalUnit {
                                child_units.insert(e.to, n.label.clone());
                            }
                        },
                        None => {},
                    }
                } else if e.edge_type == EdgeType::ManagesResource {
                    match lookup_node(graph, e.to) {
                        Some(n) => {
                            let item = (e.to, owned(get_node_type_name(&n.node_type)));
                            proof {
                                assert(pair_texts(managed_resources@.push(item)) =~= pair_texts(
                                    managed_resources@,
                                ).push((item.0, item.1@)));
                            }
                            managed_resources.push(item);
                        },
                        None => {},
                    }
                } else if e.edge_type == EdgeType::DefinesRole {
                    roles.push(e.to);
                } else if e.edge_type == EdgeType::DefinesPolicy {
                    policies.push(e.to);
                }
            } else if e.to == organization_id && e.edge_type == EdgeType::MemberOf {
                match member_of(graph, e.from) {
                    Some(m) => {
                        direct_members.insert(e.from, m);
                    },
                    None => {},
                }
            }
            i = i + 1;
        }
        proof {
            assert(edges.take(edges.len() as int) =~= edges);
        }
        let mut indirect_members: HashMap<u128, (String, KeyOwnerRole, u128)> = HashMap::new();
        let mut j: usize = 0;
        while j < graph.edges.len()
            invariant
                graph.well_formed(),
                nodes == graph.nodes@,
                edges == graph.edges@,
                j <= edges.len(),
                indirect_members@ == indirect_members_of(nodes, edges, edges.take(j as int), child_units@.dom()),
            decreases edges.len() - j,
        {
            let e = graph.edges[j];
            proof {
                assert(edges.take(j + 1).drop_last() =~= edges.take(j as int));
                assert(edges.take(j + 1).last() == e);
            }
            if e.edge_type == EdgeType::MemberOf && child_units.contains_key(&e.to) {
                match member_of(graph, e.from) {
                    Some(m) => {
                        indirect_members.insert(e.from, (m.0, m.1, e.to));
                    },
                    None => {},
                }
            }
            j = j + 1;
        }
        proof {
            assert(edges.take(edges.len() as int) =~= edges);
        }
        Some(
            OrganizationAnalysis {
                organization_id,
                name,
                child_units,
                direct_members,
                indirect_members,
                roles,
                policies,
                managed_resources,
            },
        )
    }

    /// Direct and indirect members together.
    pub fn total_member_count(&self) -> (r: usize)
        requires
            self@.links.direct_members.dom().len() + self@.indirect_members.dom().len() <= usize::MAX,
        ensures
            r == self@.links.direct_members.dom().len() + self@.indirect_members.dom().len(),
    {
        self.direct_members.len() + self.indirect_members.len()
    }

    /// A line that describes the organization.
    pub fn summary(&self) -> (r: String)
        requires
            self@.links.direct_members.dom().len() + self@.indirect_members.dom().len() <= usize::MAX,
        ensures
            r@ == organization_summary(self@),
    {
        let a = concat(self.name.as_str(), ": ");
        let n1 = decimal(self.child_units.len());
        let b = concat(a.as_str(), n1.as_str());
        let c = concat(b.as_str(), " units, ");
        let n2 = decimal(self.total_member_count());
        let d = concat(c.as_str(), n2.as_str());
        let f = concat(d.as_str(), " members, ");
        let n3 = decimal(self.roles.len());
        let g = concat(f.as_str(), n3.as_str());
        let h = concat(g.as_str(), " roles, ");
        let n4 = decimal(self.policies.len());
        let k = concat(h.as_str(), n4.as_str());
        let r = concat(k.as_str(), " policies");
        proof {
            assert(r@ =~= organization_summary(self@));
        }
        r
    }
}

/// What the edges of the graph say of a unit.
pub struct UnitLinks {
    pub parent_id: Option<u128>,
    pub parent_type: Option<Seq<char>>,
    pub child_units: Map<u128, String>,
    pub members: Map<u128, (String, KeyOwnerRole)>,
    pub responsible_person: Option<(u128, String)>,
    pub managed_resources: Seq<(u128, Seq<char>)>,
}

/// What `edges`, read in order, say of unit `id` (`all` is the whole edge
/// list, from which members' roles are read). A unit link into the unit
/// names its parent (the latest wins, with the parent's kind where its node
/// exists); a membership edge into it from a person names a member; a
/// responsibility edge into it from a person names the responsible person
/// (the latest wins). A unit link out of it names a child unit, and a
/// management edge out of it a resource (with its kind).
pub open spec fn unit_links(nodes: Seq<GraphNode>, all: Seq<GraphEdge>, edges: Seq<GraphEdge>, id: u128) -> UnitLinks
    decreases edges.len(),
{
    if edges.len() == 0 {
        UnitLinks {
            parent_id: None,
            parent_type: None,
            child_units: Map::empty(),
            members: Map::empty(),
            responsible_person: None,
            managed_resources: Seq::empty(),
        }
    } else {
        let l = unit_links(nodes, all, edges.drop_last(), id);
        let e = edges.last();
        if e.to == id {
            if is_unit_link(e.edge_type) {
                UnitLinks {
                    parent_id: Some(e.from),
                    parent_type: match node_with_id(nodes, e.from) {
                        Some(n) => Some(node_type_name(n.node_type)),
                        None => l.parent_type,
                    },
                    ..l
                }
            } else if e.edge_type == EdgeType::MemberOf {
                match member_entry(nodes, all, e.from) {
                    Some(m) => UnitLinks { members: l.members.insert(e.from, m), ..l },
                    None => l,
                }
            } else if e.edge_type == EdgeType::ResponsibleFor {
                match node_with_id(nodes, e.from) {
                    Some(n) => if n.node_type == NodeType::Person {
                        UnitLinks { responsible_person: Some((e.from, n.label)), ..l }
                    } else {
                        l
                    },
                    None => l,
                }
            } else {
                l
            }
        } else if e.from == id {
            if is_unit_link(e.edge_type) {
                match node_with_id(nodes, e.to) {
                    Some(n) => if n.node_type == NodeType::OrganizationalUnit {
                        UnitLinks { child_units: l.child_units.insert(e.to, n.label), ..l }
                    } else {
                        l
                    },
                    None => l,
                }
            } else if e.edge_type == EdgeType::ManagesResource {
                match node_with_id(nodes, e.to) {
                    Some(n) => UnitLinks {
                        managed_resources: l.managed_resources.push((e.to, node_type_name(n.node_type))),
                        ..l
                    },
                    None => l,
                }
            } else {
                l
            }
        } else {
            l
        }
    }
}

/// A unit-centric view of the graph.
pub struct OrganizationalUnitAnalysis {
    pub unit_id: u128,
    /// The unit's name, the label of its node.
    pub name: String,
    pub unit_type: OrganizationUnitType,
    pub parent_id: Option<u128>,
    /// The kind of the parent's node, e.g. "Organization".
    pub parent_type: Option<String>,
    /// Units directly under this one, with their names.
    pub child_units: HashMap<u128, String>,
    /// Members, with name and role.
    pub members: HashMap<u128, (String, KeyOwnerRole)>,
    /// The person responsible for the unit, with their name.
    pub responsible_person: Option<(u128, String)>,
    /// (resource, its kind) for each resource the unit manages.
    pub managed_resources: Vec<(u128, String)>,
}

/// What a unit analysis holds.
pub struct OrganizationalUnitAnalysisView {
    pub unit_id: u128,
    pub name: Seq<char>,
    pub unit_type: OrganizationUnitType,
    pub links: UnitLinks,
}

impl View for OrganizationalUnitAnalysis {
    type V = OrganizationalUnitAnalysisView;

    open spec fn view(&self) -> OrganizationalUnitAnalysisView {
        OrganizationalUnitAnalysisView {
            unit_id: self.unit_id,
            name: self.name@,
            unit_type: self.unit_type,
            links: UnitLinks {
                parent_id: self.parent_id,
                parent_type: option_text(self.parent_type),
                child_units: self.child_units@,
                members: self.members@,
                responsible_person: self.responsible_person,
                managed_resources: pair_texts(self.managed_resources@),
            },
        }
    }
}

/// The analysis of unit `id`: none unless the graph has a unit node with
/// that identifier that records its kind.
pub open spec fn unit_analysis(g: OrganizationGraph, id: u128) -> Option<OrganizationalUnitAnalysisView> {
    match node_with_id(g.nodes@, id) {
        Some(n) => match n.data {
            NodeData::Unit { unit_type } => if n.node_type == NodeType::OrganizationalUnit {
                Some(
                    OrganizationalUnitAnalysisView {
                        unit_id: id,
                        name: n.label@,
                        unit_type,
                        links: unit_links(g.nodes@, g.edges@, g.edges@, id),
                    },
                )
            } else {
                None
            },
            _ => None,
        },
        None => None,
    }
}

/// The name of a unit kind.
pub open spec fn unit_type_name(t: OrganizationUnitType) -> Seq<char> {
    match t {
        OrganizationUnitType::Division => "Division"@,
        OrganizationUnitType::Department => "Department"@,
        OrganizationUnitType::Team => "Team"@,
        OrganizationUnitType::Project => "Project"@,
        OrganizationUnitType::Service => "Service"@,
        OrganizationUnitType::Infrastructure => "Infrastructure"@,
    }
}

/// "Platform (Team): 4 members, 1 child units, 2 resources".
pub open spec fn unit_summary(a: OrganizationalUnitAnalysisView) -> Seq<char> {
    a.name + " ("@ + unit_type_name(a.unit_type) + "): "@ + decimal_chars(a.links.members.dom().len())
        + " members, "@ + decimal_chars(a.links.child_units.dom().len()) + " child units, "@ + decimal_chars(
        a.links.managed_resources.len(),
    ) + " resources"@
}

impl OrganizationalUnitAnalysis {
    /// The analysis of unit `unit_id`, or none where the graph has no unit
    /// node of that identifier that records its kind.
    pub fn analyze(graph: &OrganizationGraph, unit_id: u128) -> (r: Option<OrganizationalUnitAnalysis>)
        requires
            graph.well_formed(),
        ensures
            match r {
                Some(a) => unit_analysis(*graph, unit_id) == Some(a@),
                None => unit_analysis(*graph, unit_id) is None,
            },
    {
        let node = match lookup_node(graph, unit_id) {
            Some(n) => n,
            None => return None,
        };
        let unit_type = match node.data {
            NodeData::Unit { unit_type } => unit_type,
            _ => return None,
        };
        if node.node_type != NodeType::OrganizationalUnit {
            return None;
        }
        let name = node.label.clone();
        let mut parent_id: Option<u128> = None;
        let mut parent_type: Option<String> = None;
        let mut child_units: HashMap<u128, String> = HashMap::new();
        let mut members: HashMap<u128, (String, KeyOwnerRole)> = HashMap::new();
        let mut responsible_person: Option<(u128, String)> = None;
        let mut managed_resources: Vec<(u128, String)> = Vec::new();
        let ghost nodes = graph.nodes@;
        let ghost edges = graph.edges@;
        let mut i: usize = 0;
        while i < graph.edges.len()
            invariant
                graph.well_formed(),
                nodes == graph.nodes@,
                edges == graph.edges@,
                i <= edges.len(),
                ({
                    let l = unit_links(nodes, edges, edges.take(i as int), unit_id);
                    &&& parent_id == l.parent_id
                    &&& option_text(parent_type) == l.parent_type
                    &&& child_units@ == l.child_units
                    &&& members@ == l.members
                    &&& responsible_person == l.responsible_person
                    &&& pair_texts(managed_resources@) == l.managed_resources
                }),
            decreases edges.len() - i,
        {
            let e = graph.edges[i];
            proof {
                assert(edges.take(i + 1).drop_last() =~= edges.take(i as int));
                assert(edges.take(i + 1).last() == e);
            }
            let unit_link = e.edge_type == EdgeType::ParentChild || e.edge_type == EdgeType::ManagesUnit;
            if e.to == unit_id {
                if unit_link {
                    parent_id = Some(e.from);
                    match lookup_node(graph, e.from) {
                        Some(n) => {
                            parent_type = Some(owned(get_node_type_name(&n.node_type)));
                        },
                        None => {},
                    }
                } else if e.edge_type == EdgeType::MemberOf {
                    match member_of(graph, e.from) {
                        Some(m) => {
                            members.insert(e.from, m);
                        },
                        None => {},
                    }
                } else if e.edge_type == EdgeType::ResponsibleFor {
                    match lookup_node(graph, e.from) {
                        Some(n) => {
                            if n.node_type == NodeType::Person {
                                responsible_person = Some((e.from, n.label.clone()));
                            }
                        },
                        None => {},
                    }
                }
            } else if e.from == unit_id {
                if unit_link {
                    match lookup_node(graph, e.to) {
                        Some(n) => {
                            if n.node_type == NodeType::OrganizationalUnit {
                                child_units.insert(e.to, n.label.clone());
                            }
                        },
                        None => {},
                    }
                } else if e.edge_type == EdgeType::ManagesResource {
                    match lookup_node(graph, e.to) {
                        Some(n) => {
                            let item = (e.to, owned(get_node_type_name(&n.node_type)));
                            proof {
                                assert(pair_texts(managed_resources@.push(item)) =~= pair_texts(
                                    managed_resources@,
                                ).push((item.0, item.1@)));
                            }
                            managed_resources.push(item);
                        },
                        None => {},
                    }
                }
            }
            i = i + 1;
        }
        proof {
            assert(edges.take(edges.len() as int) =~= edges);
        }
        Some(
            OrganizationalUnitAnalysis {
                unit_id,
                name,
                unit_type,
                parent_id,
                parent_type,
                child_units,
                members,
                responsible_person,
                managed_resources,
            },
        )
    }

    /// A line that describes the unit.
    pub fn summary(&self) -> (r: String)
        ensures
            r@ == unit_summary(self@),
    {
        let kind = match self.unit_type {
            OrganizationUnitType::Division => "Division",
            OrganizationUnitType::Department => "Department",
            OrganizationUnitType::Team => "Team",
            OrganizationUnitType::Project => "Project",
            OrganizationUnitType::Service => "Service",
            OrganizationUnitType::Infrastructure => "Infrastructure",
        };
        let a = concat(self.name.as_str(), " (");
        let b = concat(a.as_str(), kind);
        let c = concat(b.as_str(), "): ");
        let n1 = decimal(self.members.len());
        let d = concat(c.as_str(), n1.as_str());
        let f = concat(d.as_str(), " members, ");
        let n2 = decimal(self.child_units.len());
        let g = concat(f.as_str(), n2.as_str());
        let h = concat(g.as_str(), " child units, ");
        let n3 = decimal(self.managed_resources.len());
        let k = concat(h.as_str(), n3.as_str());
        let r = concat(k.as_str(), " resources");
        proof {
            assert(r@ =~= unit_summary(self@));
        }
        r
    }
}

} // verus!
