//! Person-centric view of the organization graph: for a selected person,
//! their roles, keys, key delegations, YubiKeys, certificates and NATS
//! users.

use std::collections::HashMap;
use vstd::prelude::*;
use crate::graph_model::{EdgeType, GraphEdge, GraphNode, NodeType, OrganizationGraph};
use crate::graph_pki::{find_person_key_role, lookup_node, node_with_id, person_role};
use crate::text::{concat, decimal, decimal_chars};
use crate::yubikey::KeyOwnerRole;

verus! {

broadcast use vstd::std_specs::hash::group_hash_axioms;

/// What the edges of the graph say of a person.
pub struct PersonLinks {
    pub roles: Seq<u128>,
    pub owned_keys: Map<u128, String>,
    pub delegations_from: Seq<u128>,
    pub delegations_to: Seq<u128>,
    pub yubikeys: Seq<u128>,
    pub certificates: Seq<u128>,
    pub nats_users: Seq<u128>,
}

/// What `edges`, read in order, say of person `id`. An edge out of the
/// person names a role they hold, a key they own (with the key's label,
/// where its node exists), a person they delegate keys to or a YubiKey they
/// own; an edge into the person names a person who delegates keys to them,
/// a certificate issued to them or a NATS user that stands for them.
pub open spec fn person_links(nodes: Seq<GraphNode>, edges: Seq<GraphEdge>, id: u128) -> PersonLinks
    decreases edges.len(),
{
    if edges.len() == 0 {
        PersonLinks {
            roles: Seq::empty(),
            owned_keys: Map::empty(),
            delegations_from: Seq::empty(),
            delegations_to: Seq::empty(),
            yubikeys: Seq::empty(),
            certificates: Seq::empty(),
            nats_users: Seq::empty(),
        }
    } else {
        let l = person_links(nodes, edges.drop_last(), id);
        let e = edges.last();
        if e.from == id {
            match e.edge_type {
                EdgeType::HasRole => PersonLinks { roles: l.roles.push(e.to), ..l },
                EdgeType::OwnsKey => match node_with_id(nodes, e.to) {
                    Some(n) => PersonLinks { owned_keys: l.owned_keys.insert(e.to, n.label), ..l },
                    None => l,
                },
                EdgeType::DelegatesKey => PersonLinks { delegations_from: l.delegations_from.push(e.to), ..l },
                EdgeType::OwnsYubiKey => PersonLinks { yubikeys: l.yubikeys.push(e.to), ..l },
                _ => l,
            }
        } else if e.to == id {
            match e.edge_type {
                EdgeType::DelegatesKey => PersonLinks { delegations_to: l.delegations_to.push(e.from), ..l },
                EdgeType::IssuedTo => PersonLinks { certificates: l.certificates.push(e.from), ..l },
                EdgeType::MapsToPerson => PersonLinks { nats_users: l.nats_users.push(e.from), ..l },
                _ => l,
            }
        } else {
            l
        }
    }
}

/// A person-centric view of the graph.
pub struct PersonAnalysis {
    pub person_id: u128,
    /// The person's name, the label of their node.
    pub name: String,
    /// The key-owner role that their roles give them.
    pub role: KeyOwnerRole,
    /// Role nodes the person holds.
    pub roles: Vec<u128>,
    /// Keys the person owns, with each key's label.
    pub owned_keys: HashMap<u128, String>,
    /// People this person delegates keys to.
    pub delegations_from: Vec<u128>,
    /// People who delegate keys to this person.
    pub delegations_to: Vec<u128>,
    pub yubikeys: Vec<u128>,
    /// Certificates issued to the person.
    pub certificates: Vec<u128>,
    /// NATS users that stand for the person.
    pub nats_users: Vec<u128>,
}

/// What a person analysis holds.
pub struct PersonAnalysisView {
    pub person_id: u128,
    pub name: Seq<char>,
    pub role: KeyOwnerRole,
    pub links: PersonLinks,
}

impl View for PersonAnalysis {
    type V = PersonAnalysisView;

    open spec fn view(&self) -> PersonAnalysisView {
        PersonAnalysisView {
            person_id: self.person_id,
            name: self.name@,
            role: self.role,
            links: PersonLinks {
                roles: self.roles@,
                owned_keys: self.owned_keys@,
                delegations_from: self.delegations_from@,
                delegations_to: self.delegations_to@,
                yubikeys: self.yubikeys@,
                certificates: self.certificates@,
                nats_users: self.nats_users@,
            },
        }
    }
}

/// The analysis of person `id`: none unless the graph has a person node
/// with that identifier.
pub open spec fn person_analysis(g: OrganizationGraph, id: u128) -> Option<PersonAnalysisView> {
    match node_with_id(g.nodes@, id) {
        Some(n) => if n.node_type == NodeType::Person {
            Some(
                PersonAnalysisView {
                    person_id: id,
                    name: n.label@,
                    role: person_role(g.nodes@, g.edges@, id),
                    links: person_links(g.nodes@, g.edges@, id),
                },
            )
        } else {
            None
        },
        None => None,
    }
}

/// "Alice: 1 roles, 2 keys, 0 delegations, 1 YubiKeys, 0 certificates".
pub open spec fn person_summary(a: PersonAnalysisView) -> Seq<char> {
    a.name + ": "@ + decimal_chars(a.links.roles.len()) + " roles, "@ + decimal_chars(
        a.links.owned_keys.dom().len(),
    ) + " keys, "@ + decimal_chars(a.links.delegations_from.len() + a.links.delegations_to.len())
        + " delegations, "@ + decimal_chars(a.links.yubikeys.len()) + " YubiKeys, "@ + decimal_chars(
        a.links.certificates.len(),
    ) + " certificates"@
}

impl PersonAnalysis {
    /// The analysis of person `person_id`, or none where the graph has no
    /// person node of that identifier.
    pub fn analyze(graph: &OrganizationGraph, person_id: u128) -> (r: Option<PersonAnalysis>)
        requires
            graph.well_formed(),
        ensures
            match r {
                Some(a) => person_analysis(*graph, person_id) == Some(a@),
                None => person_analysis(*graph, person_id) is None,
            },
    {
        let node = match lookup_node(graph, person_id) {
            Some(n) => n,
            None => return None,
        };
        if node.node_type != NodeType::Person {
            return None;
        }
        let name = node.label.clone();
        let role = find_person_key_role(person_id, graph);
        let mut roles: Vec<u128> = Vec::new();
        let mut owned_keys: HashMap<u128, String> = HashMap::new();
        let mut delegations_from: Vec<u128> = Vec::new();
        let mut delegations_to: Vec<u128> = Vec::new();
        let mut yubikeys: Vec<u128> = Vec::new();
        let mut certificates: Vec<u128> = Vec::new();
        let mut nats_users: Vec<u128> = Vec::new();
        let ghost nodes = graph.nodes@;
        let ghost edges = graph.edges@;
        let mut i: usize = 0;
        while i < graph.edges.len()
            invariant
                graph.well_formed(),
                nodes == graph.nodes@,
                edges == graph.edges@,
                i <= edges.len(),
                ({
                    let l = person_links(nodes, edges.take(i as int), person_id);
                    &&& roles@ == l.roles
                    &&& owned_keys@ == l.owned_keys
                    &&& delegations_from@ == l.delegations_from
                    &&& delegations_to@ == l.delegations_to
                    &&& yubikeys@ == l.yubikeys
                    &&& certificates@ == l.certificates
                    &&& nats_users@ == l.nats_users
                }),
            decreases edges.len() - i,
        {
            let e = graph.edges[i];
            proof {
                assert(edges.take(i + 1).drop_last() =~= edges.take(i as int));
                assert(edges.take(i + 1).last() == e);
            }
            if e.from == person_id {
                match e.edge_type {
                    EdgeType::HasRole => {
                        roles.push(e.to);
                    },
                    EdgeType::OwnsKey => {
                        match lookup_node(graph, e.to) {
                            Some(n) => {
                                owned_keys.insert(e.to, n.label.clone());
                            },
                            None => {},
                        }
                    },
                    EdgeType::DelegatesKey => {
                        delegations_from.push(e.to);
                    },
                    EdgeType::OwnsYubiKey => {
                        yubikeys.push(e.to);
                    },
                    _ => {},
                }
            } else if e.to == person_id {
                match e.edge_type {
                    EdgeType::DelegatesKey => {
                        delegations_to.push(e.from);
                    },
                    EdgeType::IssuedTo => {
                        certificates.push(e.from);
                    },
                    EdgeType::MapsToPerson => {
                        nats_users.push(e.from);
                    },
                    _ => {},
                }
            }
            i = i + 1;
        }
        proof {
            assert(edges.take(edges.len() as int) =~= edges);
        }
        Some(
            PersonAnalysis {
                person_id,
                name,
                role,
                roles,
                owned_keys,
                delegations_from,
                delegations_to,
                yubikeys,
                certificates,
                nats_users,
            },
        )
    }

    /// A line that describes the person.
    pub fn summary(&self) -> (r: String)
        requires
            self.delegations_from@.len() + self.delegations_to@.len() <= usize::MAX,
        ensures
            r@ == person_summary(self@),
    {
        let a = concat(self.name.as_str(), ": ");
        let n1 = decimal(self.roles.len());
        let b = concat(a.as_str(), n1.as_str());
        let c = concat(b.as_str(), " roles, ");
        let n2 = decimal(self.owned_keys.len());
        let d = concat(c.as_str(), n2.as_str());
        let f = concat(d.as_str(), " keys, ");
        let n3 = decimal(self.delegations_from.len() + self.delegations_to.len());
        let g = concat(f.as_str(), n3.as_str());
        let h = concat(g.as_str(), " delegations, ");
        let n4 = decimal(self.yubikeys.len());
        let k = concat(h.as_str(), n4.as_str());
        let m = concat(k.as_str(), " YubiKeys, ");
        let n5 = decimal(self.certificates.len());
        let p = concat(m.as_str(), n5.as_str());
        let r = concat(p.as_str(), " certificates");
        proof {
            assert(r@ =~= person_summary(self@));
        }
        r
    }
}

} // verus!
