//! Location-centric view of the organization graph: for a selected
//! location, the keys, certificates and YubiKeys stored there, who may enter
//! it and which units manage it.

use std::collections::HashMap;
use vstd::prelude::*;
use crate::graph_certificate::certificate_kind;
use crate::graph_model::{EdgeType, GraphEdge, GraphNode, NodeData, NodeType, OrganizationGraph, has_node};
use crate::graph_pki::{lookup_node, node_with_id};
use crate::text::{concat, decimal, decimal_chars, owned};

verus! {

broadcast use vstd::std_specs::hash::group_hash_axioms;

/// What the edges of the graph say of a location.
pub struct LocationLinks {
    pub stored_keys: Map<u128, String>,
    pub stored_certificates: Seq<u128>,
    pub stored_yubikeys: Seq<u128>,
    pub access_permissions: Map<u128, Seq<char>>,
    pub managing_units: Seq<u128>,
}

/// What `edges`, read in order, say of location `id`. A storage edge into
/// the location names, by the kind of the stored node, a key (with its
/// purpose), a certificate or a YubiKey; an access edge into it from an
/// existing node grants full access; an edge out of it names a unit that
/// manages it.
pub open spec fn location_links(nodes: Seq<GraphNode>, edges: Seq<GraphEdge>, id: u128) -> LocationLinks
    decreases edges.len(),
{
    if edges.len() == 0 {
        LocationLinks {
            stored_keys: Map::empty(),
            stored_certificates: Seq::empty(),
            stored_yubikeys: Seq::empty(),
            access_permissions: Map::empty(),
            managing_units: Seq::empty(),
        }
    } else {
        let l = location_links(nodes, edges.drop_last(), id);
        let e = edges.last();
        if e.to == id {
            match e.edge_type {
                EdgeType::StoredAt => match node_with_id(nodes, e.from) {
                    Some(n) => match n.data {
                        NodeData::Key { purpose, .. } => LocationLinks {
                            stored_keys: l.stored_keys.insert(e.from, purpose),
                            ..l
                        },
                        _ => if certificate_kind(n.node_type) is Some {
                            LocationLinks { stored_certificates: l.stored_certificates.push(e.from), ..l }
                        } else if n.node_type == NodeType::YubiKey {
                            LocationLinks { stored_yubikeys: l.stored_yubikeys.push(e.from), ..l }
                        } else {
                            l
                        },
                    },
                    None => l,
                },
                EdgeType::HasAccess => if has_node(nodes, e.from) {
                    LocationLinks { access_permissions: l.access_permissions.insert(e.from, "Full Access"@), ..l }
                } else {
                    l
                },
                _ => l,
            }
        } else if e.from == id && e.edge_type == EdgeType::ManagedBy {
            LocationLinks { managing_units: l.managing_units.push(e.to), ..l }
        } else {
            l
        }
    }
}

/// Whether `edges` hold an access edge from node `person` into location
/// `id`.
pub open spec fn grants_access(edges: Seq<GraphEdge>, id: u128, person: u128) -> bool {
    exists|k: int|
        0 <= k < edges.len() && (#[trigger] edges[k]).to == id && edges[k].from == person && edges[k].edge_type
            == EdgeType::HasAccess
}

/// Access is what the graph grants: a person appears among the access
/// permissions of a location exactly when their node exists and an access
/// edge leads from it to the location.
pub proof fn lemma_access_is_granted(nodes: Seq<GraphNode>, edges: Seq<GraphEdge>, id: u128, person: u128)
    ensures
        location_links(nodes, edges, id).access_permissions.contains_key(person) <==> (has_node(nodes, person)
            && grants_access(edges, id, person)),
    decreases edges.len(),
{
    if edges.len() > 0 {
        let front = edges.drop_last();
        let e = edges.last();
        lemma_access_is_granted(nodes, front, id, person);
        if grants_access(front, id, person) {
            let k = choose|k: int|
                0 <= k < front.len() && (#[trigger] front[k]).to == id && front[k].from == person
                    && front[k].edge_type == EdgeType::HasAccess;
            assert(edges[k] == front[k]);
        }
        if grants_access(edges, id, person) && !grants_access(front, id, person) {
            let k = choose|k: int|
                0 <= k < edges.len() && (#[trigger] edges[k]).to == id && edges[k].from == person
                    && edges[k].edge_type == EdgeType::HasAccess;
            if k < front.len() {
                assert(front[k] == edges[k]);
            }
        }
        if e.to == id && e.from == person && e.edge_type == EdgeType::HasAccess {
            assert(edges[edges.len() - 1] == e);
        }
    }
}

/// The texts of the values of a map.
pub open spec fn map_texts(m: Map<u128, String>) -> Map<u128, Seq<char>> {
    m.map_values(|s: String| s@)
}

/// A location-centric view of the graph.
pub struct LocationAnalysis {
    pub location_id: u128,
    /// The location's name, the label of its node.
    pub name: String,
    /// Keys stored here, with each key's purpose.
    pub stored_keys: HashMap<u128, String>,
    pub stored_certificates: Vec<u128>,
    pub stored_yubikeys: Vec<u128>,
    /// People who may enter, with their access level.
    pub access_permissions: HashMap<u128, String>,
    /// Units that manage the location.
    pub managing_units: Vec<u128>,
}

/// What a location analysis holds.
pub struct LocationAnalysisView {
    pub location_id: u128,
    pub name: Seq<char>,
    pub links: LocationLinks,
}

impl View for LocationAnalysis {
    type V = LocationAnalysisView;

    open spec fn view(&self) -> LocationAnalysisView {
        LocationAnalysisView {
            location_id: self.location_id,
            name: self.name@,
            links: LocationLinks {
                stored_keys: self.stored_keys@,
                stored_certificates: self.stored_certificates@,
                stored_yubikeys: self.stored_yubikeys@,
                access_permissions: map_texts(self.access_permissions@),
                managing_units: self.managing_units@,
            },
        }
    }
}

/// The analysis of location `id`: none unless the graph has a location
/// node with that identifier.
pub open spec fn location_analysis(g: OrganizationGraph, id: u128) -> Option<LocationAnalysisView> {
    match node_with_id(g.nodes@, id) {
        Some(n) => if n.node_type == NodeType::Location {
            Some(LocationAnalysisView { location_id: id, name: n.label@, links: location_links(g.nodes@, g.edges@, id) })
        } else {
            None
        },
        None => None,
    }
}

/// "Vault: 2 keys, 1 certs, 0 YubiKeys, 3 access grants".
pub open spec fn location_summary(a: LocationAnalysisView) -> Seq<char> {
    a.name + ": "@ + decimal_chars(a.links.stored_keys.dom().len()) + " keys, "@ + decimal_chars(
        a.links.stored_certificates.len(),
    ) + " certs, "@ + decimal_chars(a.links.stored_yubikeys.len()) + " YubiKeys, "@ + decimal_chars(
        a.links.access_permissions.dom().len(),
    ) + " access grants"@
}

impl LocationAnalysis {
    /// The analysis of location `location_id`, or none where the graph has
    /// no location node of that identifier.
    pub fn analyze(graph: &OrganizationGraph, location_id: u128) -> (r: Option<LocationAnalysis>)
        requires
            graph.well_formed(),
        ensures
            match r {
                Some(a) => location_analysis(*graph, location_id) == Some(a@),
                None => location_analysis(*graph, location_id) is None,
            },
    {
        let node = match lookup_node(graph, location_id) {
            Some(n) => n,
            None => return None,
        };
        if node.node_type != NodeType::Location {
            return None;
        }
        let name = node.label.clone();
        let mut stored_keys: HashMap<u128, String> = HashMap::new();
        let mut stored_certificates: Vec<u128> = Vec::new();
        let mut stored_yubikeys: Vec<u128> = Vec::new();
        let mut access_permissions: HashMap<u128, String> = HashMap::new();
        let mut managing_units: Vec<u128> = Vec::new();
        let ghost nodes = graph.nodes@;
        let ghost edges = graph.edges@;
        let mut i: usize = 0;
        proof {
            assert(map_texts(access_permissions@) =~= Map::<u128, Seq<char>>::empty());
        }
        while i < graph.edges.len()
            invariant
                graph.well_formed(),
                nodes == graph.nodes@,
                edges == graph.edges@,
                i <= edges.len(),
                ({
                    let l = location_links(nodes, edges.take(i as int), location_id);
                    &&& stored_keys@ == l.stored_keys
                    &&& stored_certificates@ == l.stored_certificates
                    &&& stored_yubikeys@ == l.stored_yubikeys
                    &&& map_texts(access_permissions@) == l.access_permissions
                    &&& managing_units@ == l.managing_units
                }),
            decreases edges.len() - i,
        {
            let e = graph.edges[i];
            proof {
                assert(edges.take(i + 1).drop_last() =~= edges.take(i as int));
                assert(edges.take(i + 1).last() == e);
            }
            if e.to == location_id {
                match e.edge_type {
                    EdgeType::StoredAt => {
                        match lookup_node(graph, e.from) {
                            Some(n) => match &n.data {
                                NodeData::Key { purpose, .. } => {
                                    stored_keys.insert(e.from, purpose.clone());
                                },
                                _ => {
                                    let t = n.node_type;
                                    if t == NodeType::RootCertificate || t == NodeType::IntermediateCertificate || t
                                        == NodeType::LeafCertificate {
                                        stored_certificates.push(e.from);
                                    } else if t == NodeType::YubiKey {
                                        stored_yubikeys.push(e.from);
                                    }
                                },
                            },
                            None => {},
                        }
                    },
                    EdgeType::HasAccess => {
                        if graph.find_node(e.from).is_some() {
                            let ghost before = access_permissions@;
                            let level = owned("Full Access");
                            access_permissions.insert(e.from, level);
                            proof {
                                assert(map_texts(access_permissions@) =~= map_texts(before).insert(e.from, level@));
                            }
                        }
                    },
                    _ => {},
                }
            } else if e.from == location_id && e.edge_type == EdgeType::ManagedBy {
                managing_units.push(e.to);
            }
            i = i + 1;
        }
        proof {
            assert(edges.take(edges.len() as int) =~= edges);
        }
        Some(
            LocationAnalysis {
                location_id,
                name,
                stored_keys,
                stored_certificates,
                stored_yubikeys,
                access_permissions,
                managing_units,
            },
        )
    }

    /// A line that describes the location.
    pub fn summary(&self) -> (r: String)
        ensures
            r@ == location_summary(self@),
    {
        let a = concat(self.name.as_str(), ": ");
        let n1 = decimal(self.stored_keys.len());
        let b = concat(a.as_str(), n1.as_str());
        let c = concat(b.as_str(), " keys, ");
        let n2 = decimal(self.stored_certificates.len());
        let d = concat(c.as_str(), n2.as_str());
        let f = concat(d.as_str(), " certs, ");
        let n3 = decimal(self.stored_yubikeys.len());
        let g = concat(f.as_str(), n3.as_str());
        let h = concat(g.as_str(), " YubiKeys, ");
        let n4 = decimal(self.access_permissions.len());
        let k = concat(h.as_str(), n4.as_str());
        let r = concat(k.as_str(), " access grants");
        proof {
            assert(map_texts(self.access_permissions@).dom() =~= self.access_permissions@.dom());
            assert(r@ =~= location_summary(self@));
        }
        r
    }

    /// Whether the person `person_id` may enter the location.
    pub fn has_access(&self, person_id: &u128) -> (r: bool)
        ensures
            r == self@.links.access_permissions.contains_key(*person_id),
    {
        self.access_permissions.contains_key(person_id)
    }
}

} // verus!
