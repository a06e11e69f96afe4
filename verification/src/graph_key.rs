//! Key-centric view of the organization graph: for a selected key, its
//! owner, the certificates made for it, where it is stored, the key
//! delegations of the graph and the keys it replaced.

use vstd::prelude::*;
use crate::graph_certificate::{option_text, pair_texts};
use crate::graph_model::{EdgeType, GraphEdge, GraphNode, NodeData, OrganizationGraph, get_node_type_name, node_type_name};
use crate::graph_pki::{lookup_node, node_with_id};
use crate::text::{concat, decimal, decimal_chars, owned};
use crate::yubikey::slot_hex;

verus! {

/// What the edges of the graph say of a key.
pub struct KeyLinks {
    pub owner_id: Option<u128>,
    pub owner_type: Option<Seq<char>>,
    pub certificates: Seq<u128>,
    pub storage_locations: Seq<(u128, Seq<char>)>,
    pub yubikey_slots: Seq<(u128, Seq<char>)>,
    pub delegations: Seq<(u128, u128)>,
    pub rotation_history: Seq<u128>,
}

/// What `edges`, read in order, say of key `id`. An edge into the key names
/// its owner (the latest wins, with the owner's kind where its node exists),
/// a certificate made for it or a key it replaced; an edge out of it names a
/// location that stores it (where that node exists) or a YubiKey slot that
/// holds it. Every key delegation of the graph is listed, as (delegator,
/// delegate).
pub open spec fn key_links(nodes: Seq<GraphNode>, edges: Seq<GraphEdge>, id: u128) -> KeyLinks
    decreases edges.len(),
{
    if edges.len() == 0 {
        KeyLinks {
            owner_id: None,
            owner_type: None,
            certificates: Seq::empty(),
            storage_locations: Seq::empty(),
            yubikey_slots: Seq::empty(),
            delegations: Seq::empty(),
            rotation_history: Seq::empty(),
        }
    } else {
        let l0 = key_links(nodes, edges.drop_last(), id);
        let e = edges.last();
        let l = if e.edge_type == EdgeType::DelegatesKey {
            KeyLinks { delegations: l0.delegations.push((e.from, e.to)), ..l0 }
        } else {
            l0
        };
        if e.to == id {
            match e.edge_type {
                EdgeType::OwnsKey => KeyLinks {
                    owner_id: Some(e.from),
                    owner_type: match node_with_id(nodes, e.from) {
                        Some(n) => Some(node_type_name(n.node_type)),
                        None => l.owner_type,
                    },
                    ..l
                },
                EdgeType::CertificateUsesKey => KeyLinks { certificates: l.certificates.push(e.from), ..l },
                EdgeType::KeyRotation => KeyLinks { rotation_history: l.rotation_history.push(e.from), ..l },
                _ => l,
            }
        } else if e.from == id {
            match e.edge_type {
                EdgeType::StoredAt => match node_with_id(nodes, e.to) {
                    Some(n) => KeyLinks { storage_locations: l.storage_locations.push((e.to, n.label@)), ..l },
                    None => l,
                },
                EdgeType::StoredInYubiKeySlot(slot) => KeyLinks {
                    yubikey_slots: l.yubikey_slots.push((e.to, slot_hex(slot))),
                    ..l
                },
                _ => l,
            }
        } else {
            l
        }
    }
}

/// A key-centric view of the graph.
pub struct KeyAnalysis {
    pub key_id: u128,
    pub algorithm: String,
    pub purpose: String,
    pub owner_id: Option<u128>,
    /// The kind of the owner's node, e.g. "Person".
    pub owner_type: Option<String>,
    /// Certificates made for this key.
    pub certificates: Vec<u128>,
    /// (location, its label) for each location that stores the key.
    pub storage_locations: Vec<(u128, String)>,
    /// (YubiKey, slot) for each YubiKey slot that holds the key.
    pub yubikey_slots: Vec<(u128, String)>,
    /// (delegator, delegate) of each key delegation in the graph.
    pub delegations: Vec<(u128, u128)>,
    /// Keys that this one replaced.
    pub rotation_history: Vec<u128>,
}

/// What a key analysis holds.
pub struct KeyAnalysisView {
    pub key_id: u128,
    pub algorithm: Seq<char>,
    pub purpose: Seq<char>,
    pub links: KeyLinks,
}

impl View for KeyAnalysis {
    type V = KeyAnalysisView;

    open spec fn view(&self) -> KeyAnalysisView {
        KeyAnalysisView {
            key_id: self.key_id,
            algorithm: self.algorithm@,
            purpose: self.purpose@,
            links: KeyLinks {
                owner_id: self.owner_id,
                owner_type: option_text(self.owner_type),
                certificates: self.certificates@,
                storage_locations: pair_texts(self.storage_locations@),
                yubikey_slots: pair_texts(self.yubikey_slots@),
                delegations: self.delegations@,
                rotation_history: self.rotation_history@,
            },
        }
    }
}

/// The analysis of key `id`: none unless the graph has a node with that
/// identifier that records a key.
pub open spec fn key_analysis(g: OrganizationGraph, id: u128) -> Option<KeyAnalysisView> {
    match node_with_id(g.nodes@, id) {
        Some(n) => match n.data {
            NodeData::Key { algorithm, purpose } => Some(
                KeyAnalysisView {
                    key_id: id,
                    algorithm: algorithm@,
                    purpose: purpose@,
                    links: key_links(g.nodes@, g.edges@, id),
                },
            ),
            _ => None,
        },
        None => None,
    }
}

/// "Ed25519 (Signing): 1 certs, 2 storage locations, 0 YubiKey slots".
pub open spec fn key_summary(a: KeyAnalysisView) -> Seq<char> {
    a.algorithm + " ("@ + a.purpose + "): "@ + decimal_chars(a.links.certificates.len()) + " certs, "@
        + decimal_chars(a.links.storage_locations.len()) + " storage locations, "@ + decimal_chars(
        a.links.yubikey_slots.len(),
    ) + " YubiKey slots"@
}

impl KeyAnalysis {
    /// The analysis of key `key_id`, or none where the graph has no node of
    /// that identifier that records a key.
    pub fn analyze(graph: &OrganizationGraph, key_id: u128) -> (r: Option<KeyAnalysis>)
        requires
            graph.well_formed(),
        ensures
            match r {
                Some(a) => key_analysis(*graph, key_id) == Some(a@),
                None => key_analysis(*graph, key_id) is None,
            },
    {
        let node = match lookup_node(graph, key_id) {
            Some(n) => n,
            None => return None,
        };
        let (algorithm, purpose) = match &node.data {
            NodeData::Key { algorithm, purpose } => (algorithm.clone(), purpose.clone()),
            _ => return None,
        };
        let mut owner_id: Option<u128> = None;
        let mut owner_type: Option<String> = None;
        let mut certificates: Vec<u128> = Vec::new();
        let mut storage_locations: Vec<(u128, String)> = Vec::new();
        let mut yubikey_slots: Vec<(u128, String)> = Vec::new();
        let mut delegations: Vec<(u128, u128)> = Vec::new();
        let mut rotation_history: Vec<u128> = Vec::new();
        let ghost nodes = graph.nodes@;
        let ghost edges = graph.edges@;
        let mut i: usize = 0;
        while i < graph.edges.len()
            invariant
                graph.well_formed(),
                nodes == graph.nodes@,
                edges == graph.edges@,
                i <= edges.len(),
                ({
                    let l = key_links(nodes, edges.take(i as int), key_id);
                    &&& owner_id == l.owner_id
                    &&& option_text(owner_type) == l.owner_type
                    &&& certificates@ == l.certificates
                    &&& pair_texts(storage_locations@) == l.storage_locations
                    &&& pair_texts(yubikey_slots@) == l.yubikey_slots
                    &&& delegations@ == l.delegations
                    &&& rotation_history@ == l.rotation_history
                }),
            decreases edges.len() - i,
        {
            let e = graph.edges[i];
            proof {
                assert(edges.take(i + 1).drop_last() =~= edges.take(i as int));
                assert(edges.take(i + 1).last() == e);
            }
            if e.edge_type == EdgeType::DelegatesKey {
                delegations.push((e.from, e.to));
            }
            if e.to == key_id {
                match e.edge_type {
                    EdgeType::OwnsKey => {
                        owner_id = Some(e.from);
                        match lookup_node(graph, e.from) {
                            Some(n) => {
                                owner_type = Some(owned(get_node_type_name(&n.node_type)));
                            },
                            None => {},
                        }
                    },
                    EdgeType::CertificateUsesKey => {
                        certificates.push(e.from);
                    },
                    EdgeType::KeyRotation => {
                        rotation_history.push(e.from);
                    },
                    _ => {},
                }
            } else if e.from == key_id {
                match e.edge_type {
                    EdgeType::StoredAt => {
                        match lookup_node(graph, e.to) {
                            Some(n) => {
                                let item = (e.to, n.label.clone());
                                proof {
                                    assert(pair_texts(storage_locations@.push(item)) =~= pair_texts(
                                        storage_locations@,
                                    ).push((item.0, item.1@)));
                                }
                                storage_locations.push(item);
                            },
                            None => {},
                        }
                    },
                    EdgeType::StoredInYubiKeySlot(slot) => {
                        let item = (e.to, owned(slot.hex()));
                        proof {
                            assert(pair_texts(yubikey_slots@.push(item)) =~= pair_texts(yubikey_slots@).push(
                                (item.0, item.1@),
                            ));
                        }
                        yubikey_slots.push(item);
                    },
                    _ => {},
                }
            }
            i = i + 1;
        }
        proof {
            assert(edges.take(edges.len() as int) =~= edges);
        }
        Some(
            KeyAnalysis {
                key_id,
                algorithm,
                purpose,
                owner_id,
                owner_type,
                certificates,
                storage_locations,
                yubikey_slots,
                delegations,
                rotation_history,
            },
        )
    }

    /// A line that describes the key.
    pub fn summary(&self) -> (r: String)
        ensures
            r@ == key_summary(self@),
    {
        let a = concat(self.algorithm.as_str(), " (");
        let b = concat(a.as_str(), self.purpose.as_str());
        let c = concat(b.as_str(), "): ");
        let n1 = decimal(self.certificates.len());
        let d = concat(c.as_str(), n1.as_str());
        let f = concat(d.as_str(), " certs, ");
        let n2 = decimal(self.storage_locations.len());
        let g = concat(f.as_str(), n2.as_str());
        let h = concat(g.as_str(), " storage locations, ");
        let n3 = decimal(self.yubikey_slots.len());
        let k = concat(h.as_str(), n3.as_str());
        let r = concat(k.as_str(), " YubiKey slots");
        proof {
            assert(r@ =~= key_summary(self@));
        }
        r
    }
}

} // verus!
