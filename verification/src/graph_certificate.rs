//! Certificate-centric view of the organization graph: for a selected
//! certificate, its subject, issuer and validity, the key it is made for,
//! the certificate that issued it, those it issued, the entity it was issued
//! to, and where it is stored.

use vstd::prelude::*;
use crate::graph_model::{EdgeType, GraphEdge, GraphNode, NodeData, NodeType, OrganizationGraph, text_items};
use crate::graph_pki::{lookup_node, node_with_id};
use crate::text::{concat, decimal, decimal_chars, decimal_u64, owned};
use crate::yubikey::slot_hex;

verus! {

/// Where a certificate stands in its chain.
#[derive(Clone, Copy, Debug, PartialEq, Eq, Structural)]
pub enum CertificateType {
    RootCA,
    IntermediateCA,
    Leaf,
}

/// The place in the chain of a certificate node of type `t`.
pub open spec fn certificate_kind(t: NodeType) -> Option<CertificateType> {
    match t {
        NodeType::RootCertificate => Some(CertificateType::RootCA),
        NodeType::IntermediateCertificate => Some(CertificateType::IntermediateCA),
        NodeType::LeafCertificate => Some(CertificateType::Leaf),
        _ => None,
    }
}

/// The name under which an entity of type `t` is shown as a certificate's
/// subject.
pub open spec fn subject_kind_name(t: NodeType) -> Seq<char> {
    match t {
        NodeType::Person => "Person"@,
        NodeType::Organization => "Organization"@,
        NodeType::OrganizationalUnit => "OrganizationalUnit"@,
        _ => "Unknown"@,
    }
}

/// The identifier and text of each pair, in order.
pub open spec fn pair_texts(v: Seq<(u128, String)>) -> Seq<(u128, Seq<char>)> {
    v.map_values(|p: (u128, String)| (p.0, p.1@))
}

/// The text of an optional string.
pub open spec fn option_text(o: Option<String>) -> Option<Seq<char>> {
    match o {
        Some(s) => Some(s@),
        None => None,
    }
}

/// What the edges at a certificate say of it.
pub struct CertificateLinks {
    pub signing_key_id: Option<u128>,
    pub signing_key_algorithm: Option<Seq<char>>,
    pub issuer_certificate_id: Option<u128>,
    pub issued_certificates: Seq<u128>,
    pub subject_entity_id: Option<u128>,
    pub subject_entity_type: Option<Seq<char>>,
    pub storage_locations: Seq<(u128, Seq<char>)>,
    pub yubikey_slots: Seq<(u128, Seq<char>)>,
}

/// What `edges`, read in order, say of certificate `id`. An edge into the
/// certificate names its key (the latest key edge wins, its algorithm where
/// the key's node records one), its issuer or its subject; an edge out of it
/// names a certificate it issued, a location that stores it (where that
/// node exists) or a YubiKey slot that holds it.
pub open spec fn certificate_links(nodes: Seq<GraphNode>, edges: Seq<GraphEdge>, id: u128) -> CertificateLinks
    decreases edges.len(),
{
    if edges.len() == 0 {
        CertificateLinks {
            signing_key_id: None,
            signing_key_algorithm: None,
            issuer_certificate_id: None,
            issued_certificates: Seq::empty(),
            subject_entity_id: None,
            subject_entity_type: None,
            storage_locations: Seq::empty(),
            yubikey_slots: Seq::empty(),
        }
    } else {
        let l = certificate_links(nodes, edges.drop_last(), id);
        let e = edges.last();
        if e.to == id {
            match e.edge_type {
                EdgeType::CertificateUsesKey => CertificateLinks {
                    signing_key_id: Some(e.from),
                    signing_key_algorithm: match node_with_id(nodes, e.from) {
                        Some(k) => match k.data {
                            NodeData::Key { algorithm, .. } => Some(algorithm@),
                            _ => l.signing_key_algorithm,
                        },
                        None => l.signing_key_algorithm,
                    },
                    ..l
                },
                EdgeType::Signs | EdgeType::SignedBy => CertificateLinks { issuer_certificate_id: Some(e.from), ..l },
                EdgeType::IssuedTo => CertificateLinks {
                    subject_entity_id: Some(e.from),
                    subject_entity_type: match node_with_id(nodes, e.from) {
                        Some(n) => Some(subject_kind_name(n.node_type)),
                        None => l.subject_entity_type,
                    },
                    ..l
                },
                _ => l,
            }
        } else if e.from == id {
            match e.edge_type {
                EdgeType::Signs | EdgeType::SignedBy => CertificateLinks {
                    issued_certificates: l.issued_certificates.push(e.to),
                    ..l
                },
                EdgeType::StoredAt => match node_with_id(nodes, e.to) {
                    Some(n) => CertificateLinks { storage_locations: l.storage_locations.push((e.to, n.label@)), ..l },
                    None => l,
                },
                EdgeType::StoredInYubiKeySlot(slot) => CertificateLinks {
                    yubikey_slots: l.yubikey_slots.push((e.to, slot_hex(slot))),
                    ..l
                },
                _ => l,
            }
        } else {
            l
        }
    }
}

/// Whether `edges` hold a signing edge from certificate `id` to another
/// node `child`.
pub open spec fn signs_edge(edges: Seq<GraphEdge>, id: u128, child: u128) -> bool {
    exists|k: int|
        0 <= k < edges.len() && (#[trigger] edges[k]).from == id && edges[k].to == child && child != id && (
        edges[k].edge_type == EdgeType::Signs || edges[k].edge_type == EdgeType::SignedBy)
}

/// The certificates a certificate issued are those its signing edges lead
/// to: `child` is among them exactly when such an edge leads from the
/// certificate to `child`.
pub proof fn lemma_issued_are_signed(nodes: Seq<GraphNode>, edges: Seq<GraphEdge>, id: u128, child: u128)
    ensures
        certificate_links(nodes, edges, id).issued_certificates.contains(child) <==> signs_edge(edges, id, child),
    decreases edges.len(),
{
    if edges.len() > 0 {
        let front = edges.drop_last();
        let e = edges.last();
        let before = certificate_links(nodes, front, id).issued_certificates;
        let after = certificate_links(nodes, edges, id).issued_certificates;
        lemma_issued_are_signed(nodes, front, id, child);
        if signs_edge(front, id, child) {
            let k = choose|k: int|
                0 <= k < front.len() && (#[trigger] front[k]).from == id && front[k].to == child && child != id && (
                front[k].edge_type == EdgeType::Signs || front[k].edge_type == EdgeType::SignedBy);
            assert(edges[k] == front[k]);
        }
        if signs_edge(edges, id, child) && !signs_edge(front, id, child) {
            let k = choose|k: int|
                0 <= k < edges.len() && (#[trigger] edges[k]).from == id && edges[k].to == child && child != id && (
                edges[k].edge_type == EdgeType::Signs || edges[k].edge_type == EdgeType::SignedBy);
            if k < front.len() {
                assert(front[k] == edges[k]);
            }
        }
        if e.from == id && e.to != id && (e.edge_type == EdgeType::Signs || e.edge_type == EdgeType::SignedBy) {
            assert(after == before.push(e.to));
            assert(edges[edges.len() - 1] == e);
            if before.contains(child) {
                let j = choose|j: int| 0 <= j < before.len() && before[j] == child;
                assert(after[j] == child);
            }
            if e.to == child {
                assert(after[before.len() as int] == child);
            }
            if after.contains(child) {
                let j = choose|j: int| 0 <= j < after.len() && after[j] == child;
                if j < before.len() {
                    assert(before[j] == child);
                }
            }
        } else {
            assert(after == before);
        }
    }
}

/// A certificate-centric view of the graph.
pub struct CertificateAnalysis {
    pub certificate_id: u128,
    pub certificate_type: CertificateType,
    pub subject: String,
    pub issuer: String,
    /// Start of validity, in milliseconds since the Unix epoch.
    pub not_before: i64,
    /// End of validity, in milliseconds since the Unix epoch.
    pub not_after: i64,
    pub key_usage: Vec<String>,
    /// Subject alternative names (leaf certificates only).
    pub san: Vec<String>,
    pub signing_key_id: Option<u128>,
    pub signing_key_algorithm: Option<String>,
    pub issuer_certificate_id: Option<u128>,
    pub issued_certificates: Vec<u128>,
    pub subject_entity_id: Option<u128>,
    pub subject_entity_type: Option<String>,
    /// (location, its label) for each location that stores the certificate.
    pub storage_locations: Vec<(u128, String)>,
    /// (YubiKey, slot) for each YubiKey slot that holds the certificate.
    pub yubikey_slots: Vec<(u128, String)>,
}

/// What a certificate analysis holds.
pub struct CertificateAnalysisView {
    pub certificate_id: u128,
    pub certificate_type: CertificateType,
    pub subject: Seq<char>,
    pub issuer: Seq<char>,
    pub not_before: i64,
    pub not_after: i64,
    pub key_usage: Seq<String>,
    pub san: Seq<String>,
    pub links: CertificateLinks,
}

impl View for CertificateAnalysis {
    type V = CertificateAnalysisView;

    open spec fn view(&self) -> CertificateAnalysisView {
        CertificateAnalysisView {
            certificate_id: self.certificate_id,
            certificate_type: self.certificate_type,
            subject: self.subject@,
            issuer: self.issuer@,
            not_before: self.not_before,
            not_after: self.not_after,
            key_usage: self.key_usage@,
            san: self.san@,
            links: CertificateLinks {
                signing_key_id: self.signing_key_id,
                signing_key_algorithm: option_text(self.signing_key_algorithm),
                issuer_certificate_id: self.issuer_certificate_id,
                issued_certificates: self.issued_certificates@,
                subject_entity_id: self.subject_entity_id,
                subject_entity_type: option_text(self.subject_entity_type),
                storage_locations: pair_texts(self.storage_locations@),
                yubikey_slots: pair_texts(self.yubikey_slots@),
            },
        }
    }
}

/// The analysis of certificate `id`: none unless the graph has a
/// certificate node with that identifier that records its details.
pub open spec fn certificate_analysis(g: OrganizationGraph, id: u128) -> Option<CertificateAnalysisView> {
    match node_with_id(g.nodes@, id) {
        Some(n) => match (certificate_kind(n.node_type), n.data) {
            (Some(t), NodeData::Certificate { subject, issuer, not_before, not_after, key_usage, san }) => Some(
                CertificateAnalysisView {
                    certificate_id: id,
                    certificate_type: t,
                    subject: subject@,
                    issuer: issuer@,
                    not_before,
                    not_after,
                    key_usage: text_items(key_usage),
                    san: if t == CertificateType::Leaf {
                        text_items(san)
                    } else {
                        Seq::empty()
                    },
                    links: certificate_links(g.nodes@, g.edges@, id),
                },
            ),
            _ => None,
        },
        None => None,
    }
}

/// Whether the certificate is valid at `now`, both in milliseconds since
/// the Unix epoch.
pub open spec fn valid_at(not_before: i64, not_after: i64, now: i64) -> bool {
    not_before <= now && now <= not_after
}

/// Whole days from `now` to `not_after`, rounded toward zero (negative once
/// expired).
pub open spec fn days_left(not_after: i64, now: i64) -> int {
    let diff = not_after - now;
    if diff >= 0 {
        diff / 86_400_000
    } else {
        -((-diff) / 86_400_000)
    }
}

/// The name of a certificate type.
pub open spec fn certificate_type_name(t: CertificateType) -> Seq<char> {
    match t {
        CertificateType::RootCA => "RootCA"@,
        CertificateType::IntermediateCA => "IntermediateCA"@,
        CertificateType::Leaf => "Leaf"@,
    }
}

/// The decimal text of an integer, with a minus sign when it is negative.
pub open spec fn signed_decimal(n: int) -> Seq<char> {
    if n < 0 {
        "-"@ + decimal_chars((-n) as nat)
    } else {
        decimal_chars(n as nat)
    }
}

/// "Leaf: CN=x - Valid (12 days remaining) - 0 issued certs", or with
/// "Expired" once the certificate is not valid at `now`.
pub open spec fn certificate_summary(a: CertificateAnalysisView, now: i64) -> Seq<char> {
    let status = if valid_at(a.not_before, a.not_after, now) {
        "Valid ("@ + signed_decimal(days_left(a.not_after, now)) + " days remaining)"@
    } else {
        "Expired"@
    };
    certificate_type_name(a.certificate_type) + ": "@ + a.subject + " - "@ + status + " - "@ + decimal_chars(
        a.links.issued_certificates.len(),
    ) + " issued certs"@
}

/// The pairs with `x` appended.
proof fn lemma_pair_texts_push(v: Seq<(u128, String)>, x: (u128, String))
    ensures
        pair_texts(v.push(x)) == pair_texts(v).push((x.0, x.1@)),
{
    assert(pair_texts(v.push(x)) =~= pair_texts(v).push((x.0, x.1@)));
}

/// The decimal text of an `i64`, with a minus sign when it is negative.
fn signed_text(n: i64) -> (r: String)
    ensures
        r@ == signed_decimal(n as int),
{
    if n < 0 {
        let m: u64 = if n == i64::MIN {
            9_223_372_036_854_775_808u64
        } else {
            (-n) as u64
        };
        let digits = decimal_u64(m);
        concat("-", digits.as_str())
    } else {
        decimal_u64(n as u64)
    }
}

impl CertificateAnalysis {
    /// The analysis of certificate `certificate_id`, or none where the graph
    /// has no certificate node of that identifier with its details.
    pub fn analyze(graph: &OrganizationGraph, certificate_id: u128) -> (r: Option<CertificateAnalysis>)
        requires
            graph.well_formed(),
        ensures
            match r {
                Some(a) => certificate_analysis(*graph, certificate_id) == Some(a@),
                None => certificate_analysis(*graph, certificate_id) is None,
            },
    {
        let node = match lookup_node(graph, certificate_id) {
            Some(n) => n,
            None => return None,
        };
        let certificate_type = match node.node_type {
            NodeType::RootCertificate => CertificateType::RootCA,
            NodeType::IntermediateCertificate => CertificateType::IntermediateCA,
            NodeType::LeafCertificate => CertificateType::Leaf,
            _ => return None,
        };
        let (subject, issuer, not_before, not_after, key_usage, san) = match &node.data {
            NodeData::Certificate { subject, issuer, not_before, not_after, key_usage, san } => {
                let alt = if certificate_type == CertificateType::Leaf {
                    san.to_vec()
                } else {
                    Vec::new()
                };
                (subject.clone(), issuer.clone(), *not_before, *not_after, key_usage.to_vec(), alt)
            },
            _ => return None,
        };
        let mut signing_key_id: Option<u128> = None;
        let mut signing_key_algorithm: Option<String> = None;
        let mut issuer_certificate_id: Option<u128> = None;
        let mut issued_certificates: Vec<u128> = Vec::new();
        let mut subject_entity_id: Option<u128> = None;
        let mut subject_entity_type: Option<String> = None;
        let mut storage_locations: Vec<(u128, String)> = Vec::new();
        let mut yubikey_slots: Vec<(u128, String)> = Vec::new();
        let ghost nodes = graph.nodes@;
        let ghost edges = graph.edges@;
        let mut i: usize = 0;
        while i < graph.edges.len()
            invariant
                graph.well_formed(),
                nodes == graph.nodes@,
                edges == graph.edges@,
                i <= edges.len(),
                ({
                    let l = certificate_links(nodes, edges.take(i as int), certificate_id);
                    &&& signing_key_id == l.signing_key_id
                    &&& option_text(signing_key_algorithm) == l.signing_key_algorithm
                    &&& issuer_certificate_id == l.issuer_certificate_id
                    &&& issued_certificates@ == l.issued_certificates
                    &&& subject_entity_id == l.subject_entity_id
                    &&& option_text(subject_entity_type) == l.subject_entity_type
                    &&& pair_texts(storage_locations@) == l.storage_locations
                    &&& pair_texts(yubikey_slots@) == l.yubikey_slots
                }),
            decreases edges.len() - i,
        {
            let e = graph.edges[i];
            proof {
                assert(edges.take(i + 1).drop_last() =~= edges.take(i as int));
                assert(edges.take(i + 1).last() == e);
            }
            if e.to == certificate_id {
                match e.edge_type {
                    EdgeType::CertificateUsesKey => {
                        signing_key_id = Some(e.from);
                        match lookup_node(graph, e.from) {
                            Some(k) => match &k.data {
                                NodeData::Key { algorithm, .. } => {
                                    signing_key_algorithm = Some(algorithm.clone());
                                },
                                _ => {},
                            },
                            None => {},
                        }
                    },
                    EdgeType::Signs | EdgeType::SignedBy => {
                        issuer_certificate_id = Some(e.from);
                    },
                    EdgeType::IssuedTo => {
                        subject_entity_id = Some(e.from);
                        match lookup_node(graph, e.from) {
                            Some(n) => {
                                let name = match n.node_type {
                                    NodeType::Person => "Person",
                                    NodeType::Organization => "Organization",
                                    NodeType::OrganizationalUnit => "OrganizationalUnit",
                                    _ => "Unknown",
                                };
                                subject_entity_type = Some(owned(name));
                            },
                            None => {},
                        }
                    },
                    _ => {},
                }
            } else if e.from == certificate_id {
                match e.edge_type {
                    EdgeType::Signs | EdgeType::SignedBy => {
                        issued_certificates.push(e.to);
                    },
                    EdgeType::StoredAt => {
                        match lookup_node(graph, e.to) {
                            Some(n) => {
                                let item = (e.to, n.label.clone());
                                proof {
                                    lemma_pair_texts_push(storage_locations@, item);
                                }
                                storage_locations.push(item);
                            },
                            None => {},
                        }
                    },
                    EdgeType::StoredInYubiKeySlot(slot) => {
                        let item = (e.to, owned(slot.hex()));
                        proof {
                            lemma_pair_texts_push(yubikey_slots@, item);
                        }
                        yubikey_slots.push(item);
                    },
                    _ => {},
                }
            }
            i = i + 1;
        }
        proof {
            assert(edges.take(edges.len() as int) =~= edges);
        }
        Some(
            CertificateAnalysis {
                certificate_id,
                certificate_type,
                subject,
                issuer,
                not_before,
                not_after,
                key_usage,
                san,
                signing_key_id,
                signing_key_algorithm,
                issuer_certificate_id,
                issued_certificates,
                subject_entity_id,
                subject_entity_type,
                storage_locations,
                yubikey_slots,
            },
        )
    }

    /// Whether the certificate is valid at `now` (milliseconds since the
    /// Unix epoch).
    pub fn is_valid(&self, now: i64) -> (r: bool)
        ensures
            r == valid_at(self.not_before, self.not_after, now),
    {
        self.not_before <= now && now <= self.not_after
    }

    /// Whole days from `now` until the certificate expires, rounded toward
    /// zero; negative once it has expired.
    pub fn days_until_expiration(&self, now: i64) -> (r: i64)
        ensures
            r == days_left(self.not_after, now),
    {
        let diff: i128 = self.not_after as i128 - now as i128;
        if diff >= 0 {
            (diff / 86_400_000) as i64
        } else {
            let d: i128 = (-diff) / 86_400_000;
            (-d) as i64
        }
    }

    /// A line that describes the certificate at `now`.
    pub fn summary(&self, now: i64) -> (r: String)
        ensures
            r@ == certificate_summary(self@, now),
    {
        let status = if self.is_valid(now) {
            let days = signed_text(self.days_until_expiration(now));
            let head = concat("Valid (", days.as_str());
            concat(head.as_str(), " days remaining)")
        } else {
            owned("Expired")
        };
        let kind = match self.certificate_type {
            CertificateType::RootCA => "RootCA",
            CertificateType::IntermediateCA => "IntermediateCA",
            CertificateType::Leaf => "Leaf",
        };
        let count = decimal(self.issued_certificates.len());
        let a = concat(kind, ": ");
        let b = concat(a.as_str(), self.subject.as_str());
        let c = concat(b.as_str(), " - ");
        let d = concat(c.as_str(), status.as_str());
        let f = concat(d.as_str(), " - ");
        let g = concat(f.as_str(), count.as_str());
        let r = concat(g.as_str(), " issued certs");
        proof {
            assert(r@ =~= certificate_summary(self@, now));
        }
        r
    }
}

} // verus!
