//! Manifest-centric view of the organization graph: for a selected export
//! manifest, what it exports (keys, certificates, NATS credentials,
//! organization structure), the YubiKeys it refers to, and its integrity
//! information.

use vstd::prelude::*;
use crate::events::now_millis;
use crate::graph_certificate::{certificate_kind, pair_texts};
use crate::graph_model::{EdgeType, GraphEdge, GraphNode, NodeData, NodeType, OrganizationGraph, copy_option_string};
use crate::graph_pki::{lookup_node, node_with_id};
use crate::text::{concat, decimal, decimal_chars, owned};

verus! {

/// The format keys are exported in.
#[derive(Clone, Debug, PartialEq, Eq)]
pub enum ExportFormat {
    EncryptedJson,
    PEM,
    PKCS12,
    JWK,
    /// A format this version does not know, by its name.
    Unknown(String),
}

/// What the edges of the graph say of a manifest.
pub struct ManifestLinks {
    pub exported_keys: Seq<(u128, String)>,
    pub exported_certificates: Seq<(u128, String)>,
    pub exported_nats_operators: Seq<u128>,
    pub exported_nats_accounts: Seq<u128>,
    pub exported_nats_users: Seq<u128>,
    pub referenced_yubikeys: Seq<(u128, String)>,
    pub exported_organizations: Seq<u128>,
    pub exported_units: Seq<u128>,
    pub exported_people: Seq<u128>,
    pub exported_locations: Seq<u128>,
    pub signed_by: Option<u128>,
}

/// `l` with the node `n`, the end of an export edge, listed by what it is:
/// a key (with its label), a certificate (with its subject), a YubiKey
/// (with its serial number), or by its kind a NATS operator, account, user
/// or service account, an organization, a unit, a person or a location.
pub open spec fn with_export(l: ManifestLinks, n: GraphNode) -> ManifestLinks {
    match n.data {
        NodeData::Key { .. } => ManifestLinks { exported_keys: l.exported_keys.push((n.id, n.label)), ..l },
        NodeData::YubiKey { serial } => ManifestLinks {
            referenced_yubikeys: l.referenced_yubikeys.push((n.id, serial)),
            ..l
        },
        NodeData::Certificate { subject, .. } => if certificate_kind(n.node_type) is Some {
            ManifestLinks { exported_certificates: l.exported_certificates.push((n.id, subject)), ..l }
        } else {
            l
        },
        _ => match n.node_type {
            NodeType::NatsOperator => ManifestLinks {
                exported_nats_operators: l.exported_nats_operators.push(n.id),
                ..l
            },
            NodeType::NatsAccount => ManifestLinks { exported_nats_accounts: l.exported_nats_accounts.push(n.id), ..l },
            NodeType::NatsUser | NodeType::NatsServiceAccount => ManifestLinks {
                exported_nats_users: l.exported_nats_users.push(n.id),
                ..l
            },
            NodeType::Organization => ManifestLinks {
                exported_organizations: l.exported_organizations.push(n.id),
                ..l
            },
            NodeType::OrganizationalUnit => ManifestLinks { exported_units: l.exported_units.push(n.id), ..l },
            NodeType::Person => ManifestLinks { exported_people: l.exported_people.push(n.id), ..l },
            NodeType::Location => ManifestLinks { exported_locations: l.exported_locations.push(n.id), ..l },
            _ => l,
        },
    }
}

/// What `edges`, read in order, say of manifest `id`: each export edge out
/// of it to an existing node lists that node; a signature edge out of it
/// names the person who signed it (the latest wins).
pub open spec fn manifest_links(nodes: Seq<GraphNode>, edges: Seq<GraphEdge>, id: u128) -> ManifestLinks
    decreases edges.len(),
{
    if edges.len() == 0 {
        ManifestLinks {
            exported_keys: Seq::empty(),
            exported_certificates: Seq::empty(),
            exported_nats_operators: Seq::empty(),
            exported_nats_accounts: Seq::empty(),
            exported_nats_users: Seq::empty(),
            referenced_yubikeys: Seq::empty(),
            exported_organizations: Seq::empty(),
            exported_units: Seq::empty(),
            exported_people: Seq::empty(),
            exported_locations: Seq::empty(),
            signed_by: None,
        }
    } else {
        let l = manifest_links(nodes, edges.drop_last(), id);
        let e = edges.last();
        if e.from == id && e.edge_type == EdgeType::ExportedTo {
            match node_with_id(nodes, e.to) {
                Some(n) => with_export(l, n),
                None => l,
            }
        } else if e.from == id && e.edge_type == EdgeType::SignedByPerson {
            ManifestLinks { signed_by: Some(e.to), ..l }
        } else {
            l
        }
    }
}

/// A manifest-centric view of the graph.
pub struct ManifestAnalysis {
    pub manifest_id: u128,
    /// The manifest's name, the label of its node.
    pub manifest_name: String,
    /// Where the export was written, where the graph records it.
    pub destination: Option<String>,
    pub format: ExportFormat,
    /// When the analysis was made, in milliseconds since the Unix epoch.
    pub timestamp: i64,
    pub version: Option<String>,
    /// (key, its label) for each exported key.
    pub exported_keys: Vec<(u128, String)>,
    /// (certificate, its subject) for each exported certificate.
    pub exported_certificates: Vec<(u128, String)>,
    pub exported_nats_operators: Vec<u128>,
    pub exported_nats_accounts: Vec<u128>,
    /// NATS users and service accounts.
    pub exported_nats_users: Vec<u128>,
    /// (YubiKey, its serial number) for each YubiKey referred to.
    pub referenced_yubikeys: Vec<(u128, String)>,
    pub exported_organizations: Vec<u128>,
    pub exported_units: Vec<u128>,
    pub exported_people: Vec<u128>,
    pub exported_locations: Vec<u128>,
    pub checksum: Option<String>,
    pub signature: Option<String>,
    /// The person who signed the export.
    pub signed_by: Option<u128>,
}

/// Whether `a`, made at some time, is the analysis of manifest `id` in `g`:
/// the manifest's node exists, and `a` lists what the graph says of it; the
/// graph records no destination, version or signature, so those are none,
/// and the format is encrypted JSON.
pub open spec fn is_manifest_analysis(g: OrganizationGraph, id: u128, a: ManifestAnalysis) -> bool {
    match node_with_id(g.nodes@, id) {
        Some(n) => {
            let l = manifest_links(g.nodes@, g.edges@, id);
            &&& a.manifest_id == id
            &&& a.manifest_name == n.label
            &&& a.destination is None
            &&& a.format == ExportFormat::EncryptedJson
            &&& a.version is None
            &&& a.exported_keys@ == l.exported_keys
            &&& a.exported_certificates@ == l.exported_certificates
            &&& a.exported_nats_operators@ == l.exported_nats_operators
            &&& a.exported_nats_accounts@ == l.exported_nats_accounts
            &&& a.exported_nats_users@ == l.exported_nats_users
            &&& a.referenced_yubikeys@ == l.referenced_yubikeys
            &&& a.exported_organizations@ == l.exported_organizations
            &&& a.exported_units@ == l.exported_units
            &&& a.exported_people@ == l.exported_people
            &&& a.exported_locations@ == l.exported_locations
            &&& a.checksum == match n.data {
                NodeData::Manifest { checksum } => checksum,
                _ => None,
            }
            &&& a.signature is None
            &&& a.signed_by == l.signed_by
        },
        None => false,
    }
}

/// The number of items of the nine exported kinds.
pub open spec fn exported_count(a: ManifestAnalysis) -> nat {
    a.exported_keys@.len() + a.exported_certificates@.len() + a.exported_nats_operators@.len()
        + a.exported_nats_accounts@.len() + a.exported_nats_users@.len() + a.exported_organizations@.len()
        + a.exported_units@.len() + a.exported_people@.len() + a.exported_locations@.len()
}

/// The number of exported NATS credentials.
pub open spec fn nats_count(a: ManifestAnalysis) -> nat {
    a.exported_nats_operators@.len() + a.exported_nats_accounts@.len() + a.exported_nats_users@.len()
}

/// Whether the manifest carries a signature and its signer.
pub open spec fn manifest_signed(a: ManifestAnalysis) -> bool {
    a.signature is Some && a.signed_by is Some
}

/// "Export: 7 items exported (2 keys, 1 certs, 3 NATS creds) - Signed".
pub open spec fn manifest_summary(a: ManifestAnalysis) -> Seq<char> {
    a.manifest_name@ + ": "@ + decimal_chars(exported_count(a)) + " items exported ("@ + decimal_chars(
        a.exported_keys@.len(),
    ) + " keys, "@ + decimal_chars(a.exported_certificates@.len()) + " certs, "@ + decimal_chars(
        nats_count(a),
    ) + " NATS creds) - "@ + if manifest_signed(a) {
        "Signed"@
    } else {
        "Unsigned"@
    }
}

impl ManifestAnalysis {
    /// The analysis of manifest `manifest_id`, stamped with the current
    /// time, or none where the graph has no node of that identifier.
    pub fn analyze(graph: &OrganizationGraph, manifest_id: u128) -> (r: Option<ManifestAnalysis>)
        requires
            graph.well_formed(),
        ensures
            match r {
                Some(a) => is_manifest_analysis(*graph, manifest_id, a),
                None => node_with_id(graph.nodes@, manifest_id) is None,
            },
    {
        let node = match lookup_node(graph, manifest_id) {
            Some(n) => n,
            None => return None,
        };
        let manifest_name = node.label.clone();
        let checksum = match &node.data {
            NodeData::Manifest { checksum } => copy_option_string(checksum),
            _ => None,
        };
        let timestamp = now_millis();
        let mut exported_keys: Vec<(u128, String)> = Vec::new();
        let mut exported_certificates: Vec<(u128, String)> = Vec::new();
        let mut exported_nats_operators: Vec<u128> = Vec::new();
        let mut exported_nats_accounts: Vec<u128> = Vec::new();
        let mut exported_nats_users: Vec<u128> = Vec::new();
        let mut referenced_yubikeys: Vec<(u128, String)> = Vec::new();
        let mut exported_organizations: Vec<u128> = Vec::new();
        let mut exported_units: Vec<u128> = Vec::new();
        let mut exported_people: Vec<u128> = Vec::new();
        let mut exported_locations: Vec<u128> = Vec::new();
        let mut signed_by: Option<u128> = None;
        let ghost nodes = graph.nodes@;
        let ghost edges = graph.edges@;
        let mut i: usize = 0;
        while i < graph.edges.len()
            invariant
                graph.well_formed(),
                nodes == graph.nodes@,
                edges == graph.edges@,
                i <= edges.len(),
                ({
                    let l = manifest_links(nodes, edges.take(i as int), manifest_id);
                    &&& exported_keys@ == l.exported_keys
                    &&& exported_certificates@ == l.exported_certificates
                    &&& exported_nats_operators@ == l.exported_nats_operators
                    &&& exported_nats_accounts@ == l.exported_nats_accounts
                    &&& exported_nats_users@ == l.exported_nats_users
                    &&& referenced_yubikeys@ == l.referenced_yubikeys
                    &&& exported_organizations@ == l.exported_organizations
                    &&& exported_units@ == l.exported_units
                    &&& exported_people@ == l.exported_people
                    &&& exported_locations@ == l.exported_locations
                    &&& signed_by == l.signed_by
                }),
            decreases edges.len() - i,
        {
            let e = graph.edges[i];
            proof {
                assert(edges.take(i + 1).drop_last() =~= edges.take(i as int));
                assert(edges.take(i + 1).last() == e);
            }
            if e.from == manifest_id && e.edge_type == EdgeType::ExportedTo {
                match lookup_node(graph, e.to) {
                    Some(n) => {
                        proof {
                            assert(n.id == e.to);
                        }
                        match &n.data {
                            NodeData::Key { .. } => {
                                exported_keys.push((n.id, n.label.clone()));
                            },
                            NodeData::YubiKey { serial } => {
                                referenced_yubikeys.push((n.id, serial.clone()));
                            },
                            NodeData::Certificate { subject, .. } => {
                                let t = n.node_type;
                                if t == NodeType::RootCertificate || t == NodeType::IntermediateCertificate || t
                                    == NodeType::LeafCertificate {
                                    exported_certificates.push((n.id, subject.clone()));
                                }
                            },
                            _ => match n.node_type {
                                NodeType::NatsOperator => {
                                    exported_nats_operators.push(n.id);
                                },
                                NodeType::NatsAccount => {
                                    exported_nats_accounts.push(n.id);
                                },
                                NodeType::NatsUser | NodeType::NatsServiceAccount => {
                                    exported_nats_users.push(n.id);
                                },
                                NodeType::Organization => {
                                    exported_organizations.push(n.id);
                                },
                                NodeType::OrganizationalUnit => {
                                    exported_units.push(n.id);
                                },
                                NodeType::Person => {
                                    exported_people.push(n.id);
                                },
                                NodeType::Location => {
                                    exported_locations.push(n.id);
                                },
                                _ => {},
                            },
                        }
                    },
                    None => {},
                }
            } else if e.from == manifest_id && e.edge_type == EdgeType::SignedByPerson {
                signed_by = Some(e.to);
            }
            i = i + 1;
        }
        proof {
            assert(edges.take(edges.len() as int) =~= edges);
        }
        Some(
            ManifestAnalysis {
                manifest_id,
                manifest_name,
                destination: None,
                format: ExportFormat::EncryptedJson,
                timestamp,
                version: None,
                exported_keys,
                exported_certificates,
                exported_nats_operators,
                exported_nats_accounts,
                exported_nats_users,
                referenced_yubikeys,
                exported_organizations,
                exported_units,
                exported_people,
                exported_locations,
                checksum,
                signature: None,
                signed_by,
            },
        )
    }

    /// The number of exported items.
    pub fn total_exported_items(&self) -> (r: usize)
        requires
            exported_count(*self) <= usize::MAX,
        ensures
            r == exported_count(*self),
    {
        self.exported_keys.len() + self.exported_certificates.len() + self.exported_nats_operators.len()
            + self.exported_nats_accounts.len() + self.exported_nats_users.len() + self.exported_organizations.len()
            + self.exported_units.len() + self.exported_people.len() + self.exported_locations.len()
    }

    /// The number of exported NATS credentials.
    pub fn total_nats_credentials(&self) -> (r: usize)
        requires
            nats_count(*self) <= usize::MAX,
        ensures
            r == nats_count(*self),
    {
        self.exported_nats_operators.len() + self.exported_nats_accounts.len() + self.exported_nats_users.len()
    }

    /// Whether the manifest carries a signature and its signer.
    pub fn is_signed(&self) -> (r: bool)
        ensures
            r == manifest_signed(*self),
    {
        self.signature.is_some() && self.signed_by.is_some()
    }

    /// A line that describes the manifest.
    pub fn summary(&self) -> (r: String)
        requires
            exported_count(*self) <= usize::MAX,
        ensures
            r@ == manifest_summary(*self),
    {
        let status = if self.is_signed() {
            "Signed"
        } else {
            "Unsigned"
        };
        let a = concat(self.manifest_name.as_str(), ": ");
        let n1 = decimal(self.total_exported_items());
        let b = concat(a.as_str(), n1.as_str());
        let c = concat(b.as_str(), " items exported (");
        let n2 = decimal(self.exported_keys.len());
        let d = concat(c.as_str(), n2.as_str());
        let f = concat(d.as_str(), " keys, ");
        let n3 = decimal(self.exported_certificates.len());
        let g = concat(f.as_str(), n3.as_str());
        let h = concat(g.as_str(), " certs, ");
        let n4 = decimal(self.total_nats_credentials());
        let k = concat(h.as_str(), n4.as_str());
        let m = concat(k.as_str(), " NATS creds) - ");
        let r = concat(m.as_str(), status);
        proof {
            assert(r@ =~= manifest_summary(*self));
        }
        r
    }
}

} // verus!
