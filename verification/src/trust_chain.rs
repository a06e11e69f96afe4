//! The PKI trust chain as the graph shows it: certificate entries sorted
//! into root CAs, intermediate CAs and leaf certificates, each with the
//! record of its node, and the edges from each certificate to the CA that
//! signed it and from each leaf to the key it certifies.

use vstd::prelude::*;
use crate::graph_certificate::CertificateType;
use crate::graph_model::{EdgeType, NodeData, NodeType, TextList, text_items};
use crate::text::{owned, str_eq};

verus! {

/// A certificate as the projection lists it. Dates are milliseconds since
/// the Unix epoch.
pub struct CertificateEntry {
    pub cert_id: u128,
    pub subject: String,
    /// The subject of the signing CA; none for a self-signed certificate.
    pub issuer: Option<String>,
    pub not_before: i64,
    pub not_after: i64,
    pub is_ca: bool,
    pub key_id: u128,
}

/// A CA certificate that signed itself: no issuer, or itself as issuer.
pub open spec fn is_root_entry(c: CertificateEntry) -> bool {
    c.is_ca && match c.issuer {
        None => true,
        Some(i) => i@ == c.subject@,
    }
}

/// A CA certificate signed by another CA.
pub open spec fn is_intermediate_entry(c: CertificateEntry) -> bool {
    c.is_ca && !is_root_entry(c)
}

/// The place in the chain of entry `c`.
pub open spec fn entry_kind(c: CertificateEntry) -> CertificateType {
    if is_root_entry(c) {
        CertificateType::RootCA
    } else if c.is_ca {
        CertificateType::IntermediateCA
    } else {
        CertificateType::Leaf
    }
}

/// The entries of kind `t`, in order.
pub open spec fn entries_of(certs: Seq<CertificateEntry>, t: CertificateType) -> Seq<CertificateEntry>
    decreases certs.len(),
{
    if certs.len() == 0 {
        Seq::empty()
    } else {
        let rest = entries_of(certs.drop_last(), t);
        if entry_kind(certs.last()) == t {
            rest.push(certs.last())
        } else {
            rest
        }
    }
}

/// The certificate whose subject is `subject`: the last such entry.
pub open spec fn signer_of(certs: Seq<CertificateEntry>, subject: Seq<char>) -> Option<u128>
    decreases certs.len(),
{
    if certs.len() == 0 {
        None
    } else if certs.last().subject@ == subject {
        Some(certs.last().cert_id)
    } else {
        signer_of(certs.drop_last(), subject)
    }
}

/// The edge from `c` to the CA that signed it, where the entries hold that
/// CA.
pub open spec fn signed_by_edge(certs: Seq<CertificateEntry>, c: CertificateEntry) -> Seq<(u128, u128, EdgeType)> {
    match c.issuer {
        Some(i) => match signer_of(certs, i@) {
            Some(s) => seq![(c.cert_id, s, EdgeType::SignedBy)],
            None => Seq::empty(),
        },
        None => Seq::empty(),
    }
}

/// The edges of the chain for the entries `cs` of kind `t`, in order: each
/// certificate's signing edge, and for a leaf the edge to its key.
pub open spec fn chain_edges(certs: Seq<CertificateEntry>, cs: Seq<CertificateEntry>, t: CertificateType) -> Seq<
    (u128, u128, EdgeType),
>
    decreases cs.len(),
{
    if cs.len() == 0 {
        Seq::empty()
    } else {
        let c = cs.last();
        let own = if t == CertificateType::RootCA {
            Seq::empty()
        } else if t == CertificateType::IntermediateCA {
            signed_by_edge(certs, c)
        } else {
            signed_by_edge(certs, c).push((c.cert_id, c.key_id, EdgeType::CertifiesKey))
        };
        chain_edges(certs, cs.drop_last(), t) + own
    }
}

/// The key usages a certificate of kind `t` is shown with.
pub open spec fn default_usage(t: CertificateType) -> Seq<Seq<char>> {
    if t == CertificateType::Leaf {
        seq!["DigitalSignature"@]
    } else {
        seq!["KeyCertSign"@, "CRLSign"@]
    }
}

/// The node type of a certificate of kind `t`.
pub open spec fn certificate_node_type(t: CertificateType) -> NodeType {
    match t {
        CertificateType::RootCA => NodeType::RootCertificate,
        CertificateType::IntermediateCA => NodeType::IntermediateCertificate,
        CertificateType::Leaf => NodeType::LeafCertificate,
    }
}

/// Whether `r` is the node record of entry `c`: its identifier, the node
/// type of its kind, and its details; the issuer shown is the recorded one,
/// else the subject for a root and "Unknown" otherwise.
pub open spec fn chain_record(c: CertificateEntry, r: (u128, NodeType, NodeData)) -> bool {
    let t = entry_kind(c);
    &&& r.0 == c.cert_id
    &&& r.1 == certificate_node_type(t)
    &&& match r.2 {
        NodeData::Certificate { subject, issuer, not_before, not_after, key_usage, san } => {
            &&& subject@ == c.subject@
            &&& issuer@ == match c.issuer {
                Some(i) => i@,
                None => if t == CertificateType::RootCA {
                    c.subject@
                } else {
                    "Unknown"@
                },
            }
            &&& not_before == c.not_before
            &&& not_after == c.not_after
            &&& text_items(key_usage).map_values(|s: String| s@) == default_usage(t)
            &&& text_items(san).len() == 0
        },
        _ => false,
    }
}

/// The nodes and edges of a trust chain.
pub struct TrustChainPlan {
    /// Root CAs, then intermediate CAs, then leaves, each in entry order.
    pub nodes: Vec<(u128, NodeType, NodeData)>,
    /// Signing edges of intermediate CAs, then those of leaves, each leaf's
    /// followed by the edge to its key.
    pub edges: Vec<(u128, u128, EdgeType)>,
}

/// The identifier of the last entry whose subject is `subject`.
fn find_signer(certs: &Vec<CertificateEntry>, subject: &str) -> (r: Option<u128>)
    ensures
        r == signer_of(certs@, subject@),
{
    let mut r: Option<u128> = None;
    let mut i: usize = 0;
    while i < certs.len()
        invariant
            i <= certs@.len(),
            r == signer_of(certs@.take(i as int), subject@),
        decreases certs.len() - i,
    {
        assert(certs@.take(i + 1).drop_last() =~= certs@.take(i as int));
        if str_eq(certs[i].subject.as_str(), subject) {
            r = Some(certs[i].cert_id);
        }
        i = i + 1;
    }
    assert(certs@.take(certs@.len() as int) =~= certs@);
    r
}

/// The list of the given texts.
fn text_list2(a: &str, b: &str) -> (r: TextList)
    ensures
        text_items(r).map_values(|s: String| s@) == seq![a@, b@],
{
    let sa = owned(a);
    let sb = owned(b);
    let ghost (va, vb) = (sa, sb);
    let inner = TextList::Item(sb, Box::new(TextList::End));
    assert(text_items(TextList::End) == Seq::<String>::empty());
    assert(text_items(inner) =~= seq![vb]);
    let r = TextList::Item(sa, Box::new(inner));
    assert(text_items(r) =~= seq![va, vb]);
    assert(text_items(r).map_values(|s: String| s@) =~= seq![a@, b@]);
    r
}

/// The node record of entry `c`.
fn record_of(c: &CertificateEntry) -> (r: (u128, NodeType, NodeData))
    ensures
        chain_record(*c, r),
{
    let root = c.is_ca && match &c.issuer {
        None => true,
        Some(i) => str_eq(i.as_str(), c.subject.as_str()),
    };
    let issuer = match &c.issuer {
        Some(i) => i.clone(),
        None => if root {
            c.subject.clone()
        } else {
            owned("Unknown")
        },
    };
    let (node_type, key_usage) = if root {
        (NodeType::RootCertificate, text_list2("KeyCertSign", "CRLSign"))
    } else if c.is_ca {
        (NodeType::IntermediateCertificate, text_list2("KeyCertSign", "CRLSign"))
    } else {
        let ds = owned("DigitalSignature");
        let ghost vd = ds;
        let ku = TextList::Item(ds, Box::new(TextList::End));
        assert(text_items(TextList::End) == Seq::<String>::empty());
        assert(text_items(ku) =~= seq![vd]);
        assert(text_items(ku).map_values(|s: String| s@) =~= seq!["DigitalSignature"@]);
        (NodeType::LeafCertificate, ku)
    };
    (
        c.cert_id,
        node_type,
        NodeData::Certificate {
            subject: c.subject.clone(),
            issuer,
            not_before: c.not_before,
            not_after: c.not_after,
            key_usage,
            san: TextList::End,
        },
    )
}

/// The signing edge of `c`, appended to `edges`.
fn push_signed_by(certs: &Vec<CertificateEntry>, c: &CertificateEntry, edges: &mut Vec<(u128, u128, EdgeType)>)
    ensures
        final(edges)@ == old(edges)@ + signed_by_edge(certs@, *c),
{
    match &c.issuer {
        Some(i) => match find_signer(certs, i.as_str()) {
            Some(s) => {
                edges.push((c.cert_id, s, EdgeType::SignedBy));
                assert(final(edges)@ =~= old(edges)@ + signed_by_edge(certs@, *c));
            },
            None => {
                assert(edges@ =~= old(edges)@ + signed_by_edge(certs@, *c));
            },
        },
        None => {
            assert(edges@ =~= old(edges)@ + signed_by_edge(certs@, *c));
        },
    }
}

/// The trust chain of `certificates`: a node record for each, root CAs
/// first, then intermediate CAs, then leaves, and the edges from each CA
/// and leaf to the certificate whose subject is its issuer (the last entry
/// with that subject), with each leaf's edge to its key after its own.
pub fn pki_trust_chain(certificates: &Vec<CertificateEntry>) -> (r: TrustChainPlan)
    ensures
        ({
            let roots = entries_of(certificates@, CertificateType::RootCA);
            let inters = entries_of(certificates@, CertificateType::IntermediateCA);
            let leaves = entries_of(certificates@, CertificateType::Leaf);
            let all = roots + inters + leaves;
            &&& r.nodes@.len() == all.len()
            &&& forall|k: int| 0 <= k < all.len() ==> chain_record(all[k], #[trigger] r.nodes@[k])
            &&& r.edges@ == chain_edges(certificates@, inters, CertificateType::IntermediateCA) + chain_edges(
                certificates@,
                leaves,
                CertificateType::Leaf,
            )
        }),
{
    let ghost certs = certificates@;
    let mut roots: Vec<(u128, NodeType, NodeData)> = Vec::new();
    let mut inters: Vec<(u128, NodeType, NodeData)> = Vec::new();
    let mut leaves: Vec<(u128, NodeType, NodeData)> = Vec::new();
    let mut inter_edges: Vec<(u128, u128, EdgeType)> = Vec::new();
    let mut leaf_edges: Vec<(u128, u128, EdgeType)> = Vec::new();
    let mut i: usize = 0;
    while i < certificates.len()
        invariant
            certs == certificates@,
            i <= certs.len(),
            roots@.len() == entries_of(certs.take(i as int), CertificateType::RootCA).len(),
            forall|k: int|
                0 <= k < roots@.len() ==> chain_record(
                    entries_of(certs.take(i as int), CertificateType::RootCA)[k],
                    #[trigger] roots@[k],
                ),
            inters@.len() == entries_of(certs.take(i as int), CertificateType::IntermediateCA).len(),
            forall|k: int|
                0 <= k < inters@.len() ==> chain_record(
                    entries_of(certs.take(i as int), CertificateType::IntermediateCA)[k],
                    #[trigger] inters@[k],
                ),
            leaves@.len() == entries_of(certs.take(i as int), CertificateType::Leaf).len(),
            forall|k: int|
                0 <= k < leaves@.len() ==> chain_record(
                    entries_of(certs.take(i as int), CertificateType::Leaf)[k],
                    #[trigger] leaves@[k],
                ),
            inter_edges@ == chain_edges(
                certs,
                entries_of(certs.take(i as int), CertificateType::IntermediateCA),
                CertificateType::IntermediateCA,
            ),
            leaf_edges@ == chain_edges(
                certs,
                entries_of(certs.take(i as int), CertificateType::Leaf),
                CertificateType::Leaf,
            ),
        decreases certs.len() - i,
    {
        let c = &certificates[i];
        let ghost t0 = certs.take(i as int);
        let ghost t1 = certs.take(i + 1);
        proof {
            assert(t1.drop_last() =~= t0);
            assert(t1.last() == *c);
        }
        let rec = record_of(c);
        let root = c.is_ca && match &c.issuer {
            None => true,
            Some(s) => str_eq(s.as_str(), c.subject.as_str()),
        };
        if root {
            proof {
                assert(entry_kind(*c) == CertificateType::RootCA);
            }
            roots.push(rec);
        } else if c.is_ca {
            proof {
                assert(entry_kind(*c) == CertificateType::IntermediateCA);
                let cs = entries_of(t1, CertificateType::IntermediateCA);
                assert(cs.drop_last() == entries_of(t0, CertificateType::IntermediateCA));
            }
            inters.push(rec);
            push_signed_by(certificates, c, &mut inter_edges);
        } else {
            proof {
                assert(entry_kind(*c) == CertificateType::Leaf);
                let cs = entries_of(t1, CertificateType::Leaf);
                assert(cs.drop_last() == entries_of(t0, CertificateType::Leaf));
            }
            leaves.push(rec);
            push_signed_by(certificates, c, &mut leaf_edges);
            leaf_edges.push((c.cert_id, c.key_id, EdgeType::CertifiesKey));
            proof {
                let cs = entries_of(t1, CertificateType::Leaf);
                assert(leaf_edges@ =~= chain_edges(certs, cs, CertificateType::Leaf));
            }
        }
        i = i + 1;
    }
    proof {
        assert(certs.take(certs.len() as int) =~= certs);
    }
    let ghost r0 = roots@;
    let ghost n0 = inters@;
    let ghost l0 = leaves@;
    let mut nodes = roots;
    nodes.append(&mut inters);
    nodes.append(&mut leaves);
    let mut edges = inter_edges;
    edges.append(&mut leaf_edges);
    proof {
        let all = entries_of(certs, CertificateType::RootCA) + entries_of(certs, CertificateType::IntermediateCA)
            + entries_of(certs, CertificateType::Leaf);
        assert(nodes@ =~= r0 + n0 + l0);
        assert forall|k: int| 0 <= k < all.len() implies chain_record(all[k], #[trigger] nodes@[k]) by {
            let a = r0.len() as int;
            let b = a + n0.len();
            if k < a {
                assert(nodes@[k] == r0[k]);
            } else if k < b {
                assert(nodes@[k] == n0[k - a]);
            } else {
                assert(nodes@[k] == l0[k - b]);
            }
        }
    }
    TrustChainPlan { nodes, edges }
}

} // verus!
