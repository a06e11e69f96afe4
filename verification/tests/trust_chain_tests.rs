use cim_keys::graph_model::{EdgeType, NodeData, NodeType};
use cim_keys::trust_chain::{pki_trust_chain, CertificateEntry};

fn entry(id: u128, subject: &str, issuer: Option<&str>, is_ca: bool, key_id: u128) -> CertificateEntry {
    CertificateEntry {
        cert_id: id,
        subject: subject.to_string(),
        issuer: issuer.map(|s| s.to_string()),
        not_before: 0,
        not_after: 1000,
        is_ca,
        key_id,
    }
}

#[test]
fn trust_chain_sorts_and_links_certificates() {
    let certs = vec![
        entry(3, "CN=Alice", Some("CN=Issuing"), false, 30),
        entry(2, "CN=Issuing", Some("CN=Root"), true, 20),
        entry(1, "CN=Root", None, true, 10),
        entry(4, "CN=Self", Some("CN=Self"), true, 40),
        entry(5, "CN=Orphan", Some("CN=Nobody"), false, 50),
    ];
    let plan = pki_trust_chain(&certs);
    let order: Vec<(u128, NodeType)> = plan.nodes.iter().map(|n| (n.0, n.1)).collect();
    assert_eq!(
        order,
        vec![
            (1, NodeType::RootCertificate),
            (4, NodeType::RootCertificate),
            (2, NodeType::IntermediateCertificate),
            (3, NodeType::LeafCertificate),
            (5, NodeType::LeafCertificate),
        ]
    );
    assert_eq!(
        plan.edges,
        vec![
            (2, 1, EdgeType::SignedBy),
            (3, 2, EdgeType::SignedBy),
            (3, 30, EdgeType::CertifiesKey),
            (5, 50, EdgeType::CertifiesKey),
        ]
    );
    match &plan.nodes[0].2 {
        NodeData::Certificate { subject, issuer, key_usage, .. } => {
            assert_eq!(subject, "CN=Root");
            assert_eq!(issuer, "CN=Root");
            assert_eq!(key_usage.to_vec(), vec!["KeyCertSign".to_string(), "CRLSign".to_string()]);
        }
        other => panic!("expected a certificate record, got {:?}", other),
    }
    match &plan.nodes[4].2 {
        NodeData::Certificate { issuer, key_usage, .. } => {
            assert_eq!(issuer, "CN=Nobody");
            assert_eq!(key_usage.to_vec(), vec!["DigitalSignature".to_string()]);
        }
        other => panic!("expected a certificate record, got {:?}", other),
    }
}

#[test]
fn trust_chain_of_nothing_is_empty() {
    let plan = pki_trust_chain(&Vec::new());
    assert!(plan.nodes.is_empty());
    assert!(plan.edges.is_empty());
}
