use cim_keys::graph_certificate::{CertificateAnalysis, CertificateType};
use cim_keys::graph_key::KeyAnalysis;
use cim_keys::graph_location::LocationAnalysis;
use cim_keys::graph_manifest::{ExportFormat, ManifestAnalysis};
use cim_keys::graph_model::{
    ColorBits, EdgeType, GraphNode, NodeData, NodeType, OrganizationGraph, Position, SlotList, TextList,
};
use cim_keys::graph_organization::{OrganizationAnalysis, OrganizationalUnitAnalysis};
use cim_keys::graph_person::PersonAnalysis;
use cim_keys::org_unit::OrganizationUnitType;
use cim_keys::yubikey::{generate_yubikey_provision_from_graph, KeyOwnerRole, PIVSlot};

const DAY: i64 = 86_400_000;

fn color() -> ColorBits {
    ColorBits { r_bits: 0, g_bits: 0, b_bits: 0, a_bits: 0 }
}

fn add(g: &mut OrganizationGraph, id: u128, node_type: NodeType, label: &str, data: NodeData) {
    g.add_node(GraphNode {
        id,
        node_type,
        label: label.to_string(),
        position: Position { x_bits: 0, y_bits: 0 },
        color: color(),
        data,
    });
}

fn texts(items: &[&str]) -> TextList {
    let v: Vec<String> = items.iter().map(|s| s.to_string()).collect();
    TextList::from_vec(&v)
}

fn certificate(subject: &str, not_before: i64, not_after: i64, san: &[&str]) -> NodeData {
    NodeData::Certificate {
        subject: subject.to_string(),
        issuer: "CN=Root".to_string(),
        not_before,
        not_after,
        key_usage: texts(&["digitalSignature", "keyEncipherment"]),
        san: texts(san),
    }
}

fn key(algorithm: &str, purpose: &str) -> NodeData {
    NodeData::Key { algorithm: algorithm.to_string(), purpose: purpose.to_string() }
}

/// A small PKI: a root (10) signs an intermediate (11), which signs a leaf
/// (12) issued to Alice (1); key 20 is Alice's and the leaf's; the leaf and
/// the key are stored at the vault (30) and in slot 9C of YubiKey 40.
fn pki_graph() -> OrganizationGraph {
    let mut g = OrganizationGraph::new();
    add(&mut g, 1, NodeType::Person, "Alice", NodeData::Plain);
    add(&mut g, 10, NodeType::RootCertificate, "Root CA", certificate("CN=Root", 0, 3650 * DAY, &["ignored"]));
    add(&mut g, 11, NodeType::IntermediateCertificate, "Issuing CA", certificate("CN=Issuing", 0, 1825 * DAY, &[]));
    add(&mut g, 12, NodeType::LeafCertificate, "Alice cert", certificate("CN=Alice", 0, 365 * DAY, &["alice@example.com"]));
    add(&mut g, 20, NodeType::Key, "Alice signing key", key("Ed25519", "Signing"));
    add(&mut g, 21, NodeType::Key, "Old key", key("Rsa2048", "Signing"));
    add(&mut g, 30, NodeType::Location, "Vault", NodeData::Plain);
    add(&mut g, 40, NodeType::YubiKey, "YubiKey", NodeData::YubiKey { serial: "12345678".to_string() });
    g.add_edge(10, 11, EdgeType::Signs, color());
    g.add_edge(11, 12, EdgeType::Signs, color());
    g.add_edge(20, 12, EdgeType::CertificateUsesKey, color());
    g.add_edge(1, 12, EdgeType::IssuedTo, color());
    g.add_edge(12, 30, EdgeType::StoredAt, color());
    g.add_edge(12, 40, EdgeType::StoredInYubiKeySlot(PIVSlot::DigitalSignature), color());
    g.add_edge(1, 20, EdgeType::OwnsKey, color());
    g.add_edge(21, 20, EdgeType::KeyRotation, color());
    g.add_edge(20, 30, EdgeType::StoredAt, color());
    g.add_edge(20, 40, EdgeType::StoredInYubiKeySlot(PIVSlot::DigitalSignature), color());
    g.add_edge(1, 30, EdgeType::HasAccess, color());
    g.add_edge(40, 30, EdgeType::StoredAt, color());
    g.add_edge(1, 40, EdgeType::OwnsYubiKey, color());
    g
}

#[test]
fn certificate_analysis_of_a_leaf() {
    let g = pki_graph();
    let a = CertificateAnalysis::analyze(&g, 12).expect("leaf certificate");
    assert_eq!(a.certificate_type, CertificateType::Leaf);
    assert_eq!(a.subject, "CN=Alice");
    assert_eq!(a.issuer, "CN=Root");
    assert_eq!(a.key_usage, vec!["digitalSignature".to_string(), "keyEncipherment".to_string()]);
    assert_eq!(a.san, vec!["alice@example.com".to_string()]);
    assert_eq!(a.signing_key_id, Some(20));
    assert_eq!(a.signing_key_algorithm, Some("Ed25519".to_string()));
    assert_eq!(a.issuer_certificate_id, Some(11));
    assert!(a.issued_certificates.is_empty());
    assert_eq!(a.subject_entity_id, Some(1));
    assert_eq!(a.subject_entity_type, Some("Person".to_string()));
    assert_eq!(a.storage_locations, vec![(30, "Vault".to_string())]);
    assert_eq!(a.yubikey_slots, vec![(40, "9C".to_string())]);
}

#[test]
fn certificate_analysis_of_a_root_lists_what_it_issued() {
    let g = pki_graph();
    let a = CertificateAnalysis::analyze(&g, 10).expect("root certificate");
    assert_eq!(a.certificate_type, CertificateType::RootCA);
    assert!(a.san.is_empty());
    assert_eq!(a.issued_certificates, vec![11]);
    assert_eq!(a.issuer_certificate_id, None);
    assert_eq!(a.signing_key_id, None);
    let b = CertificateAnalysis::analyze(&g, 11).expect("intermediate certificate");
    assert_eq!(b.certificate_type, CertificateType::IntermediateCA);
    assert_eq!(b.issuer_certificate_id, Some(10));
    assert_eq!(b.issued_certificates, vec![12]);
}

#[test]
fn certificate_analysis_needs_a_certificate_node() {
    let g = pki_graph();
    assert!(CertificateAnalysis::analyze(&g, 1).is_none());
    assert!(CertificateAnalysis::analyze(&g, 20).is_none());
    assert!(CertificateAnalysis::analyze(&g, 99).is_none());
}

#[test]
fn certificate_validity_and_summary() {
    let g = pki_graph();
    let a = CertificateAnalysis::analyze(&g, 12).unwrap();
    let now = 100 * DAY + 5;
    assert!(a.is_valid(now));
    assert_eq!(a.days_until_expiration(now), 264);
    assert_eq!(a.summary(now), "Leaf: CN=Alice - Valid (264 days remaining) - 0 issued certs");
    assert!(!a.is_valid(-1));
    assert!(!a.is_valid(400 * DAY));
    assert_eq!(a.days_until_expiration(400 * DAY), -35);
    assert_eq!(a.days_until_expiration(365 * DAY + 1), 0);
    assert_eq!(a.summary(400 * DAY), "Leaf: CN=Alice - Expired - 0 issued certs");
    let root = CertificateAnalysis::analyze(&g, 10).unwrap();
    assert_eq!(root.summary(0), "RootCA: CN=Root - Valid (3650 days remaining) - 1 issued certs");
}

#[test]
fn key_analysis_follows_its_edges() {
    let mut g = pki_graph();
    add(&mut g, 2, NodeType::Person, "Bob", NodeData::Plain);
    g.add_edge(1, 2, EdgeType::DelegatesKey, color());
    g.add_edge(12, 20, EdgeType::CertificateUsesKey, color());
    let a = KeyAnalysis::analyze(&g, 20).expect("key node");
    assert_eq!(a.algorithm, "Ed25519");
    assert_eq!(a.purpose, "Signing");
    assert_eq!(a.owner_id, Some(1));
    assert_eq!(a.owner_type, Some("Person".to_string()));
    assert_eq!(a.certificates, vec![12]);
    assert_eq!(a.storage_locations, vec![(30, "Vault".to_string())]);
    assert_eq!(a.yubikey_slots, vec![(40, "9C".to_string())]);
    assert_eq!(a.delegations, vec![(1, 2)]);
    assert_eq!(a.rotation_history, vec![21]);
    assert_eq!(a.summary(), "Ed25519 (Signing): 1 certs, 1 storage locations, 1 YubiKey slots");
    assert!(KeyAnalysis::analyze(&g, 12).is_none());
}

#[test]
fn person_analysis_gathers_keys_and_certificates() {
    let mut g = pki_graph();
    add(&mut g, 2, NodeType::Person, "Bob", NodeData::Plain);
    add(&mut g, 50, NodeType::NatsUser, "alice", NodeData::Plain);
    add(&mut g, 60, NodeType::Role, "Security Admin", NodeData::Plain);
    g.add_edge(1, 60, EdgeType::HasRole, color());
    g.add_edge(1, 2, EdgeType::DelegatesKey, color());
    g.add_edge(2, 1, EdgeType::DelegatesKey, color());
    g.add_edge(50, 1, EdgeType::MapsToPerson, color());
    g.add_edge(12, 1, EdgeType::IssuedTo, color());
    let a = PersonAnalysis::analyze(&g, 1).expect("person node");
    assert_eq!(a.name, "Alice");
    assert_eq!(a.role, KeyOwnerRole::SecurityAdmin);
    assert_eq!(a.roles, vec![60]);
    assert_eq!(a.owned_keys.len(), 1);
    assert_eq!(a.owned_keys.get(&20), Some(&"Alice signing key".to_string()));
    assert_eq!(a.delegations_from, vec![2]);
    assert_eq!(a.delegations_to, vec![2]);
    assert_eq!(a.yubikeys, vec![40]);
    assert_eq!(a.certificates, vec![12]);
    assert_eq!(a.nats_users, vec![50]);
    assert_eq!(a.summary(), "Alice: 1 roles, 1 keys, 2 delegations, 1 YubiKeys, 1 certificates");
    assert!(PersonAnalysis::analyze(&g, 30).is_none());
}

#[test]
fn location_analysis_sorts_what_is_stored() {
    let g = pki_graph();
    let a = LocationAnalysis::analyze(&g, 30).expect("location node");
    assert_eq!(a.name, "Vault");
    assert_eq!(a.stored_keys.get(&20), Some(&"Signing".to_string()));
    assert_eq!(a.stored_certificates, vec![12]);
    assert_eq!(a.stored_yubikeys, vec![40]);
    assert_eq!(a.access_permissions.get(&1), Some(&"Full Access".to_string()));
    assert!(a.has_access(&1));
    assert!(!a.has_access(&2));
    assert!(a.managing_units.is_empty());
    assert_eq!(a.summary(), "Vault: 1 keys, 1 certs, 1 YubiKeys, 1 access grants");
    assert!(LocationAnalysis::analyze(&g, 1).is_none());
}

/// Acme (1) with units Engineering (2, a department) and Platform (3, a team
/// under Engineering); Carol (10) belongs to Acme, Dave (11) to Engineering,
/// Erin (12) to Platform and answers for it.
fn org_graph() -> OrganizationGraph {
    let mut g = OrganizationGraph::new();
    add(&mut g, 1, NodeType::Organization, "Acme", NodeData::Plain);
    add(&mut g, 2, NodeType::OrganizationalUnit, "Engineering", NodeData::Unit { unit_type: OrganizationUnitType::Department });
    add(&mut g, 3, NodeType::OrganizationalUnit, "Platform", NodeData::Unit { unit_type: OrganizationUnitType::Team });
    add(&mut g, 10, NodeType::Person, "Carol", NodeData::Plain);
    add(&mut g, 11, NodeType::Person, "Dave", NodeData::Plain);
    add(&mut g, 12, NodeType::Person, "Erin", NodeData::Plain);
    add(&mut g, 20, NodeType::Role, "Developer", NodeData::Plain);
    add(&mut g, 21, NodeType::Policy, "Key policy", NodeData::Plain);
    add(&mut g, 30, NodeType::Location, "Vault", NodeData::Plain);
    g.add_edge(1, 2, EdgeType::ParentChild, color());
    g.add_edge(2, 3, EdgeType::ManagesUnit, color());
    g.add_edge(10, 1, EdgeType::MemberOf, color());
    g.add_edge(11, 2, EdgeType::MemberOf, color());
    g.add_edge(12, 3, EdgeType::MemberOf, color());
    g.add_edge(12, 3, EdgeType::ResponsibleFor, color());
    g.add_edge(1, 20, EdgeType::DefinesRole, color());
    g.add_edge(1, 21, EdgeType::DefinesPolicy, color());
    g.add_edge(1, 30, EdgeType::ManagesResource, color());
    g.add_edge(3, 30, EdgeType::ManagesResource, color());
    g.add_edge(30, 2, EdgeType::ManagedBy, color());
    g
}

#[test]
fn organization_analysis_counts_direct_and_unit_members() {
    let g = org_graph();
    let a = OrganizationAnalysis::analyze(&g, 1).expect("organization node");
    assert_eq!(a.name, "Acme");
    assert_eq!(a.child_units.len(), 1);
    assert_eq!(a.child_units.get(&2), Some(&"Engineering".to_string()));
    assert_eq!(a.direct_members.len(), 1);
    assert_eq!(a.direct_members.get(&10).map(|m| m.0.clone()), Some("Carol".to_string()));
    assert_eq!(a.indirect_members.len(), 1);
    assert_eq!(a.indirect_members.get(&11).map(|m| (m.0.clone(), m.2)), Some(("Dave".to_string(), 2)));
    assert_eq!(a.roles, vec![20]);
    assert_eq!(a.policies, vec![21]);
    assert_eq!(a.managed_resources, vec![(30, "Location".to_string())]);
    assert_eq!(a.total_member_count(), 2);
    assert_eq!(a.summary(), "Acme: 1 units, 2 members, 1 roles, 1 policies");
    assert!(OrganizationAnalysis::analyze(&g, 2).is_none());
}

#[test]
fn unit_analysis_finds_parent_children_and_members() {
    let g = org_graph();
    let a = OrganizationalUnitAnalysis::analyze(&g, 2).expect("unit node");
    assert_eq!(a.unit_type, OrganizationUnitType::Department);
    assert_eq!(a.parent_id, Some(1));
    assert_eq!(a.parent_type, Some("Organization".to_string()));
    assert_eq!(a.child_units.get(&3), Some(&"Platform".to_string()));
    assert_eq!(a.members.len(), 1);
    assert!(a.members.contains_key(&11));
    assert_eq!(a.responsible_person, None);
    assert_eq!(a.summary(), "Engineering (Department): 1 members, 1 child units, 0 resources");
    let b = OrganizationalUnitAnalysis::analyze(&g, 3).expect("unit node");
    assert_eq!(b.parent_id, Some(2));
    assert_eq!(b.parent_type, Some("OrganizationalUnit".to_string()));
    assert_eq!(b.responsible_person, Some((12, "Erin".to_string())));
    assert_eq!(b.managed_resources, vec![(30, "Location".to_string())]);
    assert_eq!(b.summary(), "Platform (Team): 1 members, 0 child units, 1 resources");
    assert!(OrganizationalUnitAnalysis::analyze(&g, 1).is_none());
}

#[test]
fn unit_analysis_needs_the_unit_kind() {
    let mut g = OrganizationGraph::new();
    add(&mut g, 5, NodeType::OrganizationalUnit, "Bare", NodeData::Plain);
    assert!(OrganizationalUnitAnalysis::analyze(&g, 5).is_none());
}

#[test]
fn manifest_analysis_lists_exports() {
    let mut g = pki_graph();
    add(&mut g, 90, NodeType::Manifest, "Export 1", NodeData::Manifest { checksum: Some("abc".to_string()) });
    add(&mut g, 91, NodeType::NatsOperator, "op", NodeData::Plain);
    add(&mut g, 92, NodeType::NatsServiceAccount, "svc", NodeData::Plain);
    for to in [20u128, 12, 91, 92, 1, 30, 40, 999] {
        g.add_edge(90, to, EdgeType::ExportedTo, color());
    }
    g.add_edge(90, 1, EdgeType::SignedByPerson, color());
    let a = ManifestAnalysis::analyze(&g, 90).expect("manifest node");
    assert_eq!(a.manifest_name, "Export 1");
    assert_eq!(a.format, ExportFormat::EncryptedJson);
    assert_eq!(a.destination, None);
    assert_eq!(a.version, None);
    assert_eq!(a.exported_keys, vec![(20, "Alice signing key".to_string())]);
    assert_eq!(a.exported_certificates, vec![(12, "CN=Alice".to_string())]);
    assert_eq!(a.exported_nats_operators, vec![91]);
    assert_eq!(a.exported_nats_users, vec![92]);
    assert_eq!(a.exported_people, vec![1]);
    assert_eq!(a.exported_locations, vec![30]);
    assert_eq!(a.referenced_yubikeys, vec![(40, "12345678".to_string())]);
    assert_eq!(a.checksum, Some("abc".to_string()));
    assert_eq!(a.signed_by, Some(1));
    assert!(!a.is_signed());
    assert_eq!(a.total_exported_items(), 6);
    assert_eq!(a.total_nats_credentials(), 2);
    assert_eq!(a.summary(), "Export 1: 6 items exported (1 keys, 1 certs, 2 NATS creds) - Unsigned");
    assert!(ManifestAnalysis::analyze(&g, 999).is_none());
}

#[test]
fn yubikey_status_nodes_carry_the_plan() {
    let mut g = OrganizationGraph::new();
    add(&mut g, 1, NodeType::Person, "Alice", NodeData::Plain);
    add(&mut g, 2, NodeType::Role, "Security Admin", NodeData::Plain);
    g.add_edge(1, 2, EdgeType::HasRole, color());
    let nodes = generate_yubikey_provision_from_graph(&g).unwrap();
    assert_eq!(nodes.len(), 1);
    let (node, person) = &nodes[0];
    assert_eq!(*person, 1);
    match &node.data {
        NodeData::YubiKeyStatus { person_id, slots_needed, slots_provisioned, yubikey_serial } => {
            assert_eq!(*person_id, 1);
            assert_eq!(
                slots_needed.to_vec(),
                vec![PIVSlot::Authentication, PIVSlot::DigitalSignature, PIVSlot::KeyManagement]
            );
            assert_eq!(*slots_provisioned, SlotList::End);
            assert_eq!(*yubikey_serial, None);
        }
        other => panic!("expected a YubiKey status record, got {:?}", other),
    }
}
