//! Verified core of the key-management GUI: form states and their update
//! rules, routing of application messages, graph filtering and projections,
//! undo/redo event history, PKI/YubiKey planning, the entity-centric views
//! of the graph (certificate, key, person, location, organization, unit and
//! manifest) and the property card.

pub mod text;
pub mod location;
pub mod recovery;
pub mod ids;
pub mod org_unit;
pub mod service_account;
pub mod yubikey;
pub mod multi_key;
pub mod passphrase;
pub mod role_palette;
pub mod badges;
pub mod graph_model;
pub mod routing;
pub mod events;
pub mod graph_signals;
pub mod gui_frp_integration;
pub mod graph_projection;
pub mod graph_pki;
pub mod graph_nats;
pub mod graph_buttons;
pub mod graph_certificate;
pub mod graph_key;
pub mod graph_person;
pub mod graph_location;
pub mod graph_organization;
pub mod property_card;
pub mod trust_chain;
pub mod graph_manifest;
pub mod gpg;
pub mod frp_integration;
pub mod concept;
pub mod layout;
pub mod causality;
pub mod graph_causality;
pub mod graph_relationship;
