//! Messages of the GPG keys section: its visibility, the key form, and the
//! generation and listing of keys.

use vstd::prelude::*;

verus! {

/// Algorithm of a GPG key.
#[derive(Clone, Copy, Debug, PartialEq, Eq, Structural)]
pub enum GpgKeyType {
    Eddsa,
    Ecdsa,
    Rsa,
    Dsa,
}

/// A generated GPG key pair, by its identifiers.
#[derive(Clone, Debug, PartialEq, Eq)]
pub struct GpgKeypair {
    pub key_id: String,
    pub fingerprint: String,
}

/// A GPG key found in the key ring.
#[derive(Clone, Debug, PartialEq, Eq)]
pub struct GpgKeyInfo {
    pub key_id: String,
    pub user_id: String,
}

/// Messages of the GPG keys section.
#[derive(Debug)]
pub enum GpgMessage {
    /// Show or hide the section.
    ToggleSection,
    /// The user ID changed, e.g. "Name <email@example.com>".
    UserIdChanged(String),
    /// A key type was chosen.
    KeyTypeSelected(GpgKeyType),
    /// The key length, in bits, changed.
    KeyLengthChanged(String),
    /// The number of days until expiry changed.
    ExpiresDaysChanged(String),
    /// Generate a key pair.
    Generate,
    /// The outcome of a generation.
    Generated(Result<GpgKeypair, String>),
    /// List the keys of the key ring.
    ListKeys,
    /// The outcome of a listing.
    KeysListed(Result<Vec<GpgKeyInfo>, String>),
}

} // verus!
