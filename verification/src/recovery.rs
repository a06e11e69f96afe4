//! Key recovery from a seed: the passphrase form, its readiness checks and the
//! status line that the seed verification and key recovery steps report to.

use vstd::prelude::*;
use crate::location::opt_chars;
use crate::text::{concat, concat3, decimal, decimal_chars, owned};

verus! {

broadcast use vstd::string::group_string_axioms;

/// Messages of the recovery section.
#[derive(Debug)]
pub enum RecoveryMessage {
    ToggleSection,
    PassphraseChanged(String),
    PassphraseConfirmChanged(String),
    OrganizationIdChanged(String),
    VerifySeed,
    SeedVerified(Result<String, String>),
    RecoverKeys,
    KeysRecovered(Result<usize, String>),
}

/// State of the recovery section.
#[derive(Debug, Clone)]
pub struct RecoveryState {
    pub section_collapsed: bool,
    pub passphrase: String,
    pub passphrase_confirm: String,
    pub organization_id: String,
    pub status: Option<String>,
    pub seed_verified: bool,
}

/// A passphrase is entered and the confirmation repeats it.
pub open spec fn passphrases_agree(s: RecoveryState) -> bool {
    s.passphrase@.len() > 0 && s.passphrase@ == s.passphrase_confirm@
}

/// The seed can be derived: matching passphrases and an organization.
pub open spec fn verification_ready(s: RecoveryState) -> bool {
    &&& s.passphrase@.len() > 0
    &&& passphrases_agree(s)
    &&& s.organization_id@.len() > 0
}

/// Keys can be recovered: the form is ready and the seed was verified.
pub open spec fn recovery_ready(s: RecoveryState) -> bool {
    verification_ready(s) && s.seed_verified
}

/// The first problem that the form reports, if any.
pub open spec fn recovery_error(s: RecoveryState) -> Option<Seq<char>> {
    if s.passphrase@.len() == 0 {
        Some("Recovery passphrase is required"@)
    } else if !passphrases_agree(s) {
        Some("Passphrases do not match"@)
    } else if s.organization_id@.len() == 0 {
        Some("Organization ID is required for recovery"@)
    } else {
        None
    }
}

/// The form inputs of `s2` equal those of `s1`.
pub open spec fn same_inputs(s1: RecoveryState, s2: RecoveryState) -> bool {
    &&& s2.passphrase@ == s1.passphrase@
    &&& s2.passphrase_confirm@ == s1.passphrase_confirm@
    &&& s2.organization_id@ == s1.organization_id@
}

/// What `update` makes of `s1` on message `m`.
pub open spec fn recovery_updated(s1: RecoveryState, m: RecoveryMessage, s2: RecoveryState) -> bool {
    match m {
        RecoveryMessage::ToggleSection => {
            &&& s2.section_collapsed == !s1.section_collapsed
            &&& same_inputs(s1, s2)
            &&& opt_chars(s2.status) == opt_chars(s1.status)
            &&& s2.seed_verified == s1.seed_verified
        },
        RecoveryMessage::PassphraseChanged(p) => {
            &&& s2.passphrase@ == p@
            &&& s2.passphrase_confirm@ == s1.passphrase_confirm@
            &&& s2.organization_id@ == s1.organization_id@
            &&& s2.section_collapsed == s1.section_collapsed
            &&& s2.status is None
            &&& !s2.seed_verified
        },
        RecoveryMessage::PassphraseConfirmChanged(p) => {
            &&& s2.passphrase@ == s1.passphrase@
            &&& s2.passphrase_confirm@ == p@
            &&& s2.organization_id@ == s1.organization_id@
            &&& s2.section_collapsed == s1.section_collapsed
            &&& s2.status is None
            &&& !s2.seed_verified
        },
        RecoveryMessage::OrganizationIdChanged(o) => {
            &&& s2.passphrase@ == s1.passphrase@
            &&& s2.passphrase_confirm@ == s1.passphrase_confirm@
            &&& s2.organization_id@ == o@
            &&& s2.section_collapsed == s1.section_collapsed
            &&& s2.status is None
            &&& !s2.seed_verified
        },
        _ => {
            &&& same_inputs(s1, s2)
            &&& s2.section_collapsed == s1.section_collapsed
            &&& opt_chars(s2.status) == opt_chars(s1.status)
            &&& s2.seed_verified == s1.seed_verified
        },
    }
}

fn is_empty_string(s: &String) -> (r: bool)
    ensures
        r == (s@.len() == 0),
{
    s.as_str().is_empty()
}

impl Default for RecoveryState {
    fn default() -> (s: Self)
        ensures
            !s.section_collapsed,
            s.passphrase@.len() == 0,
            s.passphrase_confirm@.len() == 0,
            s.organization_id@.len() == 0,
            s.status is None,
            !s.seed_verified,
    {
        RecoveryState {
            section_collapsed: false,
            passphrase: String::new(),
            passphrase_confirm: String::new(),
            organization_id: String::new(),
            status: None,
            seed_verified: false,
        }
    }
}

impl RecoveryState {
    /// An empty form with the section collapsed.
    pub fn new() -> (s: Self)
        ensures
            s.section_collapsed,
            s.passphrase@.len() == 0,
            s.passphrase_confirm@.len() == 0,
            s.organization_id@.len() == 0,
            s.status is None,
            !s.seed_verified,
    {
        RecoveryState {
            section_collapsed: true,
            passphrase: String::new(),
            passphrase_confirm: String::new(),
            organization_id: String::new(),
            status: None,
            seed_verified: false,
        }
    }

    /// The passphrase is non-empty and equal to its confirmation.
    pub fn passphrases_match(&self) -> (r: bool)
        ensures
            r == passphrases_agree(*self),
    {
        !is_empty_string(&self.passphrase) && self.passphrase == self.passphrase_confirm
    }

    /// Everything needed to derive the seed is filled in.
    pub fn is_verification_ready(&self) -> (r: bool)
        ensures
            r == verification_ready(*self),
    {
        !is_empty_string(&self.passphrase) && self.passphrases_match()
            && !is_empty_string(&self.organization_id)
    }

    /// The form is ready and the seed has been verified.
    pub fn is_recovery_ready(&self) -> (r: bool)
        ensures
            r == recovery_ready(*self),
    {
        self.is_verification_ready() && self.seed_verified
    }

    /// The first problem of the form, as the message shown to the user.
    pub fn validation_error(&self) -> (r: Option<String>)
        ensures
            opt_chars(r) == recovery_error(*self),
    {
        if is_empty_string(&self.passphrase) {
            return Some(owned("Recovery passphrase is required"));
        }
        if !self.passphrases_match() {
            return Some(owned("Passphrases do not match"));
        }
        if is_empty_string(&self.organization_id) {
            return Some(owned("Organization ID is required for recovery"));
        }
        None
    }

    /// Empties the inputs and forgets the status and the verification.
    pub fn clear_form(&mut self)
        ensures
            final(self).passphrase@.len() == 0,
            final(self).passphrase_confirm@.len() == 0,
            final(self).organization_id@.len() == 0,
            final(self).status is None,
            !final(self).seed_verified,
            final(self).section_collapsed == old(self).section_collapsed,
    {
        self.passphrase = String::new();
        self.passphrase_confirm = String::new();
        self.organization_id = String::new();
        self.status = None;
        self.seed_verified = false;
    }

    /// Forgets the verification and the status; the inputs stay.
    pub fn reset_verification(&mut self)
        ensures
            !final(self).seed_verified,
            final(self).status is None,
            same_inputs(*old(self), *final(self)),
            final(self).section_collapsed == old(self).section_collapsed,
    {
        self.seed_verified = false;
        self.status = None;
    }

    /// Status: the seed is being derived.
    pub fn set_status_deriving(&mut self)
        ensures
            opt_chars(final(self).status) == Some("⏳ Deriving seed..."@),
            final(self).seed_verified == old(self).seed_verified,
            same_inputs(*old(self), *final(self)),
            final(self).section_collapsed == old(self).section_collapsed,
    {
        self.status = Some(owned("⏳ Deriving seed..."));
    }

    /// Status: keys are being recovered.
    pub fn set_status_recovering(&mut self)
        ensures
            opt_chars(final(self).status) == Some("⏳ Recovering keys..."@),
            final(self).seed_verified == old(self).seed_verified,
            same_inputs(*old(self), *final(self)),
            final(self).section_collapsed == old(self).section_collapsed,
    {
        self.status = Some(owned("⏳ Recovering keys..."));
    }

    /// Status: the seed was verified, with its fingerprint; marks it verified.
    pub fn set_status_verified(&mut self, fingerprint: &str)
        ensures
            opt_chars(final(self).status) == Some("✅ Seed verified! Fingerprint: "@ + fingerprint@),
            final(self).seed_verified,
            same_inputs(*old(self), *final(self)),
            final(self).section_collapsed == old(self).section_collapsed,
    {
        self.status = Some(concat("✅ Seed verified! Fingerprint: ", fingerprint));
        self.seed_verified = true;
    }

    /// Status: recovery finished for `count` key types.
    pub fn set_status_recovered(&mut self, count: usize)
        ensures
            opt_chars(final(self).status) == Some("✅ Recovery complete! "@ + decimal_chars(count as nat)
                + " key types can be regenerated"@),
            final(self).seed_verified == old(self).seed_verified,
            same_inputs(*old(self), *final(self)),
            final(self).section_collapsed == old(self).section_collapsed,
    {
        let n = decimal(count);
        self.status = Some(concat3("✅ Recovery complete! ", n.as_str(), " key types can be regenerated"));
    }

    /// Status: a step failed with `error`; the seed counts as unverified.
    pub fn set_status_failure(&mut self, error: &str)
        ensures
            opt_chars(final(self).status) == Some("❌ Failed: "@ + error@),
            !final(self).seed_verified,
            same_inputs(*old(self), *final(self)),
            final(self).section_collapsed == old(self).section_collapsed,
    {
        self.status = Some(concat("❌ Failed: ", error));
        self.seed_verified = false;
    }
}

/// Applies a message. Seed verification and key recovery need cryptography
/// and are left to the caller, so those messages change nothing here; every
/// change of an input forgets an earlier verification.
pub fn update(state: &mut RecoveryState, message: RecoveryMessage)
    ensures
        recovery_updated(*old(state), message, *final(state)),
{
    match message {
        RecoveryMessage::ToggleSection => {
            state.section_collapsed = !state.section_collapsed;
        },
        RecoveryMessage::PassphraseChanged(p) => {
            state.passphrase = p;
            state.reset_verification();
        },
        RecoveryMessage::PassphraseConfirmChanged(p) => {
            state.passphrase_confirm = p;
            state.reset_verification();
        },
        RecoveryMessage::OrganizationIdChanged(o) => {
            state.organization_id = o;
            state.reset_verification();
        },
        RecoveryMessage::VerifySeed => {},
        RecoveryMessage::SeedVerified(_) => {},
        RecoveryMessage::RecoverKeys => {},
        RecoveryMessage::KeysRecovered(_) => {},
    }
}

/// The form reports no problem exactly when the seed can be derived.
pub proof fn lemma_no_error_iff_ready(s: RecoveryState)
    ensures
        (recovery_error(s) is None) == verification_ready(s),
{
}

/// Recovery readiness implies verification readiness.
pub proof fn lemma_recovery_needs_verification(s: RecoveryState)
    requires
        recovery_ready(s),
    ensures
        verification_ready(s),
{
}

/// Changing any input leaves the seed unverified, so recovery is not ready.
pub proof fn lemma_input_change_blocks_recovery(s1: RecoveryState, m: RecoveryMessage, s2: RecoveryState)
    requires
        m is PassphraseChanged || m is PassphraseConfirmChanged || m is OrganizationIdChanged,
        recovery_updated(s1, m, s2),
    ensures
        !recovery_ready(s2),
        s2.status is None,
{
}

/// Toggling the section twice gives back the state it started from.
pub proof fn lemma_toggle_twice(s1: RecoveryState, s2: RecoveryState, s3: RecoveryState)
    requires
        recovery_updated(s1, RecoveryMessage::ToggleSection, s2),
        recovery_updated(s2, RecoveryMessage::ToggleSection, s3),
    ensures
        s3.section_collapsed == s1.section_collapsed,
        same_inputs(s1, s3),
        opt_chars(s3.status) == opt_chars(s1.status),
        s3.seed_verified == s1.seed_verified,
{
}

} // verus!
