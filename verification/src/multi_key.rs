//! Multi-purpose key generation: choosing a person and a set of key purposes,
//! and the status line of the generation.

use vstd::prelude::*;
use crate::location::opt_chars;
use crate::text::{concat, concat3, decimal, decimal_chars, owned};

verus! {

broadcast use vstd::string::group_string_axioms;

/// What a generated key is for.
#[derive(Debug, Clone, Copy, PartialEq, Eq, Structural)]
pub enum InvariantKeyPurpose {
    Authentication,
    Signing,
    Encryption,
    KeyAgreement,
}

/// A set of key purposes.
#[derive(Debug, Clone, Copy, PartialEq, Eq, Structural)]
pub struct PurposeSet {
    authentication: bool,
    signing: bool,
    encryption: bool,
    key_agreement: bool,
}

impl View for PurposeSet {
    type V = Set<InvariantKeyPurpose>;

    closed spec fn view(&self) -> Set<InvariantKeyPurpose> {
        let s0 = Set::<InvariantKeyPurpose>::empty();
        let s1 = if self.authentication { s0.insert(InvariantKeyPurpose::Authentication) } else { s0 };
        let s2 = if self.signing { s1.insert(InvariantKeyPurpose::Signing) } else { s1 };
        let s3 = if self.encryption { s2.insert(InvariantKeyPurpose::Encryption) } else { s2 };
        if self.key_agreement { s3.insert(InvariantKeyPurpose::KeyAgreement) } else { s3 }
    }
}

impl PurposeSet {
    proof fn lemma_view(&self)
        ensures
            self@.finite(),
            self@.contains(InvariantKeyPurpose::Authentication) == self.authentication,
            self@.contains(InvariantKeyPurpose::Signing) == self.signing,
            self@.contains(InvariantKeyPurpose::Encryption) == self.encryption,
            self@.contains(InvariantKeyPurpose::KeyAgreement) == self.key_agreement,
            self@.len() == (if self.authentication { 1nat } else { 0nat })
                + (if self.signing { 1nat } else { 0nat })
                + (if self.encryption { 1nat } else { 0nat })
                + (if self.key_agreement { 1nat } else { 0nat }),
    {
    }

    /// The empty set.
    pub fn new() -> (s: Self)
        ensures
            s@ == Set::<InvariantKeyPurpose>::empty(),
    {
        let s = PurposeSet { authentication: false, signing: false, encryption: false, key_agreement: false };
        assert(s@ =~= Set::<InvariantKeyPurpose>::empty());
        s
    }

    /// Whether `p` is in the set.
    pub fn contains(&self, p: &InvariantKeyPurpose) -> (r: bool)
        ensures
            r == self@.contains(*p),
    {
        proof { self.lemma_view(); }
        match *p {
            InvariantKeyPurpose::Authentication => self.authentication,
            InvariantKeyPurpose::Signing => self.signing,
            InvariantKeyPurpose::Encryption => self.encryption,
            InvariantKeyPurpose::KeyAgreement => self.key_agreement,
        }
    }

    fn set_member(&mut self, p: InvariantKeyPurpose, present: bool)
        ensures
            final(self)@ == (if present { old(self)@.insert(p) } else { old(self)@.remove(p) }),
    {
        proof { old(self).lemma_view(); }
        match p {
            InvariantKeyPurpose::Authentication => self.authentication = present,
            InvariantKeyPurpose::Signing => self.signing = present,
            InvariantKeyPurpose::Encryption => self.encryption = present,
            InvariantKeyPurpose::KeyAgreement => self.key_agreement = present,
        }
        proof {
            self.lemma_view();
            assert(self@ =~= (if present { old(self)@.insert(p) } else { old(self)@.remove(p) }));
        }
    }

    /// Adds `p`; true when it was not there before.
    pub fn insert(&mut self, p: InvariantKeyPurpose) -> (r: bool)
        ensures
            final(self)@ == old(self)@.insert(p),
            r == !old(self)@.contains(p),
    {
        let was = self.contains(&p);
        self.set_member(p, true);
        !was
    }

    /// Takes out `p`; true when it was there.
    pub fn remove(&mut self, p: &InvariantKeyPurpose) -> (r: bool)
        ensures
            final(self)@ == old(self)@.remove(*p),
            r == old(self)@.contains(*p),
    {
        let was = self.contains(p);
        self.set_member(*p, false);
        was
    }

    /// Number of purposes in the set.
    pub fn len(&self) -> (r: usize)
        ensures
            r == self@.len(),
    {
        proof { self.lemma_view(); }
        let mut n: usize = 0;
        if self.authentication { n = n + 1; }
        if self.signing { n = n + 1; }
        if self.encryption { n = n + 1; }
        if self.key_agreement { n = n + 1; }
        n
    }

    /// Whether the set is empty.
    pub fn is_empty(&self) -> (r: bool)
        ensures
            r == (self@.len() == 0),
    {
        self.len() == 0
    }

    /// Empties the set.
    pub fn clear(&mut self)
        ensures
            final(self)@ == Set::<InvariantKeyPurpose>::empty(),
    {
        *self = PurposeSet::new();
    }
}

/// Result of a key generation: the person and the fingerprints of the keys.
#[derive(Debug, Clone)]
pub struct GenerationResult {
    pub person_id: u128,
    pub key_fingerprints: Vec<String>,
}

/// Messages of the multi-purpose key section.
#[derive(Debug)]
pub enum MultiKeyMessage {
    ToggleSection,
    PersonSelected(u128),
    TogglePurpose(InvariantKeyPurpose),
    Generate,
    Generated(Result<GenerationResult, String>),
}

/// State of the multi-purpose key section.
#[derive(Debug, Clone)]
pub struct MultiKeyState {
    pub section_collapsed: bool,
    pub selected_person: Option<u128>,
    pub selected_purposes: PurposeSet,
    pub status: Option<String>,
}

/// A person and at least one purpose are chosen.
pub open spec fn generation_ready(s: MultiKeyState) -> bool {
    s.selected_person is Some && s.selected_purposes@.len() > 0
}

/// The first problem of the selection, if any.
pub open spec fn generation_error(s: MultiKeyState) -> Option<Seq<char>> {
    if s.selected_person is None {
        Some("Please select a person for key generation"@)
    } else if s.selected_purposes@.len() == 0 {
        Some("Please select at least one key purpose"@)
    } else {
        None
    }
}

/// The display name of a purpose.
pub open spec fn purpose_name(p: InvariantKeyPurpose) -> Seq<char> {
    match p {
        InvariantKeyPurpose::Authentication => "Authentication"@,
        InvariantKeyPurpose::Signing => "Digital Signing"@,
        InvariantKeyPurpose::Encryption => "Encryption"@,
        InvariantKeyPurpose::KeyAgreement => "Key Agreement"@,
    }
}

/// What `update` makes of `s1` on `m`.
pub open spec fn multi_key_updated(s1: MultiKeyState, m: MultiKeyMessage, s2: MultiKeyState) -> bool {
    &&& s2.section_collapsed == (if m is ToggleSection { !s1.section_collapsed } else { s1.section_collapsed })
    &&& s2.selected_person == (if let MultiKeyMessage::PersonSelected(p) = m { Some(p) } else { s1.selected_person })
    &&& s2.selected_purposes@ == (if let MultiKeyMessage::TogglePurpose(p) = m {
            if s1.selected_purposes@.contains(p) { s1.selected_purposes@.remove(p) } else { s1.selected_purposes@.insert(p) }
        } else {
            s1.selected_purposes@
        })
    &&& opt_chars(s2.status) == opt_chars(s1.status)
}

impl Default for MultiKeyState {
    fn default() -> (s: Self)
        ensures
            !s.section_collapsed,
            s.selected_person is None,
            s.selected_purposes@ == Set::<InvariantKeyPurpose>::empty(),
            s.status is None,
    {
        MultiKeyState {
            section_collapsed: false,
            selected_person: None,
            selected_purposes: PurposeSet::new(),
            status: None,
        }
    }
}

impl MultiKeyState {
    /// Nothing selected, section collapsed.
    pub fn new() -> (s: Self)
        ensures
            s.section_collapsed,
            s.selected_person is None,
            s.selected_purposes@ == Set::<InvariantKeyPurpose>::empty(),
            s.status is None,
    {
        MultiKeyState {
            section_collapsed: true,
            selected_person: None,
            selected_purposes: PurposeSet::new(),
            status: None,
        }
    }

    /// A person and at least one purpose are selected.
    pub fn is_ready_to_generate(&self) -> (r: bool)
        ensures
            r == generation_ready(*self),
    {
        self.selected_person.is_some() && !self.selected_purposes.is_empty()
    }

    /// The first problem of the selection, as shown to the user.
    pub fn validation_error(&self) -> (r: Option<String>)
        ensures
            opt_chars(r) == generation_error(*self),
    {
        if self.selected_person.is_none() {
            return Some(owned("Please select a person for key generation"));
        }
        if self.selected_purposes.is_empty() {
            return Some(owned("Please select at least one key purpose"));
        }
        None
    }

    /// Forgets the purposes; the person stays selected.
    pub fn clear_selection(&mut self)
        ensures
            final(self).selected_purposes@ == Set::<InvariantKeyPurpose>::empty(),
            final(self).selected_person == old(self).selected_person,
            opt_chars(final(self).status) == opt_chars(old(self).status),
            final(self).section_collapsed == old(self).section_collapsed,
    {
        self.selected_purposes.clear();
    }

    /// Forgets person, purposes and status.
    pub fn reset(&mut self)
        ensures
            final(self).selected_purposes@ == Set::<InvariantKeyPurpose>::empty(),
            final(self).selected_person is None,
            final(self).status is None,
            final(self).section_collapsed == old(self).section_collapsed,
    {
        self.selected_person = None;
        self.selected_purposes.clear();
        self.status = None;
    }

    /// Number of selected purposes.
    pub fn purpose_count(&self) -> (r: usize)
        ensures
            r == self.selected_purposes@.len(),
    {
        self.selected_purposes.len()
    }

    /// Whether `purpose` is selected.
    pub fn is_purpose_selected(&self, purpose: InvariantKeyPurpose) -> (r: bool)
        ensures
            r == self.selected_purposes@.contains(purpose),
    {
        self.selected_purposes.contains(&purpose)
    }

    /// Every purpose, in display order.
    pub fn available_purposes() -> (r: Vec<InvariantKeyPurpose>)
        ensures
            r@ == seq![
                InvariantKeyPurpose::Authentication,
                InvariantKeyPurpose::Signing,
                InvariantKeyPurpose::Encryption,
                InvariantKeyPurpose::KeyAgreement,
            ],
    {
        let mut v: Vec<InvariantKeyPurpose> = Vec::new();
        v.push(InvariantKeyPurpose::Authentication);
        v.push(InvariantKeyPurpose::Signing);
        v.push(InvariantKeyPurpose::Encryption);
        v.push(InvariantKeyPurpose::KeyAgreement);
        assert(v@ =~= seq![
            InvariantKeyPurpose::Authentication,
            InvariantKeyPurpose::Signing,
            InvariantKeyPurpose::Encryption,
            InvariantKeyPurpose::KeyAgreement,
        ]);
        v
    }

    /// Display name of a purpose.
    pub fn purpose_display_name(purpose: InvariantKeyPurpose) -> (r: &'static str)
        ensures
            r@ == purpose_name(purpose),
    {
        match purpose {
            InvariantKeyPurpose::Authentication => "Authentication",
            InvariantKeyPurpose::Signing => "Digital Signing",
            InvariantKeyPurpose::Encryption => "Encryption",
            InvariantKeyPurpose::KeyAgreement => "Key Agreement",
        }
    }

    /// Status: generation running.
    pub fn set_status_generating(&mut self)
        ensures
            opt_chars(final(self).status) == Some("🔑 Generating keys..."@),
            final(self).selected_person == old(self).selected_person,
            final(self).selected_purposes == old(self).selected_purposes,
            final(self).section_collapsed == old(self).section_collapsed,
    {
        self.status = Some(owned("🔑 Generating keys..."));
    }

    /// Status: `count` keys were generated.
    pub fn set_status_success(&mut self, count: usize)
        ensures
            opt_chars(final(self).status) == Some("✅ Generated "@ + decimal_chars(count as nat) + " key(s) successfully"@),
            final(self).selected_person == old(self).selected_person,
            final(self).selected_purposes == old(self).selected_purposes,
            final(self).section_collapsed == old(self).section_collapsed,
    {
        let n = decimal(count);
        self.status = Some(concat3("✅ Generated ", n.as_str(), " key(s) successfully"));
    }

    /// Status: generation failed with `error`.
    pub fn set_status_failure(&mut self, error: &str)
        ensures
            opt_chars(final(self).status) == Some("❌ Generation failed: "@ + error@),
            final(self).selected_person == old(self).selected_person,
            final(self).selected_purposes == old(self).selected_purposes,
            final(self).section_collapsed == old(self).section_collapsed,
    {
        self.status = Some(concat("❌ Generation failed: ", error));
    }
}

/// Applies a message. Generation itself needs cryptography and is left to
/// the caller, so `Generate` and `Generated` change nothing here.
pub fn update(state: &mut MultiKeyState, message: MultiKeyMessage)
    ensures
        multi_key_updated(*old(state), message, *final(state)),
{
    match message {
        MultiKeyMessage::ToggleSection => {
            state.section_collapsed = !state.section_collapsed;
        },
        MultiKeyMessage::PersonSelected(p) => {
            state.selected_person = Some(p);
        },
        MultiKeyMessage::TogglePurpose(p) => {
            if state.selected_purposes.contains(&p) {
                state.selected_purposes.remove(&p);
            } else {
                state.selected_purposes.insert(p);
            }
        },
        MultiKeyMessage::Generate => {},
        MultiKeyMessage::Generated(_) => {},
    }
}

/// Toggling the same purpose twice gives back the selection it started from.
pub proof fn lemma_toggle_purpose_twice(
    s1: MultiKeyState,
    p: InvariantKeyPurpose,
    s2: MultiKeyState,
    s3: MultiKeyState,
)
    requires
        multi_key_updated(s1, MultiKeyMessage::TogglePurpose(p), s2),
        multi_key_updated(s2, MultiKeyMessage::TogglePurpose(p), s3),
    ensures
        s3.selected_purposes@ == s1.selected_purposes@,
        s3.selected_person == s1.selected_person,
{
    if s1.selected_purposes@.contains(p) {
        assert(s3.selected_purposes@ =~= s1.selected_purposes@);
    } else {
        assert(s3.selected_purposes@ =~= s1.selected_purposes@);
    }
}

/// The selection reports no problem exactly when generation can start.
pub proof fn lemma_generation_error_iff_not_ready(s: MultiKeyState)
    ensures
        (generation_error(s) is None) == generation_ready(s),
{
}

} // verus!
