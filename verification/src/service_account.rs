//! Service account management: the form for a new service account, its
//! validation, and deactivation or removal of created accounts.

use vstd::prelude::*;
use crate::ids::fresh_id;
use crate::location::opt_chars;
use crate::text::owned;
use crate::yubikey::KeyOwnerRole;

verus! {

broadcast use vstd::string::group_string_axioms;

/// A service account owned by an organization unit, with a responsible person.
#[derive(Debug, Clone)]
pub struct ServiceAccount {
    pub id: u128,
    pub name: String,
    pub purpose: String,
    pub owning_unit_id: u128,
    pub responsible_person_id: u128,
    pub active: bool,
}

impl ServiceAccount {
    /// A new active service account with a fresh identifier.
    pub fn new(name: String, purpose: String, owning_unit_id: u128, responsible_person_id: u128) -> (a: Self)
        ensures
            a.name@ == name@,
            a.purpose@ == purpose@,
            a.owning_unit_id == owning_unit_id,
            a.responsible_person_id == responsible_person_id,
            a.active,
    {
        ServiceAccount { id: fresh_id(), name, purpose, owning_unit_id, responsible_person_id, active: true }
    }
}

/// Messages of the service account section.
#[derive(Debug)]
pub enum ServiceAccountMessage {
    ToggleSection,
    NameChanged(String),
    PurposeChanged(String),
    OwningUnitSelected(u128),
    ResponsiblePersonSelected(u128),
    Create,
    Created(Result<ServiceAccount, String>),
    Deactivate(u128),
    Remove(u128),
    GenerateKey { service_account_id: u128 },
    KeyGenerated(Result<(u128, KeyOwnerRole), String>),
}

/// State of the service account section.
#[derive(Debug, Clone)]
pub struct ServiceAccountState {
    pub section_collapsed: bool,
    pub new_name: String,
    pub new_purpose: String,
    pub new_owning_unit: Option<u128>,
    pub new_responsible_person: Option<u128>,
    pub created_service_accounts: Vec<ServiceAccount>,
}

/// The form has a name, an owning unit and a responsible person.
pub open spec fn account_form_valid(s: ServiceAccountState) -> bool {
    s.new_name@.len() > 0 && s.new_owning_unit is Some && s.new_responsible_person is Some
}

/// The first problem of the form, if any.
pub open spec fn account_error(s: ServiceAccountState) -> Option<Seq<char>> {
    if s.new_name@.len() == 0 {
        Some("Service account name is required"@)
    } else if s.new_owning_unit is None {
        Some("Owning organizational unit is required"@)
    } else if s.new_responsible_person is None {
        Some("Responsible person is required"@)
    } else {
        None
    }
}

/// Number of active accounts in `s`.
pub open spec fn active_in(s: Seq<ServiceAccount>) -> nat
    decreases s.len(),
{
    if s.len() == 0 {
        0
    } else {
        active_in(s.drop_last()) + if s.last().active { 1nat } else { 0nat }
    }
}

/// Index of the first account with identifier `id`; `s.len()` when there is none.
pub open spec fn first_account_index(s: Seq<ServiceAccount>, id: u128) -> int
    decreases s.len(),
{
    if s.len() == 0 {
        0
    } else if s[0].id == id {
        0
    } else {
        1 + first_account_index(s.drop_first(), id)
    }
}

/// `s` with the first account whose identifier is `id` marked inactive.
pub open spec fn deactivated(s: Seq<ServiceAccount>, id: u128) -> Seq<ServiceAccount> {
    let i = first_account_index(s, id);
    if i < s.len() {
        s.update(i, ServiceAccount { active: false, ..s[i] })
    } else {
        s
    }
}

/// `s` with the first account whose identifier is `id` taken out.
pub open spec fn without_account(s: Seq<ServiceAccount>, id: u128) -> Seq<ServiceAccount> {
    let i = first_account_index(s, id);
    if i < s.len() { s.remove(i) } else { s }
}

/// What `update` makes of `s1` on `m`.
pub open spec fn account_updated(s1: ServiceAccountState, m: ServiceAccountMessage, s2: ServiceAccountState) -> bool {
    &&& s2.section_collapsed == (if m is ToggleSection { !s1.section_collapsed } else { s1.section_collapsed })
    &&& s2.new_name@ == (if let ServiceAccountMessage::NameChanged(v) = m { v@ } else { s1.new_name@ })
    &&& s2.new_purpose@ == (if let ServiceAccountMessage::PurposeChanged(v) = m { v@ } else { s1.new_purpose@ })
    &&& s2.new_owning_unit == (if let ServiceAccountMessage::OwningUnitSelected(u) = m { Some(u) } else { s1.new_owning_unit })
    &&& s2.new_responsible_person == (if let ServiceAccountMessage::ResponsiblePersonSelected(p) = m { Some(p) } else { s1.new_responsible_person })
    &&& s2.created_service_accounts@ == (match m {
            ServiceAccountMessage::Deactivate(id) => deactivated(s1.created_service_accounts@, id),
            ServiceAccountMessage::Remove(id) => without_account(s1.created_service_accounts@, id),
            _ => s1.created_service_accounts@,
        })
}

proof fn lemma_first_account_index(s: Seq<ServiceAccount>, id: u128)
    ensures
        0 <= first_account_index(s, id) <= s.len(),
        first_account_index(s, id) < s.len() ==> s[first_account_index(s, id)].id == id,
        forall|j: int| 0 <= j < first_account_index(s, id) ==> s[j].id != id,
    decreases s.len(),
{
    if s.len() > 0 && s[0].id != id {
        let rest = s.drop_first();
        lemma_first_account_index(rest, id);
        assert forall|j: int| 0 <= j < first_account_index(s, id) implies s[j].id != id by {
            if j > 0 {
                assert(s[j] == rest[j - 1]);
            }
        }
    }
}

proof fn lemma_active_update(s: Seq<ServiceAccount>, i: int, a: ServiceAccount)
    requires
        0 <= i < s.len(),
    ensures
        active_in(s.update(i, a)) + (if s[i].active { 1nat } else { 0nat })
            == active_in(s) + (if a.active { 1nat } else { 0nat }),
    decreases s.len(),
{
    if i < s.len() - 1 {
        lemma_active_update(s.drop_last(), i, a);
        assert(s.update(i, a).drop_last() =~= s.drop_last().update(i, a));
    } else {
        assert(s.update(i, a).drop_last() =~= s.drop_last());
    }
}

fn is_empty_string(s: &String) -> (r: bool)
    ensures
        r == (s@.len() == 0),
{
    s.as_str().is_empty()
}

impl Default for ServiceAccountState {
    fn default() -> (s: Self)
        ensures
            !s.section_collapsed,
            s.new_name@.len() == 0,
            s.new_purpose@.len() == 0,
            s.new_owning_unit is None,
            s.new_responsible_person is None,
            s.created_service_accounts@.len() == 0,
    {
        ServiceAccountState {
            section_collapsed: false,
            new_name: String::new(),
            new_purpose: String::new(),
            new_owning_unit: None,
            new_responsible_person: None,
            created_service_accounts: Vec::new(),
        }
    }
}

impl ServiceAccountState {
    /// An empty form with the section collapsed.
    pub fn new() -> (s: Self)
        ensures
            s.section_collapsed,
            s.new_name@.len() == 0,
            s.new_purpose@.len() == 0,
            s.new_owning_unit is None,
            s.new_responsible_person is None,
            s.created_service_accounts@.len() == 0,
    {
        ServiceAccountState {
            section_collapsed: true,
            new_name: String::new(),
            new_purpose: String::new(),
            new_owning_unit: None,
            new_responsible_person: None,
            created_service_accounts: Vec::new(),
        }
    }

    /// Name, owning unit and responsible person are given.
    pub fn is_form_valid(&self) -> (r: bool)
        ensures
            r == account_form_valid(*self),
    {
        !is_empty_string(&self.new_name) && self.new_owning_unit.is_some()
            && self.new_responsible_person.is_some()
    }

    /// The first problem of the form, as shown to the user.
    pub fn validation_error(&self) -> (r: Option<String>)
        ensures
            opt_chars(r) == account_error(*self),
    {
        if is_empty_string(&self.new_name) {
            return Some(owned("Service account name is required"));
        }
        if self.new_owning_unit.is_none() {
            return Some(owned("Owning organizational unit is required"));
        }
        if self.new_responsible_person.is_none() {
            return Some(owned("Responsible person is required"));
        }
        None
    }

    /// Empties the form; created accounts stay.
    pub fn clear_form(&mut self)
        ensures
            final(self).new_name@.len() == 0,
            final(self).new_purpose@.len() == 0,
            final(self).new_owning_unit is None,
            final(self).new_responsible_person is None,
            final(self).created_service_accounts@ == old(self).created_service_accounts@,
            final(self).section_collapsed == old(self).section_collapsed,
    {
        self.new_name = String::new();
        self.new_purpose = String::new();
        self.new_owning_unit = None;
        self.new_responsible_person = None;
    }

    /// Number of created accounts.
    pub fn service_account_count(&self) -> (r: usize)
        ensures
            r == self.created_service_accounts@.len(),
    {
        self.created_service_accounts.len()
    }

    /// Number of created accounts that are active.
    pub fn active_count(&self) -> (r: usize)
        ensures
            r == active_in(self.created_service_accounts@),
    {
        let mut count: usize = 0;
        let mut i: usize = 0;
        while i < self.created_service_accounts.len()
            invariant
                i <= self.created_service_accounts@.len(),
                count == active_in(self.created_service_accounts@.take(i as int)),
                count <= i,
            decreases self.created_service_accounts.len() - i,
        {
            assert(self.created_service_accounts@.take(i + 1).drop_last()
                =~= self.created_service_accounts@.take(i as int));
            if self.created_service_accounts[i].active {
                count = count + 1;
            }
            i = i + 1;
        }
        assert(self.created_service_accounts@.take(i as int) =~= self.created_service_accounts@);
        count
    }

    fn position_of(&self, id: u128) -> (r: usize)
        ensures
            r == first_account_index(self.created_service_accounts@, id),
    {
        proof { lemma_first_account_index(self.created_service_accounts@, id); }
        let mut i: usize = 0;
        while i < self.created_service_accounts.len()
            invariant
                i <= self.created_service_accounts@.len(),
                forall|j: int| 0 <= j < i ==> self.created_service_accounts@[j].id != id,
            decreases self.created_service_accounts.len() - i,
        {
            if self.created_service_accounts[i].id == id {
                proof {
                    lemma_first_account_index(self.created_service_accounts@, id);
                    let f = first_account_index(self.created_service_accounts@, id);
                    if f < i {
                        assert(self.created_service_accounts@[f].id != id);
                    }
                    if f > i {
                        assert(self.created_service_accounts@[i as int].id != id);
                    }
                }
                return i;
            }
            i = i + 1;
        }
        proof {
            lemma_first_account_index(self.created_service_accounts@, id);
            let f = first_account_index(self.created_service_accounts@, id);
            if f < i {
                assert(self.created_service_accounts@[f].id != id);
            }
        }
        i
    }

    /// The first account with identifier `id`.
    pub fn find_service_account(&self, id: u128) -> (r: Option<&ServiceAccount>)
        ensures
            match r {
                Some(a) => first_account_index(self.created_service_accounts@, id) < self.created_service_accounts@.len()
                    && *a == self.created_service_accounts@[first_account_index(self.created_service_accounts@, id)],
                None => first_account_index(self.created_service_accounts@, id) == self.created_service_accounts@.len(),
            },
    {
        proof { lemma_first_account_index(self.created_service_accounts@, id); }
        let i = self.position_of(id);
        if i < self.created_service_accounts.len() {
            Some(&self.created_service_accounts[i])
        } else {
            None
        }
    }

    /// Marks the first account with identifier `id` inactive and returns its name.
    pub fn deactivate(&mut self, id: u128) -> (r: Option<String>)
        ensures
            final(self).created_service_accounts@ == deactivated(old(self).created_service_accounts@, id),
            match r {
                Some(n) => first_account_index(old(self).created_service_accounts@, id) < old(self).created_service_accounts@.len()
                    && n@ == old(self).created_service_accounts@[first_account_index(old(self).created_service_accounts@, id)].name@,
                None => first_account_index(old(self).created_service_accounts@, id) == old(self).created_service_accounts@.len(),
            },
            final(self).new_name == old(self).new_name,
            final(self).new_purpose == old(self).new_purpose,
            final(self).new_owning_unit == old(self).new_owning_unit,
            final(self).new_responsible_person == old(self).new_responsible_person,
            final(self).section_collapsed == old(self).section_collapsed,
    {
        proof { lemma_first_account_index(self.created_service_accounts@, id); }
        let i = self.position_of(id);
        if i < self.created_service_accounts.len() {
            let cur = &self.created_service_accounts[i];
            let name = cur.name.clone();
            let a = ServiceAccount {
                id: cur.id,
                name: cur.name.clone(),
                purpose: cur.purpose.clone(),
                owning_unit_id: cur.owning_unit_id,
                responsible_person_id: cur.responsible_person_id,
                active: false,
            };
            self.created_service_accounts.set(i, a);
            proof {
                assert(self.created_service_accounts@ =~= deactivated(old(self).created_service_accounts@, id));
            }
            Some(name)
        } else {
            None
        }
    }

    /// Takes out the first account with identifier `id` and returns its name.
    pub fn remove(&mut self, id: u128) -> (r: Option<String>)
        ensures
            final(self).created_service_accounts@ == without_account(old(self).created_service_accounts@, id),
            match r {
                Some(n) => first_account_index(old(self).created_service_accounts@, id) < old(self).created_service_accounts@.len()
                    && n@ == old(self).created_service_accounts@[first_account_index(old(self).created_service_accounts@, id)].name@,
                None => first_account_index(old(self).created_service_accounts@, id) == old(self).created_service_accounts@.len(),
            },
            final(self).new_name == old(self).new_name,
            final(self).new_purpose == old(self).new_purpose,
            final(self).new_owning_unit == old(self).new_owning_unit,
            final(self).new_responsible_person == old(self).new_responsible_person,
            final(self).section_collapsed == old(self).section_collapsed,
    {
        proof { lemma_first_account_index(self.created_service_accounts@, id); }
        let i = self.position_of(id);
        if i < self.created_service_accounts.len() {
            let removed = self.created_service_accounts.remove(i);
            Some(removed.name)
        } else {
            None
        }
    }
}

/// Applies a message. Creating accounts and generating their keys need more
/// context and are left to the caller, so those messages change nothing.
pub fn update(state: &mut ServiceAccountState, message: ServiceAccountMessage)
    ensures
        account_updated(*old(state), message, *final(state)),
{
    match message {
        ServiceAccountMessage::ToggleSection => {
            state.section_collapsed = !state.section_collapsed;
        },
        ServiceAccountMessage::NameChanged(name) => {
            state.new_name = name;
        },
        ServiceAccountMessage::PurposeChanged(purpose) => {
            state.new_purpose = purpose;
        },
        ServiceAccountMessage::OwningUnitSelected(u) => {
            state.new_owning_unit = Some(u);
        },
        ServiceAccountMessage::ResponsiblePersonSelected(p) => {
            state.new_responsible_person = Some(p);
        },
        ServiceAccountMessage::Create => {},
        ServiceAccountMessage::Created(_) => {},
        ServiceAccountMessage::Deactivate(id) => {
            let _ = state.deactivate(id);
        },
        ServiceAccountMessage::Remove(id) => {
            let _ = state.remove(id);
        },
        ServiceAccountMessage::GenerateKey { .. } => {},
        ServiceAccountMessage::KeyGenerated(_) => {},
    }
}

/// A form without problems is valid, and the other way round.
pub proof fn lemma_account_error_iff_invalid(s: ServiceAccountState)
    ensures
        (account_error(s) is None) == account_form_valid(s),
{
}

/// Deactivation keeps every account and lowers the active count by one
/// exactly when the account was there and active.
pub proof fn lemma_deactivate_counts(s: Seq<ServiceAccount>, id: u128)
    ensures
        deactivated(s, id).len() == s.len(),
        active_in(deactivated(s, id)) + (if first_account_index(s, id) < s.len()
            && s[first_account_index(s, id)].active { 1nat } else { 0nat }) == active_in(s),
{
    lemma_first_account_index(s, id);
    let i = first_account_index(s, id);
    if i < s.len() {
        lemma_active_update(s, i, ServiceAccount { active: false, ..s[i] });
    }
}

} // verus!
