//! Organization unit management: the form for a new unit, its validation and
//! the units created in this session.

use vstd::prelude::*;
use crate::ids::fresh_id;
use crate::location::opt_chars;
use crate::text::{owned, str_eq};

verus! {

broadcast use vstd::string::group_string_axioms;

/// Kind of organization unit.
#[derive(Debug, Clone, Copy, PartialEq, Eq, Structural)]
pub enum OrganizationUnitType {
    Division,
    Department,
    Team,
    Project,
    Service,
    Infrastructure,
}

/// An organization unit.
#[derive(Debug, Clone)]
pub struct OrganizationUnit {
    pub id: u128,
    pub name: String,
    pub unit_type: OrganizationUnitType,
    pub parent_unit_id: Option<u128>,
    pub nats_account_name: Option<String>,
    pub responsible_person_id: Option<u128>,
}

impl OrganizationUnit {
    /// A new top-level unit with a fresh identifier.
    pub fn new(name: String, unit_type: OrganizationUnitType) -> (u: Self)
        ensures
            u.name@ == name@,
            u.unit_type == unit_type,
            u.parent_unit_id is None,
            u.nats_account_name is None,
            u.responsible_person_id is None,
    {
        OrganizationUnit {
            id: fresh_id(),
            name,
            unit_type,
            parent_unit_id: None,
            nats_account_name: None,
            responsible_person_id: None,
        }
    }

    /// The same unit placed under `parent`.
    pub fn with_parent(self, parent: u128) -> (u: Self)
        ensures
            u.id == self.id,
            u.name@ == self.name@,
            u.unit_type == self.unit_type,
            u.parent_unit_id == Some(parent),
            opt_chars(u.nats_account_name) == opt_chars(self.nats_account_name),
            u.responsible_person_id == self.responsible_person_id,
    {
        OrganizationUnit { parent_unit_id: Some(parent), ..self }
    }
}

/// Messages of the organization unit section.
#[derive(Debug)]
pub enum OrgUnitMessage {
    ToggleSection,
    NameChanged(String),
    TypeSelected(OrganizationUnitType),
    ParentSelected(String),
    NatsAccountChanged(String),
    ResponsiblePersonSelected(u128),
    Create,
    Created(Result<OrganizationUnit, String>),
    Remove(u128),
}

/// State of the organization unit section.
#[derive(Debug, Clone)]
pub struct OrgUnitState {
    pub section_collapsed: bool,
    pub new_name: String,
    pub new_type: Option<OrganizationUnitType>,
    pub new_parent: Option<String>,
    pub new_nats_account: String,
    pub new_responsible_person: Option<u128>,
    pub created_units: Vec<OrganizationUnit>,
}

/// The form has a name and a kind.
pub open spec fn unit_form_valid(s: OrgUnitState) -> bool {
    s.new_name@.len() > 0 && s.new_type is Some
}

/// The first problem of the form, if any.
pub open spec fn unit_error(s: OrgUnitState) -> Option<Seq<char>> {
    if s.new_name@.len() == 0 {
        Some("Unit name is required"@)
    } else if s.new_type is None {
        Some("Please select a unit type"@)
    } else {
        None
    }
}

/// The form fields of `s` are all empty.
pub open spec fn unit_form_blank(s: OrgUnitState) -> bool {
    &&& s.new_name@.len() == 0
    &&& s.new_type is None
    &&& s.new_parent is None
    &&& s.new_nats_account@.len() == 0
    &&& s.new_responsible_person is None
}

/// The names of `units`, in order.
pub open spec fn unit_names_of(units: Seq<OrganizationUnit>) -> Seq<Seq<char>> {
    units.map_values(|u: OrganizationUnit| u.name@)
}

/// `units` with the first unit whose identifier is `id` taken out.
pub open spec fn without_first_unit(units: Seq<OrganizationUnit>, id: u128) -> Seq<OrganizationUnit>
    decreases units.len(),
{
    if units.len() == 0 {
        units
    } else if units[0].id == id {
        units.drop_first()
    } else {
        seq![units[0]] + without_first_unit(units.drop_first(), id)
    }
}

/// Whether a unit with identifier `id` is in `units`.
pub open spec fn has_unit(units: Seq<OrganizationUnit>, id: u128) -> bool {
    exists|i: int| 0 <= i < units.len() && units[i].id == id
}

/// Index of the first unit with identifier `id`; `units.len()` when there is none.
pub open spec fn first_unit_index(units: Seq<OrganizationUnit>, id: u128) -> int
    decreases units.len(),
{
    if units.len() == 0 {
        0
    } else if units[0].id == id {
        0
    } else {
        1 + first_unit_index(units.drop_first(), id)
    }
}

/// What `update` makes of `s1` on `m`.
pub open spec fn unit_updated(s1: OrgUnitState, m: OrgUnitMessage, s2: OrgUnitState) -> bool {
    &&& s2.section_collapsed == (if m is ToggleSection { !s1.section_collapsed } else { s1.section_collapsed })
    &&& s2.new_name@ == (if let OrgUnitMessage::NameChanged(v) = m { v@ } else { s1.new_name@ })
    &&& s2.new_type == (if let OrgUnitMessage::TypeSelected(t) = m { Some(t) } else { s1.new_type })
    &&& opt_chars(s2.new_parent) == (if let OrgUnitMessage::ParentSelected(p) = m {
            if p@.len() == 0 { None } else { Some(p@) }
        } else {
            opt_chars(s1.new_parent)
        })
    &&& s2.new_nats_account@ == (if let OrgUnitMessage::NatsAccountChanged(v) = m { v@ } else { s1.new_nats_account@ })
    &&& s2.new_responsible_person == (if let OrgUnitMessage::ResponsiblePersonSelected(p) = m { Some(p) } else { s1.new_responsible_person })
    &&& s2.created_units@ == (if let OrgUnitMessage::Remove(id) = m {
            without_first_unit(s1.created_units@, id)
        } else {
            s1.created_units@
        })
}

fn is_empty_string(s: &String) -> (r: bool)
    ensures
        r == (s@.len() == 0),
{
    s.as_str().is_empty()
}

proof fn lemma_first_index_bounds(units: Seq<OrganizationUnit>, id: u128)
    ensures
        0 <= first_unit_index(units, id) <= units.len(),
        first_unit_index(units, id) < units.len() ==> units[first_unit_index(units, id)].id == id,
        forall|j: int| 0 <= j < first_unit_index(units, id) ==> units[j].id != id,
        first_unit_index(units, id) < units.len() <==> has_unit(units, id),
        without_first_unit(units, id) == (if first_unit_index(units, id) < units.len() {
            units.remove(first_unit_index(units, id))
        } else {
            units
        }),
    decreases units.len(),
{
    if units.len() > 0 && units[0].id != id {
        let rest = units.drop_first();
        lemma_first_index_bounds(rest, id);
        assert forall|j: int| 0 <= j < first_unit_index(units, id) implies units[j].id != id by {
            if j > 0 {
                assert(units[j] == rest[j - 1]);
            }
        }
        if has_unit(units, id) {
            let i = choose|i: int| 0 <= i < units.len() && units[i].id == id;
            assert(rest[i - 1].id == id);
        }
        if has_unit(rest, id) {
            let i = choose|i: int| 0 <= i < rest.len() && rest[i].id == id;
            assert(units[i + 1].id == id);
        }
        if first_unit_index(units, id) < units.len() {
            assert(seq![units[0]] + rest.remove(first_unit_index(rest, id))
                =~= units.remove(first_unit_index(units, id)));
        } else {
            assert(seq![units[0]] + rest =~= units);
        }
    } else if units.len() > 0 {
        assert(units.drop_first() =~= units.remove(0));
    }
}

impl Default for OrgUnitState {
    fn default() -> (s: Self)
        ensures
            !s.section_collapsed,
            unit_form_blank(s),
            s.created_units@.len() == 0,
    {
        OrgUnitState {
            section_collapsed: false,
            new_name: String::new(),
            new_type: None,
            new_parent: None,
            new_nats_account: String::new(),
            new_responsible_person: None,
            created_units: Vec::new(),
        }
    }
}

impl OrgUnitState {
    /// An empty form with the section collapsed.
    pub fn new() -> (s: Self)
        ensures
            s.section_collapsed,
            unit_form_blank(s),
            s.created_units@.len() == 0,
    {
        OrgUnitState {
            section_collapsed: true,
            new_name: String::new(),
            new_type: None,
            new_parent: None,
            new_nats_account: String::new(),
            new_responsible_person: None,
            created_units: Vec::new(),
        }
    }

    /// A name and a kind are given.
    pub fn is_form_valid(&self) -> (r: bool)
        ensures
            r == unit_form_valid(*self),
    {
        !is_empty_string(&self.new_name) && self.new_type.is_some()
    }

    /// The first problem of the form, as shown to the user.
    pub fn validation_error(&self) -> (r: Option<String>)
        ensures
            opt_chars(r) == unit_error(*self),
    {
        if is_empty_string(&self.new_name) {
            return Some(owned("Unit name is required"));
        }
        if self.new_type.is_none() {
            return Some(owned("Please select a unit type"));
        }
        None
    }

    /// Empties the form; the created units stay.
    pub fn clear_form(&mut self)
        ensures
            unit_form_blank(*final(self)),
            final(self).created_units@ == old(self).created_units@,
            final(self).section_collapsed == old(self).section_collapsed,
    {
        self.new_name = String::new();
        self.new_type = None;
        self.new_parent = None;
        self.new_nats_account = String::new();
        self.new_responsible_person = None;
    }

    /// Number of created units.
    pub fn unit_count(&self) -> (r: usize)
        ensures
            r == self.created_units@.len(),
    {
        self.created_units.len()
    }

    /// The first created unit with identifier `id`.
    pub fn find_unit(&self, id: u128) -> (r: Option<&OrganizationUnit>)
        ensures
            match r {
                Some(u) => first_unit_index(self.created_units@, id) < self.created_units@.len()
                    && *u == self.created_units@[first_unit_index(self.created_units@, id)],
                None => !has_unit(self.created_units@, id),
            },
    {
        proof { lemma_first_index_bounds(self.created_units@, id); }
        let mut i: usize = 0;
        while i < self.created_units.len()
            invariant
                i <= self.created_units@.len(),
                forall|j: int| 0 <= j < i ==> self.created_units@[j].id != id,
            decreases self.created_units.len() - i,
        {
            if self.created_units[i].id == id {
                proof { lemma_first_index_bounds(self.created_units@, id); }
                return Some(&self.created_units[i]);
            }
            i = i + 1;
        }
        None
    }

    /// The first created unit whose name is `name`.
    pub fn find_unit_by_name(&self, name: &str) -> (r: Option<&OrganizationUnit>)
        ensures
            match r {
                Some(u) => exists|i: int| 0 <= i < self.created_units@.len()
                    && self.created_units@[i] == *u && u.name@ == name@
                    && forall|j: int| 0 <= j < i ==> self.created_units@[j].name@ != name@,
                None => forall|j: int| 0 <= j < self.created_units@.len()
                    ==> self.created_units@[j].name@ != name@,
            },
    {
        let mut i: usize = 0;
        while i < self.created_units.len()
            invariant
                i <= self.created_units@.len(),
                forall|j: int| 0 <= j < i ==> self.created_units@[j].name@ != name@,
            decreases self.created_units.len() - i,
        {
            if str_eq(self.created_units[i].name.as_str(), name) {
                return Some(&self.created_units[i]);
            }
            i = i + 1;
        }
        None
    }

    /// The names of the created units, in order.
    pub fn unit_names(&self) -> (r: Vec<&str>)
        ensures
            r@.map_values(|s: &str| s@) == unit_names_of(self.created_units@),
    {
        let mut out: Vec<&str> = Vec::new();
        let mut i: usize = 0;
        while i < self.created_units.len()
            invariant
                i <= self.created_units@.len(),
                out@.len() == i,
                forall|k: int| 0 <= k < i ==> out@[k]@ == self.created_units@[k].name@,
            decreases self.created_units.len() - i,
        {
            out.push(self.created_units[i].name.as_str());
            i = i + 1;
        }
        assert(out@.map_values(|s: &str| s@) =~= unit_names_of(self.created_units@));
        out
    }

    /// Takes out the first unit with identifier `id` and returns its name.
    pub fn remove_unit(&mut self, id: u128) -> (r: Option<String>)
        ensures
            final(self).created_units@ == without_first_unit(old(self).created_units@, id),
            match r {
                Some(n) => has_unit(old(self).created_units@, id)
                    && n@ == old(self).created_units@[first_unit_index(old(self).created_units@, id)].name@,
                None => !has_unit(old(self).created_units@, id),
            },
            unit_form_blank(*final(self)) == unit_form_blank(*old(self)),
            final(self).new_name == old(self).new_name,
            final(self).new_type == old(self).new_type,
            final(self).new_parent == old(self).new_parent,
            final(self).new_nats_account == old(self).new_nats_account,
            final(self).new_responsible_person == old(self).new_responsible_person,
            final(self).section_collapsed == old(self).section_collapsed,
    {
        proof { lemma_first_index_bounds(self.created_units@, id); }
        let mut i: usize = 0;
        while i < self.created_units.len()
            invariant
                i <= self.created_units@.len(),
                *self == *old(self),
                forall|j: int| 0 <= j < i ==> self.created_units@[j].id != id,
            decreases self.created_units.len() - i,
        {
            if self.created_units[i].id == id {
                proof {
                    lemma_first_index_bounds(self.created_units@, id);
                    let f = first_unit_index(self.created_units@, id);
                    assert(has_unit(self.created_units@, id));
                    if f < i {
                        assert(self.created_units@[f].id != id);
                    }
                    if f > i {
                        assert(self.created_units@[i as int].id != id);
                    }
                    assert(f == i);
                }
                let removed = self.created_units.remove(i);
                return Some(removed.name);
            }
            i = i + 1;
        }
        proof {
            lemma_first_index_bounds(self.created_units@, id);
            let f = first_unit_index(self.created_units@, id);
            if f < self.created_units@.len() {
                assert(self.created_units@[f].id != id);
            }
        }
        None
    }

    /// The created units of kind `unit_type`, in order.
    pub fn units_by_type(&self, unit_type: OrganizationUnitType) -> (r: Vec<&OrganizationUnit>)
        ensures
            r@.map_values(|u: &OrganizationUnit| *u) == self.created_units@.filter(
                |u: OrganizationUnit| u.unit_type == unit_type,
            ),
    {
        let ghost pred = |u: OrganizationUnit| u.unit_type == unit_type;
        let mut out: Vec<&OrganizationUnit> = Vec::new();
        let mut i: usize = 0;
        while i < self.created_units.len()
            invariant
                i <= self.created_units@.len(),
                pred == (|u: OrganizationUnit| u.unit_type == unit_type),
                out@.map_values(|u: &OrganizationUnit| *u) == self.created_units@.take(i as int).filter(pred),
            decreases self.created_units.len() - i,
        {
            proof {
                reveal_with_fuel(Seq::filter, 1);
                assert(self.created_units@.take(i + 1).drop_last() =~= self.created_units@.take(i as int));
            }
            if self.created_units[i].unit_type == unit_type {
                out.push(&self.created_units[i]);
            }
            proof {
                assert(out@.map_values(|u: &OrganizationUnit| *u) =~= self.created_units@.take(i + 1).filter(pred));
            }
            i = i + 1;
        }
        assert(self.created_units@.take(self.created_units@.len() as int) =~= self.created_units@);
        out
    }

    /// The created units without a parent, in order.
    pub fn root_units(&self) -> (r: Vec<&OrganizationUnit>)
        ensures
            r@.map_values(|u: &OrganizationUnit| *u) == self.created_units@.filter(
                |u: OrganizationUnit| u.parent_unit_id is None,
            ),
    {
        let ghost pred = |u: OrganizationUnit| u.parent_unit_id is None;
        let mut out: Vec<&OrganizationUnit> = Vec::new();
        let mut i: usize = 0;
        while i < self.created_units.len()
            invariant
                i <= self.created_units@.len(),
                pred == (|u: OrganizationUnit| u.parent_unit_id is None),
                out@.map_values(|u: &OrganizationUnit| *u) == self.created_units@.take(i as int).filter(pred),
            decreases self.created_units.len() - i,
        {
            proof {
                reveal_with_fuel(Seq::filter, 1);
                assert(self.created_units@.take(i + 1).drop_last() =~= self.created_units@.take(i as int));
            }
            if self.created_units[i].parent_unit_id.is_none() {
                out.push(&self.created_units[i]);
            }
            proof {
                assert(out@.map_values(|u: &OrganizationUnit| *u) =~= self.created_units@.take(i + 1).filter(pred));
            }
            i = i + 1;
        }
        assert(self.created_units@.take(self.created_units@.len() as int) =~= self.created_units@);
        out
    }
}

/// Applies a message. Creating a unit needs more context and is left to the
/// caller, so `Create` and `Created` change nothing here.
pub fn update(state: &mut OrgUnitState, message: OrgUnitMessage)
    ensures
        unit_updated(*old(state), message, *final(state)),
{
    match message {
        OrgUnitMessage::ToggleSection => {
            state.section_collapsed = !state.section_collapsed;
        },
        OrgUnitMessage::NameChanged(name) => {
            state.new_name = name;
        },
        OrgUnitMessage::TypeSelected(t) => {
            state.new_type = Some(t);
        },
        OrgUnitMessage::ParentSelected(parent) => {
            state.new_parent = if is_empty_string(&parent) { None } else { Some(parent) };
        },
        OrgUnitMessage::NatsAccountChanged(account) => {
            state.new_nats_account = account;
        },
        OrgUnitMessage::ResponsiblePersonSelected(p) => {
            state.new_responsible_person = Some(p);
        },
        OrgUnitMessage::Create => {},
        OrgUnitMessage::Created(_) => {},
        OrgUnitMessage::Remove(id) => {
            let _ = state.remove_unit(id);
        },
    }
}

/// A form without problems is valid, and the other way round.
pub proof fn lemma_unit_error_iff_invalid(s: OrgUnitState)
    ensures
        (unit_error(s) is None) == unit_form_valid(s),
{
}

/// Removing a unit takes exactly one unit out when it is there, and none otherwise.
pub proof fn lemma_remove_unit_count(units: Seq<OrganizationUnit>, id: u128)
    ensures
        has_unit(units, id) ==> without_first_unit(units, id).len() == units.len() - 1,
        !has_unit(units, id) ==> without_first_unit(units, id) == units,
{
    lemma_first_index_bounds(units, id);
}

} // verus!
