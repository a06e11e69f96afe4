//! The property card: the editing state for the selected node or edge of
//! the graph. Field changes mark the card dirty; saving, cancelling, key
//! generation and edge deletion are carried out by the view that holds the
//! card.

use vstd::prelude::*;
use crate::graph_model::EdgeType;
use crate::location::LocationType;
use crate::text::str_eq;

verus! {

/// What the card edits.
#[derive(Clone, Copy, Debug, PartialEq, Eq, Structural)]
pub enum EditTarget {
    Node { id: u128 },
    Edge { index: usize, from: u128, to: u128, edge_type: EdgeType },
}

/// The editable fields of a node, as read from the node being edited.
pub struct NodeEditFields {
    pub name: String,
    pub description: String,
    pub email: String,
    pub enabled: bool,
    pub role_types: Vec<String>,
    pub policy_claims: Vec<String>,
    pub location_type: Option<LocationType>,
    pub address: Option<String>,
    pub coordinates: Option<String>,
    pub virtual_location: Option<String>,
}

/// Messages of the property card.
pub enum PropertyCardMessage {
    NameChanged(String),
    DescriptionChanged(String),
    EmailChanged(String),
    EnabledToggled(bool),
    /// A policy claim, by name, was checked or unchecked.
    ClaimToggled(String, bool),
    /// A role, by name, was checked or unchecked.
    RoleToggled(String, bool),
    LocationTypeChanged(LocationType),
    AddressChanged(String),
    CoordinatesChanged(String),
    VirtualLocationChanged(String),
    GenerateRootCA,
    GenerateIntermediateCA,
    GeneratePersonalKeys,
    ProvisionYubiKey,
    EdgeTypeChanged(EdgeType),
    DeleteEdge,
    Save,
    Cancel,
    Close,
}

/// The texts of a list of strings, as a set.
pub open spec fn text_set(v: Seq<String>) -> Set<Seq<char>> {
    Set::new(|t: Seq<char>| exists|i: int| 0 <= i < v.len() && v[i]@ == t)
}

/// The text of an optional string, empty where there is none.
pub open spec fn text_or_empty(o: Option<String>) -> Seq<char> {
    match o {
        Some(s) => s@,
        None => Seq::empty(),
    }
}

/// Whether `t` is among the strings of `v`.
fn has_text(v: &Vec<String>, t: &str) -> (r: bool)
    ensures
        r == text_set(v@).contains(t@),
{
    let mut i: usize = 0;
    while i < v.len()
        invariant
            i <= v@.len(),
            forall|j: int| 0 <= j < i ==> v@[j]@ != t@,
        decreases v.len() - i,
    {
        if str_eq(v[i].as_str(), t) {
            return true;
        }
        i = i + 1;
    }
    false
}

/// The strings of `v` other than `t`.
fn without_text(v: &Vec<String>, t: &str) -> (r: Vec<String>)
    ensures
        text_set(r@) == text_set(v@).remove(t@),
{
    let mut r: Vec<String> = Vec::new();
    let mut i: usize = 0;
    while i < v.len()
        invariant
            i <= v@.len(),
            forall|x: Seq<char>|
                #[trigger] text_set(r@).contains(x) <==> (x != t@ && exists|j: int| 0 <= j < i && v@[j]@ == x),
        decreases v.len() - i,
    {
        if !str_eq(v[i].as_str(), t) {
            let ghost before = r@;
            r.push(v[i].clone());
            proof {
                assert forall|x: Seq<char>|
                    #[trigger] text_set(r@).contains(x) <==> (x != t@ && exists|j: int| 0 <= j < i + 1 && v@[j]@ == x) by {
                    if text_set(r@).contains(x) {
                        let k = choose|k: int| 0 <= k < r@.len() && r@[k]@ == x;
                        if k < before.len() {
                            assert(r@[k] == before[k]);
                            assert(text_set(before).contains(x));
                        }
                    }
                    if x != t@ && exists|j: int| 0 <= j < i + 1 && v@[j]@ == x {
                        let j = choose|j: int| 0 <= j < i + 1 && v@[j]@ == x;
                        if j < i {
                            assert(text_set(before).contains(x));
                            let k = choose|k: int| 0 <= k < before.len() && before[k]@ == x;
                            assert(r@[k] == before[k]);
                        } else {
                            assert(r@[before.len() as int]@ == x);
                        }
                    }
                }
            }
        } else {
            proof {
                assert forall|x: Seq<char>|
                    #[trigger] text_set(r@).contains(x) <==> (x != t@ && exists|j: int| 0 <= j < i + 1 && v@[j]@ == x) by {
                    if x != t@ && exists|j: int| 0 <= j < i + 1 && v@[j]@ == x {
                        let j = choose|j: int| 0 <= j < i + 1 && v@[j]@ == x;
                        assert(j < i);
                    }
                }
            }
        }
        i = i + 1;
    }
    proof {
        assert forall|x: Seq<char>| #[trigger] text_set(r@).contains(x) == text_set(v@).remove(t@).contains(x) by {
        }
        assert(text_set(r@) =~= text_set(v@).remove(t@));
    }
    r
}

/// `v` with `t` added where it is not there yet.
fn with_text(v: &mut Vec<String>, t: String)
    ensures
        text_set(final(v)@) == text_set(old(v)@).insert(t@),
{
    if !has_text(v, t.as_str()) {
        let ghost before = v@;
        let ghost tv = t@;
        v.push(t);
        proof {
            assert forall|x: Seq<char>| #[trigger] text_set(v@).contains(x) == text_set(before).insert(tv).contains(x) by {
                if text_set(v@).contains(x) {
                    let k = choose|k: int| 0 <= k < v@.len() && v@[k]@ == x;
                    if k < before.len() {
                        assert(v@[k] == before[k]);
                    }
                }
                if text_set(before).contains(x) {
                    let k = choose|k: int| 0 <= k < before.len() && before[k]@ == x;
                    assert(v@[k] == before[k]);
                }
                if x == tv {
                    assert(v@[before.len() as int]@ == x);
                }
            }
            assert(text_set(v@) =~= text_set(before).insert(tv));
        }
    } else {
        assert(text_set(v@) =~= text_set(v@).insert(t@));
    }
}

/// The editing state of the property card.
pub struct PropertyCard {
    edit_target: Option<EditTarget>,
    dirty: bool,
    edit_name: String,
    edit_description: String,
    edit_email: String,
    edit_enabled: bool,
    edit_claims: Vec<String>,
    edit_roles: Vec<String>,
    edit_location_type: LocationType,
    edit_address: String,
    edit_coordinates: String,
    edit_virtual_location: String,
    edit_edge_type: EdgeType,
}

/// What the property card holds.
pub struct PropertyCardView {
    pub target: Option<EditTarget>,
    pub dirty: bool,
    pub name: Seq<char>,
    pub description: Seq<char>,
    pub email: Seq<char>,
    pub enabled: bool,
    pub claims: Set<Seq<char>>,
    pub roles: Set<Seq<char>>,
    pub location_type: LocationType,
    pub address: Seq<char>,
    pub coordinates: Seq<char>,
    pub virtual_location: Seq<char>,
    pub edge_type: EdgeType,
}

impl View for PropertyCard {
    type V = PropertyCardView;

    closed spec fn view(&self) -> PropertyCardView {
        PropertyCardView {
            target: self.edit_target,
            dirty: self.dirty,
            name: self.edit_name@,
            description: self.edit_description@,
            email: self.edit_email@,
            enabled: self.edit_enabled,
            claims: text_set(self.edit_claims@),
            roles: text_set(self.edit_roles@),
            location_type: self.edit_location_type,
            address: self.edit_address@,
            coordinates: self.edit_coordinates@,
            virtual_location: self.edit_virtual_location@,
            edge_type: self.edit_edge_type,
        }
    }
}

/// A card that edits nothing: empty fields, enabled, a physical location,
/// and membership as the edge type.
pub open spec fn blank_card() -> PropertyCardView {
    PropertyCardView {
        target: None,
        dirty: false,
        name: Seq::empty(),
        description: Seq::empty(),
        email: Seq::empty(),
        enabled: true,
        claims: Set::empty(),
        roles: Set::empty(),
        location_type: LocationType::Physical,
        address: Seq::empty(),
        coordinates: Seq::empty(),
        virtual_location: Seq::empty(),
        edge_type: EdgeType::MemberOf,
    }
}

/// The card after message `m`: a field change sets that field and marks
/// the card dirty; a checked claim or role joins its set and an unchecked
/// one leaves it; the other messages leave the card as it is.
pub open spec fn card_updated(v: PropertyCardView, m: PropertyCardMessage) -> PropertyCardView {
    match m {
        PropertyCardMessage::NameChanged(s) => PropertyCardView { name: s@, dirty: true, ..v },
        PropertyCardMessage::DescriptionChanged(s) => PropertyCardView { description: s@, dirty: true, ..v },
        PropertyCardMessage::EmailChanged(s) => PropertyCardView { email: s@, dirty: true, ..v },
        PropertyCardMessage::EnabledToggled(b) => PropertyCardView { enabled: b, dirty: true, ..v },
        PropertyCardMessage::ClaimToggled(c, checked) => PropertyCardView {
            claims: if checked {
                v.claims.insert(c@)
            } else {
                v.claims.remove(c@)
            },
            dirty: true,
            ..v
        },
        PropertyCardMessage::RoleToggled(r, checked) => PropertyCardView {
            roles: if checked {
                v.roles.insert(r@)
            } else {
                v.roles.remove(r@)
            },
            dirty: true,
            ..v
        },
        PropertyCardMessage::LocationTypeChanged(t) => PropertyCardView { location_type: t, dirty: true, ..v },
        PropertyCardMessage::AddressChanged(s) => PropertyCardView { address: s@, dirty: true, ..v },
        PropertyCardMessage::CoordinatesChanged(s) => PropertyCardView { coordinates: s@, dirty: true, ..v },
        PropertyCardMessage::VirtualLocationChanged(s) => PropertyCardView {
            virtual_location: s@,
            dirty: true,
            ..v
        },
        PropertyCardMessage::EdgeTypeChanged(t) => PropertyCardView { edge_type: t, dirty: true, ..v },
        _ => v,
    }
}

/// The strings of `v`, copied.
fn copy_texts(v: &Vec<String>) -> (r: Vec<String>)
    ensures
        r@ == v@,
{
    let mut r: Vec<String> = Vec::new();
    let mut i: usize = 0;
    while i < v.len()
        invariant
            i <= v@.len(),
            r@ == v@.take(i as int),
        decreases v.len() - i,
    {
        r.push(v[i].clone());
        i = i + 1;
        assert(r@ =~= v@.take(i as int));
    }
    assert(v@.take(v@.len() as int) =~= v@);
    r
}

impl PropertyCard {
    /// A card that edits nothing.
    pub fn new() -> (r: Self)
        ensures
            r@ == blank_card(),
    {
        let r = PropertyCard {
            edit_target: None,
            dirty: false,
            edit_name: String::new(),
            edit_description: String::new(),
            edit_email: String::new(),
            edit_enabled: true,
            edit_claims: Vec::new(),
            edit_roles: Vec::new(),
            edit_location_type: LocationType::Physical,
            edit_address: String::new(),
            edit_coordinates: String::new(),
            edit_virtual_location: String::new(),
            edit_edge_type: EdgeType::MemberOf,
        };
        proof {
            assert(text_set(r.edit_claims@) =~= Set::empty());
            assert(text_set(r.edit_roles@) =~= Set::empty());
        }
        r
    }

    /// Edits node `node_id`, whose fields are `fields`; the card is clean.
    /// The location type stays as it was where the node has none.
    pub fn set_node(&mut self, node_id: u128, fields: NodeEditFields)
        ensures
            final(self)@ == (PropertyCardView {
                target: Some(EditTarget::Node { id: node_id }),
                dirty: false,
                name: fields.name@,
                description: fields.description@,
                email: fields.email@,
                enabled: fields.enabled,
                claims: text_set(fields.policy_claims@),
                roles: text_set(fields.role_types@),
                location_type: match fields.location_type {
                    Some(t) => t,
                    None => old(self)@.location_type,
                },
                address: text_or_empty(fields.address),
                coordinates: text_or_empty(fields.coordinates),
                virtual_location: text_or_empty(fields.virtual_location),
                edge_type: old(self)@.edge_type,
            }),
    {
        self.edit_target = Some(EditTarget::Node { id: node_id });
        self.dirty = false;
        self.edit_name = fields.name;
        self.edit_description = fields.description;
        self.edit_email = fields.email;
        self.edit_enabled = fields.enabled;
        self.edit_roles = fields.role_types;
        self.edit_claims = fields.policy_claims;
        match fields.location_type {
            Some(t) => {
                self.edit_location_type = t;
            },
            None => {},
        }
        self.edit_address = match fields.address {
            Some(s) => s,
            None => String::new(),
        };
        self.edit_coordinates = match fields.coordinates {
            Some(s) => s,
            None => String::new(),
        };
        self.edit_virtual_location = match fields.virtual_location {
            Some(s) => s,
            None => String::new(),
        };
    }

    /// Edits edge `index`, from `from` to `to` of type `edge_type`; the card
    /// is clean and shows that type.
    pub fn set_edge(&mut self, index: usize, from: u128, to: u128, edge_type: EdgeType)
        ensures
            final(self)@ == (PropertyCardView {
                target: Some(EditTarget::Edge { index, from, to, edge_type }),
                dirty: false,
                edge_type,
                ..old(self)@
            }),
    {
        self.edit_target = Some(EditTarget::Edge { index, from, to, edge_type });
        self.dirty = false;
        self.edit_edge_type = edge_type;
    }

    /// Edits nothing: the target, the text fields, claims and roles are
    /// cleared, the card is clean, enabled, and shows membership; the
    /// location fields stay.
    pub fn clear(&mut self)
        ensures
            final(self)@ == (PropertyCardView {
                target: None,
                dirty: false,
                name: Seq::empty(),
                description: Seq::empty(),
                email: Seq::empty(),
                enabled: true,
                claims: Set::empty(),
                roles: Set::empty(),
                edge_type: EdgeType::MemberOf,
                ..old(self)@
            }),
    {
        self.edit_target = None;
        self.dirty = false;
        self.edit_name = String::new();
        self.edit_description = String::new();
        self.edit_email = String::new();
        self.edit_enabled = true;
        self.edit_claims = Vec::new();
        self.edit_roles = Vec::new();
        self.edit_edge_type = EdgeType::MemberOf;
        proof {
            assert(text_set(self.edit_claims@) =~= Set::empty());
            assert(text_set(self.edit_roles@) =~= Set::empty());
        }
    }

    /// Whether a node or an edge is being edited.
    pub fn is_editing(&self) -> (r: bool)
        ensures
            r == (self@.target is Some),
    {
        self.edit_target.is_some()
    }

    /// Whether a node is being edited.
    pub fn is_editing_node(&self) -> (r: bool)
        ensures
            r == (self@.target matches Some(EditTarget::Node { .. })),
    {
        match self.edit_target {
            Some(EditTarget::Node { .. }) => true,
            _ => false,
        }
    }

    /// Whether an edge is being edited.
    pub fn is_editing_edge(&self) -> (r: bool)
        ensures
            r == (self@.target matches Some(EditTarget::Edge { .. })),
    {
        match self.edit_target {
            Some(EditTarget::Edge { .. }) => true,
            _ => false,
        }
    }

    /// Whether there are unsaved changes.
    pub fn is_dirty(&self) -> (r: bool)
        ensures
            r == self@.dirty,
    {
        self.dirty
    }

    /// The node being edited.
    pub fn node_id(&self) -> (r: Option<u128>)
        ensures
            r == match self@.target {
                Some(EditTarget::Node { id }) => Some(id),
                _ => None,
            },
    {
        match self.edit_target {
            Some(EditTarget::Node { id }) => Some(id),
            _ => None,
        }
    }

    /// The index of the edge being edited.
    pub fn edge_index(&self) -> (r: Option<usize>)
        ensures
            r == match self@.target {
                Some(EditTarget::Edge { index, .. }) => Some(index),
                _ => None,
            },
    {
        match self.edit_target {
            Some(EditTarget::Edge { index, .. }) => Some(index),
            _ => None,
        }
    }

    /// The edited name.
    pub fn name(&self) -> (r: &str)
        ensures
            r@ == self@.name,
    {
        self.edit_name.as_str()
    }

    /// The edited description.
    pub fn description(&self) -> (r: &str)
        ensures
            r@ == self@.description,
    {
        self.edit_description.as_str()
    }

    /// The edited email address.
    pub fn email(&self) -> (r: &str)
        ensures
            r@ == self@.email,
    {
        self.edit_email.as_str()
    }

    /// The edited enabled state.
    pub fn enabled(&self) -> (r: bool)
        ensures
            r == self@.enabled,
    {
        self.edit_enabled
    }

    /// The checked policy claims.
    pub fn claims(&self) -> (r: Vec<String>)
        ensures
            text_set(r@) == self@.claims,
    {
        copy_texts(&self.edit_claims)
    }

    /// The checked roles.
    pub fn roles(&self) -> (r: Vec<String>)
        ensures
            text_set(r@) == self@.roles,
    {
        copy_texts(&self.edit_roles)
    }

    /// The edited edge type.
    pub fn edge_type(&self) -> (r: EdgeType)
        ensures
            r == self@.edge_type,
    {
        self.edit_edge_type
    }

    /// Applies a message to the card.
    pub fn update(&mut self, message: PropertyCardMessage)
        ensures
            final(self)@ == card_updated(old(self)@, message),
    {
        let ghost m = message;
        match message {
            PropertyCardMessage::NameChanged(s) => {
                self.edit_name = s;
                self.dirty = true;
            },
            PropertyCardMessage::DescriptionChanged(s) => {
                self.edit_description = s;
                self.dirty = true;
            },
            PropertyCardMessage::EmailChanged(s) => {
                self.edit_email = s;
                self.dirty = true;
            },
            PropertyCardMessage::EnabledToggled(b) => {
                self.edit_enabled = b;
                self.dirty = true;
            },
            PropertyCardMessage::ClaimToggled(c, checked) => {
                if checked {
                    with_text(&mut self.edit_claims, c);
                } else {
                    self.edit_claims = without_text(&self.edit_claims, c.as_str());
                }
                self.dirty = true;
            },
            PropertyCardMessage::RoleToggled(r, checked) => {
                if checked {
                    with_text(&mut self.edit_roles, r);
                } else {
                    self.edit_roles = without_text(&self.edit_roles, r.as_str());
                }
                self.dirty = true;
            },
            PropertyCardMessage::LocationTypeChanged(t) => {
                self.edit_location_type = t;
                self.dirty = true;
            },
            PropertyCardMessage::AddressChanged(s) => {
                self.edit_address = s;
                self.dirty = true;
            },
            PropertyCardMessage::CoordinatesChanged(s) => {
                self.edit_coordinates = s;
                self.dirty = true;
            },
            PropertyCardMessage::VirtualLocationChanged(s) => {
                self.edit_virtual_location = s;
                self.dirty = true;
            },
            PropertyCardMessage::EdgeTypeChanged(t) => {
                self.edit_edge_type = t;
                self.dirty = true;
            },
            _ => {},
        }
    }
}

} // verus!
