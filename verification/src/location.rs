//! Location management: the form for a new location (name, kind, postal
//! address, URL), its validation, and the locations loaded from the projection.

use vstd::prelude::*;
use crate::text::owned;

verus! {

broadcast use vstd::string::group_string_axioms;

/// Kind of location.
#[derive(Debug, Clone, Copy, PartialEq, Eq, Structural)]
pub enum LocationType {
    Physical,
    Virtual,
    Logical,
    Hybrid,
}

/// A location as loaded from the projection. Identifiers are the 128-bit
/// values of the UUIDs.
#[derive(Debug, Clone)]
pub struct LocationEntry {
    pub location_id: u128,
    pub name: String,
    pub location_type: String,
    pub organization_id: u128,
    pub street: Option<String>,
    pub city: Option<String>,
    pub region: Option<String>,
    pub country: Option<String>,
    pub postal_code: Option<String>,
    pub virtual_url: Option<String>,
    pub state: Option<String>,
}

/// Messages of the location form.
#[derive(Debug, Clone)]
pub enum LocationMessage {
    NameChanged(String),
    TypeSelected(LocationType),
    StreetChanged(String),
    CityChanged(String),
    RegionChanged(String),
    CountryChanged(String),
    PostalChanged(String),
    UrlChanged(String),
    AddLocation,
    RemoveLocation(u128),
}

/// State of the location form and the loaded locations.
#[derive(Debug, Clone)]
pub struct LocationState {
    pub new_location_name: String,
    pub new_location_type: Option<LocationType>,
    pub new_location_street: String,
    pub new_location_city: String,
    pub new_location_region: String,
    pub new_location_country: String,
    pub new_location_postal: String,
    pub new_location_url: String,
    pub loaded_locations: Vec<LocationEntry>,
}

/// All form fields of `s` are empty and no kind is chosen.
pub open spec fn form_is_blank(s: LocationState) -> bool {
    &&& s.new_location_name@.len() == 0
    &&& s.new_location_type is None
    &&& s.new_location_street@.len() == 0
    &&& s.new_location_city@.len() == 0
    &&& s.new_location_region@.len() == 0
    &&& s.new_location_country@.len() == 0
    &&& s.new_location_postal@.len() == 0
    &&& s.new_location_url@.len() == 0
}

/// Name and all five address fields are filled in.
pub open spec fn physical_valid(s: LocationState) -> bool {
    &&& s.new_location_name@.len() > 0
    &&& address_complete(s)
}

/// The five address fields are filled in.
pub open spec fn address_complete(s: LocationState) -> bool {
    &&& s.new_location_street@.len() > 0
    &&& s.new_location_city@.len() > 0
    &&& s.new_location_region@.len() > 0
    &&& s.new_location_country@.len() > 0
    &&& s.new_location_postal@.len() > 0
}

/// Name and URL are filled in.
pub open spec fn virtual_valid(s: LocationState) -> bool {
    s.new_location_name@.len() > 0 && s.new_location_url@.len() > 0
}

/// The form may be submitted for the chosen kind.
pub open spec fn form_valid(s: LocationState) -> bool {
    match s.new_location_type {
        Some(LocationType::Physical) => physical_valid(s),
        Some(LocationType::Virtual) => virtual_valid(s),
        Some(LocationType::Logical) => s.new_location_name@.len() > 0,
        Some(LocationType::Hybrid) => physical_valid(s) || virtual_valid(s),
        None => s.new_location_name@.len() > 0,
    }
}

/// The first problem that the form reports, if any.
pub open spec fn location_error(s: LocationState) -> Option<Seq<char>> {
    if s.new_location_name@.len() == 0 {
        Some("Location name is required"@)
    } else {
        match s.new_location_type {
            Some(LocationType::Virtual) => if s.new_location_url@.len() == 0 {
                Some("URL is required for virtual locations"@)
            } else {
                None
            },
            Some(LocationType::Logical) => None,
            None => None,
            Some(LocationType::Hybrid) => if s.new_location_url@.len() == 0 && !address_complete(s) {
                Some("Hybrid locations require either a URL or physical address"@)
            } else {
                None
            },
            Some(LocationType::Physical) => if s.new_location_street@.len() == 0 {
                Some("Street address is required"@)
            } else if s.new_location_city@.len() == 0 {
                Some("City is required"@)
            } else if s.new_location_region@.len() == 0 {
                Some("State/Region is required"@)
            } else if s.new_location_country@.len() == 0 {
                Some("Country is required"@)
            } else if s.new_location_postal@.len() == 0 {
                Some("Postal code is required"@)
            } else {
                None
            },
        }
    }
}

/// The form reports no problem exactly when it may be submitted.
pub proof fn lemma_error_iff_invalid(s: LocationState)
    ensures
        location_error(s) is None <==> form_valid(s),
{
}

/// The view of an optional string.
pub open spec fn opt_chars(o: Option<String>) -> Option<Seq<char>> {
    match o {
        Some(s) => Some(s@),
        None => None,
    }
}

/// `s2` is `s1` with every field but the one named by `m` unchanged, and
/// that field set from `m`.
pub open spec fn location_updated(s1: LocationState, m: LocationMessage, s2: LocationState) -> bool {
    &&& s2.loaded_locations@ == s1.loaded_locations@
    &&& s2.new_location_name@ == (if let LocationMessage::NameChanged(v) = m { v@ } else { s1.new_location_name@ })
    &&& s2.new_location_type == (if let LocationMessage::TypeSelected(t) = m { Some(t) } else { s1.new_location_type })
    &&& s2.new_location_street@ == (if let LocationMessage::StreetChanged(v) = m { v@ } else { s1.new_location_street@ })
    &&& s2.new_location_city@ == (if let LocationMessage::CityChanged(v) = m { v@ } else { s1.new_location_city@ })
    &&& s2.new_location_region@ == (if let LocationMessage::RegionChanged(v) = m { v@ } else { s1.new_location_region@ })
    &&& s2.new_location_country@ == (if let LocationMessage::CountryChanged(v) = m { v@ } else { s1.new_location_country@ })
    &&& s2.new_location_postal@ == (if let LocationMessage::PostalChanged(v) = m { v@ } else { s1.new_location_postal@ })
    &&& s2.new_location_url@ == (if let LocationMessage::UrlChanged(v) = m { v@ } else { s1.new_location_url@ })
}

fn is_empty_string(s: &String) -> (r: bool)
    ensures
        r == (s@.len() == 0),
{
    s.as_str().is_empty()
}

impl Default for LocationState {
    fn default() -> (s: Self)
        ensures
            form_is_blank(s),
            s.loaded_locations@.len() == 0,
    {
        LocationState::new()
    }
}

impl LocationState {
    /// An empty form with no loaded locations.
    pub fn new() -> (s: Self)
        ensures
            form_is_blank(s),
            s.loaded_locations@.len() == 0,
    {
        LocationState {
            new_location_name: String::new(),
            new_location_type: None,
            new_location_street: String::new(),
            new_location_city: String::new(),
            new_location_region: String::new(),
            new_location_country: String::new(),
            new_location_postal: String::new(),
            new_location_url: String::new(),
            loaded_locations: Vec::new(),
        }
    }

    /// Name and full postal address are present.
    pub fn is_physical_location_valid(&self) -> (r: bool)
        ensures
            r == physical_valid(*self),
    {
        !is_empty_string(&self.new_location_name) && !is_empty_string(&self.new_location_street)
            && !is_empty_string(&self.new_location_city) && !is_empty_string(&self.new_location_region)
            && !is_empty_string(&self.new_location_country) && !is_empty_string(&self.new_location_postal)
    }

    /// Name and URL are present.
    pub fn is_virtual_location_valid(&self) -> (r: bool)
        ensures
            r == virtual_valid(*self),
    {
        !is_empty_string(&self.new_location_name) && !is_empty_string(&self.new_location_url)
    }

    /// The form is complete for the chosen kind of location.
    pub fn is_form_valid(&self) -> (r: bool)
        ensures
            r == form_valid(*self),
    {
        match self.new_location_type {
            Some(LocationType::Physical) => self.is_physical_location_valid(),
            Some(LocationType::Virtual) => self.is_virtual_location_valid(),
            Some(LocationType::Logical) => !is_empty_string(&self.new_location_name),
            Some(LocationType::Hybrid) => self.is_physical_location_valid() || self.is_virtual_location_valid(),
            None => !is_empty_string(&self.new_location_name),
        }
    }

    /// Number of loaded locations.
    pub fn location_count(&self) -> (r: usize)
        ensures
            r == self.loaded_locations@.len(),
    {
        self.loaded_locations.len()
    }

    /// The first loaded location with the given identifier.
    pub fn find_location(&self, id: u128) -> (r: Option<&LocationEntry>)
        ensures
            match r {
                Some(e) => exists|i: int| 0 <= i < self.loaded_locations@.len()
                    && self.loaded_locations@[i] == *e && e.location_id == id
                    && forall|j: int| 0 <= j < i ==> self.loaded_locations@[j].location_id != id,
                None => forall|j: int| 0 <= j < self.loaded_locations@.len()
                    ==> self.loaded_locations@[j].location_id != id,
            },
    {
        let mut i: usize = 0;
        while i < self.loaded_locations.len()
            invariant
                i <= self.loaded_locations@.len(),
                forall|j: int| 0 <= j < i ==> self.loaded_locations@[j].location_id != id,
            decreases self.loaded_locations.len() - i,
        {
            if self.loaded_locations[i].location_id == id {
                return Some(&self.loaded_locations[i]);
            }
            i = i + 1;
        }
        None
    }

    /// Empties every form field; the loaded locations stay.
    pub fn clear_form(&mut self)
        ensures
            form_is_blank(*final(self)),
            final(self).loaded_locations@ == old(self).loaded_locations@,
    {
        self.new_location_name = String::new();
        self.new_location_type = None;
        self.new_location_street = String::new();
        self.new_location_city = String::new();
        self.new_location_region = String::new();
        self.new_location_country = String::new();
        self.new_location_postal = String::new();
        self.new_location_url = String::new();
    }

    /// The first missing field, as the message shown to the user.
    pub fn validation_error(&self) -> (r: Option<String>)
        ensures
            opt_chars(r) == location_error(*self),
    {
        if is_empty_string(&self.new_location_name) {
            return Some(owned("Location name is required"));
        }
        match self.new_location_type {
            Some(LocationType::Virtual) => {
                if is_empty_string(&self.new_location_url) {
                    return Some(owned("URL is required for virtual locations"));
                }
            },
            Some(LocationType::Logical) => {},
            None => {},
            Some(LocationType::Hybrid) => {
                let has_url = !is_empty_string(&self.new_location_url);
                let has_address = !is_empty_string(&self.new_location_street)
                    && !is_empty_string(&self.new_location_city)
                    && !is_empty_string(&self.new_location_region)
                    && !is_empty_string(&self.new_location_country)
                    && !is_empty_string(&self.new_location_postal);
                if !has_url && !has_address {
                    return Some(owned("Hybrid locations require either a URL or physical address"));
                }
            },
            Some(LocationType::Physical) => {
                if is_empty_string(&self.new_location_street) {
                    return Some(owned("Street address is required"));
                }
                if is_empty_string(&self.new_location_city) {
                    return Some(owned("City is required"));
                }
                if is_empty_string(&self.new_location_region) {
                    return Some(owned("State/Region is required"));
                }
                if is_empty_string(&self.new_location_country) {
                    return Some(owned("Country is required"));
                }
                if is_empty_string(&self.new_location_postal) {
                    return Some(owned("Postal code is required"));
                }
            },
        }
        None
    }
}

/// Applies a form message. Adding and removing locations needs the
/// projection and is left to the caller, so those messages change nothing.
pub fn update(state: &mut LocationState, message: LocationMessage)
    ensures
        location_updated(*old(state), message, *final(state)),
{
    match message {
        LocationMessage::NameChanged(v) => state.new_location_name = v,
        LocationMessage::TypeSelected(t) => state.new_location_type = Some(t),
        LocationMessage::StreetChanged(v) => state.new_location_street = v,
        LocationMessage::CityChanged(v) => state.new_location_city = v,
        LocationMessage::RegionChanged(v) => state.new_location_region = v,
        LocationMessage::CountryChanged(v) => state.new_location_country = v,
        LocationMessage::PostalChanged(v) => state.new_location_postal = v,
        LocationMessage::UrlChanged(v) => state.new_location_url = v,
        LocationMessage::AddLocation => {},
        LocationMessage::RemoveLocation(_) => {},
    }
}

/// A form that reports no problem can be submitted.
pub proof fn lemma_no_error_means_valid(s: LocationState)
    requires
        location_error(s) is None,
    ensures
        form_valid(s),
{
}

/// After clearing, the form asks for a name first.
pub proof fn lemma_cleared_form_asks_for_name(s: LocationState)
    requires
        form_is_blank(s),
    ensures
        location_error(s) == Some("Location name is required"@),
        !form_valid(s),
{
}

} // verus!
