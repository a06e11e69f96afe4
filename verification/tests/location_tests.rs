use cim_keys::location::{update, LocationEntry, LocationMessage, LocationState, LocationType};

#[test]
fn test_location_state_default() {
    let state = LocationState::default();
    assert!(state.new_location_name.is_empty());
    assert!(state.new_location_type.is_none());
    assert!(state.new_location_street.is_empty());
    assert!(state.new_location_city.is_empty());
    assert!(state.new_location_region.is_empty());
    assert!(state.new_location_country.is_empty());
    assert!(state.new_location_postal.is_empty());
    assert!(state.new_location_url.is_empty());
    assert!(state.loaded_locations.is_empty());
}

#[test]
fn test_location_state_new() {
    let state = LocationState::new();
    assert!(state.new_location_name.is_empty());
    assert!(state.new_location_type.is_none());
    assert_eq!(state.location_count(), 0);
}

#[test]
fn management_test_name_changed() {
    let mut state = LocationState::new();
    let _ = update(&mut state, LocationMessage::NameChanged("HQ".to_string()));
    assert_eq!(state.new_location_name, "HQ");
}

#[test]
fn management_test_type_selected() {
    let mut state = LocationState::new();
    let _ = update(&mut state, LocationMessage::TypeSelected(LocationType::Physical));
    assert_eq!(state.new_location_type, Some(LocationType::Physical));
}

#[test]
fn test_address_fields() {
    let mut state = LocationState::new();

    let _ = update(&mut state, LocationMessage::StreetChanged("123 Main St".to_string()));
    assert_eq!(state.new_location_street, "123 Main St");

    let _ = update(&mut state, LocationMessage::CityChanged("Austin".to_string()));
    assert_eq!(state.new_location_city, "Austin");

    let _ = update(&mut state, LocationMessage::RegionChanged("Texas".to_string()));
    assert_eq!(state.new_location_region, "Texas");

    let _ = update(&mut state, LocationMessage::CountryChanged("USA".to_string()));
    assert_eq!(state.new_location_country, "USA");

    let _ = update(&mut state, LocationMessage::PostalChanged("78701".to_string()));
    assert_eq!(state.new_location_postal, "78701");
}

#[test]
fn test_url_changed() {
    let mut state = LocationState::new();
    let _ = update(&mut state, LocationMessage::UrlChanged("https://hq.example.com".to_string()));
    assert_eq!(state.new_location_url, "https://hq.example.com");
}

#[test]
fn test_is_physical_location_valid() {
    let mut state = LocationState::new();
    assert!(!state.is_physical_location_valid());

    state.new_location_name = "HQ".to_string();
    state.new_location_street = "123 Main St".to_string();
    state.new_location_city = "Austin".to_string();
    state.new_location_region = "Texas".to_string();
    state.new_location_country = "USA".to_string();
    state.new_location_postal = "78701".to_string();

    assert!(state.is_physical_location_valid());
}

#[test]
fn test_is_virtual_location_valid() {
    let mut state = LocationState::new();
    assert!(!state.is_virtual_location_valid());

    state.new_location_name = "Cloud".to_string();
    assert!(!state.is_virtual_location_valid());

    state.new_location_url = "https://cloud.example.com".to_string();
    assert!(state.is_virtual_location_valid());
}

#[test]
fn test_is_form_valid_physical() {
    let mut state = LocationState::new();
    state.new_location_type = Some(LocationType::Physical);
    assert!(!state.is_form_valid());

    state.new_location_name = "HQ".to_string();
    state.new_location_street = "123 Main St".to_string();
    state.new_location_city = "Austin".to_string();
    state.new_location_region = "Texas".to_string();
    state.new_location_country = "USA".to_string();
    state.new_location_postal = "78701".to_string();

    assert!(state.is_form_valid());
}

#[test]
fn test_is_form_valid_virtual() {
    let mut state = LocationState::new();
    state.new_location_type = Some(LocationType::Virtual);
    assert!(!state.is_form_valid());

    state.new_location_name = "Cloud".to_string();
    state.new_location_url = "https://cloud.example.com".to_string();

    assert!(state.is_form_valid());
}

#[test]
fn management_test_validation_error_name_required() {
    let state = LocationState::new();
    assert_eq!(state.validation_error(), Some("Location name is required".to_string()));
}

#[test]
fn test_validation_error_physical_fields() {
    let mut state = LocationState::new();
    state.new_location_name = "HQ".to_string();
    state.new_location_type = Some(LocationType::Physical);

    assert_eq!(state.validation_error(), Some("Street address is required".to_string()));

    state.new_location_street = "123 Main St".to_string();
    assert_eq!(state.validation_error(), Some("City is required".to_string()));
}

#[test]
fn test_validation_error_virtual_url() {
    let mut state = LocationState::new();
    state.new_location_name = "Cloud".to_string();
    state.new_location_type = Some(LocationType::Virtual);

    assert_eq!(
        state.validation_error(),
        Some("URL is required for virtual locations".to_string())
    );
}

#[test]
fn management_test_clear_form() {
    let mut state = LocationState::new();
    state.new_location_name = "HQ".to_string();
    state.new_location_type = Some(LocationType::Physical);
    state.new_location_street = "123 Main St".to_string();
    state.new_location_city = "Austin".to_string();
    state.new_location_region = "Texas".to_string();
    state.new_location_country = "USA".to_string();
    state.new_location_postal = "78701".to_string();
    state.new_location_url = "https://hq.example.com".to_string();

    state.clear_form();

    assert!(state.new_location_name.is_empty());
    assert!(state.new_location_type.is_none());
    assert!(state.new_location_street.is_empty());
    assert!(state.new_location_city.is_empty());
    assert!(state.new_location_region.is_empty());
    assert!(state.new_location_country.is_empty());
    assert!(state.new_location_postal.is_empty());
    assert!(state.new_location_url.is_empty());
}

#[test]
fn test_location_count() {
    let mut state = LocationState::new();
    assert_eq!(state.location_count(), 0);

    state.loaded_locations.push(LocationEntry {
        location_id: uuid::Uuid::now_v7().as_u128(),
        name: "HQ".to_string(),
        location_type: "Physical".to_string(),
        organization_id: uuid::Uuid::now_v7().as_u128(),
        street: Some("123 Main St".to_string()),
        city: Some("Austin".to_string()),
        region: Some("Texas".to_string()),
        country: Some("USA".to_string()),
        postal_code: Some("78701".to_string()),
        virtual_url: None,
        state: None,
    });

    assert_eq!(state.location_count(), 1);
}

#[test]
fn location_validation_reports_each_missing_address_field_in_order() {
    let mut state = LocationState::new();
    state.new_location_name = "HQ".to_string();
    state.new_location_type = Some(LocationType::Physical);
    state.new_location_street = "1 Main".to_string();
    state.new_location_city = "Austin".to_string();
    assert_eq!(state.validation_error(), Some("State/Region is required".to_string()));
    state.new_location_region = "TX".to_string();
    assert_eq!(state.validation_error(), Some("Country is required".to_string()));
    state.new_location_country = "USA".to_string();
    assert_eq!(state.validation_error(), Some("Postal code is required".to_string()));
    state.new_location_postal = "78701".to_string();
    assert_eq!(state.validation_error(), None);
    assert!(state.is_form_valid());
}

#[test]
fn location_find_by_id() {
    let mut state = LocationState::new();
    let id = 7u128;
    state.loaded_locations.push(LocationEntry {
        location_id: id,
        name: "HQ".to_string(),
        location_type: "Physical".to_string(),
        organization_id: 1,
        street: None,
        city: None,
        region: None,
        country: None,
        postal_code: None,
        virtual_url: None,
        state: None,
    });
    assert_eq!(state.find_location(id).map(|l| l.name.clone()), Some("HQ".to_string()));
    assert!(state.find_location(8).is_none());
}

#[test]
fn untyped_location_with_a_name_has_no_error() {
    let mut state = LocationState::new();
    state.new_location_name = "Somewhere".to_string();
    assert!(state.is_form_valid());
    assert_eq!(state.validation_error(), None);
}
