use cim_keys::org_unit::{update, OrgUnitMessage, OrgUnitState, OrganizationUnit, OrganizationUnitType};

#[test]
fn test_org_unit_state_default() {
    let state = OrgUnitState::default();
    assert!(state.new_name.is_empty());
    assert!(state.new_type.is_none());
    assert!(state.new_parent.is_none());
    assert!(state.new_nats_account.is_empty());
    assert!(state.new_responsible_person.is_none());
    assert!(state.created_units.is_empty());
    assert!(!state.section_collapsed);
}

#[test]
fn test_org_unit_state_new() {
    let state = OrgUnitState::new();
    assert!(state.new_name.is_empty());
    assert!(state.new_type.is_none());
    assert!(state.section_collapsed);
}

#[test]
fn management_test_toggle_section() {
    let mut state = OrgUnitState::new();
    assert!(state.section_collapsed);

    let _ = update(&mut state, OrgUnitMessage::ToggleSection);
    assert!(!state.section_collapsed);

    let _ = update(&mut state, OrgUnitMessage::ToggleSection);
    assert!(state.section_collapsed);
}

#[test]
fn org_unit_management_test_name_changed() {
    let mut state = OrgUnitState::new();
    let _ = update(&mut state, OrgUnitMessage::NameChanged("Engineering".to_string()));
    assert_eq!(state.new_name, "Engineering");
}

#[test]
fn org_unit_management_test_type_selected() {
    let mut state = OrgUnitState::new();
    let _ = update(&mut state, OrgUnitMessage::TypeSelected(OrganizationUnitType::Department));
    assert_eq!(state.new_type, Some(OrganizationUnitType::Department));
}

#[test]
fn test_parent_selected() {
    let mut state = OrgUnitState::new();

    let _ = update(&mut state, OrgUnitMessage::ParentSelected("Engineering".to_string()));
    assert_eq!(state.new_parent, Some("Engineering".to_string()));

    let _ = update(&mut state, OrgUnitMessage::ParentSelected(String::new()));
    assert_eq!(state.new_parent, None);
}

#[test]
fn test_nats_account_changed() {
    let mut state = OrgUnitState::new();
    let _ = update(&mut state, OrgUnitMessage::NatsAccountChanged("ENGINEERING".to_string()));
    assert_eq!(state.new_nats_account, "ENGINEERING");
}

#[test]
fn management_test_responsible_person_selected() {
    let mut state = OrgUnitState::new();
    let person_id = uuid::Uuid::now_v7().as_u128();

    let _ = update(&mut state, OrgUnitMessage::ResponsiblePersonSelected(person_id));
    assert_eq!(state.new_responsible_person, Some(person_id));
}

#[test]
fn management_test_is_form_valid() {
    let mut state = OrgUnitState::new();
    assert!(!state.is_form_valid());

    state.new_name = "Engineering".to_string();
    assert!(!state.is_form_valid());

    state.new_type = Some(OrganizationUnitType::Department);
    assert!(state.is_form_valid());
}

#[test]
fn org_unit_management_test_validation_error_name_required() {
    let state = OrgUnitState::new();
    assert_eq!(state.validation_error(), Some("Unit name is required".to_string()));
}

#[test]
fn test_validation_error_type_required() {
    let mut state = OrgUnitState::new();
    state.new_name = "Engineering".to_string();

    assert_eq!(state.validation_error(), Some("Please select a unit type".to_string()));
}

#[test]
fn org_unit_management_test_clear_form() {
    let mut state = OrgUnitState::new();
    state.new_name = "Engineering".to_string();
    state.new_type = Some(OrganizationUnitType::Department);
    state.new_parent = Some("Company".to_string());
    state.new_nats_account = "ENGINEERING".to_string();
    state.new_responsible_person = Some(uuid::Uuid::now_v7().as_u128());

    state.clear_form();

    assert!(state.new_name.is_empty());
    assert!(state.new_type.is_none());
    assert!(state.new_parent.is_none());
    assert!(state.new_nats_account.is_empty());
    assert!(state.new_responsible_person.is_none());
}

#[test]
fn test_unit_count() {
    let mut state = OrgUnitState::new();
    assert_eq!(state.unit_count(), 0);

    state
        .created_units
        .push(OrganizationUnit::new("Eng".to_string(), OrganizationUnitType::Department));
    assert_eq!(state.unit_count(), 1);
}

#[test]
fn test_find_unit_by_name() {
    let mut state = OrgUnitState::new();
    let unit = OrganizationUnit::new("Engineering".to_string(), OrganizationUnitType::Department);
    state.created_units.push(unit);

    assert!(state.find_unit_by_name("Engineering").is_some());
    assert!(state.find_unit_by_name("Marketing").is_none());
}

#[test]
fn test_unit_names() {
    let mut state = OrgUnitState::new();
    state
        .created_units
        .push(OrganizationUnit::new("Engineering".to_string(), OrganizationUnitType::Department));
    state
        .created_units
        .push(OrganizationUnit::new("Marketing".to_string(), OrganizationUnitType::Department));

    let names = state.unit_names();
    assert_eq!(names.len(), 2);
    assert!(names.contains(&"Engineering"));
    assert!(names.contains(&"Marketing"));
}

#[test]
fn test_remove_unit() {
    let mut state = OrgUnitState::new();
    let unit = OrganizationUnit::new("Engineering".to_string(), OrganizationUnitType::Department);
    let unit_id = unit.id;
    state.created_units.push(unit);

    assert_eq!(state.unit_count(), 1);

    let _ = update(&mut state, OrgUnitMessage::Remove(unit_id));
    assert_eq!(state.unit_count(), 0);
}

#[test]
fn test_units_by_type() {
    let mut state = OrgUnitState::new();
    state
        .created_units
        .push(OrganizationUnit::new("Engineering".to_string(), OrganizationUnitType::Department));
    state
        .created_units
        .push(OrganizationUnit::new("Backend".to_string(), OrganizationUnitType::Team));
    state
        .created_units
        .push(OrganizationUnit::new("Frontend".to_string(), OrganizationUnitType::Team));

    let departments = state.units_by_type(OrganizationUnitType::Department);
    assert_eq!(departments.len(), 1);

    let teams = state.units_by_type(OrganizationUnitType::Team);
    assert_eq!(teams.len(), 2);
}

#[test]
fn test_root_units() {
    let mut state = OrgUnitState::new();

    let parent = OrganizationUnit::new("Engineering".to_string(), OrganizationUnitType::Department);
    let parent_id = parent.id;
    state.created_units.push(parent);

    let child = OrganizationUnit::new("Backend".to_string(), OrganizationUnitType::Team).with_parent(parent_id);
    state.created_units.push(child);

    let roots = state.root_units();
    assert_eq!(roots.len(), 1);
    assert_eq!(roots[0].name, "Engineering");
}

#[test]
fn org_unit_remove_returns_name_and_keeps_others() {
    let mut state = OrgUnitState::new();
    let a = OrganizationUnit::new("A".to_string(), OrganizationUnitType::Team);
    let b = OrganizationUnit::new("B".to_string(), OrganizationUnitType::Team);
    let a_id = a.id;
    let b_id = b.id;
    state.created_units.push(a);
    state.created_units.push(b);
    assert_eq!(state.remove_unit(a_id), Some("A".to_string()));
    assert_eq!(state.remove_unit(a_id), None);
    assert_eq!(state.unit_count(), 1);
    assert_eq!(state.find_unit(b_id).map(|u| u.name.clone()), Some("B".to_string()));
}

#[test]
fn org_unit_new_units_have_distinct_ids() {
    let a = OrganizationUnit::new("A".to_string(), OrganizationUnitType::Team);
    let b = OrganizationUnit::new("A".to_string(), OrganizationUnitType::Team);
    assert_ne!(a.id, b.id);
    assert!(a.parent_unit_id.is_none());
}
