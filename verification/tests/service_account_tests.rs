use cim_keys::service_account::{update, ServiceAccount, ServiceAccountMessage, ServiceAccountState};

fn fresh() -> u128 {
    uuid::Uuid::now_v7().as_u128()
}

#[test]
fn test_service_account_state_default() {
    let state = ServiceAccountState::default();
    assert!(state.new_name.is_empty());
    assert!(state.new_purpose.is_empty());
    assert!(state.new_owning_unit.is_none());
    assert!(state.new_responsible_person.is_none());
    assert!(state.created_service_accounts.is_empty());
    assert!(!state.section_collapsed);
}

#[test]
fn test_service_account_state_new() {
    let state = ServiceAccountState::new();
    assert!(state.new_name.is_empty());
    assert!(state.new_purpose.is_empty());
    assert!(state.new_owning_unit.is_none());
    assert!(state.new_responsible_person.is_none());
    assert!(state.created_service_accounts.is_empty());
    assert!(state.section_collapsed);
}

#[test]
fn service_account_management_test_toggle_section() {
    let mut state = ServiceAccountState::new();
    assert!(state.section_collapsed);

    let _ = update(&mut state, ServiceAccountMessage::ToggleSection);
    assert!(!state.section_collapsed);

    let _ = update(&mut state, ServiceAccountMessage::ToggleSection);
    assert!(state.section_collapsed);
}

#[test]
fn service_account_management_test_name_changed() {
    let mut state = ServiceAccountState::new();
    let _ = update(&mut state, ServiceAccountMessage::NameChanged("ci-runner".to_string()));
    assert_eq!(state.new_name, "ci-runner");
}

#[test]
fn test_purpose_changed() {
    let mut state = ServiceAccountState::new();
    let _ = update(
        &mut state,
        ServiceAccountMessage::PurposeChanged("Continuous integration runner".to_string()),
    );
    assert_eq!(state.new_purpose, "Continuous integration runner");
}

#[test]
fn test_owning_unit_selected() {
    let mut state = ServiceAccountState::new();
    let unit_id = fresh();

    let _ = update(&mut state, ServiceAccountMessage::OwningUnitSelected(unit_id));
    assert_eq!(state.new_owning_unit, Some(unit_id));
}

#[test]
fn service_account_management_test_responsible_person_selected() {
    let mut state = ServiceAccountState::new();
    let person_id = fresh();

    let _ = update(&mut state, ServiceAccountMessage::ResponsiblePersonSelected(person_id));
    assert_eq!(state.new_responsible_person, Some(person_id));
}

#[test]
fn service_account_management_test_is_form_valid() {
    let mut state = ServiceAccountState::new();
    assert!(!state.is_form_valid());

    state.new_name = "test-sa".to_string();
    assert!(!state.is_form_valid());

    state.new_owning_unit = Some(fresh());
    assert!(!state.is_form_valid());

    state.new_responsible_person = Some(fresh());
    assert!(state.is_form_valid());
}

#[test]
fn service_account_management_test_validation_error_name_required() {
    let state = ServiceAccountState::new();
    assert_eq!(state.validation_error(), Some("Service account name is required".to_string()));
}

#[test]
fn test_validation_error_owning_unit_required() {
    let mut state = ServiceAccountState::new();
    state.new_name = "test-sa".to_string();

    assert_eq!(
        state.validation_error(),
        Some("Owning organizational unit is required".to_string())
    );
}

#[test]
fn test_validation_error_responsible_person_required() {
    let mut state = ServiceAccountState::new();
    state.new_name = "test-sa".to_string();
    state.new_owning_unit = Some(fresh());

    assert_eq!(state.validation_error(), Some("Responsible person is required".to_string()));
}

#[test]
fn service_account_management_test_clear_form() {
    let mut state = ServiceAccountState::new();
    state.new_name = "test-sa".to_string();
    state.new_purpose = "Test purpose".to_string();
    state.new_owning_unit = Some(fresh());
    state.new_responsible_person = Some(fresh());

    state.clear_form();

    assert!(state.new_name.is_empty());
    assert!(state.new_purpose.is_empty());
    assert!(state.new_owning_unit.is_none());
    assert!(state.new_responsible_person.is_none());
}

#[test]
fn test_service_account_count() {
    let mut state = ServiceAccountState::new();
    assert_eq!(state.service_account_count(), 0);

    state
        .created_service_accounts
        .push(ServiceAccount::new("sa-1".to_string(), "Purpose 1".to_string(), fresh(), fresh()));
    assert_eq!(state.service_account_count(), 1);

    state
        .created_service_accounts
        .push(ServiceAccount::new("sa-2".to_string(), "Purpose 2".to_string(), fresh(), fresh()));
    assert_eq!(state.service_account_count(), 2);
}

#[test]
fn test_active_count() {
    let mut state = ServiceAccountState::new();

    let mut sa1 = ServiceAccount::new("sa-1".to_string(), "Purpose 1".to_string(), fresh(), fresh());
    let sa2 = ServiceAccount::new("sa-2".to_string(), "Purpose 2".to_string(), fresh(), fresh());

    sa1.active = false;

    state.created_service_accounts.push(sa1);
    state.created_service_accounts.push(sa2);

    assert_eq!(state.active_count(), 1);
}

#[test]
fn test_find_service_account() {
    let mut state = ServiceAccountState::new();
    let sa = ServiceAccount::new("sa-1".to_string(), "Purpose 1".to_string(), fresh(), fresh());
    let sa_id = sa.id;

    state.created_service_accounts.push(sa);

    assert!(state.find_service_account(sa_id).is_some());
    assert!(state.find_service_account(fresh()).is_none());
}

#[test]
fn test_deactivate() {
    let mut state = ServiceAccountState::new();
    let sa = ServiceAccount::new("sa-1".to_string(), "Purpose 1".to_string(), fresh(), fresh());
    let sa_id = sa.id;

    state.created_service_accounts.push(sa);
    assert!(state.created_service_accounts[0].active);

    let _ = update(&mut state, ServiceAccountMessage::Deactivate(sa_id));
    assert!(!state.created_service_accounts[0].active);
}

#[test]
fn test_remove() {
    let mut state = ServiceAccountState::new();
    let sa = ServiceAccount::new("sa-1".to_string(), "Purpose 1".to_string(), fresh(), fresh());
    let sa_id = sa.id;

    state.created_service_accounts.push(sa);
    assert_eq!(state.service_account_count(), 1);

    let _ = update(&mut state, ServiceAccountMessage::Remove(sa_id));
    assert_eq!(state.service_account_count(), 0);
}

#[test]
fn service_account_deactivate_and_remove_report_the_name() {
    let mut state = ServiceAccountState::new();
    let sa = ServiceAccount::new("sa-9".to_string(), "p".to_string(), 1, 2);
    let id = sa.id;
    state.created_service_accounts.push(sa);
    assert_eq!(state.deactivate(id), Some("sa-9".to_string()));
    assert_eq!(state.active_count(), 0);
    assert_eq!(state.deactivate(id.wrapping_add(1)), None);
    assert_eq!(state.remove(id), Some("sa-9".to_string()));
    assert_eq!(state.remove(id), None);
}
