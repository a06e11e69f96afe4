use cim_keys::multi_key::{update, InvariantKeyPurpose, MultiKeyMessage, MultiKeyState};

fn some_person() -> u128 {
    uuid::Uuid::now_v7().as_u128()
}

#[test]
fn test_multi_key_state_default() {
    let state = MultiKeyState::default();
    assert!(!state.section_collapsed);
    assert!(state.selected_person.is_none());
    assert!(state.selected_purposes.is_empty());
    assert!(state.status.is_none());
}

#[test]
fn test_multi_key_state_new() {
    let state = MultiKeyState::new();
    assert!(state.section_collapsed);
    assert!(state.selected_person.is_none());
    assert!(state.selected_purposes.is_empty());
}

#[test]
fn generation_test_toggle_section() {
    let mut state = MultiKeyState::new();
    assert!(state.section_collapsed);

    let _ = update(&mut state, MultiKeyMessage::ToggleSection);
    assert!(!state.section_collapsed);

    let _ = update(&mut state, MultiKeyMessage::ToggleSection);
    assert!(state.section_collapsed);
}

#[test]
fn test_person_selected() {
    let mut state = MultiKeyState::new();
    let person_id = some_person();

    let _ = update(&mut state, MultiKeyMessage::PersonSelected(person_id));
    assert_eq!(state.selected_person, Some(person_id));
}

#[test]
fn test_toggle_purpose_add() {
    let mut state = MultiKeyState::new();

    let _ = update(&mut state, MultiKeyMessage::TogglePurpose(InvariantKeyPurpose::Authentication));
    assert!(state.selected_purposes.contains(&InvariantKeyPurpose::Authentication));
    assert_eq!(state.purpose_count(), 1);
}

#[test]
fn test_toggle_purpose_remove() {
    let mut state = MultiKeyState::new();
    state.selected_purposes.insert(InvariantKeyPurpose::Signing);

    let _ = update(&mut state, MultiKeyMessage::TogglePurpose(InvariantKeyPurpose::Signing));
    assert!(!state.selected_purposes.contains(&InvariantKeyPurpose::Signing));
    assert_eq!(state.purpose_count(), 0);
}

#[test]
fn test_toggle_purpose_multiple() {
    let mut state = MultiKeyState::new();

    let _ = update(&mut state, MultiKeyMessage::TogglePurpose(InvariantKeyPurpose::Authentication));
    let _ = update(&mut state, MultiKeyMessage::TogglePurpose(InvariantKeyPurpose::Signing));
    let _ = update(&mut state, MultiKeyMessage::TogglePurpose(InvariantKeyPurpose::Encryption));

    assert_eq!(state.purpose_count(), 3);
    assert!(state.is_purpose_selected(InvariantKeyPurpose::Authentication));
    assert!(state.is_purpose_selected(InvariantKeyPurpose::Signing));
    assert!(state.is_purpose_selected(InvariantKeyPurpose::Encryption));
    assert!(!state.is_purpose_selected(InvariantKeyPurpose::KeyAgreement));
}

#[test]
fn test_is_ready_to_generate_no_person() {
    let mut state = MultiKeyState::new();
    state.selected_purposes.insert(InvariantKeyPurpose::Signing);

    assert!(!state.is_ready_to_generate());
}

#[test]
fn test_is_ready_to_generate_no_purposes() {
    let mut state = MultiKeyState::new();
    state.selected_person = Some(some_person());

    assert!(!state.is_ready_to_generate());
}

#[test]
fn test_is_ready_to_generate_valid() {
    let mut state = MultiKeyState::new();
    state.selected_person = Some(some_person());
    state.selected_purposes.insert(InvariantKeyPurpose::Signing);

    assert!(state.is_ready_to_generate());
}

#[test]
fn test_validation_error_no_person() {
    let state = MultiKeyState::new();
    assert_eq!(
        state.validation_error(),
        Some("Please select a person for key generation".to_string())
    );
}

#[test]
fn test_validation_error_no_purposes() {
    let mut state = MultiKeyState::new();
    state.selected_person = Some(some_person());

    assert_eq!(
        state.validation_error(),
        Some("Please select at least one key purpose".to_string())
    );
}

#[test]
fn generation_test_validation_no_error() {
    let mut state = MultiKeyState::new();
    state.selected_person = Some(some_person());
    state.selected_purposes.insert(InvariantKeyPurpose::Signing);

    assert!(state.validation_error().is_none());
}

#[test]
fn test_clear_selection() {
    let mut state = MultiKeyState::new();
    let person_id = some_person();
    state.selected_person = Some(person_id);
    state.selected_purposes.insert(InvariantKeyPurpose::Signing);
    state.selected_purposes.insert(InvariantKeyPurpose::Encryption);

    state.clear_selection();

    assert_eq!(state.selected_person, Some(person_id));
    assert!(state.selected_purposes.is_empty());
}

#[test]
fn test_reset() {
    let mut state = MultiKeyState::new();
    state.selected_person = Some(some_person());
    state.selected_purposes.insert(InvariantKeyPurpose::Signing);
    state.status = Some("Test status".to_string());

    state.reset();

    assert!(state.selected_person.is_none());
    assert!(state.selected_purposes.is_empty());
    assert!(state.status.is_none());
}

#[test]
fn test_available_purposes() {
    let purposes = MultiKeyState::available_purposes();
    assert_eq!(purposes.len(), 4);
    assert!(purposes.contains(&InvariantKeyPurpose::Authentication));
    assert!(purposes.contains(&InvariantKeyPurpose::Signing));
    assert!(purposes.contains(&InvariantKeyPurpose::Encryption));
    assert!(purposes.contains(&InvariantKeyPurpose::KeyAgreement));
}

#[test]
fn test_purpose_display_name() {
    assert_eq!(
        MultiKeyState::purpose_display_name(InvariantKeyPurpose::Authentication),
        "Authentication"
    );
    assert_eq!(MultiKeyState::purpose_display_name(InvariantKeyPurpose::Signing), "Digital Signing");
    assert_eq!(MultiKeyState::purpose_display_name(InvariantKeyPurpose::Encryption), "Encryption");
    assert_eq!(
        MultiKeyState::purpose_display_name(InvariantKeyPurpose::KeyAgreement),
        "Key Agreement"
    );
}

#[test]
fn generation_test_status_helpers() {
    let mut state = MultiKeyState::new();

    state.set_status_generating();
    assert!(state.status.as_ref().unwrap().contains("Generating"));

    state.set_status_success(3);
    assert!(state.status.as_ref().unwrap().contains("3 key(s)"));

    state.set_status_failure("Test error");
    assert!(state.status.as_ref().unwrap().contains("Test error"));
}

#[test]
fn multi_key_status_texts_are_exact() {
    let mut state = MultiKeyState::new();
    state.set_status_generating();
    assert_eq!(state.status, Some("🔑 Generating keys...".to_string()));
    state.set_status_success(12);
    assert_eq!(state.status, Some("✅ Generated 12 key(s) successfully".to_string()));
    state.set_status_failure("disk full");
    assert_eq!(state.status, Some("❌ Generation failed: disk full".to_string()));
}

#[test]
fn multi_key_toggling_a_purpose_twice_restores_it() {
    let mut state = MultiKeyState::new();
    let _ = update(&mut state, MultiKeyMessage::TogglePurpose(InvariantKeyPurpose::KeyAgreement));
    let _ = update(&mut state, MultiKeyMessage::TogglePurpose(InvariantKeyPurpose::KeyAgreement));
    assert!(state.selected_purposes.is_empty());
    assert_eq!(state.purpose_count(), 0);
}
