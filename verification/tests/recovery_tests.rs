use cim_keys::recovery::{update, RecoveryMessage, RecoveryState};

#[test]
fn test_recovery_state_default() {
    let state = RecoveryState::default();
    assert!(state.passphrase.is_empty());
    assert!(state.passphrase_confirm.is_empty());
    assert!(state.organization_id.is_empty());
    assert!(state.status.is_none());
    assert!(!state.seed_verified);
    assert!(!state.section_collapsed);
}

#[test]
fn test_recovery_state_new() {
    let state = RecoveryState::new();
    assert!(state.passphrase.is_empty());
    assert!(state.passphrase_confirm.is_empty());
    assert!(state.organization_id.is_empty());
    assert!(state.section_collapsed);
    assert!(!state.seed_verified);
}

#[test]
fn seed_test_toggle_section() {
    let mut state = RecoveryState::new();
    assert!(state.section_collapsed);

    let _ = update(&mut state, RecoveryMessage::ToggleSection);
    assert!(!state.section_collapsed);

    let _ = update(&mut state, RecoveryMessage::ToggleSection);
    assert!(state.section_collapsed);
}

#[test]
fn test_passphrase_changed() {
    let mut state = RecoveryState::new();
    state.seed_verified = true;
    state.status = Some("Previous status".to_string());

    let _ = update(&mut state, RecoveryMessage::PassphraseChanged("my secret phrase".to_string()));

    assert_eq!(state.passphrase, "my secret phrase");
    assert!(!state.seed_verified);
    assert!(state.status.is_none());
}

#[test]
fn test_passphrase_confirm_changed() {
    let mut state = RecoveryState::new();
    state.seed_verified = true;

    let _ = update(
        &mut state,
        RecoveryMessage::PassphraseConfirmChanged("my secret phrase".to_string()),
    );

    assert_eq!(state.passphrase_confirm, "my secret phrase");
    assert!(!state.seed_verified);
}

#[test]
fn test_organization_id_changed() {
    let mut state = RecoveryState::new();
    state.seed_verified = true;

    let _ = update(&mut state, RecoveryMessage::OrganizationIdChanged("org-123".to_string()));

    assert_eq!(state.organization_id, "org-123");
    assert!(!state.seed_verified);
}

#[test]
fn test_passphrases_match() {
    let mut state = RecoveryState::new();
    assert!(!state.passphrases_match());

    state.passphrase = "secret".to_string();
    assert!(!state.passphrases_match());

    state.passphrase_confirm = "different".to_string();
    assert!(!state.passphrases_match());

    state.passphrase_confirm = "secret".to_string();
    assert!(state.passphrases_match());
}

#[test]
fn test_is_verification_ready() {
    let mut state = RecoveryState::new();
    assert!(!state.is_verification_ready());

    state.passphrase = "secret".to_string();
    assert!(!state.is_verification_ready());

    state.passphrase_confirm = "secret".to_string();
    assert!(!state.is_verification_ready());

    state.organization_id = "org-123".to_string();
    assert!(state.is_verification_ready());
}

#[test]
fn test_is_recovery_ready() {
    let mut state = RecoveryState::new();
    state.passphrase = "secret".to_string();
    state.passphrase_confirm = "secret".to_string();
    state.organization_id = "org-123".to_string();

    assert!(!state.is_recovery_ready());

    state.seed_verified = true;
    assert!(state.is_recovery_ready());
}

#[test]
fn test_validation_error_passphrase_required() {
    let state = RecoveryState::new();
    assert_eq!(state.validation_error(), Some("Recovery passphrase is required".to_string()));
}

#[test]
fn test_validation_error_passphrases_mismatch() {
    let mut state = RecoveryState::new();
    state.passphrase = "secret".to_string();
    state.passphrase_confirm = "different".to_string();

    assert_eq!(state.validation_error(), Some("Passphrases do not match".to_string()));
}

#[test]
fn test_validation_error_organization_required() {
    let mut state = RecoveryState::new();
    state.passphrase = "secret".to_string();
    state.passphrase_confirm = "secret".to_string();

    assert_eq!(
        state.validation_error(),
        Some("Organization ID is required for recovery".to_string())
    );
}

#[test]
fn seed_test_validation_no_error() {
    let mut state = RecoveryState::new();
    state.passphrase = "secret".to_string();
    state.passphrase_confirm = "secret".to_string();
    state.organization_id = "org-123".to_string();

    assert!(state.validation_error().is_none());
}

#[test]
fn seed_test_clear_form() {
    let mut state = RecoveryState::new();
    state.passphrase = "secret".to_string();
    state.passphrase_confirm = "secret".to_string();
    state.organization_id = "org-123".to_string();
    state.status = Some("Some status".to_string());
    state.seed_verified = true;

    state.clear_form();

    assert!(state.passphrase.is_empty());
    assert!(state.passphrase_confirm.is_empty());
    assert!(state.organization_id.is_empty());
    assert!(state.status.is_none());
    assert!(!state.seed_verified);
}

#[test]
fn test_reset_verification() {
    let mut state = RecoveryState::new();
    state.seed_verified = true;
    state.status = Some("Verified".to_string());

    state.reset_verification();

    assert!(!state.seed_verified);
    assert!(state.status.is_none());
}

#[test]
fn seed_test_status_helpers() {
    let mut state = RecoveryState::new();

    state.set_status_deriving();
    assert_eq!(state.status, Some("⏳ Deriving seed...".to_string()));

    state.set_status_recovering();
    assert_eq!(state.status, Some("⏳ Recovering keys...".to_string()));

    state.set_status_verified("ABC:123");
    assert_eq!(state.status, Some("✅ Seed verified! Fingerprint: ABC:123".to_string()));
    assert!(state.seed_verified);

    state.set_status_recovered(3);
    assert_eq!(
        state.status,
        Some("✅ Recovery complete! 3 key types can be regenerated".to_string())
    );

    state.set_status_failure("Connection failed");
    assert_eq!(state.status, Some("❌ Failed: Connection failed".to_string()));
    assert!(!state.seed_verified);
}

#[test]
fn recovery_counts_render_in_decimal() {
    let mut state = RecoveryState::new();
    state.set_status_recovered(0);
    assert_eq!(
        state.status,
        Some("✅ Recovery complete! 0 key types can be regenerated".to_string())
    );
    state.set_status_recovered(1024);
    assert_eq!(
        state.status,
        Some("✅ Recovery complete! 1024 key types can be regenerated".to_string())
    );
}

#[test]
fn recovery_results_leave_state_alone() {
    let mut state = RecoveryState::new();
    state.passphrase = "a".to_string();
    let _ = update(&mut state, RecoveryMessage::SeedVerified(Ok("FP".to_string())));
    let _ = update(&mut state, RecoveryMessage::KeysRecovered(Err("x".to_string())));
    let _ = update(&mut state, RecoveryMessage::VerifySeed);
    let _ = update(&mut state, RecoveryMessage::RecoverKeys);
    assert_eq!(state.passphrase, "a");
    assert!(state.status.is_none());
    assert!(!state.seed_verified);
}

#[test]
fn recovery_change_after_verification_blocks_recovery() {
    let mut state = RecoveryState::new();
    state.passphrase = "secret".to_string();
    state.passphrase_confirm = "secret".to_string();
    state.organization_id = "org".to_string();
    state.set_status_verified("FP");
    assert!(state.is_recovery_ready());
    let _ = update(&mut state, RecoveryMessage::OrganizationIdChanged("org2".to_string()));
    assert!(!state.is_recovery_ready());
}
