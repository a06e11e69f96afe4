use cim_keys::passphrase::{generate_random, PassphraseDialog, PassphraseDialogMessage, PassphrasePurpose};

fn strength(dialog: &PassphraseDialog) -> f64 {
    dialog.strength_score() as f64 / 3200.0
}

#[test]
fn test_passphrase_validation() {
    let mut dialog = PassphraseDialog::new();

    dialog.passphrase = "short".to_string();
    dialog.passphrase_confirm = "short".to_string();
    assert!(!dialog.is_valid());

    dialog.passphrase = "longpassphrase123".to_string();
    dialog.passphrase_confirm = "different".to_string();
    assert!(!dialog.is_valid());

    dialog.passphrase = "longpassphrase123".to_string();
    dialog.passphrase_confirm = "longpassphrase123".to_string();
    assert!(dialog.is_valid());
}

#[test]
fn test_strength_calculation() {
    let mut dialog = PassphraseDialog::new();

    dialog.passphrase = "password".to_string();
    assert!(strength(&dialog) <= 0.4, "Expected strength <= 0.4, got {}", strength(&dialog));

    dialog.passphrase = "MyP@ssw0rd!IsVeryStr0ng123".to_string();
    assert!(strength(&dialog) > 0.8, "Expected strength > 0.8, got {}", strength(&dialog));
}

#[test]
fn test_secure_cleanup() {
    let mut dialog = PassphraseDialog::new();
    dialog.show(PassphrasePurpose::RootCA);
    dialog.passphrase = "sensitive".to_string();
    dialog.passphrase_confirm = "sensitive".to_string();

    dialog.dismiss();
    assert!(dialog.passphrase.is_empty());
    assert!(dialog.passphrase_confirm.is_empty());
}

#[test]
fn passphrase_strength_scores_are_exact() {
    let mut dialog = PassphraseDialog::new();
    assert_eq!(dialog.strength_score(), 0);
    assert_eq!(dialog.strength_label(), "Weak");
    dialog.passphrase = "password".to_string();
    assert_eq!(dialog.strength_score(), 1280);
    assert_eq!(dialog.strength_label(), "Fair");
    dialog.passphrase = "Password1".to_string();
    assert_eq!(dialog.strength_score(), 900 + 3 * 480);
    assert_eq!(dialog.strength_label(), "Good");
    dialog.passphrase = "MyP@ssw0rd!IsVeryStr0ng123".to_string();
    assert_eq!(dialog.strength_score(), 3200);
    assert_eq!(dialog.strength_label(), "Strong");
}

#[test]
fn passphrase_generated_is_valid_and_from_charset() {
    let p = generate_random();
    assert_eq!(p.chars().count(), 24);
    let charset = "ABCDEFGHIJKLMNOPQRSTUVWXYZabcdefghijklmnopqrstuvwxyz0123456789!@#$%^&*-_=+";
    assert!(p.chars().all(|c| charset.contains(c)));
    let mut dialog = PassphraseDialog::new();
    dialog.update(PassphraseDialogMessage::GenerateRandom);
    assert!(dialog.is_valid());
    assert_eq!(dialog.passphrase, dialog.passphrase_confirm);
}

#[test]
fn passphrase_dialog_show_and_purpose() {
    let mut dialog = PassphraseDialog::new();
    assert!(!dialog.is_visible());
    dialog.show(PassphrasePurpose::PersonalKeys);
    assert!(dialog.is_visible());
    assert_eq!(*dialog.purpose(), PassphrasePurpose::PersonalKeys);
    assert_eq!(PassphrasePurpose::RootCA.title(), "Root CA Passphrase");
    dialog.passphrase = "longpassphrase123".to_string();
    dialog.passphrase_confirm = "longpassphrase123".to_string();
    assert_eq!(dialog.get_passphrase(), Some("longpassphrase123".to_string()));
    dialog.passphrase_confirm = "x".to_string();
    assert_eq!(dialog.get_passphrase(), None);
}
