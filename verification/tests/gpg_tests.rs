use cim_keys::gpg::{GpgKeyType, GpgMessage};

#[test]
fn test_gpg_message_variants() {
    let _ = GpgMessage::ToggleSection;
    let _ = GpgMessage::UserIdChanged("Test <test@example.com>".to_string());
    let _ = GpgMessage::KeyTypeSelected(GpgKeyType::Eddsa);
    let _ = GpgMessage::KeyLengthChanged("4096".to_string());
    let _ = GpgMessage::ExpiresDaysChanged("365".to_string());
    let _ = GpgMessage::Generate;
    let _ = GpgMessage::ListKeys;
    let _ = GpgMessage::KeysListed(Ok(vec![]));
}
