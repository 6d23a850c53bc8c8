use clouddesk::vault::{
    key_context, legacy_context, random_data_key, random_id, random_tombstone, stored_label,
    validate_metadata, value_context, VaultError,
};

#[test]
fn metadata_validation_rejects_invalid_inputs() {
    assert!(validate_metadata("ssh.key_1-a", "My key", b"x").is_ok());
    assert!(matches!(validate_metadata("", "l", b"x"), Err(VaultError::InvalidKind)));
    assert!(matches!(validate_metadata("a b", "l", b"x"), Err(VaultError::InvalidKind)));
    assert!(matches!(validate_metadata(&"k".repeat(65), "l", b"x"), Err(VaultError::InvalidKind)));
    assert!(matches!(validate_metadata("k", "   ", b"x"), Err(VaultError::InvalidLabel)));
    assert!(matches!(validate_metadata("k", &"l".repeat(257), b"x"), Err(VaultError::InvalidLabel)));
    assert!(matches!(validate_metadata("k", "l", b""), Err(VaultError::InvalidValue)));
    assert!(matches!(validate_metadata("k", "l", &vec![0; 1024 * 1024 + 1]), Err(VaultError::InvalidValue)));
    assert_eq!(stored_label("  label "), "label");
}

#[test]
fn contexts_bind_owner_and_record() {
    assert_eq!(legacy_context("u", "i"), b"vault:u:i".to_vec());
    assert_eq!(key_context("u", "i"), b"vault:key:u:i".to_vec());
    assert_eq!(value_context("u", "i"), b"vault:value:u:i".to_vec());
    assert_eq!(random_data_key().unwrap().len(), 32);
    let id = random_id().unwrap();
    assert_eq!(id.len(), 32);
    assert!(id.chars().all(|c| c.is_ascii_hexdigit() && !c.is_ascii_uppercase()));
    assert_ne!(random_id().unwrap(), id);
    assert_eq!(random_tombstone().unwrap().len(), 128);
}
