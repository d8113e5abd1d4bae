use aes_gcm::aead::{Aead, KeyInit};
use base64::Engine;
use heartbeat_control_center::vault::{
    argon_m_kib, key_from_keyring_text, new_keyring_key, validate_passphrase, Vault, VaultEnvelope, VaultMode,
    VaultState,
};

/// Light Argon2id work for the test suite: same code path, fast runs.
const TEST_ARGON_KIB: u32 = 8 * 1024;

fn light_vault() -> Vault {
    Vault::with_argon_memory(TEST_ARGON_KIB)
}

#[test]
fn keyring_mode_roundtrip() {
    let key = vec![7u8; 32];
    let mut v = Vault::new();
    assert_eq!(v.state(false), VaultState::Uninitialized);
    v.initialize(false, VaultMode::Keyring, None, Some(Ok(key.clone()))).unwrap();
    v.insert_token("agent-1", "tk_secret_a").unwrap();
    let file = v.insert_token("agent-2", "tk_secret_b").unwrap();
    assert_eq!(v.token_count(), 2);

    // Fresh instance, same key → auto-unlock and read back.
    let mut v2 = Vault::new();
    assert_eq!(v2.open(Some(Ok(file)), Some(key.clone())).unwrap(), VaultState::Unlocked);
    assert_eq!(v2.token_for("agent-1").unwrap(), "tk_secret_a");
    v2.remove_token("agent-1").unwrap();
    assert!(v2.token_for("agent-1").is_none());
    assert_eq!(v2.token_count(), 1);
}

#[test]
fn keyring_mode_wrong_key_fails_closed() {
    let mut v = Vault::new();
    v.initialize(false, VaultMode::Keyring, None, Some(Ok(vec![1u8; 32]))).unwrap();
    let file = v.insert_token("a", "tk_x").unwrap();

    let mut v2 = Vault::new();
    let state = v2.open(Some(Ok(file)), Some(vec![2u8; 32])).unwrap();
    // Wrong key → decrypt fails → treated as keyring-unavailable, never a panic.
    assert_eq!(state, VaultState::KeyringUnavailable);
    assert!(v2.token_for("a").is_none());
}

#[test]
fn passphrase_mode_roundtrip_and_wrong_pass() {
    let mut v = light_vault();
    v.initialize(false, VaultMode::Passphrase, Some("correct horse battery"), None).unwrap();
    let file = v.insert_token("a", "tk_secret").unwrap();

    let mut v2 = light_vault();
    assert_eq!(v2.open(Some(Ok(file.clone())), None).unwrap(), VaultState::Locked);
    assert!(v2.unlock("wrong passphrase!!", Ok(file.clone())).is_err());
    assert_eq!(v2.state(true), VaultState::Locked);
    v2.unlock("correct horse battery", Ok(file)).unwrap();
    assert_eq!(v2.state(true), VaultState::Unlocked);
    assert_eq!(v2.token_for("a").unwrap(), "tk_secret");

    v2.lock();
    assert_eq!(v2.state(true), VaultState::Locked);
    assert!(v2.token_for("a").is_none());
}

#[test]
fn passphrase_change_rotates_salt_and_key() {
    let mut v = light_vault();
    let first = v.initialize(false, VaultMode::Passphrase, Some("first-passphrase"), None).unwrap();
    let file = v.insert_token("a", "tk_secret").unwrap();
    let salt_before = file.salt_b64.clone();
    assert_eq!(salt_before, first.salt_b64);
    assert!(v.change_passphrase("wrong", "next-passphrase", Ok(file.clone())).is_err());
    let file = v.change_passphrase("first-passphrase", "next-passphrase", Ok(file)).unwrap();
    assert_ne!(file.salt_b64, salt_before);

    let mut v2 = light_vault();
    v2.open(Some(Ok(file.clone())), None).unwrap();
    assert!(v2.unlock("first-passphrase", Ok(file.clone())).is_err());
    v2.unlock("next-passphrase", Ok(file)).unwrap();
    assert_eq!(v2.token_for("a").unwrap(), "tk_secret");
}

#[test]
fn tampered_ciphertext_is_rejected() {
    let key = vec![9u8; 32];
    let mut v = Vault::new();
    v.initialize(false, VaultMode::Keyring, None, Some(Ok(key.clone()))).unwrap();
    let mut file = v.insert_token("a", "tk_secret").unwrap();

    // Flip one ciphertext byte.
    let b64 = base64::engine::general_purpose::STANDARD;
    let mut bytes = b64.decode(&file.ciphertext_b64).unwrap();
    bytes[0] ^= 0xff;
    file.ciphertext_b64 = b64.encode(&bytes);

    let mut v2 = Vault::new();
    // The GCM tag catches the flip; the vault refuses to open rather than
    // returning corrupted secrets.
    assert_eq!(v2.open(Some(Ok(file)), Some(key)).unwrap(), VaultState::KeyringUnavailable);
    assert!(v2.token_for("a").is_none());
}

#[test]
fn corrupted_envelope_is_a_clean_error() {
    let mut v = Vault::new();
    assert!(v.open(Some(Err("vault file corrupted (envelope)".to_string())), None).is_err());
}

#[test]
fn short_passphrase_rejected() {
    let mut v = light_vault();
    assert!(v.initialize(false, VaultMode::Passphrase, Some("short"), None).is_err());
}

#[test]
fn existing_vault_is_not_reinitialized() {
    let mut v = Vault::new();
    let e = v.initialize(true, VaultMode::Keyring, None, Some(Ok(vec![1u8; 32]))).unwrap_err();
    assert_eq!(e, "Vault already exists");
    let e = v.initialize(false, VaultMode::Passphrase, None, None).unwrap_err();
    assert_eq!(e, "Passphrase required");
    let e = v.initialize(false, VaultMode::Keyring, None, Some(Ok(vec![1u8; 31]))).unwrap_err();
    assert_eq!(e, "keyring entry corrupted (length)");
    let e = v.initialize(false, VaultMode::Keyring, None, Some(Err("keyring unavailable: no backend".into())))
        .unwrap_err();
    assert_eq!(e, "keyring unavailable: no backend");
}

#[test]
fn envelope_checks() {
    let mut v = Vault::new();
    assert_eq!(v.open(None, None).unwrap(), VaultState::Uninitialized);
    let env = VaultEnvelope {
        version: 2,
        mode: VaultMode::Keyring,
        salt_b64: None,
        nonce_b64: String::new(),
        ciphertext_b64: String::new(),
    };
    assert_eq!(v.open(Some(Ok(env.clone())), None).unwrap_err(), "unsupported vault version 2");
    let bad_salt = VaultEnvelope { version: 1, mode: VaultMode::Passphrase, salt_b64: Some("!!".into()), ..env.clone() };
    assert_eq!(v.open(Some(Ok(bad_salt)), None).unwrap_err(), "vault file corrupted (salt)");
    let short_salt = VaultEnvelope { version: 1, mode: VaultMode::Passphrase, salt_b64: Some("AAAA".into()), ..env };
    assert_eq!(v.open(Some(Ok(short_salt)), None).unwrap_err(), "vault file corrupted (salt length)");
    assert_eq!(v.state(true), VaultState::Locked);
}

#[test]
fn locked_vault_refuses_writes() {
    let mut v = Vault::new();
    assert_eq!(v.insert_token("a", "t").unwrap_err(), "Vault is locked");
    assert_eq!(v.remove_token("a").unwrap_err(), "Vault is locked");
    assert_eq!(v.token_count(), 0);
    assert_eq!(
        v.change_passphrase("a", "b", Err("unused".into())).unwrap_err(),
        "Vault is not passphrase-protected"
    );
}

#[test]
fn unlock_needs_a_passphrase_vault() {
    let mut v = Vault::new();
    v.initialize(false, VaultMode::Keyring, None, Some(Ok(vec![3u8; 32]))).unwrap();
    let file = v.insert_token("a", "x").unwrap();
    let mut v2 = Vault::new();
    assert_eq!(v2.unlock("whatever passphrase", Ok(file)).unwrap_err(), "Vault is not passphrase-protected");
    assert_eq!(v2.unlock("p", Err("cannot read vault: gone".into())).unwrap_err(), "cannot read vault: gone");
}

#[test]
fn keyring_text_keys() {
    let (key, text) = new_keyring_key();
    assert_eq!(key.len(), 32);
    assert_eq!(key_from_keyring_text(&format!("  {text}\n")).unwrap(), key);
    assert_eq!(key_from_keyring_text("%%%").unwrap_err(), "keyring entry corrupted");
    assert_eq!(key_from_keyring_text("AAAA").unwrap_err(), "keyring entry corrupted (length)");
}

#[test]
fn passphrase_rules() {
    assert_eq!(argon_m_kib(), 65536);
    assert!(validate_passphrase("0123456789").is_ok());
    assert_eq!(validate_passphrase("012345678").unwrap_err(), "Passphrase must be at least 10 characters");
    // Ten characters, not ten bytes.
    assert!(validate_passphrase("ééééééééé").is_err());
    assert!(validate_passphrase("éééééééééé").is_ok());
}

#[test]
fn each_write_uses_a_fresh_nonce() {
    let mut v = Vault::new();
    let a = v.initialize(false, VaultMode::Keyring, None, Some(Ok(vec![4u8; 32]))).unwrap();
    let b = v.insert_token("a", "x").unwrap();
    assert_ne!(a.nonce_b64, b.nonce_b64);
    assert_eq!(a.mode, VaultMode::Keyring);
    assert!(a.salt_b64.is_none());
    assert_eq!(a.version, 1);
}

#[test]
fn payload_fields_beside_tokens_are_ignored() {
    let key = vec![5u8; 32];
    let nonce = [3u8; 12];
    let cipher = aes_gcm::Aes256Gcm::new(aes_gcm::Key::<aes_gcm::Aes256Gcm>::from_slice(&key));
    let b64 = base64::engine::general_purpose::STANDARD;
    let seal = |plain: &str| {
        let ct = cipher.encrypt(aes_gcm::Nonce::from_slice(&nonce), plain.as_bytes()).unwrap();
        VaultEnvelope {
            version: 1,
            mode: VaultMode::Keyring,
            salt_b64: None,
            nonce_b64: b64.encode(nonce),
            ciphertext_b64: b64.encode(ct),
        }
    };
    let mut v = Vault::new();
    let env = seal(r#"{"tokens":{"a":"tk_x"},"v":1}"#);
    assert_eq!(v.open(Some(Ok(env)), Some(key.clone())).unwrap(), VaultState::Unlocked);
    assert_eq!(v.token_for("a").unwrap(), "tk_x");
    let mut v2 = Vault::new();
    let no_tokens = seal(r#"{"v":1}"#);
    assert_eq!(v2.open(Some(Ok(no_tokens)), Some(key)).unwrap(), VaultState::KeyringUnavailable);
}
