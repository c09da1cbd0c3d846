use minusbot::runtime::{resolve_secret, store_prefix};
use minusbot::secrets::SecretsManager;
use minusbot::subvault::SubVault;
use minusbot::vault::{Vault, VaultError};

fn empty_vault(hwid: &str) -> Vault {
    let (v, dirty) = Vault::open("/tmp/vault.env".to_string(), hwid.to_string(), None).ok().unwrap();
    assert!(!dirty);
    v
}

#[test]
fn test_vault_encrypt_decrypt() {
    let mut vault = empty_vault("minusbot_vault_hwid_test");
    vault.put_secret("TEST_KEY", b"hello world").ok().unwrap();
    let result = vault.get_secret("TEST_KEY").ok().unwrap();
    assert_eq!(result, b"hello world");
    assert!(vault.has_secret("TEST_KEY"));
    let keys = vault.list_keys();
    assert_eq!(keys.len(), 1);
    assert_eq!(keys[0], "TEST_KEY");

    // What was written reads back after reopening the same file.
    let file = vault.render_file();
    let (vault2, dirty) = Vault::open("/tmp/vault.env".to_string(), "minusbot_vault_hwid_test".to_string(), Some(&file))
        .ok()
        .unwrap();
    assert!(!dirty);
    assert_eq!(vault2.get_secret("TEST_KEY").ok().unwrap(), b"hello world");

    assert!(vault.delete_secret("TEST_KEY"));
    assert!(!vault.has_secret("TEST_KEY"));
}

#[test]
fn test_vault_auto_encrypt() {
    let (vault, dirty) = Vault::open(
        "/tmp/vault.env".to_string(),
        "minusbot_vault_auto_test".to_string(),
        Some("RAW_KEY=secret_value\n"),
    )
    .ok()
    .unwrap();
    assert!(dirty);
    assert!(vault.has_secret("RAW_KEY"));
    assert_eq!(vault.get_secret("RAW_KEY").ok().unwrap(), b"secret_value");
    let content = vault.render_file();
    assert!(content.contains("RAW_KEY=enc:"));
    assert!(!content.contains("RAW_KEY=secret_value"));
}

#[test]
fn vault_bound_to_another_machine_cannot_read() {
    let mut vault = empty_vault("machine-a");
    vault.put_secret("K", b"v").ok().unwrap();
    let file = vault.render_file();
    let (other, _) = Vault::open("/tmp/vault.env".to_string(), "machine-b".to_string(), Some(&file))
        .ok()
        .unwrap();
    assert!(other.has_secret("K"));
    assert!(matches!(other.get_secret("K"), Err(VaultError::DecryptionFailed)));
    assert!(matches!(other.get_secret("NOPE"), Err(VaultError::NotFound(_))));
}

#[test]
fn subvaults_only_see_their_prefix() {
    let mut vault = empty_vault("hw");
    let telegram = SubVault::new(&store_prefix("channel:telegram"));
    let root = SubVault::new(&store_prefix(""));
    telegram.put_secret(&mut vault, "BOT_TOKEN", b"123").ok().unwrap();
    root.put_secret(&mut vault, "PROVIDER_GROQ_API_KEY", b"gsk").ok().unwrap();
    assert_eq!(telegram.list_secrets(&vault), vec!["BOT_TOKEN"]);
    assert_eq!(telegram.get_secret(&vault, "BOT_TOKEN").ok().unwrap(), b"123");
    assert!(!telegram.has_secret(&vault, "PROVIDER_GROQ_API_KEY"));
    assert!(vault.has_secret("channel:telegram:BOT_TOKEN"));
    assert!(telegram.delete_secret(&mut vault, "BOT_TOKEN"));
    assert!(telegram.list_secrets(&vault).is_empty());
}

#[test]
fn secrets_resolve_from_vault_then_env() {
    let mut vault = empty_vault("hw");
    vault.put_secret("A", "from-vault".as_bytes()).ok().unwrap();
    let env = SecretsManager::load("/tmp/secrets.env".into(), "A=from-env\nB=env-only\n");
    let v = Some(vault);
    assert_eq!(resolve_secret(&v, &env, "A").as_deref(), Some("from-vault"));
    assert_eq!(resolve_secret(&v, &env, "B").as_deref(), Some("env-only"));
    assert_eq!(resolve_secret(&v, &env, "C"), None);
    assert_eq!(resolve_secret(&None, &env, "A").as_deref(), Some("from-env"));
}

#[test]
fn a_written_vault_file_reopens_with_the_same_secrets() {
    let mut vault = empty_vault("hwid-reopen");
    vault.put_secret("PROVIDER_GROQ_API_KEY", b"gsk-123").ok().unwrap();
    vault.put_secret("channel:telegram:BOT_TOKEN", b"42:abc").ok().unwrap();
    let file = vault.render_file();
    assert!(file.starts_with("# minusbot vault — MACHINE ENCRYPTED\n"));
    let (again, dirty) =
        Vault::open("/tmp/vault.env".to_string(), "hwid-reopen".to_string(), Some(&file)).ok().unwrap();
    assert!(!dirty);
    assert_eq!(again.list_keys(), vault.list_keys());
    assert_eq!(again.get_secret("PROVIDER_GROQ_API_KEY").ok().unwrap(), b"gsk-123");
    assert_eq!(again.get_secret("channel:telegram:BOT_TOKEN").ok().unwrap(), b"42:abc");
}

#[test]
fn put_secret_stores_the_value_encrypted() {
    let mut vault = empty_vault("machine-a");
    vault.put_secret("API_KEY", b"plain-secret").ok().unwrap();
    let file = vault.render_file();
    assert!(file.contains("API_KEY=enc:"));
    assert!(!file.contains("plain-secret"));
    assert_eq!(vault.get_secret("API_KEY").ok().unwrap(), b"plain-secret");
}
