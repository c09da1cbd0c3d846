use minusbot::secrets::{is_sensitive_key, redact_value, SecretsManager};

#[test]
fn test_is_sensitive_key() {
    assert!(is_sensitive_key("SECRET_OPENAI_API_KEY"));
    assert!(is_sensitive_key("GITHUB_TOKEN"));
    assert!(is_sensitive_key("DB_PASSWORD"));
    assert!(is_sensitive_key("PRIVATE_KEY"));
    assert!(!is_sensitive_key("MINUSBOT_DEFAULT_PROVIDER"));
    assert!(!is_sensitive_key("LOG_LEVEL"));
}

#[test]
fn test_redact_value() {
    assert_eq!(
        redact_value("SECRET_OPENAI_API_KEY", "sk-or-v1-abcdef1234"),
        "sk-o...redacted"
    );
    assert_eq!(
        redact_value("SECRET_OPENAI_API_KEY", "abc"),
        "***redacted***"
    );
    assert_eq!(
        redact_value("MINUSBOT_DEFAULT_PROVIDER", "openrouter"),
        "openrouter"
    );
}

#[test]
fn sensitive_keys_are_found_in_any_case() {
    assert!(is_sensitive_key("github_token"));
    assert!(is_sensitive_key("my_credential_file"));
    assert!(!is_sensitive_key("model"));
}

#[test]
fn redaction_of_exactly_six_bytes_hides_everything() {
    assert_eq!(redact_value("API_KEY", "abcdef"), "***redacted***");
    assert_eq!(redact_value("API_KEY", "abcdefg"), "abcd...redacted");
}

#[test]
fn redaction_shows_the_first_four_characters() {
    assert_eq!(redact_value("API_KEY", "aéééééé"), "aééé...redacted");
    assert_eq!(redact_value("API_KEY", "abcéééé"), "abcé...redacted");
    assert_eq!(redact_value("API_KEY", "ééé"), "***redacted***");
    assert_eq!(redact_value("API_KEY", "éééé"), "éééé...redacted");
    assert_eq!(redact_value("API_KEY", "€€€"), "€€€...redacted");
    assert_eq!(redact_value("NAME", "abcéééé"), "abcéééé");
}

#[test]
fn secrets_file_is_parsed_line_by_line() {
    let content = "# header\nA_KEY = one\n\nB=two=three\nEMPTY=\nnot a pair\nA_KEY=again\r\n";
    let m = SecretsManager::load("secrets.env".to_string(), content);
    assert_eq!(m.get("A_KEY"), Some("again"));
    assert_eq!(m.get("B"), Some("two=three"));
    assert_eq!(m.get("EMPTY"), None);
    assert_eq!(m.get("not a pair"), None);
    assert_eq!(m.path(), "secrets.env");
}

#[test]
fn set_then_get_and_unset() {
    let mut m = SecretsManager::load("s.env".to_string(), "");
    m.set("TOKEN", "abcdefgh");
    assert_eq!(m.get("TOKEN"), Some("abcdefgh"));
    assert!(m.unset("TOKEN"));
    assert_eq!(m.get("TOKEN"), None);
    assert!(!m.unset("TOKEN"));
}

#[test]
fn list_redacted_is_sorted_by_key() {
    let mut m = SecretsManager::load("s.env".to_string(), "");
    m.set("Z_TOKEN", "secretvalue");
    m.set("A_NAME", "plain");
    let l = m.list_redacted();
    assert_eq!(l, vec![
        ("A_NAME".to_string(), "plain".to_string()),
        ("Z_TOKEN".to_string(), "secr...redacted".to_string()),
    ]);
}

#[test]
fn rendered_file_lists_sorted_pairs_after_the_header() {
    let mut m = SecretsManager::load("s.env".to_string(), "");
    m.set("B", "2");
    m.set("A", "1");
    assert_eq!(m.render_file(), "# minusbot secrets — DO NOT SHARE\nA=1\nB=2\n");
    let again = SecretsManager::load("s.env".to_string(), &m.render_file());
    assert_eq!(again.get("A"), Some("1"));
    assert_eq!(again.get("B"), Some("2"));
}

#[test]
fn a_written_secrets_file_loads_the_same_secrets() {
    let mut m = SecretsManager::load("/tmp/secrets.env".to_string(), "");
    m.set("OPENAI_API_KEY", "sk-abc");
    m.set("LOG_LEVEL", "debug");
    let file = m.render_file();
    assert_eq!(file, "# minusbot secrets — DO NOT SHARE\nLOG_LEVEL=debug\nOPENAI_API_KEY=sk-abc\n");
    let again = SecretsManager::load("/tmp/secrets.env".to_string(), &file);
    assert_eq!(again.get("OPENAI_API_KEY"), Some("sk-abc"));
    assert_eq!(again.get("LOG_LEVEL"), Some("debug"));
    assert_eq!(again.render_file(), file);
}
