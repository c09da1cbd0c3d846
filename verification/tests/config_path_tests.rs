use minusbot::config_file::ConfigProvider;
use minusbot::config_path::{config_apply, config_get, config_set, ConfigChange, ConfigNode, ConfigValue};

fn node(keys: &[&str], value: ConfigValue) -> ConfigNode {
    ConfigNode { keys: keys.iter().map(|k| k.to_string()).collect(), value }
}

fn sample() -> Vec<ConfigNode> {
    vec![
        node(&["agent"], ConfigValue::Table("[agent]".to_string())),
        node(&["agent", "max_iterations"], ConfigValue::Integer(10)),
        node(&["agent", "temperature"], ConfigValue::Float("0.7".to_string())),
        node(&["security"], ConfigValue::Table("[security]".to_string())),
        node(&["security", "allow_shell"], ConfigValue::Flag(false)),
        node(&["provider"], ConfigValue::Text("openrouter".to_string())),
    ]
}

#[test]
fn config_get_reads_dotted_paths() {
    let n = sample();
    assert_eq!(config_get(&n, "agent.max_iterations"), Some("10".to_string()));
    assert_eq!(config_get(&n, "agent.temperature"), Some("0.7".to_string()));
    assert_eq!(config_get(&n, "security.allow_shell"), Some("false".to_string()));
    assert_eq!(config_get(&n, "provider"), Some("openrouter".to_string()));
    assert_eq!(config_get(&n, "agent.missing"), None);
}

#[test]
fn config_set_keeps_the_replaced_type() {
    let n = sample();
    match config_set(&n, "agent.max_iterations", "25") {
        ConfigChange::Put { keys, value: ConfigValue::Integer(25) } => assert_eq!(keys, vec!["agent", "max_iterations"]),
        _ => panic!("expected an integer"),
    }
    assert!(matches!(config_set(&n, "agent.max_iterations", "many"), ConfigChange::Put { value: ConfigValue::Integer(0), .. }));
    assert!(matches!(config_set(&n, "security.allow_shell", "true"), ConfigChange::Put { value: ConfigValue::Flag(true), .. }));
    assert!(matches!(config_set(&n, "security.allow_shell", "yes"), ConfigChange::Put { value: ConfigValue::Flag(false), .. }));
    assert!(matches!(config_set(&n, "agent.new_key", "x"), ConfigChange::Put { value: ConfigValue::Text(ref s), .. } if s == "x"));
    assert!(matches!(config_set(&n, "nowhere.key", "x"), ConfigChange::NotFound));
    assert!(matches!(config_set(&n, "provider.key", "x"), ConfigChange::NotTable));
}

#[test]
fn config_value_set_reads_back() {
    let n = sample();
    let (keys, value) = match config_set(&n, "provider", "anthropic") {
        ConfigChange::Put { keys, value } => (keys, value),
        _ => panic!("expected a change"),
    };
    let after = config_apply(n, keys, value);
    assert_eq!(config_get(&after, "provider"), Some("anthropic".to_string()));
    assert_eq!(config_get(&after, "agent.max_iterations"), Some("10".to_string()));

    let (keys, value) = match config_set(&after, "agent.note", "hello") {
        ConfigChange::Put { keys, value } => (keys, value),
        _ => panic!("expected a change"),
    };
    let len = after.len();
    let after = config_apply(after, keys, value);
    assert_eq!(after.len(), len + 1);
    assert_eq!(config_get(&after, "agent.note"), Some("hello".to_string()));
}

#[test]
fn provider_settings_are_read_from_toml_text() {
    let text = "[provider]\ndefault = \"openrouter\"\ntext_model = \"gpt-4o-mini\"\n";
    let (p, m) = minusbot::config_file::configured_provider(Some(text));
    assert_eq!(p.as_deref(), Some("openrouter"));
    assert_eq!(m.as_deref(), Some("gpt-4o-mini"));
    assert_eq!(minusbot::config_file::configured_provider(None), (None, None));
    assert_eq!(minusbot::config_file::configured_provider(Some("broken = [1")), (None, None));
    assert_eq!(minusbot::config_file::configured_provider(Some("[provider]\ndefault = 3\n")), (None, None));
    assert_eq!(minusbot::config_file::provider_text_model(Some("text_model = \"mistral-large\"\n")).as_deref(), Some("mistral-large"));
    assert_eq!(minusbot::config_file::provider_text_model(Some("other = 1\n")), None);
}

#[test]
fn set_config_text_writes_the_key_and_keeps_others() {
    let p = minusbot::config_file::FileConfigProvider::new("provider", "/tmp/p.toml");
    let out = p.set_config_text(Some("api_base = \"x\"\n"), "text_model", "gpt").unwrap();
    assert_eq!(p.read_config(Some(&out), "text_model").as_deref(), Some("gpt"));
    assert_eq!(p.read_config(Some(&out), "api_base").as_deref(), Some("x"));
    let fresh = p.set_config_text(None, "k", "v").unwrap();
    assert_eq!(p.read_config(Some(&fresh), "k").as_deref(), Some("v"));
    assert!(p.set_config_text(Some("broken = [1"), "k", "v").is_none());
}

#[test]
fn tcp_password_is_32_alphanumerics() {
    let pw = minusbot::channels::tcp_password();
    assert_eq!(pw.len(), 32);
    assert!(pw.chars().all(|c| c.is_ascii_alphanumeric()));
}

#[test]
fn metadata_strings_are_read_from_json() {
    let meta = "{\"tool_call_id\":\"call-1\",\"name\":\"memory_search\",\"n\":3}";
    assert_eq!(minusbot::agent::metadata_string(Some(meta), "tool_call_id").as_deref(), Some("call-1"));
    assert_eq!(minusbot::agent::metadata_string(Some(meta), "name").as_deref(), Some("memory_search"));
    assert_eq!(minusbot::agent::metadata_string(Some(meta), "n"), None);
    assert_eq!(minusbot::agent::metadata_string(None, "name"), None);
    assert_eq!(minusbot::agent::metadata_string(Some("{broken"), "name"), None);
}
