use minusbot::config::SecurityConfig;
use minusbot::policy::{PolicyAction, PolicyDecision, PolicyEngine};

#[test]
fn test_policy_shell_denied_by_default() {
    let engine = PolicyEngine::new(SecurityConfig::default());
    let decision = engine.evaluate(&PolicyAction::ShellExec);
    assert!(!decision.is_allowed());
}

#[test]
fn test_policy_tool_call_allowed() {
    let engine = PolicyEngine::new(SecurityConfig::default());
    let decision = engine.evaluate(&PolicyAction::ToolCall {
        tool_name: "time.now".into(),
    });
    assert!(decision.is_allowed());
}

#[test]
fn test_policy_secret_env_denied() {
    let engine = PolicyEngine::new(SecurityConfig::default());
    let decision = engine.evaluate(&PolicyAction::EnvGet {
        key: "SECRET_OPENAI_API_KEY".into(),
    });
    assert!(!decision.is_allowed());
}

#[test]
fn shell_allowed_when_settings_allow_it() {
    let mut s = SecurityConfig::default();
    s.allow_shell = true;
    let engine = PolicyEngine::new(s);
    assert!(engine.evaluate(&PolicyAction::ShellExec).is_allowed());
    match engine.evaluate(&PolicyAction::EnvGet { key: "api_key".into() }) {
        PolicyDecision::Deny { reason } => assert_eq!(reason, "Reading sensitive env key 'api_key' is not allowed"),
        other => panic!("unexpected {:?}", other),
    }
    assert!(engine.evaluate(&PolicyAction::EnvGet { key: "LOG_LEVEL".into() }).is_allowed());
}
