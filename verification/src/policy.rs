use vstd::prelude::*;
use crate::config::SecurityConfig;
use crate::secrets::{is_sensitive, is_sensitive_key};
use crate::text::{lit, push_str};
use crate::types::ComponentId;

verus! {

broadcast use vstd::string::group_string_axioms;

/// The answer to a request for an action.
#[derive(Debug, Clone)]
pub enum PolicyDecision {
    Allow,
    Deny { reason: String },
    Ask { reason: String },
}

impl PolicyDecision {
    /// Whether the action may go ahead.
    pub fn is_allowed(&self) -> (r: bool)
        ensures
            r == (*self is Allow),
    {
        match self {
            PolicyDecision::Allow => true,
            _ => false,
        }
    }
}

/// An action that needs the policy's consent.
#[derive(Debug, Clone)]
pub enum PolicyAction {
    ToolCall { tool_name: String },
    EnvSet { key: String },
    EnvGet { key: String },
    VaultGet { key: String, requester: ComponentId },
    VaultPut { key: String },
    JobCreate,
    JobDelete,
    MessageSend,
    NetworkHttp { host: String },
    ShellExec,
    FilesystemRead { path: String },
    FilesystemWrite { path: String },
    ProviderCall { provider_id: String },
    IntegrationCall { integration_id: String },
    ChannelSend { channel_id: String },
}

/// Policy evaluation.
pub trait MinusPolicy {
    /// Decides on an action.
    fn evaluate(&self, action: &PolicyAction) -> PolicyDecision;
}

/// The decision on an action: reading a sensitive environment key is denied,
/// shell execution is denied unless the security settings allow it, and every
/// other action is allowed.
pub open spec fn decision_is(security: SecurityConfig, action: PolicyAction, d: PolicyDecision) -> bool {
    match action {
        PolicyAction::EnvGet { key } => if is_sensitive(key@) {
            d matches PolicyDecision::Deny { reason } && reason@ == "Reading sensitive env key '"@ + key@
                + "' is not allowed"@
        } else {
            d is Allow
        },
        PolicyAction::ShellExec => if security.allow_shell {
            d is Allow
        } else {
            d matches PolicyDecision::Deny { reason } && reason@ == "Shell execution is disabled by policy"@
        },
        _ => d is Allow,
    }
}

/// Decides whether actions are permitted, by the security settings.
pub struct PolicyEngine {
    pub security: SecurityConfig,
}

impl PolicyEngine {
    /// An engine for the given security settings.
    pub fn new(security: SecurityConfig) -> (r: Self)
        ensures
            r.security == security,
    {
        PolicyEngine { security }
    }

    /// Decides on an action.
    pub fn evaluate(&self, action: &PolicyAction) -> (r: PolicyDecision)
        ensures
            decision_is(self.security, *action, r),
    {
        match action {
            PolicyAction::EnvGet { key } => {
                if is_sensitive_key(key.as_str()) {
                    let mut reason = lit("Reading sensitive env key '");
                    push_str(&mut reason, key.as_str());
                    push_str(&mut reason, "' is not allowed");
                    PolicyDecision::Deny { reason }
                } else {
                    PolicyDecision::Allow
                }
            },
            PolicyAction::ShellExec => {
                if self.security.allow_shell {
                    PolicyDecision::Allow
                } else {
                    PolicyDecision::Deny { reason: lit("Shell execution is disabled by policy") }
                }
            },
            _ => PolicyDecision::Allow,
        }
    }
}

impl MinusPolicy for PolicyEngine {
    fn evaluate(&self, action: &PolicyAction) -> (r: PolicyDecision)
        ensures
            decision_is(self.security, *action, r),
    {
        PolicyEngine::evaluate(self, action)
    }
}

} // verus!
