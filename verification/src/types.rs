use vstd::prelude::*;
use crate::text::{lit, owned};

verus! {

broadcast use vstd::string::group_string_axioms;

/// The id of a user.
#[derive(Debug, Clone)]
pub struct UserId(pub String);

/// The id of a chat.
#[derive(Debug, Clone)]
pub struct ChatId(pub String);

/// The id of a message.
#[derive(Debug, Clone)]
pub struct MessageId(pub String);

/// The id of a channel.
#[derive(Debug, Clone)]
pub struct ChannelId(pub String);

/// The id of a provider.
#[derive(Debug, Clone)]
pub struct ProviderId(pub String);

/// The id of an integration.
#[derive(Debug, Clone)]
pub struct IntegrationId(pub String);

/// The id of a tool.
#[derive(Debug, Clone)]
pub struct ToolId(pub String);

/// The id of a job.
#[derive(Debug, Clone)]
pub struct JobId(pub String);

/// The id of a skill.
#[derive(Debug, Clone)]
pub struct SkillId(pub String);

/// The id of a component (a provider, channel or integration).
#[derive(Debug, Clone)]
pub struct ComponentId(pub String);

impl ComponentId {
    /// A component id.
    pub fn new(s: &str) -> (r: Self)
        ensures
            r.0@ == s@,
    {
        ComponentId(owned(s))
    }

    /// The id as text.
    pub fn to_text(&self) -> (r: String)
        ensures
            r@ == self.0@,
    {
        self.0.clone()
    }
}

impl ChatId {
    /// The id as text.
    pub fn to_text(&self) -> (r: String)
        ensures
            r@ == self.0@,
    {
        self.0.clone()
    }
}

impl JobId {
    /// The id as text.
    pub fn to_text(&self) -> (r: String)
        ensures
            r@ == self.0@,
    {
        self.0.clone()
    }
}

/// Who wrote a message.
#[derive(PartialEq, Eq, Structural, Clone, Copy, Debug)]
pub enum Role {
    System,
    User,
    Assistant,
    Tool,
}

impl Role {
    /// The lower-case name of the role.
    pub open spec fn name_view(self) -> Seq<char> {
        match self {
            Role::System => "system"@,
            Role::User => "user"@,
            Role::Assistant => "assistant"@,
            Role::Tool => "tool"@,
        }
    }

    /// The lower-case name of the role.
    pub fn to_text(&self) -> (r: String)
        ensures
            r@ == self.name_view(),
    {
        match self {
            Role::System => lit("system"),
            Role::User => lit("user"),
            Role::Assistant => lit("assistant"),
            Role::Tool => lit("tool"),
        }
    }

    /// The role a stored role name stands for; unknown names are users.
    pub open spec fn from_name_view(name: Seq<char>) -> Role {
        if name == "user"@ {
            Role::User
        } else if name == "assistant"@ {
            Role::Assistant
        } else if name == "system"@ {
            Role::System
        } else if name == "tool"@ {
            Role::Tool
        } else {
            Role::User
        }
    }

    /// The role a stored role name stands for; unknown names are users.
    pub fn from_name(name: &str) -> (r: Role)
        ensures
            r == Role::from_name_view(name@),
    {
        if crate::text::str_eq(name, "user") {
            Role::User
        } else if crate::text::str_eq(name, "assistant") {
            Role::Assistant
        } else if crate::text::str_eq(name, "system") {
            Role::System
        } else if crate::text::str_eq(name, "tool") {
            Role::Tool
        } else {
            Role::User
        }
    }
}

/// How risky a tool is.
#[derive(PartialEq, Eq, Structural, Clone, Copy, Debug)]
pub enum ToolRisk {
    Low,
    Medium,
    High,
}

/// The result of a tool call.
#[derive(Debug, Clone)]
pub struct ToolResult {
    pub tool_call_id: String,
    pub name: String,
    pub content: String,
    pub is_error: bool,
}

/// Token counts of a provider call.
#[derive(PartialEq, Eq, Structural, Clone, Copy, Debug)]
pub struct ProviderUsage {
    pub prompt_tokens: u32,
    pub completion_tokens: u32,
    pub total_tokens: u32,
}

/// What a provider can do.
#[derive(PartialEq, Eq, Structural, Clone, Copy, Debug)]
pub struct ProviderCapabilities {
    pub llm: bool,
    pub tools: bool,
    pub vision: bool,
    pub embeddings: bool,
}

impl Default for ProviderCapabilities {
    fn default() -> (r: Self)
        ensures
            r.llm && r.tools && !r.vision && !r.embeddings,
    {
        ProviderCapabilities { llm: true, tools: true, vision: false, embeddings: false }
    }
}

/// The manifest of an addon.
#[derive(Debug, Clone)]
pub struct AddonManifest {
    pub id: String,
    pub name: String,
    pub version: String,
    pub kind: String,
    pub description: Option<String>,
}

/// An agent defined in the agents directory.
#[derive(Debug, Clone)]
pub struct AgentDefinition {
    pub id: String,
    pub name: String,
    pub system_prompt: String,
}

/// What the agent service shows of an agent.
#[derive(Debug, Clone)]
pub struct AgentStatus {
    pub id: String,
    pub name: String,
    pub description: Option<String>,
}

/// A permission a secret declaration asks for.
#[derive(Debug, Clone)]
pub enum Permission {
    NetworkAccess { host: String },
    FilesystemRead { path: String },
    FilesystemWrite { path: String },
    ShellExec,
    VaultRead { key: String },
    VaultWrite { key: String },
    EnvRead { key: String },
    EnvWrite { key: String },
}

} // verus!
