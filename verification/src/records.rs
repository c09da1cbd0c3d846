//! The rows the database keeps, as plain values.

use vstd::prelude::*;

verus! {

/// One entry of the audit log.
#[derive(Debug, Clone)]
pub struct AuditRecord {
    pub id: String,
    pub actor: String,
    pub action: String,
    pub target: Option<String>,
    pub details_json: Option<String>,
    pub created_at: String,
}

/// A chat of some channel.
#[derive(Debug, Clone)]
pub struct ChatRecord {
    pub id: String,
    pub channel_id: String,
    pub external_id: String,
    pub title: Option<String>,
    pub created_at: String,
    pub updated_at: String,
}

/// A fact the assistant remembers.
#[derive(Debug, Clone)]
pub struct MemoryRecord {
    pub id: String,
    pub kind: String,
    pub brief: String,
    pub content: Option<String>,
    pub is_important: bool,
    pub created_at: String,
    pub updated_at: String,
}

/// A message of a chat.
#[derive(Debug, Clone)]
pub struct MessageRecord {
    pub id: String,
    pub chat_id: String,
    pub role: String,
    pub content: String,
    pub metadata_json: Option<String>,
    pub created_at: String,
}

/// A secret that a component declared, with whether the user approved it.
#[derive(Debug, Clone)]
pub struct SecretDeclarationRecord {
    pub id: String,
    pub component_id: String,
    pub key: String,
    pub description: String,
    pub required: bool,
    pub permissions_json: String,
    pub approved: bool,
    pub created_at: String,
}

/// An indexed skill file.
#[derive(Debug, Clone)]
pub struct SkillRecord {
    pub id: String,
    pub name: String,
    pub description: Option<String>,
    pub tags_json: Option<String>,
    pub content: String,
    pub file_path: Option<String>,
    pub created_at: String,
    pub updated_at: String,
}

} // verus!
