//! Verified core of the minusbot personal assistant: command parsing, secret
//! handling, the machine-bound vault, schedule parsing and the decisions of the
//! agent loop, the scheduler and the channels.

pub mod text;
pub mod secrets;
pub mod strmap;
pub mod crypto;
pub mod vault;
pub mod subvault;
pub mod command;
pub mod value;
pub mod parser;
pub mod schedule;
pub mod skills;
pub mod types;
pub mod config;
pub mod policy;
pub mod data_dir;
pub mod addons;
pub mod jobs;
pub mod registry;
pub mod builtin;
pub mod agent;
pub mod streams;
pub mod channels;
pub mod tools;
pub mod agents;
pub mod runtime;
pub mod providers;
pub mod tool_registry;
pub mod integrations;
pub mod client;
pub mod laws;
pub mod config_file;
pub mod config_path;
pub mod records;
