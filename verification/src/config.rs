use vstd::prelude::*;
use crate::text::lit;

verus! {

broadcast use vstd::string::group_string_axioms;

/// The default channel.
pub fn default_channel() -> (r: String)
    ensures
        r@ == "cli"@,
{
    lit("cli")
}

/// The default agent name.
pub fn default_agent_name() -> (r: String)
    ensures
        r@ == "minusbot"@,
{
    lit("minusbot")
}

/// The default system prompt.
pub fn default_system_prompt() -> (r: String)
    ensures
        r@ == "You are minusbot, a self-hosted personal AI assistant."@,
{
    lit("You are minusbot, a self-hosted personal AI assistant.")
}

/// The default number of tool rounds per message.
pub fn default_max_tool_iterations() -> (r: u32)
    ensures
        r == 5,
{
    5
}

/// The default number of history messages sent to the provider.
pub fn default_max_messages() -> (r: u32)
    ensures
        r == 11,
{
    11
}

/// `true`, the default of the flags that are on unless turned off.
pub fn default_true() -> (r: bool)
    ensures
        r,
{
    true
}

/// The default skills directory.
pub fn default_skills() -> (r: String)
    ensures
        r@ == "skills"@,
{
    lit("skills")
}

/// The default drive directory.
pub fn default_drive() -> (r: String)
    ensures
        r@ == "drive"@,
{
    lit("drive")
}

/// The default logs directory.
pub fn default_logs() -> (r: String)
    ensures
        r@ == "logs"@,
{
    lit("logs")
}

/// The default addons directory.
pub fn default_addons() -> (r: String)
    ensures
        r@ == "addons"@,
{
    lit("addons")
}

/// The default vault directory.
pub fn default_vault() -> (r: String)
    ensures
        r@ == "vault"@,
{
    lit("vault")
}

/// The default cache directory.
pub fn default_cache() -> (r: String)
    ensures
        r@ == "cache"@,
{
    lit("cache")
}

/// The default database file.
pub fn default_database() -> (r: String)
    ensures
        r@ == "data.sqlite"@,
{
    lit("data.sqlite")
}

/// Core settings.
#[derive(Debug, Clone)]
pub struct CoreConfig {
    pub first_run: bool,
    pub default_channel: String,
}

impl Default for CoreConfig {
    fn default() -> (r: Self)
        ensures
            r.first_run,
            r.default_channel@ == "cli"@,
    {
        CoreConfig { first_run: true, default_channel: default_channel() }
    }
}

/// Settings of the agent loop.
#[derive(Debug, Clone)]
pub struct AgentConfig {
    pub name: String,
    pub system_prompt: String,
    pub max_tool_iterations: u32,
    pub max_messages: u32,
}

impl Default for AgentConfig {
    fn default() -> (r: Self)
        ensures
            r.name@ == "minusbot"@,
            r.system_prompt@ == "You are minusbot, a self-hosted personal AI assistant."@,
            r.max_tool_iterations == 5,
            r.max_messages == 11,
    {
        AgentConfig {
            name: default_agent_name(),
            system_prompt: default_system_prompt(),
            max_tool_iterations: default_max_tool_iterations(),
            max_messages: default_max_messages(),
        }
    }
}

/// Security settings.
#[derive(PartialEq, Eq, Structural, Debug, Clone, Copy)]
pub struct SecurityConfig {
    pub redact_secrets: bool,
    pub allow_shell: bool,
    pub allow_filesystem_write_outside_drive: bool,
    pub require_approval_for_secret_access: bool,
}

impl Default for SecurityConfig {
    fn default() -> (r: Self)
        ensures
            r.redact_secrets,
            !r.allow_shell,
            !r.allow_filesystem_write_outside_drive,
            r.require_approval_for_secret_access,
    {
        SecurityConfig {
            redact_secrets: true,
            allow_shell: false,
            allow_filesystem_write_outside_drive: false,
            require_approval_for_secret_access: true,
        }
    }
}

/// Directory and file names inside the data directory.
#[derive(Debug, Clone)]
pub struct PathsConfig {
    pub skills: String,
    pub drive: String,
    pub logs: String,
    pub addons: String,
    pub vault: String,
    pub cache: String,
    pub database: String,
}

impl Default for PathsConfig {
    fn default() -> (r: Self)
        ensures
            r.skills@ == "skills"@,
            r.drive@ == "drive"@,
            r.logs@ == "logs"@,
            r.addons@ == "addons"@,
            r.vault@ == "vault"@,
            r.cache@ == "cache"@,
            r.database@ == "data.sqlite"@,
    {
        PathsConfig {
            skills: default_skills(),
            drive: default_drive(),
            logs: default_logs(),
            addons: default_addons(),
            vault: default_vault(),
            cache: default_cache(),
            database: default_database(),
        }
    }
}

} // verus!
