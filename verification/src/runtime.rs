//! The decisions of the daemon's runtime: where an incoming message goes, what
//! a fired job does, which part of the vault a component sees, how secrets
//! found in the environment are declared, and how secrets are looked up.

use vstd::prelude::*;
use crate::crypto::new_uuid;
use crate::jobs::JobAction;
use crate::secrets::SecretsManager;
use crate::vault::{decrypted_value, Vault, VaultError};
use crate::parser::{head_of, is_slash_command, parse_slash_command, parsed_args, rest_of, strip_slash};
use crate::records::SecretDeclarationRecord;
use crate::registry::CommandRegistry;
use crate::text::{
    index_of, index_of_char, lit, lowercase, owned, push_str, slice, starts_with, starts_with_chars,
    str_eq, to_chars, to_lowercase, trim, views,
};

verus! {

broadcast use vstd::string::group_string_axioms;

/// Where an incoming message goes.
pub enum Route {
    /// A slash command.
    Command,
    /// A message for the agent.
    Agent,
}

/// A message goes to the commands when its trimmed text starts with `/`,
/// else to the agent.
pub fn route(content: &str) -> (r: Route)
    ensures
        (r is Command) == (trim(content@).len() > 0 && trim(content@)[0] == '/'),
{
    if is_slash_command(content) {
        Route::Command
    } else {
        Route::Agent
    }
}

/// The text sent back for the outcome of handling a message.
pub fn reply_text(outcome: Result<String, String>) -> (r: String)
    ensures
        match outcome {
            Ok(t) => r == t,
            Err(e) => r@ == "Error: "@ + e@,
        },
{
    match outcome {
        Ok(t) => t,
        Err(e) => {
            let mut t = lit("Error: ");
            push_str(&mut t, e.as_str());
            t
        },
    }
}

/// The reply when a line names no registered command.
pub fn unknown_command_reply(name: &str) -> (r: String)
    ensures
        r@ == "Unknown command: /"@ + name@,
{
    let mut t = lit("Unknown command: /");
    push_str(&mut t, name);
    t
}

/// The error when a slash command reaches the agent.
pub fn slash_to_agent_error(content: &str) -> (r: String)
    ensures
        r@ == "Slash commands must be processed via process_command: "@ + content@,
{
    let mut t = lit("Slash commands must be processed via process_command: ");
    push_str(&mut t, content);
    t
}

/// The part of the vault a component sees: the root for the empty id, else
/// the keys under `<id>:`.
pub fn store_prefix(component_id: &str) -> (r: String)
    ensures
        component_id@.len() == 0 ==> r@.len() == 0,
        component_id@.len() > 0 ==> r@ == component_id@ + ":"@,
{
    if component_id.is_empty() {
        String::new()
    } else {
        let mut p = owned(component_id);
        push_str(&mut p, ":");
        p
    }
}

/// What a fired job asks the daemon to do in one chat.
pub struct ActionPlan {
    /// The chat it concerns.
    pub chat_id: String,
    /// A text to post as the assistant to every channel where the chat is active.
    pub announce: Option<String>,
    /// Whether the text is posted even when no channel has the chat active.
    pub announce_always: bool,
    /// A text to hand on for an answer, through this agent (`None`: the
    /// default handling of a message).
    pub ask: Option<(Option<String>, String)>,
}

/// What one action of a job fired for `target_chat` does:
/// a message is posted, and answered too when `generate` is set; a prompt is
/// answered by its agent (the default one when none is named); a chat action
/// posts its text into that chat and answers it; an agent request is answered
/// in its chat by the agent it names.
pub fn plan_action(action: JobAction, target_chat: &str) -> (r: ActionPlan)
    ensures
        match action {
            JobAction::MessageSend { content, generate } => r.chat_id@ == target_chat@ && r.announce
                == Some(content) && r.announce_always && (if generate {
                r.ask matches Some((agent, text)) && agent is None && text == content
            } else {
                r.ask is None
            }),
            JobAction::AgentPrompt { prompt, agent_id } => r.chat_id@ == target_chat@
                && r.announce is None && (r.ask matches Some((agent, text)) && text == prompt
                && (agent matches Some(a) && a@ == match agent_id {
                Some(x) => x@,
                None => "default"@,
            })),
            JobAction::UseChat { chat_id, content } => r.chat_id == chat_id && r.announce == Some(
                content,
            ) && !r.announce_always && (r.ask matches Some((agent, text)) && agent is None && text
                == content),
            JobAction::AskAgent { chat_id, content, agent_id } => r.chat_id == chat_id
                && r.announce is None && (r.ask matches Some((agent, text)) && agent == Some(
                agent_id,
            ) && text == content),
        },
{
    match action {
        JobAction::MessageSend { content, generate } => {
            let ask = if generate {
                Some((None, content.clone()))
            } else {
                None
            };
            ActionPlan { chat_id: owned(target_chat), announce: Some(content), announce_always: true, ask }
        },
        JobAction::AgentPrompt { prompt, agent_id } => {
            let agent = match agent_id {
                Some(a) => a,
                None => lit("default"),
            };
            ActionPlan { chat_id: owned(target_chat), announce: None, announce_always: false, ask: Some((Some(agent), prompt)) }
        },
        JobAction::UseChat { chat_id, content } => {
            let text = content.clone();
            ActionPlan { chat_id, announce: Some(content), announce_always: false, ask: Some((None, text)) }
        },
        JobAction::AskAgent { chat_id, content, agent_id } => {
            ActionPlan { chat_id, announce: None, announce_always: false, ask: Some((Some(agent_id), content)) }
        },
    }
}


/// What the vault holds under `key`, decrypted, when it holds something
/// readable there.
pub open spec fn vault_read(v: Vault, key: Seq<char>) -> Option<Seq<u8>> {
    if v@.contains_key(key) {
        match decrypted_value(v.master_key_view(), v@[key]) {
            Ok(p) => Some(p),
            Err(_) => None,
        }
    } else {
        None
    }
}

/// Looks a secret up: in the vault first, read as text, then among the
/// environment secrets.
pub fn resolve_secret(vault: &Option<Vault>, env: &SecretsManager, key: &str) -> (r: Option<String>)
    requires
        vault matches Some(v) ==> v.wf(),
        env.wf(),
    ensures
        match vault {
            Some(v) => match vault_read(*v, key@) {
                Some(p) => r matches Some(t) && t@ == crate::text::utf8_lossy(p) && (
                vstd::utf8::valid_utf8(p) ==> t@ == vstd::utf8::decode_utf8(p)),
                None => match r {
                    Some(t) => env@.contains_key(key@) && t@ == env@[key@],
                    None => !env@.contains_key(key@),
                },
            },
            None => match r {
                Some(t) => env@.contains_key(key@) && t@ == env@[key@],
                None => !env@.contains_key(key@),
            },
        },
{
    match vault {
        Some(v) => {
            if v.has_secret(key) {
                match v.get_secret(key) {
                    Ok(bytes) => {
                        return Some(crate::text::text_from_utf8_lossy(bytes.as_slice()));
                    },
                    Err(_) => {},
                }
            }
        },
        None => {},
    }
    match env.get(key) {
        Some(t) => Some(owned(t)),
        None => None,
    }
}

/// A secret declaration as the secrets service lists it; `created_at` is
/// `None` for one with no record, which is declared now.
pub struct Declaration {
    pub id: String,
    pub component_id: String,
    pub key: String,
    pub description: String,
    pub required: bool,
    pub approved: bool,
    pub created_at: Option<String>,
}

/// The provider a `PROVIDER_<NAME>_...` key belongs to: the lower-cased
/// `<NAME>`, the text between the first and the second underscore.
pub open spec fn provider_part(key: Seq<char>) -> Seq<char> {
    let rest = key.skip(9);
    match index_of(rest, '_') {
        Some(j) => rest.take(j),
        None => rest,
    }
}

/// The component, description and approval a secret found in the
/// environment is declared with when the database has no record of it.
pub open spec fn auto_declaration(key: Seq<char>) -> (Seq<char>, Seq<char>, bool) {
    if starts_with(key, "PROVIDER_"@) {
        ("provider:"@ + lowercase(provider_part(key)), "Auto-declared (Provider)"@, true)
    } else {
        ("system"@, "Orphan / Custom"@, false)
    }
}

/// `d` is what is listed for the environment secret `key`: the record's
/// fields when the database has one, else an automatic declaration under a
/// fresh id (36 characters).
pub open spec fn declares(d: Declaration, key: Seq<char>, record: Option<SecretDeclarationRecord>) -> bool {
    &&& d.key@ == key
    &&& match record {
        Some(rec) => d.id == rec.id && d.component_id == rec.component_id && d.description
            == rec.description && d.required == rec.required && d.approved == rec.approved
            && d.created_at == Some(rec.created_at),
        None => d.id@.len() == 36 && d.component_id@ == auto_declaration(key).0
            && d.description@ == auto_declaration(key).1 && !d.required && d.approved
            == auto_declaration(key).2 && d.created_at is None,
    }
}

/// The declaration listed for the environment secret `key`: the database's
/// record when there is one, else an automatic declaration under a new id.
pub fn declaration_for(key: &str, record: Option<&SecretDeclarationRecord>) -> (r: Declaration)
    ensures
        declares(r, key@, match record {
            Some(rec) => Some(*rec),
            None => None,
        }),
{
    match record {
        Some(rec) => Declaration {
            id: rec.id.clone(),
            component_id: rec.component_id.clone(),
            key: owned(key),
            description: rec.description.clone(),
            required: rec.required,
            approved: rec.approved,
            created_at: Some(rec.created_at.clone()),
        },
        None => {
            let cs = to_chars(key);
            let prefix = to_chars("PROVIDER_");
            proof {
                reveal_strlit("PROVIDER_");
            }
            let (component_id, description, approved) = if starts_with_chars(
                cs.as_slice(),
                prefix.as_slice(),
            ) {
                let rest = slice(cs.as_slice(), 9, cs.len());
                assert(rest@ =~= key@.skip(9));
                let part = match index_of_char(rest.as_slice(), '_') {
                    Some(j) => slice(rest.as_slice(), 0, j),
                    None => rest,
                };
                assert(part@ == provider_part(key@)) by {
                    if index_of(key@.skip(9), '_') is Some {
                        assert(part@ =~= key@.skip(9).take(index_of(key@.skip(9), '_').unwrap()));
                    }
                }
                let name = crate::text::from_chars(part.as_slice());
                let mut comp = lit("provider:");
                let low = to_lowercase(name.as_str());
                push_str(&mut comp, low.as_str());
                (comp, lit("Auto-declared (Provider)"), true)
            } else {
                (lit("system"), lit("Orphan / Custom"), false)
            };
            Declaration {
                id: new_uuid(),
                component_id,
                key: owned(key),
                description,
                required: false,
                approved,
                created_at: None,
            }
        },
    }
}

/// The first record about `key`.
pub open spec fn first_record(records: Seq<SecretDeclarationRecord>, key: Seq<char>) -> Option<SecretDeclarationRecord>
    decreases records.len(),
{
    if records.len() == 0 {
        None
    } else if records[0].key@ == key {
        Some(records[0])
    } else {
        first_record(records.drop_first(), key)
    }
}

/// The first record about `key`.
pub fn find_record<'a>(records: &'a Vec<SecretDeclarationRecord>, key: &str) -> (r: Option<&'a SecretDeclarationRecord>)
    ensures
        match r {
            Some(rec) => first_record(records@, key@) == Some(*rec),
            None => first_record(records@, key@) is None,
        },
{
    let mut i: usize = 0;
    assert(records@.skip(0) =~= records@);
    while i < records.len()
        invariant
            i <= records@.len(),
            first_record(records@, key@) == first_record(records@.skip(i as int), key@),
        decreases records@.len() - i,
    {
        assert(records@.skip(i as int)[0] == records@[i as int]);
        if str_eq(records[i].key.as_str(), key) {
            return Some(&records[i]);
        }
        assert(records@.skip(i as int).drop_first() =~= records@.skip(i + 1));
        i = i + 1;
    }
    assert(records@.skip(i as int) =~= Seq::<SecretDeclarationRecord>::empty());
    None
}

/// The secret declarations listed for the secrets the environment holds, one
/// per key and in the keys' order: the database's first record about each
/// key, else an automatic declaration.
pub fn list_declarations(keys: &Vec<String>, records: &Vec<SecretDeclarationRecord>) -> (r: Vec<Declaration>)
    ensures
        r@.len() == keys@.len(),
        forall|i: int| 0 <= i < keys@.len() ==> declares(#[trigger] r@[i], keys@[i]@, first_record(records@, keys@[i]@)),
{
    let mut out: Vec<Declaration> = Vec::new();
    let mut i: usize = 0;
    while i < keys.len()
        invariant
            i <= keys@.len(),
            out@.len() == i,
            forall|j: int| 0 <= j < i ==> declares(#[trigger] out@[j], keys@[j]@, first_record(records@, keys@[j]@)),
        decreases keys@.len() - i,
    {
        let d = declaration_for(keys[i].as_str(), find_record(records, keys[i].as_str()));
        out.push(d);
        i = i + 1;
    }
    out
}

/// The command a line names, with its arguments.
pub enum CommandLookup {
    /// The registered command of this name, called with these arguments.
    Found { name: String, args: Vec<String> },
    /// No command has the name; the reply says so.
    Unknown(String),
}

/// Finds the command of a slash line: its name lower-cased and without the
/// slash, resolved through the aliases.
pub fn lookup_command(reg: &CommandRegistry, content: &str) -> (r: CommandLookup)
    requires
        reg.wf(),
    ensures
        ({
            let name = strip_slash(lowercase(head_of(trim(content@))));
            match reg.lookup(name) {
                Some(spec) => r matches CommandLookup::Found { name: n, args } && n@ == spec.name@
                    && views(args@) == parsed_args(rest_of(trim(content@))),
                None => r matches CommandLookup::Unknown(t) && t@ == "Unknown command: /"@ + name,
            }
        }),
{
    let parsed = parse_slash_command(content);
    match reg.get(parsed.name.as_str()) {
        Some(spec) => CommandLookup::Found { name: spec.name.clone(), args: parsed.args },
        None => CommandLookup::Unknown(unknown_command_reply(parsed.name.as_str())),
    }
}

/// The error when a channel is not registered.
pub fn channel_not_found(id: &str) -> (r: String)
    ensures
        r@ == "Channel '"@ + id@ + "' not found"@,
{
    crate::builtin::concat3("Channel '", id, "' not found")
}

/// The error when the vault could not be opened.
pub fn vault_missing() -> (r: String)
    ensures
        r@ == "Vault not initialized"@,
{
    lit("Vault not initialized")
}

} // verus!
