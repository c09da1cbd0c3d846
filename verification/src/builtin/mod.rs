//! The built-in slash commands: their declarations, and the decisions and
//! replies of each, apart from the stores they read and write.

use vstd::prelude::*;
use crate::command::{ArgSpec, CommandSpec, ValueType};
use crate::registry::CommandRegistry;

pub mod apikey;
pub mod channels;
pub mod chat;
pub mod lifecycle;
pub mod llm;
pub mod help;
pub mod memory;
pub mod models;
pub mod providers;
pub mod scheduler;
pub mod secrets;
pub mod status;
pub mod tools;

verus! {

/// An argument by its name, whether it is required, its type and whether it
/// takes all remaining values.
pub open spec fn arg_shape(a: ArgSpec) -> (Seq<char>, bool, ValueType, bool) {
    (a.name@, a.required, a.value_type, a.variadic)
}

/// The arguments of a command by their shape.
pub open spec fn args_of(s: CommandSpec) -> Seq<(Seq<char>, bool, ValueType, bool)> {
    s.args@.map_values(|a: ArgSpec| arg_shape(a))
}

/// The names of the subcommands of a command.
pub open spec fn sub_names(s: CommandSpec) -> Seq<Seq<char>> {
    s.subcommands@.map_values(|c: CommandSpec| c.name@)
}

} // verus!

verus! {

/// The argument at position `i`, if there is one.
pub open spec fn arg_at(args: Seq<Seq<char>>, i: int) -> Option<Seq<char>> {
    if 0 <= i < args.len() {
        Some(args[i])
    } else {
        None
    }
}

/// The first argument, or `default` when there is none.
pub open spec fn first_or(args: Seq<Seq<char>>, default: Seq<char>) -> Seq<char> {
    if args.len() > 0 {
        args[0]
    } else {
        default
    }
}

/// The argument at position `i`, if there is one.
pub fn arg(args: &Vec<String>, i: usize) -> (r: Option<String>)
    ensures
        match arg_at(crate::text::views(args@), i as int) {
            Some(a) => r matches Some(s) && s@ == a,
            None => r is None,
        },
{
    if i < args.len() {
        Some(args[i].clone())
    } else {
        None
    }
}

/// The first argument, or `default` when there is none.
pub fn first_or_default(args: &Vec<String>, default: &str) -> (r: String)
    ensures
        r@ == first_or(crate::text::views(args@), default@),
{
    if args.len() > 0 {
        args[0].clone()
    } else {
        crate::text::owned(default)
    }
}

/// `a`, `b` and `c` put together.
pub fn concat3(a: &str, b: &str, c: &str) -> (r: String)
    ensures
        r@ == a@ + b@ + c@,
{
    let mut out = crate::text::owned(a);
    crate::text::push_str(&mut out, b);
    crate::text::push_str(&mut out, c);
    out
}

/// `a` to `e` put together.
pub fn concat5(a: &str, b: &str, c: &str, d: &str, e: &str) -> (r: String)
    ensures
        r@ == a@ + b@ + c@ + d@ + e@,
{
    let mut out = crate::text::owned(a);
    crate::text::push_str(&mut out, b);
    crate::text::push_str(&mut out, c);
    crate::text::push_str(&mut out, d);
    crate::text::push_str(&mut out, e);
    out
}

} // verus!

verus! {

/// A configuration key and its value, when it has one.
pub struct ConfigEntry {
    pub key: String,
    pub value: Option<String>,
}

/// A value as the configuration listings show it.
pub open spec fn shown_value(v: Option<String>) -> Seq<char> {
    match v {
        Some(s) => s@,
        None => "(not set)"@,
    }
}

/// The lines `- key: value` of a configuration, in order.
pub open spec fn config_lines(es: Seq<ConfigEntry>) -> Seq<char>
    decreases es.len(),
{
    if es.len() == 0 {
        seq![]
    } else {
        config_lines(es.drop_last()) + "- "@ + es.last().key@ + ": "@ + shown_value(es.last().value)
            + "\n"@
    }
}

/// The listing of the configuration of the `kind` (`channel` or `provider`)
/// named `id`.
pub open spec fn config_listing_text(kind: Seq<char>, id: Seq<char>, es: Seq<ConfigEntry>) -> Seq<char> {
    if es.len() == 0 {
        "No configuration keys for "@ + kind + " '"@ + id + "'."@
    } else {
        "Configuration for "@ + kind + " '"@ + id + "':\n"@ + config_lines(es)
    }
}

/// The listing of the configuration of the `kind` named `id`.
pub fn config_listing(kind: &str, id: &str, entries: &Vec<ConfigEntry>) -> (r: String)
    ensures
        r@ == config_listing_text(kind@, id@, entries@),
{
    if entries.len() == 0 {
        return concat5("No configuration keys for ", kind, " '", id, "'.");
    }
    let mut out = concat5("Configuration for ", kind, " '", id, "':\n");
    let ghost head = out@;
    let mut i: usize = 0;
    while i < entries.len()
        invariant
            i <= entries@.len(),
            out@ == head + config_lines(entries@.take(i as int)),
        decreases entries@.len() - i,
    {
        assert(entries@.take(i + 1).drop_last() =~= entries@.take(i as int));
        crate::text::push_str(&mut out, "- ");
        crate::text::push_str(&mut out, entries[i].key.as_str());
        crate::text::push_str(&mut out, ": ");
        match &entries[i].value {
            Some(v) => crate::text::push_str(&mut out, v.as_str()),
            None => crate::text::push_str(&mut out, "(not set)"),
        }
        crate::text::push_str(&mut out, "\n");
        i = i + 1;
    }
    assert(entries@.take(entries@.len() as int) =~= entries@);
    out
}

/// `key = value`, with `(not set)` for a missing value.
pub fn config_value_reply(key: &str, value: &Option<String>) -> (r: String)
    ensures
        r@ == key@ + " = "@ + shown_value(*value),
{
    let mut out = crate::text::owned(key);
    crate::text::push_str(&mut out, " = ");
    match value {
        Some(v) => crate::text::push_str(&mut out, v.as_str()),
        None => crate::text::push_str(&mut out, "(not set)"),
    }
    out
}

/// The reply after setting `key` to `value` for the `kind` named `id`.
pub fn config_updated_reply(kind: &str, id: &str, key: &str, value: &str) -> (r: String)
    ensures
        r@ == "Configuration updated for "@ + kind@ + " '"@ + id@ + "': "@ + key@ + " = "@ + value@,
{
    let mut out = concat5("Configuration updated for ", kind, " '", id, "': ");
    crate::text::push_str(&mut out, key);
    crate::text::push_str(&mut out, " = ");
    crate::text::push_str(&mut out, value);
    out
}

/// What a configuration subcommand asks for.
pub enum ConfigOp {
    /// List every key with its value.
    List,
    /// Show one value.
    Get(String),
    /// Set a value.
    Put(String, String),
    /// Refuse, with this message.
    Refuse(String),
}

} // verus!

verus! {

/// Registers every built-in command: help, status, chat, shutdown, clear,
/// llm, secrets, apikey, tools, memory, scheduler and channels.
pub fn register_all(reg: &mut CommandRegistry)
    requires
        old(reg).wf(),
    ensures
        final(reg).wf(),
        forall|k: Seq<char>| #[trigger]
            old(reg).commands_view().contains_key(k) ==> final(reg).commands_view().contains_key(k),
        final(reg).commands_view().contains_key(crate::text::lowercase("help"@)),
        final(reg).commands_view().contains_key(crate::text::lowercase("status"@)),
        final(reg).commands_view().contains_key(crate::text::lowercase("chat"@)),
        final(reg).commands_view().contains_key(crate::text::lowercase("shutdown"@)),
        final(reg).commands_view().contains_key(crate::text::lowercase("clear"@)),
        final(reg).commands_view().contains_key(crate::text::lowercase("llm"@)),
        final(reg).commands_view().contains_key(crate::text::lowercase("secrets"@)),
        final(reg).commands_view().contains_key(crate::text::lowercase("apikey"@)),
        final(reg).commands_view().contains_key(crate::text::lowercase("tools"@)),
        final(reg).commands_view().contains_key(crate::text::lowercase("memory"@)),
        final(reg).commands_view().contains_key(crate::text::lowercase("scheduler"@)),
        final(reg).commands_view().contains_key(crate::text::lowercase("channels"@)),
{
    reg.register(help::spec());
    reg.register(status::spec());
    reg.register(chat::spec());
    reg.register(lifecycle::shutdown_spec());
    reg.register(lifecycle::clear_spec());
    reg.register(llm::spec());
    reg.register(secrets::spec());
    reg.register(apikey::spec());
    reg.register(tools::spec());
    reg.register(memory::spec());
    reg.register(scheduler::spec());
    reg.register(channels::spec());
}

} // verus!
