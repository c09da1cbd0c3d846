use vstd::prelude::*;
use crate::builtin::{arg, arg_at, args_of, concat3, concat5, first_or, first_or_default, sub_names, ConfigOp};
use crate::command::{ArgSpec, CommandDefinition, CommandSpec, ValueType};
use crate::text::{lit, push_str, str_eq, views};

verus! {

broadcast use vstd::string::group_string_axioms;

/// The declaration of `/channels`.
pub fn spec() -> (r: CommandSpec)
    ensures
        r.name@ == "channels"@,
        r.usage@ == "/channels <list|enable|disable|config|setup|setchat> [args]"@,
        r.about@ == "Manage communication channels."@,
        r.min_args == 0,
        r.category@ == "system"@,
        views(r.command_aliases@) == seq!["chan"@],
        !r.allow_unknown_subcommands,
        sub_names(r) == seq!["list"@, "enable"@, "disable"@, "config"@, "setup"@, "setchat"@],
        args_of(r.subcommands@[1]) == seq![("id"@, true, ValueType::String, false)],
        args_of(r.subcommands@[2]) == seq![("id"@, true, ValueType::String, false)],
        args_of(r.subcommands@[5]) == seq![
            ("id"@, true, ValueType::String, false),
            ("chat_id"@, true, ValueType::String, false),
        ],
{
    let list = CommandSpec::new("list", "/channels list", "List channels");
    let enable = CommandSpec::new("enable", "/channels enable <id>", "Enable a channel").arg(
        ArgSpec::required("id", "Channel id"),
    );
    let disable = CommandSpec::new("disable", "/channels disable <id>", "Disable a channel").arg(
        ArgSpec::required("id", "Channel id"),
    );
    let config = CommandSpec::new(
        "config",
        "/channels config <id> [list|get|set] [key] [value]",
        "Manage a channel's configuration",
    ).arg(ArgSpec::required("id", "Channel id")).arg(
        ArgSpec::optional("operation", "list, get or set"),
    ).arg(ArgSpec::optional("key", "Configuration key")).arg(
        ArgSpec::optional("value", "Configuration value"),
    );
    let setup = CommandSpec::new("setup", "/channels setup <id>", "Start a channel's setup").arg(
        ArgSpec::required("id", "Channel id"),
    );
    let setchat = CommandSpec::new(
        "setchat",
        "/channels setchat <id> <chat_id>",
        "Set a channel's active chat",
    ).arg(ArgSpec::required("id", "Channel id")).arg(ArgSpec::required("chat_id", "Chat id"));
    let r = CommandSpec::new(
        "channels",
        "/channels <list|enable|disable|config|setup|setchat> [args]",
        "Manage communication channels.",
    ).category("system").command_alias("chan").strict_subcommands().subcommand(list).subcommand(
        enable,
    ).subcommand(disable).subcommand(config).subcommand(setup).subcommand(setchat);
    assert(sub_names(r) =~= seq!["list"@, "enable"@, "disable"@, "config"@, "setup"@, "setchat"@]);
    assert(args_of(r.subcommands@[1]) =~= seq![("id"@, true, ValueType::String, false)]);
    assert(args_of(r.subcommands@[2]) =~= seq![("id"@, true, ValueType::String, false)]);
    assert(args_of(r.subcommands@[5]) =~= seq![
        ("id"@, true, ValueType::String, false),
        ("chat_id"@, true, ValueType::String, false),
    ]);
    r
}

/// A channel as `/channels list` shows it.
pub struct ChannelRow {
    pub id: String,
    pub name: String,
    pub is_enabled: bool,
    pub is_ready: bool,
    pub active_chat: Option<String>,
}

/// What `/channels` has to do.
pub enum ChannelsRequest {
    List,
    Enable(String),
    Disable(String),
    /// Work on the configuration of a channel, once it is found and
    /// configurable.
    Config { id: String, op: ConfigOp },
    Setup(String),
    SetChat { id: String, chat: String },
}

/// The configuration operation in `args` from position `at` on, for the
/// command line `usage` (`/channels config <id>` or `/providers config <id>`).
pub open spec fn config_op_is(op: ConfigOp, av: Seq<Seq<char>>, at: int, usage: Seq<char>) -> bool {
    let name = match arg_at(av, at) {
        Some(o) => o,
        None => "list"@,
    };
    if name == "list"@ {
        op is List
    } else if name == "get"@ {
        match arg_at(av, at + 1) {
            Some(k) => op matches ConfigOp::Get(key) && key@ == k,
            None => op matches ConfigOp::Refuse(e) && e@ == "Missing key: "@ + usage + " get <key>"@,
        }
    } else if name == "set"@ {
        match (arg_at(av, at + 1), arg_at(av, at + 2)) {
            (Some(k), Some(v)) => op matches ConfigOp::Put(key, value) && key@ == k && value@ == v,
            (None, _) => op matches ConfigOp::Refuse(e) && e@ == "Missing key: "@ + usage
                + " set <key> <value>"@,
            (Some(_), None) => op matches ConfigOp::Refuse(e) && e@ == "Missing value: "@ + usage
                + " set <key> <value>"@,
        }
    } else {
        op matches ConfigOp::Refuse(e) && e@ == "Unknown config operation: "@ + name
            + ". Use list, get, or set."@
    }
}

/// The configuration operation in `args` from position `at` on.
pub fn config_op(args: &Vec<String>, at: usize, usage: &str) -> (r: ConfigOp)
    requires
        at < usize::MAX - 2,
    ensures
        config_op_is(r, views(args@), at as int, usage@),
{
    let name = match arg(args, at) {
        Some(o) => o,
        None => lit("list"),
    };
    if str_eq(name.as_str(), "list") {
        ConfigOp::List
    } else if str_eq(name.as_str(), "get") {
        match arg(args, at + 1) {
            Some(k) => ConfigOp::Get(k),
            None => ConfigOp::Refuse(concat3("Missing key: ", usage, " get <key>")),
        }
    } else if str_eq(name.as_str(), "set") {
        match arg(args, at + 1) {
            Some(k) => match arg(args, at + 2) {
                Some(v) => ConfigOp::Put(k, v),
                None => ConfigOp::Refuse(concat3("Missing value: ", usage, " set <key> <value>")),
            },
            None => ConfigOp::Refuse(concat3("Missing key: ", usage, " set <key> <value>")),
        }
    } else {
        ConfigOp::Refuse(concat3("Unknown config operation: ", name.as_str(), ". Use list, get, or set."))
    }
}

/// One line of `/channels list`.
pub open spec fn channel_line(c: ChannelRow) -> Seq<char> {
    "- ["@ + c.id@ + "] "@ + c.name@ + ": "@ + (if c.is_enabled {
        "ENABLED"@
    } else {
        "DISABLED"@
    }) + " | "@ + (if c.is_ready {
        "READY"@
    } else {
        "NOT READY"@
    }) + " | Active Chat: "@ + match c.active_chat {
        Some(a) => a@,
        None => "none"@,
    } + "\n"@
}

/// The lines of the channels, in order.
pub open spec fn channel_lines(cs: Seq<ChannelRow>) -> Seq<char>
    decreases cs.len(),
{
    if cs.len() == 0 {
        seq![]
    } else {
        channel_lines(cs.drop_last()) + channel_line(cs.last())
    }
}

/// The reply of `/channels list`.
pub open spec fn channels_text(cs: Seq<ChannelRow>) -> Seq<char> {
    if cs.len() == 0 {
        "No channels registered."@
    } else {
        "Communication Channels:\n"@ + channel_lines(cs)
    }
}

/// The handler of `/channels`.
pub struct ChannelsCommand;

impl ChannelsCommand {
    /// What channels show of `/channels`.
    pub fn definition(&self) -> (r: CommandDefinition)
        ensures
            r.name@ == "channels"@,
            r.description@ == "Manage communication channels."@,
            r.usage@ == "/channels <list|enable|disable|config|setup|setchat> [args]"@,
            r.category@ == "system"@,
            views(r.aliases@) == seq!["chan"@],
            r.min_args == 0,
    {
        spec().definition()
    }

    /// What `/channels` does with `args`; an error names what is missing or wrong.
    pub fn plan(&self, args: &Vec<String>) -> (r: Result<ChannelsRequest, String>)
        ensures
            ({
                let av = views(args@);
                let op = first_or(av, "list"@);
                if op == "list"@ {
                    r matches Ok(ChannelsRequest::List)
                } else if op == "enable"@ {
                    match arg_at(av, 1) {
                        Some(i) => r matches Ok(ChannelsRequest::Enable(s)) && s@ == i,
                        None => r matches Err(e) && e@ == "Missing channel ID: /channels enable <id>"@,
                    }
                } else if op == "disable"@ {
                    match arg_at(av, 1) {
                        Some(i) => r matches Ok(ChannelsRequest::Disable(s)) && s@ == i,
                        None => r matches Err(e) && e@ == "Missing channel ID: /channels disable <id>"@,
                    }
                } else if op == "config"@ {
                    match arg_at(av, 1) {
                        Some(i) => r matches Ok(ChannelsRequest::Config { id, op }) && id@ == i
                            && config_op_is(op, av, 2, "/channels config <id>"@),
                        None => r matches Err(e) && e@
                            == "Missing channel ID: /channels config <id> <get|set> [key] [value]"@,
                    }
                } else if op == "setup"@ {
                    match arg_at(av, 1) {
                        Some(i) => r matches Ok(ChannelsRequest::Setup(s)) && s@ == i,
                        None => r matches Err(e) && e@ == "Missing channel ID: /channels setup <id>"@,
                    }
                } else if op == "setchat"@ {
                    match (arg_at(av, 1), arg_at(av, 2)) {
                        (Some(i), Some(c)) => r matches Ok(ChannelsRequest::SetChat { id, chat })
                            && id@ == i && chat@ == c,
                        (None, _) => r matches Err(e) && e@
                            == "Missing channel ID: /channels setchat <id> <chat_id>"@,
                        (Some(_), None) => r matches Err(e) && e@
                            == "Missing chat ID: /channels setchat <id> <chat_id>"@,
                    }
                } else {
                    r matches Err(e) && e@ == "Unknown subcommand: "@ + op
                        + ". Use list, enable, disable, config, setup, or setchat."@
                }
            }),
    {
        let op = first_or_default(args, "list");
        let o = op.as_str();
        if str_eq(o, "list") {
            Ok(ChannelsRequest::List)
        } else if str_eq(o, "enable") {
            match arg(args, 1) {
                Some(i) => Ok(ChannelsRequest::Enable(i)),
                None => Err(lit("Missing channel ID: /channels enable <id>")),
            }
        } else if str_eq(o, "disable") {
            match arg(args, 1) {
                Some(i) => Ok(ChannelsRequest::Disable(i)),
                None => Err(lit("Missing channel ID: /channels disable <id>")),
            }
        } else if str_eq(o, "config") {
            match arg(args, 1) {
                Some(i) => Ok(ChannelsRequest::Config { id: i, op: config_op(args, 2, "/channels config <id>") }),
                None => Err(lit("Missing channel ID: /channels config <id> <get|set> [key] [value]")),
            }
        } else if str_eq(o, "setup") {
            match arg(args, 1) {
                Some(i) => Ok(ChannelsRequest::Setup(i)),
                None => Err(lit("Missing channel ID: /channels setup <id>")),
            }
        } else if str_eq(o, "setchat") {
            match arg(args, 1) {
                Some(i) => match arg(args, 2) {
                    Some(c) => Ok(ChannelsRequest::SetChat { id: i, chat: c }),
                    None => Err(lit("Missing chat ID: /channels setchat <id> <chat_id>")),
                },
                None => Err(lit("Missing channel ID: /channels setchat <id> <chat_id>")),
            }
        } else {
            Err(
                concat3(
                    "Unknown subcommand: ",
                    o,
                    ". Use list, enable, disable, config, setup, or setchat.",
                ),
            )
        }
    }

    /// The reply of `/channels list`.
    pub fn list_reply(&self, channels: &Vec<ChannelRow>) -> (r: String)
        ensures
            r@ == channels_text(channels@),
    {
        if channels.len() == 0 {
            return lit("No channels registered.");
        }
        let mut out = lit("Communication Channels:\n");
        let ghost head = out@;
        let mut i: usize = 0;
        while i < channels.len()
            invariant
                i <= channels@.len(),
                out@ == head + channel_lines(channels@.take(i as int)),
            decreases channels@.len() - i,
        {
            assert(channels@.take(i + 1).drop_last() =~= channels@.take(i as int));
            let line = channel_line_of(&channels[i]);
            push_str(&mut out, line.as_str());
            i = i + 1;
        }
        assert(channels@.take(channels@.len() as int) =~= channels@);
        out
    }

    /// The reply after switching a channel on (`enable`) or off; `changed`
    /// tells whether it was in the other state before.
    pub fn toggle_reply(&self, id: &str, enable: bool, changed: bool) -> (r: String)
        ensures
            enable && changed ==> r@ == "Channel '"@ + id@ + "' enabled."@,
            enable && !changed ==> r@ == "Channel '"@ + id@ + "' was already enabled."@,
            !enable && changed ==> r@ == "Channel '"@ + id@ + "' disabled."@,
            !enable && !changed ==> r@ == "Channel '"@ + id@ + "' was already disabled."@,
    {
        if enable {
            if changed {
                concat3("Channel '", id, "' enabled.")
            } else {
                concat3("Channel '", id, "' was already enabled.")
            }
        } else {
            if changed {
                concat3("Channel '", id, "' disabled.")
            } else {
                concat3("Channel '", id, "' was already disabled.")
            }
        }
    }

    /// The reply of `/channels setup`: the code to link with, or that the
    /// channel has no setup.
    pub fn setup_reply(&self, id: &str, pin: &Option<String>) -> (r: String)
        ensures
            match pin {
                Some(p) => r@ == "Setup initiated for channel '"@ + id@ + "'.\nUse the following PIN: "@
                    + p@,
                None => r@ == "Channel '"@ + id@ + "' does not support setup."@,
            },
    {
        match pin {
            Some(p) => {
                let mut t = concat3("Setup initiated for channel '", id, "'.\nUse the following PIN: ");
                push_str(&mut t, p.as_str());
                t
            },
            None => concat3("Channel '", id, "' does not support setup."),
        }
    }

    /// The reply after setting a channel's active chat.
    pub fn setchat_reply(&self, id: &str, chat: &str) -> (r: String)
        ensures
            r@ == "Active chat for channel '"@ + id@ + "' set to '"@ + chat@ + "'."@,
    {
        concat5("Active chat for channel '", id, "' set to '", chat, "'.")
    }
}

/// One line of `/channels list`.
fn channel_line_of(c: &ChannelRow) -> (r: String)
    ensures
        r@ == channel_line(*c),
{
    let mut out = lit("- [");
    push_str(&mut out, c.id.as_str());
    push_str(&mut out, "] ");
    push_str(&mut out, c.name.as_str());
    push_str(&mut out, ": ");
    if c.is_enabled {
        push_str(&mut out, "ENABLED");
    } else {
        push_str(&mut out, "DISABLED");
    }
    push_str(&mut out, " | ");
    if c.is_ready {
        push_str(&mut out, "READY");
    } else {
        push_str(&mut out, "NOT READY");
    }
    push_str(&mut out, " | Active Chat: ");
    match &c.active_chat {
        Some(a) => push_str(&mut out, a.as_str()),
        None => push_str(&mut out, "none"),
    }
    push_str(&mut out, "\n");
    out
}

} // verus!
