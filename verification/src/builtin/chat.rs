use vstd::prelude::*;
use crate::builtin::{args_of, sub_names};
use crate::command::{arg_decl, declares, leaf_decl, ArgSpec, CommandSpec, Decl, ValueType};
use crate::text::{join, lit, parse_i64, parse_i64_spec, push_str, to_chars, views};

verus! {

broadcast use vstd::string::group_string_axioms;

/// The declaration of `/chat`, field by field.
pub open spec fn chat_decl() -> Decl {
    Decl {
        name: "chat"@,
        usage: "/chat <list|new|switch|rename|read|delete>"@,
        about: "Manage chats"@,
        category: "chat"@,
        aliases: seq![],
        command_aliases: seq!["c"@],
        min_args: 0,
        examples: seq![],
        args: seq![],
        flags: seq![],
        subs: seq![
            leaf_decl("list"@, "/chat list"@, "List chats"@, seq![], seq![]),
            leaf_decl(
                "switch"@,
                "/chat switch <id>"@,
                "Switch to a chat"@,
                seq![],
                seq![("id"@, true, ValueType::String, false, "Chat id"@)],
            ),
            leaf_decl(
                "s"@,
                "/chat s <id>"@,
                "Switch to a chat"@,
                seq![],
                seq![("id"@, true, ValueType::String, false, "Chat id"@)],
            ),
            leaf_decl(
                "new"@,
                "/chat new [title]"@,
                "Create a new chat"@,
                seq![],
                seq![("title"@, false, ValueType::String, true, "Chat title"@)],
            ),
            leaf_decl(
                "rename"@,
                "/chat rename <title>"@,
                "Rename current chat"@,
                seq![],
                seq![("title"@, true, ValueType::String, true, "New chat title"@)],
            ),
            leaf_decl(
                "read"@,
                "/chat read [id] [n]"@,
                "Read messages from a chat"@,
                seq![],
                seq![
                    ("id"@, false, ValueType::String, false, "Chat id"@),
                    ("n"@, false, ValueType::Integer, false, "Message count"@),
                ],
            ),
            leaf_decl(
                "delete"@,
                "/chat delete <id>"@,
                "Delete a chat"@,
                seq!["rm"@],
                seq![("id"@, true, ValueType::String, false, "Chat id"@)],
            ),
        ],
        allow_unknown: false,
    }
}

/// The declaration of `/chat`.
pub fn spec() -> (r: CommandSpec)
    ensures
        declares(r, chat_decl()),
        r.name@ == "chat"@,
        r.category@ == "chat"@,
        views(r.command_aliases@) == seq!["c"@],
        !r.allow_unknown_subcommands,
        sub_names(r) == seq!["list"@, "switch"@, "s"@, "new"@, "rename"@, "read"@, "delete"@],
        args_of(r.subcommands@[1]) == seq![("id"@, true, ValueType::String, false)],
        args_of(r.subcommands@[3]) == seq![("title"@, false, ValueType::String, true)],
        args_of(r.subcommands@[5]) == seq![
            ("id"@, false, ValueType::String, false),
            ("n"@, false, ValueType::Integer, false),
        ],
        views(r.subcommands@[6].aliases@) == seq!["rm"@],
        args_of(r.subcommands@[6]) == seq![("id"@, true, ValueType::String, false)],
{
    let list = CommandSpec::new("list", "/chat list", "List chats");
    let switch = CommandSpec::new("switch", "/chat switch <id>", "Switch to a chat").arg(
        ArgSpec::required("id", "Chat id"),
    );
    let short_switch = CommandSpec::new("s", "/chat s <id>", "Switch to a chat").arg(
        ArgSpec::required("id", "Chat id"),
    );
    let new = CommandSpec::new("new", "/chat new [title]", "Create a new chat").arg(
        ArgSpec::optional("title", "Chat title").variadic(),
    );
    let rename = CommandSpec::new("rename", "/chat rename <title>", "Rename current chat").arg(
        ArgSpec::required("title", "New chat title").variadic(),
    );
    let read = CommandSpec::new("read", "/chat read [id] [n]", "Read messages from a chat").arg(
        ArgSpec::optional("id", "Chat id"),
    ).arg(ArgSpec::optional("n", "Message count").value_type(ValueType::Integer));
    let delete = CommandSpec::new("delete", "/chat delete <id>", "Delete a chat").alias("rm").arg(
        ArgSpec::required("id", "Chat id"),
    );
    let r = CommandSpec::new("chat", "/chat <list|new|switch|rename|read|delete>", "Manage chats")
        .category("chat")
        .command_alias("c")
        .strict_subcommands()
        .subcommand(list)
        .subcommand(switch)
        .subcommand(short_switch)
        .subcommand(new)
        .subcommand(rename)
        .subcommand(read)
        .subcommand(delete);
    assert(sub_names(r) =~= seq!["list"@, "switch"@, "s"@, "new"@, "rename"@, "read"@, "delete"@]);
    assert(args_of(r.subcommands@[1]) =~= seq![("id"@, true, ValueType::String, false)]);
    assert(args_of(r.subcommands@[3]) =~= seq![("title"@, false, ValueType::String, true)]);
    assert(args_of(r.subcommands@[5]) =~= seq![
        ("id"@, false, ValueType::String, false),
        ("n"@, false, ValueType::Integer, false),
    ]);
    assert(args_of(r.subcommands@[6]) =~= seq![("id"@, true, ValueType::String, false)]);
    proof {
        let d = chat_decl();
        assert forall|i: int| 0 <= i < d.subs.len() implies declares(#[trigger] r.subcommands@[i], d.subs[i]) by {
            let c = r.subcommands@[i];
            assert(c.args@.map_values(|a: ArgSpec| arg_decl(a)) =~= d.subs[i].args);
            assert(views(c.aliases@) =~= d.subs[i].aliases);
            assert(views(c.examples@) =~= d.subs[i].examples);
            assert(views(c.command_aliases@) =~= d.subs[i].command_aliases);
            assert(c.flags@ =~= d.subs[i].flags);
        }
        assert(r.args@.map_values(|a: ArgSpec| arg_decl(a)) =~= d.args);
        assert(views(r.examples@) =~= d.examples);
        assert(views(r.aliases@) =~= d.aliases);
        assert(r.flags@ =~= d.flags);
        assert(views(r.command_aliases@) =~= d.command_aliases);
        assert(r.name@ == d.name);
        assert(r.usage@ == d.usage);
        assert(r.about@ == d.about);
        assert(r.category@ == d.category);
        assert(r.min_args == d.min_args);
        assert(r.allow_unknown_subcommands == d.allow_unknown);
        assert(r.subcommands@.len() == d.subs.len());
    }
    r
}


/// A chat as `/chat list` shows it.
pub struct ChatSummary {
    pub id: String,
    pub title: Option<String>,
}

/// A stored message as `/chat read` shows it.
pub struct HistoryLine {
    pub created_at: String,
    pub role: String,
    pub content: String,
}

/// What `/chat` has to do, with the words of its arguments.
pub enum ChatPlan {
    Reply(Seq<char>),
    List,
    Switch(Seq<char>),
    New(Option<Seq<char>>),
    Rename(Seq<char>),
    Read(Seq<char>, i64),
    Delete(Seq<char>),
}

/// What `/chat` has to do: answer at once, or read or change the chats.
pub enum ChatRequest {
    Reply(String),
    List,
    Switch(String),
    New(Option<String>),
    Rename(String),
    Read { chat_id: String, limit: i64 },
    Delete(String),
}

impl View for ChatRequest {
    type V = ChatPlan;

    open spec fn view(&self) -> ChatPlan {
        match self {
            ChatRequest::Reply(t) => ChatPlan::Reply(t@),
            ChatRequest::List => ChatPlan::List,
            ChatRequest::Switch(id) => ChatPlan::Switch(id@),
            ChatRequest::New(t) => ChatPlan::New(
                match t {
                    Some(s) => Some(s@),
                    None => None,
                },
            ),
            ChatRequest::Rename(t) => ChatPlan::Rename(t@),
            ChatRequest::Read { chat_id, limit } => ChatPlan::Read(chat_id@, *limit),
            ChatRequest::Delete(id) => ChatPlan::Delete(id@),
        }
    }
}

/// The help shown for `/chat` without arguments.
pub open spec fn chat_help() -> Seq<char> {
    "Chat management commands:\n"@ + "  /chat list            List all chats\n"@
        + "  /chat switch <id>     Switch to a chat\n"@
        + "  /chat new [title]     Create a new chat\n"@
        + "  /chat rename <title>  Rename current chat\n"@
        + "  /chat read [id] [n]   Read messages from a chat\n"@
}

/// The number of messages `/chat read` shows: its second argument when that
/// parses as an integer, else ten.
pub open spec fn read_limit(args: Seq<Seq<char>>) -> i64 {
    if args.len() > 2 {
        match parse_i64_spec(args[2]) {
            Some(n) => n,
            None => 10,
        }
    } else {
        10
    }
}

/// What `/chat` does with `args`, in the chat `current`.
pub open spec fn chat_plan(args: Seq<Seq<char>>, current: Seq<char>) -> ChatPlan {
    if args.len() == 0 {
        ChatPlan::Reply(chat_help())
    } else {
        let op = args[0];
        if op == "list"@ {
            ChatPlan::List
        } else if op == "switch"@ || op == "s"@ {
            if args.len() < 2 {
                ChatPlan::Reply("Usage: /chat switch <id>"@)
            } else {
                ChatPlan::Switch(args[1])
            }
        } else if op == "new"@ {
            ChatPlan::New(
                if args.len() > 1 {
                    Some(join(args.skip(1), " "@))
                } else {
                    None
                },
            )
        } else if op == "rename"@ {
            if args.len() < 2 {
                ChatPlan::Reply("Usage: /chat rename <new title>"@)
            } else {
                ChatPlan::Rename(join(args.skip(1), " "@))
            }
        } else if op == "read"@ {
            ChatPlan::Read(
                if args.len() > 1 {
                    args[1]
                } else {
                    current
                },
                read_limit(args),
            )
        } else if op == "delete"@ || op == "rm"@ {
            if args.len() < 2 {
                ChatPlan::Reply("Usage: /chat delete <id>"@)
            } else {
                ChatPlan::Delete(args[1])
            }
        } else {
            ChatPlan::Reply("Unknown chat subcommand: "@ + op)
        }
    }
}

/// `"* "` for the current chat, `"  "` for the others.
pub open spec fn marker(is_current: bool) -> Seq<char> {
    if is_current {
        "*"@
    } else {
        " "@
    }
}

/// One line of `/chat list`.
pub open spec fn chat_line(c: ChatSummary, current: Seq<char>) -> Seq<char> {
    marker(c.id@ == current) + " "@ + c.id@ + " — "@ + match c.title {
        Some(t) => t@,
        None => "(no title)"@,
    }
}

/// The reply of `/chat list`.
pub open spec fn chat_list_text(chats: Seq<ChatSummary>, current: Seq<char>) -> Seq<char> {
    if chats.len() == 0 {
        "No chats found."@
    } else {
        "Chats:\n"@ + join(chats.map_values(|c: ChatSummary| chat_line(c, current)), "\n"@)
    }
}

/// One line of `/chat read`.
pub open spec fn history_line(m: HistoryLine) -> Seq<char> {
    "["@ + m.created_at@ + "] "@ + m.role@ + ": "@ + m.content@
}

/// The reply of `/chat read`: the messages, which come newest first, oldest
/// first.
pub open spec fn history_text(target: Seq<char>, messages: Seq<HistoryLine>) -> Seq<char> {
    "History for "@ + target + ":\n"@ + join(
        messages.reverse().map_values(|m: HistoryLine| history_line(m)),
        "\n"@,
    )
}

/// The handler of `/chat`.
pub struct ChatListCommand;

impl ChatListCommand {
    /// The help shown for `/chat` without arguments.
    pub fn help_text(&self) -> (r: String)
        ensures
            r@ == chat_help(),
    {
        let mut help = lit("Chat management commands:\n");
        push_str(&mut help, "  /chat list            List all chats\n");
        push_str(&mut help, "  /chat switch <id>     Switch to a chat\n");
        push_str(&mut help, "  /chat new [title]     Create a new chat\n");
        push_str(&mut help, "  /chat rename <title>  Rename current chat\n");
        push_str(&mut help, "  /chat read [id] [n]   Read messages from a chat\n");
        help
    }

    /// What `/chat` does with `args` in the chat `current_chat`.
    pub fn plan(&self, args: &Vec<String>, current_chat: &str) -> (r: ChatRequest)
        ensures
            r@ == chat_plan(views(args@), current_chat@),
    {
        let ghost av = views(args@);
        if args.len() == 0 {
            return ChatRequest::Reply(self.help_text());
        }
        let op = args[0].as_str();
        assert(av[0] == op@);
        if crate::text::str_eq(op, "list") {
            ChatRequest::List
        } else if crate::text::str_eq(op, "switch") || crate::text::str_eq(op, "s") {
            if args.len() < 2 {
                ChatRequest::Reply(lit("Usage: /chat switch <id>"))
            } else {
                assert(av[1] == args@[1]@);
                ChatRequest::Switch(args[1].clone())
            }
        } else if crate::text::str_eq(op, "new") {
            if args.len() > 1 {
                ChatRequest::New(Some(join_from(args, 1, " ")))
            } else {
                ChatRequest::New(None)
            }
        } else if crate::text::str_eq(op, "rename") {
            if args.len() < 2 {
                ChatRequest::Reply(lit("Usage: /chat rename <new title>"))
            } else {
                ChatRequest::Rename(join_from(args, 1, " "))
            }
        } else if crate::text::str_eq(op, "read") {
            let limit: i64 = if args.len() > 2 {
                let d = to_chars(args[2].as_str());
                assert(av[2] == args@[2]@);
                match parse_i64(d.as_slice()) {
                    Some(n) => n,
                    None => 10,
                }
            } else {
                10
            };
            let target = if args.len() > 1 {
                assert(av[1] == args@[1]@);
                args[1].clone()
            } else {
                crate::text::owned(current_chat)
            };
            ChatRequest::Read { chat_id: target, limit }
        } else if crate::text::str_eq(op, "delete") || crate::text::str_eq(op, "rm") {
            if args.len() < 2 {
                ChatRequest::Reply(lit("Usage: /chat delete <id>"))
            } else {
                assert(av[1] == args@[1]@);
                ChatRequest::Delete(args[1].clone())
            }
        } else {
            let mut t = lit("Unknown chat subcommand: ");
            push_str(&mut t, op);
            ChatRequest::Reply(t)
        }
    }

    /// The reply of `/chat list` for `chats`, marking `current_chat`.
    pub fn list_reply(&self, chats: &Vec<ChatSummary>, current_chat: &str) -> (r: String)
        ensures
            r@ == chat_list_text(chats@, current_chat@),
    {
        if chats.len() == 0 {
            return lit("No chats found.");
        }
        let ghost f = |c: ChatSummary| chat_line(c, current_chat@);
        let mut lines: Vec<String> = Vec::new();
        let mut i: usize = 0;
        while i < chats.len()
            invariant
                i <= chats@.len(),
                f == (|c: ChatSummary| chat_line(c, current_chat@)),
                views(lines@) == chats@.take(i as int).map_values(f),
            decreases chats@.len() - i,
        {
            let c = &chats[i];
            let mut line = if crate::text::str_eq(c.id.as_str(), current_chat) {
                lit("*")
            } else {
                lit(" ")
            };
            push_str(&mut line, " ");
            push_str(&mut line, c.id.as_str());
            push_str(&mut line, " — ");
            match &c.title {
                Some(t) => push_str(&mut line, t.as_str()),
                None => push_str(&mut line, "(no title)"),
            }
            let ghost before = lines@;
            lines.push(line);
            assert(views(lines@) =~= views(before).push(f(chats@[i as int])));
            assert(chats@.take(i + 1).map_values(f) =~= chats@.take(i as int).map_values(f).push(
                f(chats@[i as int]),
            ));
            i = i + 1;
        }
        assert(chats@.take(chats@.len() as int) =~= chats@);
        let mut out = lit("Chats:\n");
        let body = crate::text::join_strings(&lines, "\n");
        assert(lines@.map_values(|p: String| p@) =~= views(lines@));
        push_str(&mut out, body.as_str());
        out
    }

    /// The reply after switching to a chat: its title, or its id when it has none.
    pub fn switched_reply(&self, id: &str, title: &Option<String>) -> (r: String)
        ensures
            r@ == "Switched to chat: "@ + match title {
                Some(t) => t@,
                None => id@,
            },
    {
        let mut out = lit("Switched to chat: ");
        match title {
            Some(t) => push_str(&mut out, t.as_str()),
            None => push_str(&mut out, id),
        }
        out
    }

    /// The reply when the chat to switch to does not exist.
    pub fn not_found_reply(&self, id: &str) -> (r: String)
        ensures
            r@ == "Chat '"@ + id@ + "' not found."@,
    {
        let mut out = lit("Chat '");
        push_str(&mut out, id);
        push_str(&mut out, "' not found.");
        out
    }

    /// The id of a new chat when `existing` chats exist: `chat-` and the next number.
    pub fn new_chat_id(&self, existing: u64) -> (r: String)
        requires
            existing < u64::MAX,
        ensures
            r@ == "chat-"@ + crate::text::decimal((existing + 1) as nat),
    {
        let mut out = lit("chat-");
        let n = crate::text::u64_to_string(existing + 1);
        push_str(&mut out, n.as_str());
        out
    }

    /// The reply after creating a chat: its title, or its id when it has none.
    pub fn created_reply(&self, id: &str, title: &Option<String>) -> (r: String)
        ensures
            r@ == "Created new chat: "@ + match title {
                Some(t) => t@,
                None => id@,
            },
    {
        let mut out = lit("Created new chat: ");
        match title {
            Some(t) => push_str(&mut out, t.as_str()),
            None => push_str(&mut out, id),
        }
        out
    }

    /// The notification sent when a chat is created.
    pub fn created_notice(&self, id: &str) -> (r: String)
        ensures
            r@ == "Created new chat: "@ + id@,
    {
        let mut out = lit("Created new chat: ");
        push_str(&mut out, id);
        out
    }

    /// The reply after renaming the current chat.
    pub fn renamed_reply(&self, title: &str) -> (r: String)
        ensures
            r@ == "Chat renamed to: "@ + title@,
    {
        let mut out = lit("Chat renamed to: ");
        push_str(&mut out, title);
        out
    }

    /// The reply after deleting a chat.
    pub fn deleted_reply(&self, id: &str) -> (r: String)
        ensures
            r@ == "Deleted chat: "@ + id@,
    {
        let mut out = lit("Deleted chat: ");
        push_str(&mut out, id);
        out
    }

    /// The reply of `/chat read`: the messages of `target`, which come newest
    /// first, shown oldest first.
    pub fn history_reply(&self, target: &str, messages: &Vec<HistoryLine>) -> (r: String)
        ensures
            r@ == history_text(target@, messages@),
    {
        let ghost f = |m: HistoryLine| history_line(m);
        let ghost rev = messages@.reverse();
        let mut lines: Vec<String> = Vec::new();
        let mut i: usize = messages.len();
        while i > 0
            invariant
                i <= messages@.len(),
                rev == messages@.reverse(),
                f == (|m: HistoryLine| history_line(m)),
                views(lines@) == rev.take(messages@.len() - i).map_values(f),
            decreases i,
        {
            i = i - 1;
            let m = &messages[i];
            let mut line = lit("[");
            push_str(&mut line, m.created_at.as_str());
            push_str(&mut line, "] ");
            push_str(&mut line, m.role.as_str());
            push_str(&mut line, ": ");
            push_str(&mut line, m.content.as_str());
            let ghost before = lines@;
            let ghost k = messages@.len() - i - 1;
            assert(rev[k] == messages@[i as int]);
            lines.push(line);
            assert(views(lines@) =~= views(before).push(f(rev[k])));
            assert(rev.take(k + 1).map_values(f) =~= rev.take(k).map_values(f).push(f(rev[k])));
        }
        assert(rev.take(messages@.len() as int) =~= rev);
        let mut out = lit("History for ");
        push_str(&mut out, target);
        push_str(&mut out, ":\n");
        let body = crate::text::join_strings(&lines, "\n");
        assert(lines@.map_values(|p: String| p@) =~= views(lines@));
        push_str(&mut out, body.as_str());
        out
    }
}

/// The strings of `args` from position `start` on, joined with `sep`.
pub fn join_from(args: &Vec<String>, start: usize, sep: &str) -> (r: String)
    requires
        start <= args@.len(),
    ensures
        r@ == join(views(args@).skip(start as int), sep@),
{
    let mut parts: Vec<String> = Vec::new();
    let mut k: usize = start;
    while k < args.len()
        invariant
            start <= k <= args@.len(),
            views(parts@) == views(args@).subrange(start as int, k as int),
        decreases args@.len() - k,
    {
        let ghost before = parts@;
        parts.push(args[k].clone());
        assert(parts@ == before.push(args@[k as int]));
        assert(views(parts@) =~= views(before).push(views(args@)[k as int]));
        assert(views(args@).subrange(start as int, k + 1) =~= views(args@).subrange(
            start as int,
            k as int,
        ).push(views(args@)[k as int]));
        k = k + 1;
    }
    assert(views(args@).subrange(start as int, args@.len() as int) =~= views(args@).skip(
        start as int,
    ));
    assert(parts@.map_values(|p: String| p@) =~= views(parts@));
    crate::text::join_strings(&parts, sep)
}

} // verus!
