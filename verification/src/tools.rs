//! The built-in tools that the agent may call: what each declares, which
//! arguments it needs, and what it answers. The runtime reads the arguments
//! out of the call, performs the reads and writes, and attaches the input
//! schema of each tool.

use vstd::prelude::*;
use crate::text::{contains, join, lit, lowercase, owned, push_str, str_contains, to_lowercase, views};
use crate::types::{ToolResult, ToolRisk};

verus! {

broadcast use vstd::string::group_string_axioms;

/// What a tool declares of itself, apart from its input schema.
pub struct ToolSpec {
    pub name: String,
    pub description: String,
    pub risk: ToolRisk,
    pub side_effect: bool,
}

/// A successful result of the tool `name` for the call `call_id`.
pub open spec fn ok_result(r: ToolResult, call_id: Seq<char>, name: Seq<char>, content: Seq<char>) -> bool {
    r.tool_call_id@ == call_id && r.name@ == name && r.content@ == content && !r.is_error
}

/// A result of the tool `name` for the call `call_id`.
pub fn tool_result(call_id: &str, name: &str, content: String, is_error: bool) -> (r: ToolResult)
    ensures
        r.tool_call_id@ == call_id@,
        r.name@ == name@,
        r.content == content,
        r.is_error == is_error,
{
    ToolResult { tool_call_id: owned(call_id), name: owned(name), content, is_error }
}

/// The declaration of a tool.
pub fn tool_spec(name: &str, description: &str, risk: ToolRisk, side_effect: bool) -> (r: ToolSpec)
    ensures
        r.name@ == name@,
        r.description@ == description@,
        r.risk == risk,
        r.side_effect == side_effect,
{
    ToolSpec { name: owned(name), description: owned(description), risk, side_effect }
}

/// A required argument: its value, or the error `missing`.
pub fn required(value: Option<String>, missing: &str) -> (r: Result<String, String>)
    ensures
        match value {
            Some(v) => r == Ok::<String, String>(v),
            None => r matches Err(e) && e@ == missing@,
        },
{
    match value {
        Some(v) => Ok(v),
        None => Err(owned(missing)),
    }
}

// ---------------------------------------------------------------------------
// Memory tools.
// ---------------------------------------------------------------------------

/// A stored memory as the memory tools show it.
pub struct MemoryFact {
    pub id: String,
    pub brief: String,
    pub content: Option<String>,
    pub is_important: bool,
}

/// `true` or `false`, as Rust prints a `bool`.
pub open spec fn bool_text(b: bool) -> Seq<char> {
    if b {
        "true"@
    } else {
        "false"@
    }
}

/// One line of `memory_read`.
pub open spec fn memory_read_line(m: MemoryFact) -> Seq<char> {
    "["@ + m.id@ + "] Brief: "@ + m.brief@ + " | Important: "@ + bool_text(m.is_important)
}

/// The answer of `memory_read`.
pub open spec fn memory_read_text(ms: Seq<MemoryFact>) -> Seq<char> {
    if ms.len() == 0 {
        "No memories stored."@
    } else {
        join(ms.map_values(|m: MemoryFact| memory_read_line(m)), "\n"@)
    }
}

/// A memory matches the lower-cased search terms when one of them occurs in
/// its lower-cased brief or content.
pub open spec fn memory_hit(m: MemoryFact, terms: Seq<Seq<char>>) -> bool {
    exists|t: int|
        0 <= t < terms.len() && (contains(lowercase(m.brief@), #[trigger] terms[t]) || contains(
            lowercase(
                match m.content {
                    Some(c) => c@,
                    None => seq![],
                },
            ),
            terms[t],
        ))
}

/// The memories that match, in order.
pub open spec fn memory_hits(ms: Seq<MemoryFact>, terms: Seq<Seq<char>>) -> Seq<MemoryFact>
    decreases ms.len(),
{
    if ms.len() == 0 {
        seq![]
    } else if memory_hit(ms.last(), terms) {
        memory_hits(ms.drop_last(), terms).push(ms.last())
    } else {
        memory_hits(ms.drop_last(), terms)
    }
}

/// One entry of `memory_search`.
pub open spec fn memory_search_entry(m: MemoryFact) -> Seq<char> {
    "["@ + m.id@ + "] Brief: "@ + m.brief@ + "\nContent: "@ + match m.content {
        Some(c) => c@,
        None => "(no content)"@,
    }
}

/// The answer of `memory_search` for lower-cased terms.
pub open spec fn memory_search_text(ms: Seq<MemoryFact>, terms: Seq<Seq<char>>) -> Seq<char> {
    let hits = memory_hits(ms, terms);
    if hits.len() == 0 {
        "No matching memories found."@
    } else {
        join(hits.map_values(|m: MemoryFact| memory_search_entry(m)), "\n---\n"@)
    }
}

/// The tool `memory_write`.
pub struct MemoryWriteTool;

impl MemoryWriteTool {
    /// Its declaration.
    pub fn spec(&self) -> (r: ToolSpec)
        ensures
            r.name@ == "memory_write"@,
            r.risk == ToolRisk::Medium,
            r.side_effect,
    {
        tool_spec(
            "memory_write",
            "Save or update a memory entry. Use for facts, user preferences, or long-term information.",
            ToolRisk::Medium,
            true,
        )
    }

    /// The memory to save: id, brief and content are required; it is not
    /// important unless the call says so.
    pub fn request(
        &self,
        id: Option<String>,
        brief: Option<String>,
        content: Option<String>,
        is_important: Option<bool>,
    ) -> (r: Result<(String, String, String, bool), String>)
        ensures
            id is None ==> (r matches Err(e) && e@ == "Missing id"@),
            id is Some && brief is None ==> (r matches Err(e) && e@ == "Missing brief"@),
            id is Some && brief is Some && content is None ==> (r matches Err(e) && e@
                == "Missing content"@),
            id is Some && brief is Some && content is Some ==> r == Ok::<
                (String, String, String, bool),
                String,
            >(
                (
                    id.unwrap(),
                    brief.unwrap(),
                    content.unwrap(),
                    match is_important {
                        Some(b) => b,
                        None => false,
                    },
                ),
            ),
    {
        let id = match required(id, "Missing id") {
            Ok(v) => v,
            Err(e) => {
                return Err(e);
            },
        };
        let brief = match required(brief, "Missing brief") {
            Ok(v) => v,
            Err(e) => {
                return Err(e);
            },
        };
        let content = match required(content, "Missing content") {
            Ok(v) => v,
            Err(e) => {
                return Err(e);
            },
        };
        let important = match is_important {
            Some(b) => b,
            None => false,
        };
        Ok((id, brief, content, important))
    }

    /// Its answer once the memory is saved.
    pub fn result(&self, call_id: &str, id: &str) -> (r: ToolResult)
        ensures
            ok_result(r, call_id@, "memory_write"@, "Memory '"@ + id@ + "' saved successfully."@),
    {
        tool_result(call_id, "memory_write", crate::builtin::concat3("Memory '", id, "' saved successfully."), false)
    }
}

/// The tool `memory_read`.
pub struct MemoryReadTool;

impl MemoryReadTool {
    /// Its declaration.
    pub fn spec(&self) -> (r: ToolSpec)
        ensures
            r.name@ == "memory_read"@,
            r.risk == ToolRisk::Low,
            !r.side_effect,
    {
        tool_spec("memory_read", "List all stored memories.", ToolRisk::Low, false)
    }

    /// Its answer: every memory with its brief and importance.
    pub fn result(&self, call_id: &str, memories: &Vec<MemoryFact>) -> (r: ToolResult)
        ensures
            ok_result(r, call_id@, "memory_read"@, memory_read_text(memories@)),
    {
        if memories.len() == 0 {
            return tool_result(call_id, "memory_read", lit("No memories stored."), false);
        }
        let ghost f = |m: MemoryFact| memory_read_line(m);
        let mut lines: Vec<String> = Vec::new();
        let mut i: usize = 0;
        while i < memories.len()
            invariant
                i <= memories@.len(),
                f == (|m: MemoryFact| memory_read_line(m)),
                views(lines@) == memories@.take(i as int).map_values(f),
            decreases memories@.len() - i,
        {
            let m = &memories[i];
            let mut line = lit("[");
            push_str(&mut line, m.id.as_str());
            push_str(&mut line, "] Brief: ");
            push_str(&mut line, m.brief.as_str());
            push_str(&mut line, " | Important: ");
            if m.is_important {
                push_str(&mut line, "true");
            } else {
                push_str(&mut line, "false");
            }
            let ghost before = lines@;
            lines.push(line);
            assert(views(lines@) =~= views(before).push(f(memories@[i as int])));
            assert(memories@.take(i + 1).map_values(f) =~= memories@.take(i as int).map_values(f).push(
                f(memories@[i as int]),
            ));
            i = i + 1;
        }
        assert(memories@.take(memories@.len() as int) =~= memories@);
        assert(lines@.map_values(|p: String| p@) =~= views(lines@));
        tool_result(call_id, "memory_read", crate::text::join_strings(&lines, "\n"), false)
    }
}

/// The tool `memory_search`.
pub struct MemorySearchTool;

impl MemorySearchTool {
    /// Its declaration.
    pub fn spec(&self) -> (r: ToolSpec)
        ensures
            r.name@ == "memory_search"@,
            r.risk == ToolRisk::Low,
            !r.side_effect,
    {
        tool_spec(
            "memory_search",
            "Search for memories using keywords in their brief or content.",
            ToolRisk::Low,
            false,
        )
    }

    /// The search terms, lower-cased; the call must carry a list of them.
    pub fn terms(&self, terms: Option<Vec<String>>) -> (r: Result<Vec<String>, String>)
        ensures
            match terms {
                None => r matches Err(e) && e@ == "Missing terms"@,
                Some(ts) => r matches Ok(ls) && views(ls@) == views(ts@).map_values(
                    |t: Seq<char>| lowercase(t),
                ),
            },
    {
        let ts = match terms {
            Some(ts) => ts,
            None => {
                return Err(lit("Missing terms"));
            },
        };
        let mut out: Vec<String> = Vec::new();
        let mut i: usize = 0;
        while i < ts.len()
            invariant
                i <= ts@.len(),
                views(out@) == views(ts@).take(i as int).map_values(|t: Seq<char>| lowercase(t)),
            decreases ts@.len() - i,
        {
            let ghost before = out@;
            out.push(to_lowercase(ts[i].as_str()));
            assert(views(out@) =~= views(before).push(lowercase(ts@[i as int]@)));
            assert(views(ts@).take(i + 1) =~= views(ts@).take(i as int).push(ts@[i as int]@));
            i = i + 1;
        }
        assert(views(ts@).take(ts@.len() as int) =~= views(ts@));
        Ok(out)
    }

    /// Its answer: the memories in which one of the lower-cased `terms`
    /// occurs, ignoring case, with their content.
    pub fn result(&self, call_id: &str, terms: &Vec<String>, memories: &Vec<MemoryFact>) -> (r: ToolResult)
        ensures
            ok_result(r, call_id@, "memory_search"@, memory_search_text(memories@, views(terms@))),
    {
        let ghost tv = views(terms@);
        let ghost f = |m: MemoryFact| memory_search_entry(m);
        let mut entries: Vec<String> = Vec::new();
        let mut i: usize = 0;
        while i < memories.len()
            invariant
                i <= memories@.len(),
                tv == views(terms@),
                f == (|m: MemoryFact| memory_search_entry(m)),
                views(entries@) == memory_hits(memories@.take(i as int), tv).map_values(f),
            decreases memories@.len() - i,
        {
            let m = &memories[i];
            assert(memories@.take(i + 1).drop_last() =~= memories@.take(i as int));
            assert(memories@.take(i + 1).last() == memories@[i as int]);
            if memory_matches_terms(m, terms) {
                let mut e = lit("[");
                push_str(&mut e, m.id.as_str());
                push_str(&mut e, "] Brief: ");
                push_str(&mut e, m.brief.as_str());
                push_str(&mut e, "\nContent: ");
                match &m.content {
                    Some(c) => push_str(&mut e, c.as_str()),
                    None => push_str(&mut e, "(no content)"),
                }
                let ghost before = entries@;
                entries.push(e);
                assert(views(entries@) =~= views(before).push(f(memories@[i as int])));
                assert(memory_hits(memories@.take(i + 1), tv) == memory_hits(
                    memories@.take(i as int),
                    tv,
                ).push(memories@[i as int]));
                assert(memory_hits(memories@.take(i + 1), tv).map_values(f) =~= memory_hits(
                    memories@.take(i as int),
                    tv,
                ).map_values(f).push(f(memories@[i as int])));
            }
            i = i + 1;
        }
        assert(memories@.take(memories@.len() as int) =~= memories@);
        if entries.len() == 0 {
            tool_result(call_id, "memory_search", lit("No matching memories found."), false)
        } else {
            assert(entries@.map_values(|p: String| p@) =~= views(entries@));
            tool_result(call_id, "memory_search", crate::text::join_strings(&entries, "\n---\n"), false)
        }
    }
}

/// Whether one of the terms occurs in the memory's lower-cased brief or content.
fn memory_matches_terms(m: &MemoryFact, terms: &Vec<String>) -> (r: bool)
    ensures
        r == memory_hit(*m, views(terms@)),
{
    let brief = to_lowercase(m.brief.as_str());
    let content = match &m.content {
        Some(c) => to_lowercase(c.as_str()),
        None => {
            let empty = String::new();
            to_lowercase(empty.as_str())
        },
    };
    let mut t: usize = 0;
    while t < terms.len()
        invariant
            t <= terms@.len(),
            brief@ == lowercase(m.brief@),
            content@ == lowercase(
                match m.content {
                    Some(c) => c@,
                    None => seq![],
                },
            ),
            forall|k: int|
                0 <= k < t ==> !(contains(brief@, #[trigger] views(terms@)[k]) || contains(
                    content@,
                    views(terms@)[k],
                )),
        decreases terms@.len() - t,
    {
        assert(views(terms@)[t as int] == terms@[t as int]@);
        if str_contains(brief.as_str(), terms[t].as_str()) || str_contains(
            content.as_str(),
            terms[t].as_str(),
        ) {
            return true;
        }
        t = t + 1;
    }
    false
}

/// The tool `memory_delete`.
pub struct MemoryDeleteTool;

impl MemoryDeleteTool {
    /// Its declaration.
    pub fn spec(&self) -> (r: ToolSpec)
        ensures
            r.name@ == "memory_delete"@,
            r.risk == ToolRisk::High,
            r.side_effect,
    {
        tool_spec("memory_delete", "Delete a memory entry permanently.", ToolRisk::High, true)
    }

    /// Its answer: success, or an error result when there was no such memory.
    pub fn result(&self, call_id: &str, id: &str, deleted: bool) -> (r: ToolResult)
        ensures
            r.tool_call_id@ == call_id@,
            r.name@ == "memory_delete"@,
            r.is_error == !deleted,
            deleted ==> r.content@ == "Memory '"@ + id@ + "' deleted successfully."@,
            !deleted ==> r.content@ == "Memory '"@ + id@ + "' not found."@,
    {
        if deleted {
            tool_result(call_id, "memory_delete", crate::builtin::concat3("Memory '", id, "' deleted successfully."), false)
        } else {
            tool_result(call_id, "memory_delete", crate::builtin::concat3("Memory '", id, "' not found."), true)
        }
    }
}

// ---------------------------------------------------------------------------
// Chat tools.
// ---------------------------------------------------------------------------

/// A chat as `chat_list` shows it.
pub struct ChatInfo {
    pub id: String,
    pub title: Option<String>,
    pub channel_id: String,
}

/// A stored message as the chat tools show it; the time is already formatted.
pub struct MessageInfo {
    pub chat_id: String,
    pub role: String,
    pub content: String,
    pub created_at: String,
}

/// One line of `chat_list`.
pub open spec fn chat_info_line(c: ChatInfo) -> Seq<char> {
    "["@ + c.id@ + "] "@ + match c.title {
        Some(t) => t@,
        None => "(no title)"@,
    } + " (Channel: "@ + c.channel_id@ + ")"@
}

/// One line of `chat_read`.
pub open spec fn message_line(m: MessageInfo) -> Seq<char> {
    "["@ + m.created_at@ + "] "@ + m.role@ + ": "@ + m.content@
}

/// One line of `chat_search`.
pub open spec fn found_message_line(m: MessageInfo) -> Seq<char> {
    "["@ + m.created_at@ + "] Chat: "@ + m.chat_id@ + " | "@ + m.role@ + ": "@ + m.content@
}

/// The tool `chat_list`.
pub struct ChatListTool;

impl ChatListTool {
    /// Its declaration.
    pub fn spec(&self) -> (r: ToolSpec)
        ensures
            r.name@ == "chat_list"@,
            r.risk == ToolRisk::Low,
            !r.side_effect,
    {
        tool_spec("chat_list", "List all available chat conversations.", ToolRisk::Low, false)
    }

    /// Its answer: one line per chat.
    pub fn result(&self, call_id: &str, chats: &Vec<ChatInfo>) -> (r: ToolResult)
        ensures
            ok_result(
                r,
                call_id@,
                "chat_list"@,
                if chats@.len() == 0 {
                    "No chats found."@
                } else {
                    join(chats@.map_values(|c: ChatInfo| chat_info_line(c)), "\n"@)
                },
            ),
    {
        if chats.len() == 0 {
            return tool_result(call_id, "chat_list", lit("No chats found."), false);
        }
        let ghost f = |c: ChatInfo| chat_info_line(c);
        let mut lines: Vec<String> = Vec::new();
        let mut i: usize = 0;
        while i < chats.len()
            invariant
                i <= chats@.len(),
                f == (|c: ChatInfo| chat_info_line(c)),
                views(lines@) == chats@.take(i as int).map_values(f),
            decreases chats@.len() - i,
        {
            let c = &chats[i];
            let mut line = lit("[");
            push_str(&mut line, c.id.as_str());
            push_str(&mut line, "] ");
            match &c.title {
                Some(t) => push_str(&mut line, t.as_str()),
                None => push_str(&mut line, "(no title)"),
            }
            push_str(&mut line, " (Channel: ");
            push_str(&mut line, c.channel_id.as_str());
            push_str(&mut line, ")");
            let ghost before = lines@;
            lines.push(line);
            assert(views(lines@) =~= views(before).push(f(chats@[i as int])));
            assert(chats@.take(i + 1).map_values(f) =~= chats@.take(i as int).map_values(f).push(
                f(chats@[i as int]),
            ));
            i = i + 1;
        }
        assert(chats@.take(chats@.len() as int) =~= chats@);
        assert(lines@.map_values(|p: String| p@) =~= views(lines@));
        tool_result(call_id, "chat_list", crate::text::join_strings(&lines, "\n"), false)
    }
}

/// The lines of messages, one per message, with `found` choosing the line of
/// `chat_search` over that of `chat_read`.
fn message_lines(messages: &Vec<MessageInfo>, found: bool) -> (r: Vec<String>)
    ensures
        found ==> views(r@) == messages@.map_values(|m: MessageInfo| found_message_line(m)),
        !found ==> views(r@) == messages@.map_values(|m: MessageInfo| message_line(m)),
{
    let ghost f = |m: MessageInfo| if found {
        found_message_line(m)
    } else {
        message_line(m)
    };
    let mut lines: Vec<String> = Vec::new();
    let mut i: usize = 0;
    while i < messages.len()
        invariant
            i <= messages@.len(),
            f == (|m: MessageInfo| if found {
                found_message_line(m)
            } else {
                message_line(m)
            }),
            views(lines@) == messages@.take(i as int).map_values(f),
        decreases messages@.len() - i,
    {
        let m = &messages[i];
        let mut line = lit("[");
        push_str(&mut line, m.created_at.as_str());
        if found {
            push_str(&mut line, "] Chat: ");
            push_str(&mut line, m.chat_id.as_str());
            push_str(&mut line, " | ");
        } else {
            push_str(&mut line, "] ");
        }
        push_str(&mut line, m.role.as_str());
        push_str(&mut line, ": ");
        push_str(&mut line, m.content.as_str());
        let ghost before = lines@;
        lines.push(line);
        assert(views(lines@) =~= views(before).push(f(messages@[i as int])));
        assert(messages@.take(i + 1).map_values(f) =~= messages@.take(i as int).map_values(f).push(
            f(messages@[i as int]),
        ));
        i = i + 1;
    }
    assert(messages@.take(messages@.len() as int) =~= messages@);
    if found {
        assert(messages@.map_values(f) =~= messages@.map_values(|m: MessageInfo| found_message_line(m)));
    } else {
        assert(messages@.map_values(f) =~= messages@.map_values(|m: MessageInfo| message_line(m)));
    }
    lines
}

/// The tool `chat_read`.
pub struct ChatReadTool;

impl ChatReadTool {
    /// Its declaration.
    pub fn spec(&self) -> (r: ToolSpec)
        ensures
            r.name@ == "chat_read"@,
            r.risk == ToolRisk::Low,
            !r.side_effect,
    {
        tool_spec("chat_read", "Read recent messages from a specific chat conversation.", ToolRisk::Low, false)
    }

    /// The chat to read, which is required, and how many messages: twenty
    /// unless the call says otherwise.
    pub fn request(&self, chat_id: Option<String>, limit: Option<i64>) -> (r: Result<(String, i64), String>)
        ensures
            chat_id is None ==> (r matches Err(e) && e@ == "Missing chat_id"@),
            chat_id is Some ==> r == Ok::<(String, i64), String>(
                (
                    chat_id.unwrap(),
                    match limit {
                        Some(n) => n,
                        None => 20,
                    },
                ),
            ),
    {
        let id = match required(chat_id, "Missing chat_id") {
            Ok(v) => v,
            Err(e) => {
                return Err(e);
            },
        };
        Ok(
            (
                id,
                match limit {
                    Some(n) => n,
                    None => 20,
                },
            ),
        )
    }

    /// Its answer: one line per message.
    pub fn result(&self, call_id: &str, messages: &Vec<MessageInfo>) -> (r: ToolResult)
        ensures
            ok_result(
                r,
                call_id@,
                "chat_read"@,
                if messages@.len() == 0 {
                    "No messages found in this chat."@
                } else {
                    join(messages@.map_values(|m: MessageInfo| message_line(m)), "\n"@)
                },
            ),
    {
        if messages.len() == 0 {
            return tool_result(call_id, "chat_read", lit("No messages found in this chat."), false);
        }
        let lines = message_lines(messages, false);
        assert(lines@.map_values(|p: String| p@) =~= views(lines@));
        tool_result(call_id, "chat_read", crate::text::join_strings(&lines, "\n"), false)
    }
}

/// The tool `chat_search`.
pub struct ChatSearchTool;

impl ChatSearchTool {
    /// Its declaration.
    pub fn spec(&self) -> (r: ToolSpec)
        ensures
            r.name@ == "chat_search"@,
            r.risk == ToolRisk::Low,
            !r.side_effect,
    {
        tool_spec(
            "chat_search",
            "Search for messages across all conversations using keywords.",
            ToolRisk::Low,
            false,
        )
    }

    /// The terms, which are required, and how many messages: twenty unless
    /// the call says otherwise.
    pub fn request(&self, terms: Option<Vec<String>>, limit: Option<i64>) -> (r: Result<(Vec<String>, i64), String>)
        ensures
            terms is None ==> (r matches Err(e) && e@ == "Missing terms"@),
            terms is Some ==> r == Ok::<(Vec<String>, i64), String>(
                (
                    terms.unwrap(),
                    match limit {
                        Some(n) => n,
                        None => 20,
                    },
                ),
            ),
    {
        match terms {
            Some(ts) => Ok(
                (
                    ts,
                    match limit {
                        Some(n) => n,
                        None => 20,
                    },
                ),
            ),
            None => Err(lit("Missing terms")),
        }
    }

    /// Its answer: one line per message found, naming its chat.
    pub fn result(&self, call_id: &str, messages: &Vec<MessageInfo>) -> (r: ToolResult)
        ensures
            ok_result(
                r,
                call_id@,
                "chat_search"@,
                if messages@.len() == 0 {
                    "No matching messages found."@
                } else {
                    join(messages@.map_values(|m: MessageInfo| found_message_line(m)), "\n"@)
                },
            ),
    {
        if messages.len() == 0 {
            return tool_result(call_id, "chat_search", lit("No matching messages found."), false);
        }
        let lines = message_lines(messages, true);
        assert(lines@.map_values(|p: String| p@) =~= views(lines@));
        tool_result(call_id, "chat_search", crate::text::join_strings(&lines, "\n"), false)
    }
}


// ---------------------------------------------------------------------------
// Schedule tools.
// ---------------------------------------------------------------------------

/// A scheduled task as `schedule_list` shows it; the next run is already
/// written in RFC 3339.
pub struct TaskInfo {
    pub id: String,
    pub name: String,
    pub schedule: String,
    pub enabled: bool,
    pub next_run: Option<String>,
}

/// One line of `schedule_list`.
pub open spec fn task_info_line(t: TaskInfo) -> Seq<char> {
    "- ["@ + t.id@ + "] "@ + t.name@ + ": "@ + t.schedule@ + " ("@ + (if t.enabled {
        "Enabled"@
    } else {
        "Disabled"@
    }) + ") - Next run: "@ + match t.next_run {
        Some(n) => n@,
        None => "N/A"@,
    } + "\n"@
}

/// The lines of the tasks, in order.
pub open spec fn task_info_lines(ts: Seq<TaskInfo>) -> Seq<char>
    decreases ts.len(),
{
    if ts.len() == 0 {
        seq![]
    } else {
        task_info_lines(ts.drop_last()) + task_info_line(ts.last())
    }
}

/// What `schedule_create` and `schedule_update` schedule: a name, a schedule
/// text, the content of the message and whether the assistant answers it.
pub struct TaskDraft {
    pub name: String,
    pub schedule: String,
    pub content: String,
    pub generate: bool,
}

/// The draft when name, schedule and content are all given; else the error
/// for the first one missing.
pub open spec fn draft_is(
    r: Result<TaskDraft, String>,
    name: Option<String>,
    schedule: Option<String>,
    content: Option<String>,
    generate: Option<bool>,
) -> bool {
    match (name, schedule, content) {
        (Some(n), Some(s), Some(c)) => r matches Ok(d) && d.name == n && d.schedule == s
            && d.content == c && d.generate == match generate {
            Some(g) => g,
            None => false,
        },
        (None, _, _) => r matches Err(e) && e@ == "Missing name"@,
        (Some(_), None, _) => r matches Err(e) && e@ == "Missing schedule"@,
        (Some(_), Some(_), None) => r matches Err(e) && e@ == "Missing content"@,
    }
}

/// The draft of a task from the arguments of a call.
pub fn task_draft(
    name: Option<String>,
    schedule: Option<String>,
    content: Option<String>,
    generate: Option<bool>,
) -> (r: Result<TaskDraft, String>)
    ensures
        draft_is(r, name, schedule, content, generate),
{
    let name = match required(name, "Missing name") {
        Ok(v) => v,
        Err(e) => {
            return Err(e);
        },
    };
    let schedule = match required(schedule, "Missing schedule") {
        Ok(v) => v,
        Err(e) => {
            return Err(e);
        },
    };
    let content = match required(content, "Missing content") {
        Ok(v) => v,
        Err(e) => {
            return Err(e);
        },
    };
    let generate = match generate {
        Some(g) => g,
        None => false,
    };
    Ok(TaskDraft { name, schedule, content, generate })
}

/// The tool `schedule_create`.
pub struct ScheduleCreateTool;

impl ScheduleCreateTool {
    /// Its declaration.
    pub fn spec(&self) -> (r: ToolSpec)
        ensures
            r.name@ == "schedule_create"@,
            r.risk == ToolRisk::Medium,
            r.side_effect,
    {
        tool_spec(
            "schedule_create",
            "Schedule a task to run in the future or periodically.",
            ToolRisk::Medium,
            true,
        )
    }

    /// Its answer once the task is scheduled under `task_id`.
    pub fn result(&self, call_id: &str, name: &str, task_id: &str) -> (r: ToolResult)
        ensures
            ok_result(
                r,
                call_id@,
                "schedule_create"@,
                "Task '"@ + name@ + "' scheduled successfully (ID: "@ + task_id@ + ")."@,
            ),
    {
        let mut t = crate::builtin::concat3("Task '", name, "' scheduled successfully (ID: ");
        push_str(&mut t, task_id);
        push_str(&mut t, ").");
        tool_result(call_id, "schedule_create", t, false)
    }
}

/// The tool `schedule_list`.
pub struct ScheduleListTool;

impl ScheduleListTool {
    /// Its declaration.
    pub fn spec(&self) -> (r: ToolSpec)
        ensures
            r.name@ == "schedule_list"@,
            r.risk == ToolRisk::Low,
            !r.side_effect,
    {
        tool_spec("schedule_list", "List all scheduled tasks.", ToolRisk::Low, false)
    }

    /// Its answer: one line per task with its state and next run.
    pub fn result(&self, call_id: &str, tasks: &Vec<TaskInfo>) -> (r: ToolResult)
        ensures
            ok_result(
                r,
                call_id@,
                "schedule_list"@,
                if tasks@.len() == 0 {
                    "No tasks scheduled."@
                } else {
                    "Scheduled Tasks:\n"@ + task_info_lines(tasks@)
                },
            ),
    {
        if tasks.len() == 0 {
            return tool_result(call_id, "schedule_list", lit("No tasks scheduled."), false);
        }
        let mut out = lit("Scheduled Tasks:\n");
        let ghost head = out@;
        let mut i: usize = 0;
        while i < tasks.len()
            invariant
                i <= tasks@.len(),
                out@ == head + task_info_lines(tasks@.take(i as int)),
            decreases tasks@.len() - i,
        {
            assert(tasks@.take(i + 1).drop_last() =~= tasks@.take(i as int));
            let line = task_info_text(&tasks[i]);
            push_str(&mut out, line.as_str());
            i = i + 1;
        }
        assert(tasks@.take(tasks@.len() as int) =~= tasks@);
        tool_result(call_id, "schedule_list", out, false)
    }
}

/// One line of `schedule_list`.
fn task_info_text(t: &TaskInfo) -> (r: String)
    ensures
        r@ == task_info_line(*t),
{
    let mut out = lit("- [");
    push_str(&mut out, t.id.as_str());
    push_str(&mut out, "] ");
    push_str(&mut out, t.name.as_str());
    push_str(&mut out, ": ");
    push_str(&mut out, t.schedule.as_str());
    push_str(&mut out, " (");
    if t.enabled {
        push_str(&mut out, "Enabled");
    } else {
        push_str(&mut out, "Disabled");
    }
    push_str(&mut out, ") - Next run: ");
    match &t.next_run {
        Some(n) => push_str(&mut out, n.as_str()),
        None => push_str(&mut out, "N/A"),
    }
    push_str(&mut out, "\n");
    out
}

/// The tool `schedule_delete`.
pub struct ScheduleDeleteTool;

impl ScheduleDeleteTool {
    /// Its declaration.
    pub fn spec(&self) -> (r: ToolSpec)
        ensures
            r.name@ == "schedule_delete"@,
            r.risk == ToolRisk::Medium,
            r.side_effect,
    {
        tool_spec("schedule_delete", "Cancel and delete a scheduled task.", ToolRisk::Medium, true)
    }

    /// Its answer: success, or an error result when there was no such task.
    pub fn result(&self, call_id: &str, id: &str, deleted: bool) -> (r: ToolResult)
        ensures
            r.tool_call_id@ == call_id@,
            r.name@ == "schedule_delete"@,
            r.is_error == !deleted,
            deleted ==> r.content@ == "Task '"@ + id@ + "' deleted successfully."@,
            !deleted ==> r.content@ == "Task '"@ + id@ + "' not found or already deleted."@,
    {
        if deleted {
            tool_result(call_id, "schedule_delete", crate::builtin::concat3("Task '", id, "' deleted successfully."), false)
        } else {
            tool_result(
                call_id,
                "schedule_delete",
                crate::builtin::concat3("Task '", id, "' not found or already deleted."),
                true,
            )
        }
    }
}

/// The tool `schedule_update`, which replaces a task by a new one.
pub struct ScheduleUpdateTool;

impl ScheduleUpdateTool {
    /// Its declaration.
    pub fn spec(&self) -> (r: ToolSpec)
        ensures
            r.name@ == "schedule_update"@,
            r.risk == ToolRisk::Medium,
            r.side_effect,
    {
        tool_spec(
            "schedule_update",
            "Update an existing scheduled task by deleting and recreating it.",
            ToolRisk::Medium,
            true,
        )
    }

    /// The task to replace, which is required, and the new draft.
    pub fn request(
        &self,
        id: Option<String>,
        name: Option<String>,
        schedule: Option<String>,
        content: Option<String>,
        generate: Option<bool>,
    ) -> (r: Result<(String, TaskDraft), String>)
        ensures
            id is None ==> (r matches Err(e) && e@ == "Missing id"@),
            id is Some ==> match r {
                Ok((i, d)) => i == id.unwrap() && draft_is(Ok(d), name, schedule, content, generate),
                Err(e) => draft_is(Err(e), name, schedule, content, generate),
            },
    {
        let id = match required(id, "Missing id") {
            Ok(v) => v,
            Err(e) => {
                return Err(e);
            },
        };
        match task_draft(name, schedule, content, generate) {
            Ok(d) => Ok((id, d)),
            Err(e) => Err(e),
        }
    }

    /// Its answer once the task is replaced by `new_id`.
    pub fn result(&self, call_id: &str, new_id: &str) -> (r: ToolResult)
        ensures
            ok_result(r, call_id@, "schedule_update"@, "Task updated successfully (new ID: "@ + new_id@ + ")."@),
    {
        tool_result(
            call_id,
            "schedule_update",
            crate::builtin::concat3("Task updated successfully (new ID: ", new_id, ")."),
            false,
        )
    }
}

// ---------------------------------------------------------------------------
// Agent tools.
// ---------------------------------------------------------------------------

/// An agent as `agent_list` shows it.
pub struct AgentInfo {
    pub id: String,
    pub name: String,
}

/// One line of `agent_list`.
pub open spec fn agent_line(a: AgentInfo) -> Seq<char> {
    "- "@ + a.name@ + " (ID: "@ + a.id@ + ")"@
}

/// The tool `agent_list`.
pub struct AgentListTool;

impl AgentListTool {
    /// Its declaration.
    pub fn spec(&self) -> (r: ToolSpec)
        ensures
            r.name@ == "agent_list"@,
            r.risk == ToolRisk::Low,
            !r.side_effect,
    {
        tool_spec("agent_list", "List all available utility agents and their roles.", ToolRisk::Low, false)
    }

    /// Its answer: the agents, one per line.
    pub fn result(&self, call_id: &str, agents: &Vec<AgentInfo>) -> (r: ToolResult)
        ensures
            ok_result(
                r,
                call_id@,
                "agent_list"@,
                if agents@.len() == 0 {
                    "No utility agents found. You are the only agent available."@
                } else {
                    "Available agents:\n"@ + join(agents@.map_values(|a: AgentInfo| agent_line(a)), "\n"@)
                },
            ),
    {
        if agents.len() == 0 {
            return tool_result(
                call_id,
                "agent_list",
                lit("No utility agents found. You are the only agent available."),
                false,
            );
        }
        let ghost f = |a: AgentInfo| agent_line(a);
        let mut lines: Vec<String> = Vec::new();
        let mut i: usize = 0;
        while i < agents.len()
            invariant
                i <= agents@.len(),
                f == (|a: AgentInfo| agent_line(a)),
                views(lines@) == agents@.take(i as int).map_values(f),
            decreases agents@.len() - i,
        {
            let line = crate::builtin::concat5("- ", agents[i].name.as_str(), " (ID: ", agents[i].id.as_str(), ")");
            let ghost before = lines@;
            lines.push(line);
            assert(views(lines@) =~= views(before).push(f(agents@[i as int])));
            assert(agents@.take(i + 1).map_values(f) =~= agents@.take(i as int).map_values(f).push(
                f(agents@[i as int]),
            ));
            i = i + 1;
        }
        assert(agents@.take(agents@.len() as int) =~= agents@);
        assert(lines@.map_values(|p: String| p@) =~= views(lines@));
        let mut out = lit("Available agents:\n");
        let body = crate::text::join_strings(&lines, "\n");
        push_str(&mut out, body.as_str());
        tool_result(call_id, "agent_list", out, false)
    }
}

/// The tool `agent_call`.
pub struct AgentCallTool;

impl AgentCallTool {
    /// Its declaration.
    pub fn spec(&self) -> (r: ToolSpec)
        ensures
            r.name@ == "agent_call"@,
            r.risk == ToolRisk::Medium,
            r.side_effect,
    {
        tool_spec(
            "agent_call",
            "Invoke another agent to process a specific request or content.",
            ToolRisk::Medium,
            true,
        )
    }

    /// The agent, the request and the chat to use: the call's chat, else the
    /// current one.
    pub fn request(
        &self,
        agent_id: Option<String>,
        content: Option<String>,
        chat_id: Option<String>,
        current_chat: &str,
    ) -> (r: Result<(String, String, String), String>)
        ensures
            agent_id is None ==> (r matches Err(e) && e@ == "Missing agent_id"@),
            agent_id is Some && content is None ==> (r matches Err(e) && e@ == "Missing content"@),
            agent_id is Some && content is Some ==> (r matches Ok((a, c, t)) && a == agent_id.unwrap()
                && c == content.unwrap() && t@ == match chat_id {
                Some(x) => x@,
                None => current_chat@,
            }),
    {
        let agent = match required(agent_id, "Missing agent_id") {
            Ok(v) => v,
            Err(e) => {
                return Err(e);
            },
        };
        let content = match required(content, "Missing content") {
            Ok(v) => v,
            Err(e) => {
                return Err(e);
            },
        };
        let target = match chat_id {
            Some(c) => c,
            None => owned(current_chat),
        };
        Ok((agent, content, target))
    }

    /// Its answer: what the other agent replied.
    pub fn result(&self, call_id: &str, response: String) -> (r: ToolResult)
        ensures
            r.tool_call_id@ == call_id@ && r.name@ == "agent_call"@ && r.content == response
                && !r.is_error,
    {
        tool_result(call_id, "agent_call", response, false)
    }
}

} // verus!
