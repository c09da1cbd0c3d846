use vstd::prelude::*;
use crate::builtin::{arg, arg_at, args_of, concat3, first_or, first_or_default, sub_names};
use crate::command::{ArgSpec, CommandSpec, ValueType};
use crate::schedule::{format_minute, minute_text, parse_rfc3339, rfc3339_time, Timestamp};
use crate::text::{contains, lit, push_str, str_contains, str_eq, trim, trim_str, views};

verus! {

broadcast use vstd::string::group_string_axioms;

/// The declaration of `/memory`.
pub fn spec() -> (r: CommandSpec)
    ensures
        r.name@ == "memory"@,
        r.category@ == "system"@,
        views(r.command_aliases@) == seq!["mem"@],
        !r.allow_unknown_subcommands,
        sub_names(r) == seq!["list"@, "search"@, "delete"@, "create"@],
        args_of(r.subcommands@[1]) == seq![("term"@, true, ValueType::String, false)],
        args_of(r.subcommands@[2]) == seq![("id"@, true, ValueType::String, false)],
        args_of(r.subcommands@[3]) == seq![
            ("id"@, true, ValueType::String, false),
            ("brief"@, true, ValueType::String, false),
            ("content"@, false, ValueType::String, false),
            ("important"@, false, ValueType::Boolean, false),
        ],
{
    let list = CommandSpec::new("list", "/memory list", "List memories");
    let search = CommandSpec::new("search", "/memory search <term>", "Search memories").arg(
        ArgSpec::required("term", "Search term"),
    );
    let delete = CommandSpec::new("delete", "/memory delete <id>", "Delete a memory").arg(
        ArgSpec::required("id", "Memory id"),
    );
    let create = CommandSpec::new(
        "create",
        "/memory create <id> <brief> [content] [important]",
        "Create a memory",
    ).arg(ArgSpec::required("id", "Memory id")).arg(
        ArgSpec::required("brief", "Short memory summary"),
    ).arg(ArgSpec::optional("content", "Memory content")).arg(
        ArgSpec::optional("important", "true or false").value_type(ValueType::Boolean),
    );
    let r = CommandSpec::new("memory", "/memory <list|search|delete|create> [args]", "Manage agent memories")
        .category("system")
        .command_alias("mem")
        .strict_subcommands()
        .subcommand(list)
        .subcommand(search)
        .subcommand(delete)
        .subcommand(create);
    assert(sub_names(r) =~= seq!["list"@, "search"@, "delete"@, "create"@]);
    assert(args_of(r.subcommands@[1]) =~= seq![("term"@, true, ValueType::String, false)]);
    assert(args_of(r.subcommands@[2]) =~= seq![("id"@, true, ValueType::String, false)]);
    assert(args_of(r.subcommands@[3]) =~= seq![
        ("id"@, true, ValueType::String, false),
        ("brief"@, true, ValueType::String, false),
        ("content"@, false, ValueType::String, false),
        ("important"@, false, ValueType::Boolean, false),
    ]);
    r
}

/// A memory as `/memory` shows it; the date is already formatted.
pub struct MemoryEntry {
    pub id: String,
    pub brief: String,
    pub content: Option<String>,
    pub is_important: bool,
    pub created_at: String,
}

/// What `/memory` has to do.
pub enum MemoryRequest {
    List,
    Search(String),
    Delete(String),
    Create { id: String, brief: String, content: Option<String>, important: bool },
}

/// The text a memory is listed by: its brief unless that is blank, else its
/// content, else a placeholder.
pub open spec fn display_text(m: MemoryEntry) -> Seq<char> {
    if trim(m.brief@).len() > 0 {
        m.brief@
    } else {
        match m.content {
            Some(c) => c@,
            None => "(no content)"@,
        }
    }
}

/// The date a memory shows: its RFC 3339 creation time as
/// `%Y-%m-%d %H:%M` in UTC, or the Unix epoch's when the text does not parse.
pub open spec fn memory_date(created_at: Seq<char>) -> Seq<char> {
    match rfc3339_time(created_at) {
        Some((secs, nanos)) => minute_text(secs, nanos),
        None => minute_text(0, 0),
    }
}

/// The date shown for a memory created at `created_at`.
pub fn memory_date_of(created_at: &str) -> (r: String)
    ensures
        r@ == memory_date(created_at@),
{
    match parse_rfc3339(created_at) {
        Some(t) => format_minute(t),
        None => format_minute(Timestamp { secs: 0, nanos: 0 }),
    }
}

/// One line of `/memory list`.
pub open spec fn memory_line(m: MemoryEntry) -> Seq<char> {
    "- ["@ + m.id@ + "] "@ + memory_date(m.created_at@) + ": "@ + display_text(m) + (if m.is_important {
        " [IMPORTANT]"@
    } else {
        seq![]
    }) + "\n"@
}

/// The lines of the memories, in order.
pub open spec fn memory_lines(ms: Seq<MemoryEntry>) -> Seq<char>
    decreases ms.len(),
{
    if ms.len() == 0 {
        seq![]
    } else {
        memory_lines(ms.drop_last()) + memory_line(ms.last())
    }
}

/// The reply of `/memory list`.
pub open spec fn memory_list_text(ms: Seq<MemoryEntry>) -> Seq<char> {
    if ms.len() == 0 {
        "No memories stored yet."@
    } else {
        "Agent Memories:\n"@ + memory_lines(ms)
    }
}

/// A memory matches a search term when its brief or its content holds it.
pub open spec fn memory_matches(m: MemoryEntry, term: Seq<char>) -> bool {
    contains(m.brief@, term) || contains(
        match m.content {
            Some(c) => c@,
            None => seq![],
        },
        term,
    )
}

/// The result lines of a search, in order.
pub open spec fn search_lines(ms: Seq<MemoryEntry>, term: Seq<char>) -> Seq<char>
    decreases ms.len(),
{
    if ms.len() == 0 {
        seq![]
    } else if memory_matches(ms.last(), term) {
        search_lines(ms.drop_last(), term) + "- ["@ + ms.last().id@ + "] Brief: "@ + ms.last().brief@
            + "\n"@
    } else {
        search_lines(ms.drop_last(), term)
    }
}

/// Some memory matches the term.
pub open spec fn any_match(ms: Seq<MemoryEntry>, term: Seq<char>) -> bool {
    exists|i: int| 0 <= i < ms.len() && memory_matches(#[trigger] ms[i], term)
}

/// The reply of `/memory search`.
pub open spec fn memory_search_text(ms: Seq<MemoryEntry>, term: Seq<char>) -> Seq<char> {
    if !any_match(ms, term) {
        "No memories found matching '"@ + term + "'."@
    } else {
        "Search results for '"@ + term + "':\n"@ + search_lines(ms, term)
    }
}

/// The handler of `/memory`.
pub struct MemoryCommand;

impl MemoryCommand {
    /// What `/memory` does with `args`; an error names what is missing or wrong.
    pub fn plan(&self, args: &Vec<String>) -> (r: Result<MemoryRequest, String>)
        ensures
            ({
                let av = views(args@);
                let op = first_or(av, "list"@);
                if op == "list"@ {
                    r matches Ok(MemoryRequest::List)
                } else if op == "search"@ {
                    match arg_at(av, 1) {
                        Some(t) => r matches Ok(MemoryRequest::Search(s)) && s@ == t,
                        None => r matches Err(e) && e@ == "Missing search term: /memory search <term>"@,
                    }
                } else if op == "delete"@ {
                    match arg_at(av, 1) {
                        Some(t) => r matches Ok(MemoryRequest::Delete(s)) && s@ == t,
                        None => r matches Err(e) && e@ == "Missing memory ID: /memory delete <id>"@,
                    }
                } else if op == "create"@ {
                    if av.len() < 2 {
                        r matches Err(e) && e@
                            == "Missing ID: /memory create <id> <brief> [content] [important:true|false]"@
                    } else if av.len() < 3 {
                        r matches Err(e) && e@ == "Missing brief: /memory create <id> <brief> [content]"@
                    } else {
                        r matches Ok(MemoryRequest::Create { id, brief, content, important })
                            && id@ == av[1] && brief@ == av[2] && (match arg_at(av, 3) {
                            Some(c) => content matches Some(s) && s@ == c,
                            None => content is None,
                        }) && important == (av.len() > 4 && av[4] == "true"@)
                    }
                } else {
                    r matches Err(e) && e@ == "Unknown subcommand: "@ + op
                        + ". Use list, search, delete, or create."@
                }
            }),
    {
        let op = first_or_default(args, "list");
        if str_eq(op.as_str(), "list") {
            Ok(MemoryRequest::List)
        } else if str_eq(op.as_str(), "search") {
            match arg(args, 1) {
                Some(t) => Ok(MemoryRequest::Search(t)),
                None => Err(lit("Missing search term: /memory search <term>")),
            }
        } else if str_eq(op.as_str(), "delete") {
            match arg(args, 1) {
                Some(t) => Ok(MemoryRequest::Delete(t)),
                None => Err(lit("Missing memory ID: /memory delete <id>")),
            }
        } else if str_eq(op.as_str(), "create") {
            let id = match arg(args, 1) {
                Some(i) => i,
                None => {
                    return Err(
                        lit("Missing ID: /memory create <id> <brief> [content] [important:true|false]"),
                    );
                },
            };
            let brief = match arg(args, 2) {
                Some(b) => b,
                None => {
                    return Err(lit("Missing brief: /memory create <id> <brief> [content]"));
                },
            };
            let content = arg(args, 3);
            let important = match arg(args, 4) {
                Some(s) => str_eq(s.as_str(), "true"),
                None => false,
            };
            Ok(MemoryRequest::Create { id, brief, content, important })
        } else {
            Err(concat3("Unknown subcommand: ", op.as_str(), ". Use list, search, delete, or create."))
        }
    }

    /// The reply of `/memory list`.
    pub fn list_reply(&self, memories: &Vec<MemoryEntry>) -> (r: String)
        ensures
            r@ == memory_list_text(memories@),
    {
        if memories.len() == 0 {
            return lit("No memories stored yet.");
        }
        let mut out = lit("Agent Memories:\n");
        let ghost head = out@;
        let mut i: usize = 0;
        while i < memories.len()
            invariant
                i <= memories@.len(),
                out@ == head + memory_lines(memories@.take(i as int)),
            decreases memories@.len() - i,
        {
            assert(memories@.take(i + 1).drop_last() =~= memories@.take(i as int));
            let line = line_of(&memories[i]);
            push_str(&mut out, line.as_str());
            i = i + 1;
        }
        assert(memories@.take(memories@.len() as int) =~= memories@);
        out
    }

    /// The reply of `/memory search` for `term` over `memories`.
    pub fn search_reply(&self, term: &str, memories: &Vec<MemoryEntry>) -> (r: String)
        ensures
            r@ == memory_search_text(memories@, term@),
    {
        let mut body = String::new();
        let mut found = false;
        let mut i: usize = 0;
        while i < memories.len()
            invariant
                i <= memories@.len(),
                body@ == search_lines(memories@.take(i as int), term@),
                found == any_match(memories@.take(i as int), term@),
            decreases memories@.len() - i,
        {
            let m = &memories[i];
            let ghost prefix = memories@.take(i as int);
            assert(memories@.take(i + 1).drop_last() =~= prefix);
            let in_content = match &m.content {
                Some(c) => str_contains(c.as_str(), term),
                None => {
                    let empty = String::new();
                    str_contains(empty.as_str(), term)
                },
            };
            let hit = str_contains(m.brief.as_str(), term) || in_content;
            assert(hit == memory_matches(memories@[i as int], term@));
            if hit {
                push_str(&mut body, "- [");
                push_str(&mut body, m.id.as_str());
                push_str(&mut body, "] Brief: ");
                push_str(&mut body, m.brief.as_str());
                push_str(&mut body, "\n");
                found = true;
                assert(memories@.take(i + 1)[i as int] == memories@[i as int]);
            } else {
                assert(any_match(memories@.take(i + 1), term@) == any_match(prefix, term@)) by {
                    if any_match(memories@.take(i + 1), term@) {
                        let k = choose|k: int|
                            0 <= k < i + 1 && memory_matches(#[trigger] memories@.take(i + 1)[k], term@);
                        assert(k < i);
                        assert(prefix[k] == memories@.take(i + 1)[k]);
                    }
                }
            }
            proof {
                if any_match(prefix, term@) {
                    let k = choose|k: int| 0 <= k < prefix.len() && memory_matches(#[trigger] prefix[k], term@);
                    assert(memories@.take(i + 1)[k] == prefix[k]);
                }
            }
            i = i + 1;
        }
        assert(memories@.take(memories@.len() as int) =~= memories@);
        if !found {
            let mut t = lit("No memories found matching '");
            push_str(&mut t, term);
            push_str(&mut t, "'.");
            t
        } else {
            let mut t = lit("Search results for '");
            push_str(&mut t, term);
            push_str(&mut t, "':\n");
            push_str(&mut t, body.as_str());
            t
        }
    }

    /// The reply of `/memory delete`.
    pub fn delete_reply(&self, id: &str, deleted: bool) -> (r: String)
        ensures
            deleted ==> r@ == "Memory '"@ + id@ + "' deleted."@,
            !deleted ==> r@ == "Memory '"@ + id@ + "' not found."@,
    {
        if deleted {
            concat3("Memory '", id, "' deleted.")
        } else {
            concat3("Memory '", id, "' not found.")
        }
    }

    /// The reply of `/memory create`.
    pub fn created_reply(&self, id: &str) -> (r: String)
        ensures
            r@ == "Memory '"@ + id@ + "' created successfully."@,
    {
        concat3("Memory '", id, "' created successfully.")
    }
}

/// One line of `/memory list`.
fn line_of(m: &MemoryEntry) -> (r: String)
    ensures
        r@ == memory_line(*m),
{
    let mut out = lit("- [");
    push_str(&mut out, m.id.as_str());
    push_str(&mut out, "] ");
    let date = memory_date_of(m.created_at.as_str());
    push_str(&mut out, date.as_str());
    push_str(&mut out, ": ");
    let trimmed = trim_str(m.brief.as_str());
    if !trimmed.as_str().is_empty() {
        push_str(&mut out, m.brief.as_str());
    } else {
        match &m.content {
            Some(c) => push_str(&mut out, c.as_str()),
            None => push_str(&mut out, "(no content)"),
        }
    }
    if m.is_important {
        push_str(&mut out, " [IMPORTANT]");
    }
    push_str(&mut out, "\n");
    out
}

} // verus!
