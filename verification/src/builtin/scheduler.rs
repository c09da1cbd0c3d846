use vstd::prelude::*;
use crate::builtin::{arg, arg_at, args_of, concat3, first_or, first_or_default, sub_names};
use crate::command::{ArgSpec, CommandSpec, ValueType};
use crate::text::{contains, lit, push_str, str_contains, str_eq, views};

verus! {

broadcast use vstd::string::group_string_axioms;

/// The declaration of `/scheduler`.
pub fn spec() -> (r: CommandSpec)
    ensures
        r.name@ == "scheduler"@,
        r.category@ == "system"@,
        views(r.command_aliases@) == seq!["sched"@],
        !r.allow_unknown_subcommands,
        sub_names(r) == seq!["list"@, "delete"@, "search"@],
        args_of(r.subcommands@[1]) == seq![("id"@, true, ValueType::String, false)],
        args_of(r.subcommands@[2]) == seq![("term"@, true, ValueType::String, false)],
{
    let list = CommandSpec::new("list", "/scheduler list", "List scheduled tasks");
    let delete = CommandSpec::new("delete", "/scheduler delete <id>", "Delete a scheduled task").arg(
        ArgSpec::required("id", "Task id"),
    );
    let search = CommandSpec::new("search", "/scheduler search <term>", "Search scheduled tasks")
        .arg(ArgSpec::required("term", "Search term"));
    let r = CommandSpec::new("scheduler", "/scheduler <list|delete|search> [args]", "Manage scheduled tasks")
        .category("system")
        .command_alias("sched")
        .strict_subcommands()
        .subcommand(list)
        .subcommand(delete)
        .subcommand(search);
    assert(sub_names(r) =~= seq!["list"@, "delete"@, "search"@]);
    assert(args_of(r.subcommands@[1]) =~= seq![("id"@, true, ValueType::String, false)]);
    assert(args_of(r.subcommands@[2]) =~= seq![("term"@, true, ValueType::String, false)]);
    r
}

/// A scheduled task as `/scheduler` shows it; the next run is already
/// formatted.
pub struct TaskEntry {
    pub id: String,
    pub name: String,
    pub schedule: String,
    pub enabled: bool,
    pub next_run: Option<String>,
}

/// What `/scheduler` has to do.
pub enum SchedulerRequest {
    List,
    Delete(String),
    Search(String),
}

/// One line of `/scheduler list`.
pub open spec fn task_line(t: TaskEntry) -> Seq<char> {
    "- ["@ + t.id@ + "] "@ + t.name@ + ": "@ + t.schedule@ + " ("@ + (if t.enabled {
        "Enabled"@
    } else {
        "Disabled"@
    }) + ") | Next: "@ + match t.next_run {
        Some(n) => n@,
        None => "N/A"@,
    } + "\n"@
}

/// The lines of the tasks, in order.
pub open spec fn task_lines(ts: Seq<TaskEntry>) -> Seq<char>
    decreases ts.len(),
{
    if ts.len() == 0 {
        seq![]
    } else {
        task_lines(ts.drop_last()) + task_line(ts.last())
    }
}

/// The reply of `/scheduler list`.
pub open spec fn task_list_text(ts: Seq<TaskEntry>) -> Seq<char> {
    if ts.len() == 0 {
        "No tasks scheduled."@
    } else {
        "Scheduled Tasks:\n"@ + task_lines(ts)
    }
}

/// A task matches a search term when its name or schedule holds it.
pub open spec fn task_matches(t: TaskEntry, term: Seq<char>) -> bool {
    contains(t.name@, term) || contains(t.schedule@, term)
}

/// The result lines of a search, in order.
pub open spec fn task_search_lines(ts: Seq<TaskEntry>, term: Seq<char>) -> Seq<char>
    decreases ts.len(),
{
    if ts.len() == 0 {
        seq![]
    } else if task_matches(ts.last(), term) {
        task_search_lines(ts.drop_last(), term) + "- ["@ + ts.last().id@ + "] "@ + ts.last().name@
            + "\n"@
    } else {
        task_search_lines(ts.drop_last(), term)
    }
}

/// Some task matches the term.
pub open spec fn any_task_match(ts: Seq<TaskEntry>, term: Seq<char>) -> bool {
    exists|i: int| 0 <= i < ts.len() && task_matches(#[trigger] ts[i], term)
}

/// The reply of `/scheduler search`.
pub open spec fn task_search_text(ts: Seq<TaskEntry>, term: Seq<char>) -> Seq<char> {
    if !any_task_match(ts, term) {
        "No tasks found matching '"@ + term + "'."@
    } else {
        "Search results for '"@ + term + "':\n"@ + task_search_lines(ts, term)
    }
}

/// The handler of `/scheduler`.
pub struct SchedulerCommand;

impl SchedulerCommand {
    /// What `/scheduler` does with `args`; an error names what is missing or wrong.
    pub fn plan(&self, args: &Vec<String>) -> (r: Result<SchedulerRequest, String>)
        ensures
            ({
                let av = views(args@);
                let op = first_or(av, "list"@);
                if op == "list"@ {
                    r matches Ok(SchedulerRequest::List)
                } else if op == "delete"@ {
                    match arg_at(av, 1) {
                        Some(t) => r matches Ok(SchedulerRequest::Delete(s)) && s@ == t,
                        None => r matches Err(e) && e@ == "Missing task ID: /scheduler delete <id>"@,
                    }
                } else if op == "search"@ {
                    match arg_at(av, 1) {
                        Some(t) => r matches Ok(SchedulerRequest::Search(s)) && s@ == t,
                        None => r matches Err(e) && e@
                            == "Missing search term: /scheduler search <term>"@,
                    }
                } else {
                    r matches Err(e) && e@ == "Unknown subcommand: "@ + op
                        + ". Use list, delete, or search."@
                }
            }),
    {
        let op = first_or_default(args, "list");
        if str_eq(op.as_str(), "list") {
            Ok(SchedulerRequest::List)
        } else if str_eq(op.as_str(), "delete") {
            match arg(args, 1) {
                Some(t) => Ok(SchedulerRequest::Delete(t)),
                None => Err(lit("Missing task ID: /scheduler delete <id>")),
            }
        } else if str_eq(op.as_str(), "search") {
            match arg(args, 1) {
                Some(t) => Ok(SchedulerRequest::Search(t)),
                None => Err(lit("Missing search term: /scheduler search <term>")),
            }
        } else {
            Err(concat3("Unknown subcommand: ", op.as_str(), ". Use list, delete, or search."))
        }
    }

    /// The reply of `/scheduler list`.
    pub fn list_reply(&self, tasks: &Vec<TaskEntry>) -> (r: String)
        ensures
            r@ == task_list_text(tasks@),
    {
        if tasks.len() == 0 {
            return lit("No tasks scheduled.");
        }
        let mut out = lit("Scheduled Tasks:\n");
        let ghost head = out@;
        let mut i: usize = 0;
        while i < tasks.len()
            invariant
                i <= tasks@.len(),
                out@ == head + task_lines(tasks@.take(i as int)),
            decreases tasks@.len() - i,
        {
            assert(tasks@.take(i + 1).drop_last() =~= tasks@.take(i as int));
            let line = task_line_of(&tasks[i]);
            push_str(&mut out, line.as_str());
            i = i + 1;
        }
        assert(tasks@.take(tasks@.len() as int) =~= tasks@);
        out
    }

    /// The reply of `/scheduler search` for `term` over `tasks`.
    pub fn search_reply(&self, term: &str, tasks: &Vec<TaskEntry>) -> (r: String)
        ensures
            r@ == task_search_text(tasks@, term@),
    {
        let mut body = String::new();
        let mut found = false;
        let mut i: usize = 0;
        while i < tasks.len()
            invariant
                i <= tasks@.len(),
                body@ == task_search_lines(tasks@.take(i as int), term@),
                found == any_task_match(tasks@.take(i as int), term@),
            decreases tasks@.len() - i,
        {
            let t = &tasks[i];
            let ghost prefix = tasks@.take(i as int);
            assert(tasks@.take(i + 1).drop_last() =~= prefix);
            let hit = str_contains(t.name.as_str(), term) || str_contains(t.schedule.as_str(), term);
            if hit {
                push_str(&mut body, "- [");
                push_str(&mut body, t.id.as_str());
                push_str(&mut body, "] ");
                push_str(&mut body, t.name.as_str());
                push_str(&mut body, "\n");
                found = true;
                assert(tasks@.take(i + 1)[i as int] == tasks@[i as int]);
            } else {
                assert(any_task_match(tasks@.take(i + 1), term@) == any_task_match(prefix, term@)) by {
                    if any_task_match(tasks@.take(i + 1), term@) {
                        let k = choose|k: int|
                            0 <= k < i + 1 && task_matches(#[trigger] tasks@.take(i + 1)[k], term@);
                        assert(k < i);
                        assert(prefix[k] == tasks@.take(i + 1)[k]);
                    }
                }
            }
            proof {
                if any_task_match(prefix, term@) {
                    let k = choose|k: int| 0 <= k < prefix.len() && task_matches(#[trigger] prefix[k], term@);
                    assert(tasks@.take(i + 1)[k] == prefix[k]);
                }
            }
            i = i + 1;
        }
        assert(tasks@.take(tasks@.len() as int) =~= tasks@);
        if !found {
            concat3("No tasks found matching '", term, "'.")
        } else {
            let mut t = concat3("Search results for '", term, "':\n");
            push_str(&mut t, body.as_str());
            t
        }
    }

    /// The reply of `/scheduler delete`.
    pub fn delete_reply(&self, id: &str, deleted: bool) -> (r: String)
        ensures
            deleted ==> r@ == "Task '"@ + id@ + "' deleted."@,
            !deleted ==> r@ == "Task '"@ + id@ + "' not found."@,
    {
        if deleted {
            concat3("Task '", id, "' deleted.")
        } else {
            concat3("Task '", id, "' not found.")
        }
    }
}

/// One line of `/scheduler list`.
fn task_line_of(t: &TaskEntry) -> (r: String)
    ensures
        r@ == task_line(*t),
{
    let mut out = lit("- [");
    push_str(&mut out, t.id.as_str());
    push_str(&mut out, "] ");
    push_str(&mut out, t.name.as_str());
    push_str(&mut out, ": ");
    push_str(&mut out, t.schedule.as_str());
    push_str(&mut out, " (");
    if t.enabled {
        push_str(&mut out, "Enabled");
    } else {
        push_str(&mut out, "Disabled");
    }
    push_str(&mut out, ") | Next: ");
    match &t.next_run {
        Some(n) => push_str(&mut out, n.as_str()),
        None => push_str(&mut out, "N/A"),
    }
    push_str(&mut out, "\n");
    out
}

} // verus!
