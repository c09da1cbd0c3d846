use vstd::prelude::*;
use crate::command::CommandSpec;
use crate::text::{lit, push_str};

verus! {

broadcast use vstd::string::group_string_axioms;

/// The declaration of `/tools`.
pub fn spec() -> (r: CommandSpec)
    ensures
        r.name@ == "tools"@,
        r.category@ == "system"@,
        r.command_aliases@.len() == 0,
        r.subcommands@.len() == 0,
        r.args@.len() == 0,
{
    CommandSpec::new("tools", "/tools", "List registered tools").category("system")
}

/// A tool as `/tools` lists it.
pub struct ToolRow {
    pub name: String,
    pub description: String,
}

/// The lines of the tools, in order.
pub open spec fn tool_lines(ts: Seq<ToolRow>) -> Seq<char>
    decreases ts.len(),
{
    if ts.len() == 0 {
        seq![]
    } else {
        tool_lines(ts.drop_last()) + "- "@ + ts.last().name@ + ": "@ + ts.last().description@ + "\n"@
    }
}

/// The reply of `/tools`.
pub open spec fn tools_text(ts: Seq<ToolRow>) -> Seq<char> {
    if ts.len() == 0 {
        "No tools registered."@
    } else {
        "Registered Tools:\n"@ + tool_lines(ts)
    }
}

/// The handler of `/tools`.
pub struct ToolsCommand;

impl ToolsCommand {
    /// The reply of `/tools`.
    pub fn render(&self, tools: &Vec<ToolRow>) -> (r: String)
        ensures
            r@ == tools_text(tools@),
    {
        if tools.len() == 0 {
            return lit("No tools registered.");
        }
        let mut out = lit("Registered Tools:\n");
        let ghost head = out@;
        let mut i: usize = 0;
        while i < tools.len()
            invariant
                i <= tools@.len(),
                out@ == head + tool_lines(tools@.take(i as int)),
            decreases tools@.len() - i,
        {
            assert(tools@.take(i + 1).drop_last() =~= tools@.take(i as int));
            push_str(&mut out, "- ");
            push_str(&mut out, tools[i].name.as_str());
            push_str(&mut out, ": ");
            push_str(&mut out, tools[i].description.as_str());
            push_str(&mut out, "\n");
            i = i + 1;
        }
        assert(tools@.take(tools@.len() as int) =~= tools@);
        out
    }
}

} // verus!
