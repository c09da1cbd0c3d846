//! The registry of tools the agent may call, by name.

use vstd::prelude::*;
use crate::strmap::StrMap;
use crate::text::{lit, owned, push_str, views};
use crate::tools::ToolSpec;
use crate::types::ToolResult;

verus! {

broadcast use vstd::string::group_string_axioms;

/// The tools by name.
pub struct ToolRegistry {
    tools: StrMap<ToolSpec>,
}

impl ToolRegistry {
    /// The tools by name.
    pub closed spec fn tools_view(&self) -> Map<Seq<char>, ToolSpec> {
        self.tools@
    }

    /// The names in increasing order.
    pub closed spec fn names(&self) -> Seq<Seq<char>> {
        self.tools.sorted_keys()
    }

    /// The entries are sorted.
    pub closed spec fn wf(&self) -> bool {
        self.tools.wf()
    }

    /// No tools.
    pub fn new() -> (r: Self)
        ensures
            r.wf(),
            r.tools_view() == Map::<Seq<char>, ToolSpec>::empty(),
    {
        ToolRegistry { tools: StrMap::new() }
    }

    /// Registers a tool under its name, replacing one with the same name.
    pub fn register(&mut self, spec: ToolSpec)
        requires
            old(self).wf(),
        ensures
            final(self).wf(),
            final(self).tools_view() == old(self).tools_view().insert(spec.name@, spec),
    {
        let name = spec.name.clone();
        self.tools.insert(name, spec);
    }

    /// Whether a tool is registered under `name`.
    pub fn contains(&self, name: &str) -> (r: bool)
        requires
            self.wf(),
        ensures
            r == self.tools_view().contains_key(name@),
    {
        self.tools.contains_key(name)
    }

    /// The names of the tools, in increasing order.
    pub fn list_names(&self) -> (r: Vec<String>)
        requires
            self.wf(),
        ensures
            views(r@) == self.names(),
    {
        self.tools.keys()
    }

    /// The result of a call of a tool that is not registered.
    pub fn unknown_tool_result(&self, call_id: &str, name: &str) -> (r: ToolResult)
        ensures
            r.tool_call_id@ == call_id@,
            r.name@ == name@,
            r.content@ == "Unknown tool: "@ + name@,
            r.is_error,
    {
        let mut content = lit("Unknown tool: ");
        push_str(&mut content, name);
        ToolResult { tool_call_id: owned(call_id), name: owned(name), content, is_error: true }
    }
}

} // verus!
