use vstd::prelude::*;
use crate::command::CommandSpec;
use crate::text::{lit, views};

verus! {

broadcast use vstd::string::group_string_axioms;

/// The declaration of `/status`.
pub fn spec() -> (r: CommandSpec)
    ensures
        r.name@ == "status"@,
        r.category@ == "core"@,
        views(r.command_aliases@) == seq!["st"@],
        r.subcommands@.len() == 0,
        r.args@.len() == 0,
{
    CommandSpec::new("status", "/status", "Show system status").category("core").command_alias("st")
}

/// The handler of `/status`.
pub struct StatusCommand;

impl StatusCommand {
    /// The reply of `/status`.
    pub fn reply(&self) -> (r: String)
        ensures
            r@ == "System status: Running"@,
    {
        lit("System status: Running")
    }
}

} // verus!
