use vstd::prelude::*;
use crate::command::CommandSpec;
use crate::text::{lit, views};

verus! {

broadcast use vstd::string::group_string_axioms;

/// The declaration of `/shutdown`.
pub fn shutdown_spec() -> (r: CommandSpec)
    ensures
        r.name@ == "shutdown"@,
        r.category@ == "core"@,
        views(r.command_aliases@) == seq!["exit-daemon"@],
        r.subcommands@.len() == 0,
        r.args@.len() == 0,
{
    CommandSpec::new("shutdown", "/shutdown", "Shutdown the daemon gracefully").category("core")
        .command_alias("exit-daemon")
}

/// The declaration of `/clear`.
pub fn clear_spec() -> (r: CommandSpec)
    ensures
        r.name@ == "clear"@,
        r.category@ == "chat"@,
        r.command_aliases@.len() == 0,
        r.subcommands@.len() == 0,
        r.args@.len() == 0,
{
    CommandSpec::new("clear", "/clear", "Clear chat history").category("chat")
}

/// The handler of `/shutdown`.
pub struct ShutdownCommand;

impl ShutdownCommand {
    /// The reply of `/shutdown`: whether a shutdown could be triggered decides.
    pub fn reply(&self, triggered: bool) -> (r: String)
        ensures
            triggered ==> r@ == "Graceful shutdown triggered. Goodbye!"@,
            !triggered ==> r@ == "Shutdown not available in this context."@,
    {
        if triggered {
            lit("Graceful shutdown triggered. Goodbye!")
        } else {
            lit("Shutdown not available in this context.")
        }
    }
}

/// The handler of `/clear`.
pub struct ClearCommand;

impl ClearCommand {
    /// The reply after the history of the chat was deleted.
    pub fn reply(&self) -> (r: String)
        ensures
            r@ == "Chat history cleared."@,
    {
        lit("Chat history cleared.")
    }
}

} // verus!
