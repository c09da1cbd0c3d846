use vstd::prelude::*;
use crate::builtin::{arg, arg_at, concat3, first_or, first_or_default, ConfigOp};
use crate::builtin::channels::{config_op, config_op_is};
use crate::command::{CommandDefinition, CommandSpec};
use crate::text::{lit, str_eq, views};

verus! {

broadcast use vstd::string::group_string_axioms;

/// What `/providers` has to do.
pub enum ProvidersRequest {
    List,
    Select(String),
    /// Work on the configuration of a provider, once it is found and
    /// configurable.
    Config { id: String, op: ConfigOp },
}

/// The handler of `/providers`.
pub struct ProviderCommand;

impl ProviderCommand {
    /// What channels show of `/providers`.
    pub fn definition(&self) -> (r: CommandDefinition)
        ensures
            r.name@ == "providers"@,
            r.description@ == "Manage AI providers"@,
            r.usage@ == "/providers <list|set|config> [args]"@,
            r.category@ == "config"@,
            views(r.aliases@) == seq!["p"@],
            r.min_args == 0,
    {
        CommandSpec::new("providers", "/providers <list|set|config> [args]", "Manage AI providers")
            .category("config")
            .command_alias("p")
            .definition()
    }

    /// What `/providers` does with `args`; a single unknown word selects that
    /// provider.
    pub fn plan(&self, args: &Vec<String>) -> (r: Result<ProvidersRequest, String>)
        ensures
            ({
                let av = views(args@);
                let op = first_or(av, "list"@);
                if op == "list"@ {
                    r matches Ok(ProvidersRequest::List)
                } else if op == "set"@ {
                    match arg_at(av, 1) {
                        Some(i) => r matches Ok(ProvidersRequest::Select(s)) && s@ == i,
                        None => r matches Err(e) && e@ == "Missing provider ID: /providers set <id>"@,
                    }
                } else if op == "config"@ {
                    match arg_at(av, 1) {
                        Some(i) => r matches Ok(ProvidersRequest::Config { id, op }) && id@ == i
                            && config_op_is(op, av, 2, "/providers config <id>"@),
                        None => r matches Err(e) && e@
                            == "Missing provider ID: /providers config <id> <get|set> [key] [value]"@,
                    }
                } else if av.len() == 1 {
                    r matches Ok(ProvidersRequest::Select(s)) && s@ == av[0]
                } else {
                    r matches Err(e) && e@ == "Unknown subcommand: "@ + op + ". Use list, set, or config."@
                }
            }),
    {
        let op = first_or_default(args, "list");
        let o = op.as_str();
        if str_eq(o, "list") {
            Ok(ProvidersRequest::List)
        } else if str_eq(o, "set") {
            match arg(args, 1) {
                Some(i) => Ok(ProvidersRequest::Select(i)),
                None => Err(lit("Missing provider ID: /providers set <id>")),
            }
        } else if str_eq(o, "config") {
            match arg(args, 1) {
                Some(i) => Ok(ProvidersRequest::Config { id: i, op: config_op(args, 2, "/providers config <id>") }),
                None => Err(lit("Missing provider ID: /providers config <id> <get|set> [key] [value]")),
            }
        } else if args.len() == 1 {
            Ok(ProvidersRequest::Select(op))
        } else {
            Err(concat3("Unknown subcommand: ", o, ". Use list, set, or config."))
        }
    }
}

} // verus!
