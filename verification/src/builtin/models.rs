use vstd::prelude::*;
use crate::command::{CommandDefinition, CommandSpec};
use crate::builtin::llm::ModelStep;
use crate::text::{lit, views};

verus! {

broadcast use vstd::string::group_string_axioms;

/// The handler of `/models`.
pub struct ModelCommand;

impl ModelCommand {
    /// What channels show of `/models`.
    pub fn definition(&self) -> (r: CommandDefinition)
        ensures
            r.name@ == "models"@,
            r.description@ == "List or set the default text model for the current provider"@,
            r.usage@ == "/models [model_id]"@,
            r.category@ == "config"@,
            views(r.aliases@) == seq!["m"@],
            r.min_args == 0,
    {
        CommandSpec::new(
            "models",
            "/models [model_id]",
            "List or set the default text model for the current provider",
        ).category("config").command_alias("m").definition()
    }

    /// What `/models` does with `args` while `provider_id` is active (empty
    /// when none is): list the models, or select the first argument.
    pub fn plan(&self, args: &Vec<String>, provider_id: &str) -> (r: ModelStep)
        ensures
            provider_id@.len() == 0 ==> (r matches ModelStep::Reply(t) && t@
                == "No provider configured. Use `/providers <id>` first."@),
            provider_id@.len() > 0 && args@.len() == 0 ==> r is List,
            provider_id@.len() > 0 && args@.len() > 0 ==> (r matches ModelStep::Select(m) && m@
                == args@[0]@),
    {
        if provider_id.is_empty() {
            ModelStep::Reply(lit("No provider configured. Use `/providers <id>` first."))
        } else if args.len() == 0 {
            ModelStep::List
        } else {
            ModelStep::Select(args[0].clone())
        }
    }
}

} // verus!
