use vstd::prelude::*;
use crate::builtin::{arg, arg_at, args_of, concat3, first_or, sub_names, ConfigOp};
use crate::command::{arg_decl, declares, leaf_decl, ArgSpec, CommandSpec, Decl, ValueType};
use crate::text::{join, lit, push_str, str_eq, views};

verus! {

broadcast use vstd::string::group_string_axioms;

/// A middle level of the `/llm` declaration: a subcommand with its own
/// optional arguments, aliases, examples and subcommands.
pub open spec fn group_decl(
    name: Seq<char>,
    usage: Seq<char>,
    about: Seq<char>,
    aliases: Seq<Seq<char>>,
    examples: Seq<Seq<char>>,
    args: Seq<(Seq<char>, bool, ValueType, bool, Seq<char>)>,
    subs: Seq<Decl>,
) -> Decl {
    Decl {
        name,
        usage,
        about,
        category: "general"@,
        aliases,
        command_aliases: seq![],
        min_args: 0,
        examples,
        args,
        flags: seq![],
        subs,
        allow_unknown: true,
    }
}

/// The declaration of `/llm`, field by field.
pub open spec fn llm_decl() -> Decl {
    Decl {
        name: "llm"@,
        usage: "/llm provider(s) <args>"@,
        about: "Manage LLM providers and text models"@,
        category: "llm"@,
        aliases: seq![],
        command_aliases: seq![],
        min_args: 0,
        examples: seq![
            "/llm provider"@,
            "/llm provider openrouter"@,
            "/llm model"@,
            "/llm model openai/gpt-4o-mini"@,
            "/llm config set text_model gpt-4o-mini"@,
        ],
        args: seq![],
        flags: seq![],
        subs: seq![
            leaf_decl("help"@, "/llm help"@, "Show LLM provider and model subcommands"@, seq![], seq![]),
            group_decl(
                "provider"@,
                "/llm provider [list|<id>]"@,
                "List providers or set the active provider"@,
                seq!["providers"@],
                seq!["/llm provider openrouter"@],
                seq![("id"@, false, ValueType::String, false, "Provider id"@)],
                seq![
                    leaf_decl("list"@, "/llm provider list"@, "List available providers"@, seq![], seq![]),
                    leaf_decl(
                        "set"@,
                        "/llm provider set <id>"@,
                        "Set the active provider"@,
                        seq![],
                        seq![("id"@, true, ValueType::String, false, "Provider id"@)],
                    ),
                ],
            ),
            group_decl(
                "model"@,
                "/llm model [list|<id>]"@,
                "List or set the active provider's text model"@,
                seq!["models"@],
                seq!["/llm model gpt-4o-mini"@],
                seq![("id"@, false, ValueType::String, false, "Model id"@)],
                seq![
                    leaf_decl("list"@, "/llm model list"@, "List models for the active provider"@, seq![], seq![]),
                    leaf_decl(
                        "set"@,
                        "/llm model set <id>"@,
                        "Set the text model"@,
                        seq![],
                        seq![("id"@, true, ValueType::String, false, "Model id"@)],
                    ),
                ],
            ),
            group_decl(
                "config"@,
                "/llm config [list|get|set] [key] [value]"@,
                "Manage configuration for the active provider"@,
                seq![],
                seq![],
                seq![
                    ("key"@, false, ValueType::String, false, "Configuration key"@),
                    ("value"@, false, ValueType::String, false, "Configuration value"@),
                ],
                seq![
                    leaf_decl("list"@, "/llm config list"@, "List active provider configuration"@, seq![], seq![]),
                    leaf_decl(
                        "get"@,
                        "/llm config get <key>"@,
                        "Read active provider configuration"@,
                        seq![],
                        seq![("key"@, true, ValueType::String, false, "Configuration key"@)],
                    ),
                    leaf_decl(
                        "set"@,
                        "/llm config set <key> <value>"@,
                        "Set active provider configuration"@,
                        seq![],
                        seq![
                            ("key"@, true, ValueType::String, false, "Configuration key"@),
                            ("value"@, true, ValueType::String, false, "Configuration value"@),
                        ],
                    ),
                ],
            ),
        ],
        allow_unknown: false,
    }
}

/// Every field of `c` matches `d`, given that its subcommands do.
proof fn lemma_declares_node(c: CommandSpec, d: Decl)
    requires
        c.name@ == d.name,
        c.usage@ == d.usage,
        c.about@ == d.about,
        c.category@ == d.category,
        views(c.aliases@) =~= d.aliases,
        views(c.command_aliases@) =~= d.command_aliases,
        c.min_args == d.min_args,
        views(c.examples@) =~= d.examples,
        c.args@.map_values(|a: ArgSpec| arg_decl(a)) =~= d.args,
        c.flags@ =~= d.flags,
        c.allow_unknown_subcommands == d.allow_unknown,
        c.subcommands@.len() == d.subs.len(),
        forall|i: int| 0 <= i < d.subs.len() ==> declares(#[trigger] c.subcommands@[i], d.subs[i]),
    ensures
        declares(c, d),
{
}

/// The declaration of `/llm`.
pub fn spec() -> (r: CommandSpec)
    ensures
        declares(r, llm_decl()),
        r.name@ == "llm"@,
        r.category@ == "llm"@,
        !r.allow_unknown_subcommands,
        sub_names(r) == seq!["help"@, "provider"@, "model"@, "config"@],
        views(r.subcommands@[1].aliases@) == seq!["providers"@],
        args_of(r.subcommands@[1]) == seq![("id"@, false, ValueType::String, false)],
        sub_names(r.subcommands@[1]) == seq!["list"@, "set"@],
        r.subcommands@[1].allow_unknown_subcommands,
        views(r.subcommands@[2].aliases@) == seq!["models"@],
        args_of(r.subcommands@[2]) == seq![("id"@, false, ValueType::String, false)],
        sub_names(r.subcommands@[2]) == seq!["list"@, "set"@],
        args_of(r.subcommands@[3]) == seq![
            ("key"@, false, ValueType::String, false),
            ("value"@, false, ValueType::String, false),
        ],
        sub_names(r.subcommands@[3]) == seq!["list"@, "get"@, "set"@],
        r.subcommands@[3].allow_unknown_subcommands,
{
    let help = CommandSpec::new("help", "/llm help", "Show LLM provider and model subcommands");
    let provider = CommandSpec::new(
        "provider",
        "/llm provider [list|<id>]",
        "List providers or set the active provider",
    ).alias("providers").arg(ArgSpec::optional("id", "Provider id")).subcommand(
        CommandSpec::new("list", "/llm provider list", "List available providers"),
    ).subcommand(
        CommandSpec::new("set", "/llm provider set <id>", "Set the active provider").arg(
            ArgSpec::required("id", "Provider id"),
        ),
    ).example("/llm provider openrouter");
    let model = CommandSpec::new(
        "model",
        "/llm model [list|<id>]",
        "List or set the active provider's text model",
    ).alias("models").arg(ArgSpec::optional("id", "Model id")).subcommand(
        CommandSpec::new("list", "/llm model list", "List models for the active provider"),
    ).subcommand(
        CommandSpec::new("set", "/llm model set <id>", "Set the text model").arg(
            ArgSpec::required("id", "Model id"),
        ),
    ).example("/llm model gpt-4o-mini");
    let config = CommandSpec::new(
        "config",
        "/llm config [list|get|set] [key] [value]",
        "Manage configuration for the active provider",
    ).arg(ArgSpec::optional("key", "Configuration key")).arg(
        ArgSpec::optional("value", "Configuration value"),
    ).subcommand(
        CommandSpec::new("list", "/llm config list", "List active provider configuration"),
    ).subcommand(
        CommandSpec::new("get", "/llm config get <key>", "Read active provider configuration").arg(
            ArgSpec::required("key", "Configuration key"),
        ),
    ).subcommand(
        CommandSpec::new("set", "/llm config set <key> <value>", "Set active provider configuration")
            .arg(ArgSpec::required("key", "Configuration key"))
            .arg(ArgSpec::required("value", "Configuration value")),
    );
    let r = CommandSpec::new("llm", "/llm provider(s) <args>", "Manage LLM providers and text models")
        .category("llm")
        .strict_subcommands()
        .subcommand(help)
        .subcommand(provider)
        .subcommand(model)
        .subcommand(config)
        .example("/llm provider")
        .example("/llm provider openrouter")
        .example("/llm model")
        .example("/llm model openai/gpt-4o-mini")
        .example("/llm config set text_model gpt-4o-mini");
    assert(sub_names(r) =~= seq!["help"@, "provider"@, "model"@, "config"@]);
    assert(args_of(r.subcommands@[1]) =~= seq![("id"@, false, ValueType::String, false)]);
    assert(sub_names(r.subcommands@[1]) =~= seq!["list"@, "set"@]);
    assert(args_of(r.subcommands@[2]) =~= seq![("id"@, false, ValueType::String, false)]);
    assert(sub_names(r.subcommands@[2]) =~= seq!["list"@, "set"@]);
    assert(args_of(r.subcommands@[3]) =~= seq![
        ("key"@, false, ValueType::String, false),
        ("value"@, false, ValueType::String, false),
    ]);
    assert(sub_names(r.subcommands@[3]) =~= seq!["list"@, "get"@, "set"@]);
    proof {
        let d = llm_decl();
        assert forall|i: int| 0 <= i < d.subs.len() implies declares(#[trigger] r.subcommands@[i], d.subs[i]) by {
            let c = r.subcommands@[i];
            let e = d.subs[i];
            assert forall|j: int| 0 <= j < e.subs.len() implies declares(#[trigger] c.subcommands@[j], e.subs[j]) by {
                let g = c.subcommands@[j];
                let f = e.subs[j];
                assert(f.subs.len() == 0);
                lemma_declares_node(g, f);
            }
            lemma_declares_node(c, e);
        }
        lemma_declares_node(r, d);
    }
    r
}

/// The help of `/llm`.
pub open spec fn llm_help_text() -> Seq<char> {
    "Usage: /llm provider(s) <args>\n\nLLM (Text Model) subcommands:\n"@
        + "  /llm provider             List available providers\n"@
        + "  /llm provider <id>        Set the active provider\n"@
        + "  /llm model                List models for the active provider\n"@
        + "  /llm model <id>           Set the model for the active provider\n"@
        + "  /llm config <key> <value> Set config on the active provider"@
}

/// The help of `/llm`.
pub fn llm_help() -> (r: String)
    ensures
        r@ == llm_help_text(),
{
    let mut t = lit("Usage: /llm provider(s) <args>\n\nLLM (Text Model) subcommands:\n");
    push_str(&mut t, "  /llm provider             List available providers\n");
    push_str(&mut t, "  /llm provider <id>        Set the active provider\n");
    push_str(&mut t, "  /llm model                List models for the active provider\n");
    push_str(&mut t, "  /llm model <id>           Set the model for the active provider\n");
    push_str(&mut t, "  /llm config <key> <value> Set config on the active provider");
    t
}

/// What `/llm` has to do first.
pub enum LlmRequest {
    Reply(String),
    /// Work on the providers with the remaining arguments.
    Provider(Vec<String>),
    /// Work on the models with the remaining arguments.
    Model(Vec<String>),
}

/// What a provider subcommand asks for.
pub enum ProviderStep {
    List,
    Select(String),
    Reply(String),
}

/// What a model subcommand asks for.
pub enum ModelStep {
    Reply(String),
    List,
    Select(String),
}

/// What `/llm config` asks for.
pub enum LlmConfigStep {
    Reply(String),
    Op(ConfigOp),
}

/// The text of `/providers` and `/llm provider` when no provider is active.
pub open spec fn no_provider_text() -> Seq<char> {
    "No provider configured. Use `/llm provider <id>` first."@
}

/// The handler of `/llm`.
pub struct LlmCommand;

impl LlmCommand {
    /// What `/llm` does with `args`; an error names an unknown subcommand.
    pub fn plan(&self, args: &Vec<String>) -> (r: Result<LlmRequest, String>)
        ensures
            ({
                let av = views(args@);
                if av.len() == 0 || av[0] == "help"@ {
                    r matches Ok(LlmRequest::Reply(t)) && t@ == llm_help_text()
                } else if av[0] == "provider"@ || av[0] == "providers"@ {
                    r matches Ok(LlmRequest::Provider(rest)) && views(rest@) == av.skip(1)
                } else if av[0] == "model"@ || av[0] == "models"@ {
                    r matches Ok(LlmRequest::Model(rest)) && views(rest@) == av.skip(1)
                } else {
                    r matches Err(e) && e@ == "Unknown llm subcommand: "@ + av[0]
                        + ". Use provider, providers, model, or models."@
                }
            }),
    {
        let ghost av = views(args@);
        if args.len() == 0 {
            return Ok(LlmRequest::Reply(llm_help()));
        }
        assert(av[0] == args@[0]@);
        let op = args[0].as_str();
        if str_eq(op, "help") {
            Ok(LlmRequest::Reply(llm_help()))
        } else if str_eq(op, "provider") || str_eq(op, "providers") {
            Ok(LlmRequest::Provider(tail(args)))
        } else if str_eq(op, "model") || str_eq(op, "models") {
            Ok(LlmRequest::Model(tail(args)))
        } else {
            Err(concat3("Unknown llm subcommand: ", op, ". Use provider, providers, model, or models."))
        }
    }

    /// What `/llm provider <args>` asks for.
    pub fn provider_step(&self, args: &Vec<String>) -> (r: Result<ProviderStep, String>)
        ensures
            ({
                let av = views(args@);
                let op = first_or(av, "list"@);
                if op == "list"@ {
                    r matches Ok(ProviderStep::List)
                } else if op == "set"@ {
                    match arg_at(av, 1) {
                        Some(i) => r matches Ok(ProviderStep::Select(s)) && s@ == i,
                        None => r matches Err(e) && e@ == "Missing provider ID: /llm provider <id>"@,
                    }
                } else if op == "config"@ {
                    r matches Ok(ProviderStep::Reply(t)) && t@
                        == "Use /llm config [list|get|set] [key] [value] for the active provider."@
                } else if av.len() == 1 {
                    r matches Ok(ProviderStep::Select(s)) && s@ == op
                } else {
                    r matches Err(e) && e@ == "Unknown provider operation: "@ + op
                        + ". Use list, <id>, or config."@
                }
            }),
    {
        let op = crate::builtin::first_or_default(args, "list");
        let o = op.as_str();
        if str_eq(o, "list") {
            Ok(ProviderStep::List)
        } else if str_eq(o, "set") {
            match arg(args, 1) {
                Some(i) => Ok(ProviderStep::Select(i)),
                None => Err(lit("Missing provider ID: /llm provider <id>")),
            }
        } else if str_eq(o, "config") {
            Ok(ProviderStep::Reply(lit("Use /llm config [list|get|set] [key] [value] for the active provider.")))
        } else if args.len() == 1 {
            Ok(ProviderStep::Select(op))
        } else {
            Err(concat3("Unknown provider operation: ", o, ". Use list, <id>, or config."))
        }
    }

    /// What `/llm model <args>` asks for, with `provider_id` active (empty
    /// when none is).
    pub fn model_step(&self, args: &Vec<String>, provider_id: &str) -> (r: Result<ModelStep, String>)
        ensures
            ({
                let av = views(args@);
                if provider_id@.len() == 0 {
                    r matches Ok(ModelStep::Reply(t)) && t@ == no_provider_text()
                } else if av.len() == 0 || av[0] == "list"@ {
                    r matches Ok(ModelStep::List)
                } else if av[0] == "set"@ {
                    match arg_at(av, 1) {
                        Some(m) => r matches Ok(ModelStep::Select(s)) && s@ == m,
                        None => r matches Err(e) && e@ == "Missing model ID: /llm model <id>"@,
                    }
                } else if av.len() == 1 {
                    r matches Ok(ModelStep::Select(s)) && s@ == av[0]
                } else {
                    r matches Err(e) && e@ == "Unknown model operation: "@ + av[0] + ". Use list or <id>."@
                }
            }),
    {
        let ghost av = views(args@);
        if provider_id.is_empty() {
            return Ok(ModelStep::Reply(lit("No provider configured. Use `/llm provider <id>` first.")));
        }
        if args.len() == 0 {
            return Ok(ModelStep::List);
        }
        assert(av[0] == args@[0]@);
        let o = args[0].as_str();
        if str_eq(o, "list") {
            Ok(ModelStep::List)
        } else if str_eq(o, "set") {
            match arg(args, 1) {
                Some(m) => Ok(ModelStep::Select(m)),
                None => Err(lit("Missing model ID: /llm model <id>")),
            }
        } else if args.len() == 1 {
            Ok(ModelStep::Select(args[0].clone()))
        } else {
            Err(concat3("Unknown model operation: ", o, ". Use list or <id>."))
        }
    }

    /// What `/llm config <args>` asks for, with `provider_id` active (empty
    /// when none is): `list`, `get <key>` or `set <key> <value>`; any other
    /// pair of arguments sets the first to the second.
    pub fn config_step(&self, args: &Vec<String>, provider_id: &str) -> (r: LlmConfigStep)
        ensures
            ({
                let av = views(args@);
                let op = first_or(av, "list"@);
                if provider_id@.len() == 0 {
                    r matches LlmConfigStep::Reply(t) && t@ == no_provider_text()
                } else if op == "list"@ {
                    r matches LlmConfigStep::Op(ConfigOp::List)
                } else if op == "get"@ {
                    match arg_at(av, 1) {
                        Some(k) => r matches LlmConfigStep::Op(ConfigOp::Get(s)) && s@ == k,
                        None => r matches LlmConfigStep::Op(ConfigOp::Refuse(e)) && e@
                            == "Missing key: /llm config get <key>"@,
                    }
                } else if op == "set"@ {
                    match (arg_at(av, 1), arg_at(av, 2)) {
                        (Some(k), Some(v)) => r matches LlmConfigStep::Op(ConfigOp::Put(a, b)) && a@
                            == k && b@ == v,
                        (None, _) => r matches LlmConfigStep::Op(ConfigOp::Refuse(e)) && e@
                            == "Missing key: /llm config set <key> <value>"@,
                        (Some(_), None) => r matches LlmConfigStep::Op(ConfigOp::Refuse(e)) && e@
                            == "Missing value: /llm config set <key> <value>"@,
                    }
                } else if av.len() == 2 {
                    r matches LlmConfigStep::Op(ConfigOp::Put(k, v)) && k@ == av[0] && v@ == av[1]
                } else {
                    r matches LlmConfigStep::Op(ConfigOp::Refuse(e)) && e@ == "Unknown config operation: "@
                        + op + ". Use list, get, or set."@
                }
            }),
    {
        if provider_id.is_empty() {
            return LlmConfigStep::Reply(lit("No provider configured. Use `/llm provider <id>` first."));
        }
        let op = crate::builtin::first_or_default(args, "list");
        let o = op.as_str();
        if str_eq(o, "list") {
            LlmConfigStep::Op(ConfigOp::List)
        } else if str_eq(o, "get") {
            match arg(args, 1) {
                Some(k) => LlmConfigStep::Op(ConfigOp::Get(k)),
                None => LlmConfigStep::Op(ConfigOp::Refuse(lit("Missing key: /llm config get <key>"))),
            }
        } else if str_eq(o, "set") {
            match arg(args, 1) {
                Some(k) => match arg(args, 2) {
                    Some(v) => LlmConfigStep::Op(ConfigOp::Put(k, v)),
                    None => LlmConfigStep::Op(
                        ConfigOp::Refuse(lit("Missing value: /llm config set <key> <value>")),
                    ),
                },
                None => LlmConfigStep::Op(ConfigOp::Refuse(lit("Missing key: /llm config set <key> <value>"))),
            }
        } else if args.len() == 2 {
            LlmConfigStep::Op(ConfigOp::Put(args[0].clone(), args[1].clone()))
        } else {
            LlmConfigStep::Op(
                ConfigOp::Refuse(concat3("Unknown config operation: ", o, ". Use list, get, or set.")),
            )
        }
    }
}

/// The arguments after the first.
pub fn tail(args: &Vec<String>) -> (r: Vec<String>)
    requires
        args@.len() > 0,
    ensures
        views(r@) == views(args@).skip(1),
{
    let mut out: Vec<String> = Vec::new();
    let mut k: usize = 1;
    while k < args.len()
        invariant
            1 <= k <= args@.len(),
            views(out@) == views(args@).subrange(1, k as int),
        decreases args@.len() - k,
    {
        let ghost before = out@;
        out.push(args[k].clone());
        assert(out@ == before.push(args@[k as int]));
        assert(views(out@) =~= views(before).push(views(args@)[k as int]));
        assert(views(args@).subrange(1, k + 1) =~= views(args@).subrange(1, k as int).push(
            views(args@)[k as int],
        ));
        k = k + 1;
    }
    assert(views(args@).subrange(1, args@.len() as int) =~= views(args@).skip(1));
    out
}

/// A provider as the provider listings show it.
pub struct ProviderRow {
    pub id: String,
    pub name: String,
}

/// One line of a provider listing, with `sep` between id and name.
pub open spec fn provider_line(p: ProviderRow, default_id: Seq<char>, sep: Seq<char>) -> Seq<char> {
    (if p.id@ == default_id {
        "*"@
    } else {
        " "@
    }) + " "@ + p.id@ + sep + p.name@
}

/// A provider listing: the active provider marked with `*`.
pub open spec fn providers_text(ps: Seq<ProviderRow>, default_id: Seq<char>, sep: Seq<char>) -> Seq<char> {
    "Available providers:\n"@ + join(
        ps.map_values(|p: ProviderRow| provider_line(p, default_id, sep)),
        "\n"@,
    )
}

/// A provider listing: the active provider marked with `*`, `sep` between
/// each id and name (` - ` for `/llm`, ` — ` for `/providers`).
pub fn providers_reply(providers: &Vec<ProviderRow>, default_id: &str, sep: &str) -> (r: String)
    ensures
        r@ == providers_text(providers@, default_id@, sep@),
{
    let ghost f = |p: ProviderRow| provider_line(p, default_id@, sep@);
    let mut lines: Vec<String> = Vec::new();
    let mut i: usize = 0;
    while i < providers.len()
        invariant
            i <= providers@.len(),
            f == (|p: ProviderRow| provider_line(p, default_id@, sep@)),
            views(lines@) == providers@.take(i as int).map_values(f),
        decreases providers@.len() - i,
    {
        let p = &providers[i];
        let mut line = if str_eq(p.id.as_str(), default_id) {
            lit("*")
        } else {
            lit(" ")
        };
        push_str(&mut line, " ");
        push_str(&mut line, p.id.as_str());
        push_str(&mut line, sep);
        push_str(&mut line, p.name.as_str());
        let ghost before = lines@;
        lines.push(line);
        assert(views(lines@) =~= views(before).push(f(providers@[i as int])));
        assert(providers@.take(i + 1).map_values(f) =~= providers@.take(i as int).map_values(f).push(
            f(providers@[i as int]),
        ));
        i = i + 1;
    }
    assert(providers@.take(providers@.len() as int) =~= providers@);
    let mut out = lit("Available providers:\n");
    let body = crate::text::join_strings(&lines, "\n");
    assert(lines@.map_values(|p: String| p@) =~= views(lines@));
    push_str(&mut out, body.as_str());
    out
}

/// One line of a model listing.
pub open spec fn model_line(m: Seq<char>, current: Seq<char>) -> Seq<char> {
    (if m == current {
        "*"@
    } else {
        " "@
    }) + " "@ + m
}

/// A model listing for `provider_id`, the current model marked with `*`.
pub open spec fn models_text(models: Seq<Seq<char>>, current: Seq<char>, provider_id: Seq<char>) -> Seq<char> {
    if models.len() == 0 {
        "No text models available for '"@ + provider_id + "'."@
    } else {
        "Text models for '"@ + provider_id + "':\n"@ + join(
            models.map_values(|m: Seq<char>| model_line(m, current)),
            "\n"@,
        )
    }
}

/// A model listing for `provider_id`, the current model marked with `*`.
pub fn models_reply(models: &Vec<String>, current: &str, provider_id: &str) -> (r: String)
    ensures
        r@ == models_text(views(models@), current@, provider_id@),
{
    if models.len() == 0 {
        return concat3("No text models available for '", provider_id, "'.");
    }
    let ghost f = |m: Seq<char>| model_line(m, current@);
    let mut lines: Vec<String> = Vec::new();
    let mut i: usize = 0;
    while i < models.len()
        invariant
            i <= models@.len(),
            f == (|m: Seq<char>| model_line(m, current@)),
            views(lines@) == views(models@).take(i as int).map_values(f),
        decreases models@.len() - i,
    {
        let mut line = if str_eq(models[i].as_str(), current) {
            lit("*")
        } else {
            lit(" ")
        };
        push_str(&mut line, " ");
        push_str(&mut line, models[i].as_str());
        let ghost before = lines@;
        lines.push(line);
        assert(views(models@)[i as int] == models@[i as int]@);
        assert(views(lines@) =~= views(before).push(f(views(models@)[i as int])));
        assert(views(models@).take(i + 1).map_values(f) =~= views(models@).take(i as int).map_values(
            f,
        ).push(f(views(models@)[i as int])));
        i = i + 1;
    }
    assert(views(models@).take(models@.len() as int) =~= views(models@));
    let mut out = concat3("Text models for '", provider_id, "':\n");
    let body = crate::text::join_strings(&lines, "\n");
    assert(lines@.map_values(|p: String| p@) =~= views(lines@));
    push_str(&mut out, body.as_str());
    out
}

/// The reply after choosing the active provider.
pub fn provider_set_reply(id: &str) -> (r: String)
    ensures
        r@ == "Default provider set to: "@ + id@,
{
    let mut t = lit("Default provider set to: ");
    push_str(&mut t, id);
    t
}

/// The reply after choosing the text model.
pub fn model_set_reply(model: &str) -> (r: String)
    ensures
        r@ == "Default text model set to: "@ + model@,
{
    let mut t = lit("Default text model set to: ");
    push_str(&mut t, model);
    t
}

} // verus!
