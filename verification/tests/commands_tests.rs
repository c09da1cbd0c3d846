use minusbot::builtin::apikey::{ApikeyCommand, ApikeyRequest};
use minusbot::builtin::channels::{ChannelRow, ChannelsCommand, ChannelsRequest};
use minusbot::builtin::chat::{ChatListCommand, ChatRequest, ChatSummary, HistoryLine};
use minusbot::builtin::help::HelpCommand;
use minusbot::builtin::llm::{LlmCommand, LlmConfigStep, LlmRequest, ModelStep, ProviderStep};
use minusbot::builtin::memory::{MemoryCommand, MemoryEntry, MemoryRequest};
use minusbot::builtin::register_all;
use minusbot::builtin::scheduler::{SchedulerCommand, SchedulerRequest, TaskEntry};
use minusbot::builtin::secrets::{DeclarationRow, SecretCommand, SecretRequest};
use minusbot::builtin::{config_listing, ConfigEntry, ConfigOp};
use minusbot::command::CommandDefinition;
use minusbot::parser::CommandParseError;
use minusbot::registry::CommandRegistry;

fn registry() -> CommandRegistry {
    let mut registry = CommandRegistry::new();
    register_all(&mut registry);
    registry
}

fn words(ws: &[&str]) -> Vec<String> {
    ws.iter().map(|w| w.to_string()).collect()
}

#[test]
fn all_builtin_commands_have_specs() {
    let registry = registry();
    for command in registry.list() {
        assert!(
            registry.spec(&command.name).is_some(),
            "missing spec for /{}",
            command.name
        );
    }
}

#[test]
fn validates_required_args_for_apikey() {
    let err = registry()
        .parse_invocation("/apikey openrouter")
        .err()
        .unwrap();
    assert!(matches!(err, CommandParseError::MissingArgument { .. }));
}

#[test]
fn validates_unknown_subcommands_for_channels() {
    let err = registry().parse_invocation("/channels nope").err().unwrap();
    assert!(matches!(err, CommandParseError::UnknownSubcommand { .. }));
}

#[test]
fn validates_typed_args_for_chat_read() {
    let err = registry()
        .parse_invocation("/chat read chat-1 not-a-number")
        .err()
        .unwrap();
    assert!(matches!(err, CommandParseError::InvalidArgument { .. }));
}

#[test]
fn accepts_chat_rm_alias_without_listing_it_as_subcommand() {
    let registry = registry();
    let invocation = registry.parse_invocation("/chat rm chat-1").ok().unwrap();
    assert_eq!(invocation.subcommand_path, vec!["rm"]);
    assert_eq!(invocation.positionals, vec!["chat-1"]);

    let help = registry.spec("chat").unwrap().render_help("chat");
    assert!(help.contains("delete"));
    assert!(!help.contains("rm"));
}

#[test]
fn rejects_old_llm_provider_config_shape() {
    let err = registry()
        .parse_invocation("/llm provider test config")
        .err()
        .unwrap();
    assert!(matches!(err, CommandParseError::UnexpectedArgument { .. }));
}

#[test]
fn accepts_active_provider_config_shape() {
    let invocation = registry().parse_invocation("/llm config a b").ok().unwrap();
    assert_eq!(invocation.subcommand_path, vec!["config"]);
    assert_eq!(invocation.positionals, vec!["a", "b"]);
}

#[test]
fn accepts_plural_llm_aliases_without_listing_them_as_commands() {
    let registry = registry();
    let providers = registry.parse_invocation("/llm providers").ok().unwrap();
    assert_eq!(providers.subcommand_path, vec!["providers"]);

    let models = registry.parse_invocation("/llm models").ok().unwrap();
    assert_eq!(models.subcommand_path, vec!["models"]);

    let help = registry.spec("llm").unwrap().render_help("llm");
    assert!(help.contains("provider"));
    assert!(help.contains("model"));
    assert!(!help.contains("/llm providers"));
    assert!(!help.contains("/llm models"));
}

#[test]
fn registry_resolves_aliases_in_any_case() {
    let registry = registry();
    assert_eq!(registry.get("C").unwrap().name, "chat");
    assert_eq!(registry.get("MEM").unwrap().name, "memory");
    assert!(registry.get("nothing").is_none());
    let inv = registry.parse_invocation("/Sched list").ok().unwrap();
    assert_eq!(inv.name, "sched");
    assert_eq!(inv.resolved_name, "scheduler");
    assert_eq!(inv.subcommand_path, vec!["list"]);
}

#[test]
fn registry_reports_unknown_commands_and_plain_text() {
    let registry = registry();
    assert!(matches!(
        registry.parse_invocation("hello"),
        Err(CommandParseError::NotSlashCommand)
    ));
    match registry.parse_invocation("/nope") {
        Err(CommandParseError::UnknownCommand { name, available }) => {
            assert_eq!(name, "nope");
            assert_eq!(available.len(), 12);
            let mut sorted = available.clone();
            sorted.sort();
            assert_eq!(available, sorted);
        }
        _ => panic!("expected an unknown command"),
    }
}

#[test]
fn registry_lists_commands_in_name_order() {
    let names: Vec<String> = registry().list().into_iter().map(|d| d.name).collect();
    assert_eq!(
        names,
        vec![
            "apikey", "channels", "chat", "clear", "help", "llm", "memory", "scheduler", "secrets",
            "shutdown", "status", "tools"
        ]
    );
}

#[test]
fn chat_plans_follow_the_subcommand() {
    let cmd = ChatListCommand;
    assert!(matches!(cmd.plan(&vec![], "c1"), ChatRequest::Reply(t) if t.starts_with("Chat management commands:\n")));
    assert!(matches!(cmd.plan(&words(&["list"]), "c1"), ChatRequest::List));
    assert!(matches!(cmd.plan(&words(&["s", "x"]), "c1"), ChatRequest::Switch(id) if id == "x"));
    assert!(matches!(cmd.plan(&words(&["switch"]), "c1"), ChatRequest::Reply(t) if t == "Usage: /chat switch <id>"));
    assert!(matches!(cmd.plan(&words(&["new", "my", "chat"]), "c1"), ChatRequest::New(Some(t)) if t == "my chat"));
    assert!(matches!(cmd.plan(&words(&["new"]), "c1"), ChatRequest::New(None)));
    assert!(matches!(cmd.plan(&words(&["rename"]), "c1"), ChatRequest::Reply(t) if t == "Usage: /chat rename <new title>"));
    match cmd.plan(&words(&["read"]), "c1") {
        ChatRequest::Read { chat_id, limit } => {
            assert_eq!(chat_id, "c1");
            assert_eq!(limit, 10);
        }
        _ => panic!("expected a read"),
    }
    match cmd.plan(&words(&["read", "c2", "25"]), "c1") {
        ChatRequest::Read { chat_id, limit } => {
            assert_eq!(chat_id, "c2");
            assert_eq!(limit, 25);
        }
        _ => panic!("expected a read"),
    }
    match cmd.plan(&words(&["read", "c2", "many"]), "c1") {
        ChatRequest::Read { limit, .. } => assert_eq!(limit, 10),
        _ => panic!("expected a read"),
    }
    assert!(matches!(cmd.plan(&words(&["rm", "c9"]), "c1"), ChatRequest::Delete(id) if id == "c9"));
    assert!(matches!(cmd.plan(&words(&["zap"]), "c1"), ChatRequest::Reply(t) if t == "Unknown chat subcommand: zap"));
}

#[test]
fn chat_replies_are_formatted() {
    let cmd = ChatListCommand;
    let chats = vec![
        ChatSummary { id: "chat-1".into(), title: Some("First".into()) },
        ChatSummary { id: "chat-2".into(), title: None },
    ];
    assert_eq!(
        cmd.list_reply(&chats, "chat-2"),
        "Chats:\n  chat-1 — First\n* chat-2 — (no title)"
    );
    assert_eq!(cmd.list_reply(&vec![], "x"), "No chats found.");
    assert_eq!(cmd.new_chat_id(2), "chat-3");
    assert_eq!(cmd.switched_reply("chat-1", &None), "Switched to chat: chat-1");
    assert_eq!(cmd.not_found_reply("q"), "Chat 'q' not found.");
    let history = vec![
        HistoryLine { created_at: "t2".into(), role: "assistant".into(), content: "hi".into() },
        HistoryLine { created_at: "t1".into(), role: "user".into(), content: "hello".into() },
    ];
    assert_eq!(
        cmd.history_reply("chat-1", &history),
        "History for chat-1:\n[t1] user: hello\n[t2] assistant: hi"
    );
}

#[test]
fn memory_command_plans_and_replies() {
    let cmd = MemoryCommand;
    assert!(matches!(cmd.plan(&vec![]), Ok(MemoryRequest::List)));
    assert_eq!(
        cmd.plan(&words(&["search"])).err().unwrap(),
        "Missing search term: /memory search <term>"
    );
    match cmd.plan(&words(&["create", "m1", "brief", "body", "true"])) {
        Ok(MemoryRequest::Create { id, brief, content, important }) => {
            assert_eq!(id, "m1");
            assert_eq!(brief, "brief");
            assert_eq!(content.as_deref(), Some("body"));
            assert!(important);
        }
        _ => panic!("expected a create"),
    }
    assert_eq!(
        cmd.plan(&words(&["zap"])).err().unwrap(),
        "Unknown subcommand: zap. Use list, search, delete, or create."
    );
    let ms = vec![
        MemoryEntry {
            id: "a".into(),
            brief: "likes tea".into(),
            content: None,
            is_important: true,
            created_at: "2024-01-02T05:04:30+02:00".into(),
        },
        MemoryEntry {
            id: "b".into(),
            brief: "  ".into(),
            content: Some("drinks coffee".into()),
            is_important: false,
            created_at: "not a time".into(),
        },
    ];
    assert_eq!(
        cmd.list_reply(&ms),
        "Agent Memories:\n- [a] 2024-01-02 03:04: likes tea [IMPORTANT]\n- [b] 1970-01-01 00:00: drinks coffee\n"
    );
    assert_eq!(cmd.search_reply("coffee", &ms), "Search results for 'coffee':\n- [b] Brief:   \n");
    assert_eq!(cmd.search_reply("juice", &ms), "No memories found matching 'juice'.");
    assert_eq!(cmd.delete_reply("a", false), "Memory 'a' not found.");
}

#[test]
fn scheduler_command_plans_and_replies() {
    let cmd = SchedulerCommand;
    assert!(matches!(cmd.plan(&words(&["delete", "j1"])), Ok(SchedulerRequest::Delete(id)) if id == "j1"));
    assert_eq!(
        cmd.plan(&words(&["delete"])).err().unwrap(),
        "Missing task ID: /scheduler delete <id>"
    );
    let ts = vec![TaskEntry {
        id: "j1".into(),
        name: "daily".into(),
        schedule: "cron:0 0 9 * * * *".into(),
        enabled: true,
        next_run: None,
    }];
    assert_eq!(
        cmd.list_reply(&ts),
        "Scheduled Tasks:\n- [j1] daily: cron:0 0 9 * * * * (Enabled) | Next: N/A\n"
    );
    assert_eq!(cmd.search_reply("cron", &ts), "Search results for 'cron':\n- [j1] daily\n");
    assert_eq!(cmd.list_reply(&vec![]), "No tasks scheduled.");
}

#[test]
fn secret_command_splits_targets() {
    let cmd = SecretCommand;
    match cmd.plan(&words(&["set", "comp/KEY", "v"])) {
        SecretRequest::Store { component, key, value } => {
            assert_eq!(component, "comp");
            assert_eq!(key, "KEY");
            assert_eq!(value, "v");
        }
        _ => panic!("expected a store"),
    }
    match cmd.plan(&words(&["set", "ROOT", "v"])) {
        SecretRequest::Store { component, key, .. } => {
            assert_eq!(component, "");
            assert_eq!(key, "ROOT");
        }
        _ => panic!("expected a store"),
    }
    assert!(matches!(cmd.plan(&words(&["approve", "a/b/c"])), SecretRequest::Reply(t) if t == "Invalid target format. Use component_id/key"));
    assert!(matches!(cmd.plan(&words(&["deny", "a/b"])), SecretRequest::Deny { component, key } if component == "a" && key == "b"));
    assert!(matches!(cmd.plan(&words(&["frob", "a/b"])), SecretRequest::Reply(t) if t == "Unknown secret subcommand: frob"));
    assert!(matches!(cmd.plan(&words(&["approve"])), SecretRequest::Reply(t) if t == "Usage: /secrets <approve|deny> <component_id/key>"));
    assert_eq!(cmd.set_reply("", "K"), "Successfully set root secret: K");
    let rows = vec![
        DeclarationRow { key: "A".into(), description: "first".into(), approved: true },
        DeclarationRow { key: "B".into(), description: "second".into(), approved: false },
    ];
    assert_eq!(
        cmd.list_reply(&rows),
        "Secret declarations:\n[OK] A — first\n[PENDING] B — second"
    );
}

#[test]
fn apikey_command_names_the_provider_secret() {
    match ApikeyCommand.plan(&words(&["OpenRouter", "sk-1"])) {
        ApikeyRequest::Store { provider, secret_key, value } => {
            assert_eq!(provider, "openrouter");
            assert_eq!(secret_key, "PROVIDER_OPENROUTER_API_KEY");
            assert_eq!(value, "sk-1");
        }
        _ => panic!("expected a store"),
    }
    assert!(matches!(ApikeyCommand.plan(&words(&["x"])), ApikeyRequest::Reply(_)));
    assert_eq!(
        ApikeyCommand.stored_reply("openrouter"),
        "Successfully set API key for provider: openrouter"
    );
}

#[test]
fn channels_command_plans_and_lists() {
    let cmd = ChannelsCommand;
    match cmd.plan(&words(&["config", "cli", "set", "k"])) {
        Ok(ChannelsRequest::Config { id, op: ConfigOp::Refuse(e) }) => {
            assert_eq!(id, "cli");
            assert_eq!(e, "Missing value: /channels config <id> set <key> <value>");
        }
        _ => panic!("expected a refused config"),
    }
    assert!(matches!(cmd.plan(&words(&["config", "cli"])), Ok(ChannelsRequest::Config { op: ConfigOp::List, .. })));
    assert_eq!(
        cmd.plan(&words(&["setchat", "cli"])).err().unwrap(),
        "Missing chat ID: /channels setchat <id> <chat_id>"
    );
    let rows = vec![ChannelRow {
        id: "cli".into(),
        name: "CLI Channel".into(),
        is_enabled: true,
        is_ready: false,
        active_chat: None,
    }];
    assert_eq!(
        cmd.list_reply(&rows),
        "Communication Channels:\n- [cli] CLI Channel: ENABLED | NOT READY | Active Chat: none\n"
    );
    assert_eq!(cmd.toggle_reply("cli", false, false), "Channel 'cli' was already disabled.");
    assert_eq!(
        config_listing(
            "channel",
            "cli",
            &vec![ConfigEntry { key: "a".into(), value: None }]
        ),
        "Configuration for channel 'cli':\n- a: (not set)\n"
    );
}

#[test]
fn llm_command_routes_its_subcommands() {
    let cmd = LlmCommand;
    assert!(matches!(cmd.plan(&words(&["providers", "list"])), Ok(LlmRequest::Provider(rest)) if rest == vec!["list"]));
    assert_eq!(
        cmd.plan(&words(&["zap"])).err().unwrap(),
        "Unknown llm subcommand: zap. Use provider, providers, model, or models."
    );
    assert!(matches!(cmd.provider_step(&words(&["openrouter"])), Ok(ProviderStep::Select(id)) if id == "openrouter"));
    assert!(matches!(cmd.model_step(&words(&["gpt"]), ""), Ok(ModelStep::Reply(_))));
    assert!(matches!(cmd.model_step(&words(&["gpt"]), "openrouter"), Ok(ModelStep::Select(m)) if m == "gpt"));
    assert!(matches!(cmd.config_step(&words(&["get", "k"]), "p"), LlmConfigStep::Op(ConfigOp::Get(k)) if k == "k"));
    assert!(matches!(cmd.config_step(&words(&["text_model", "gpt"]), "p"), LlmConfigStep::Op(ConfigOp::Put(a, b)) if a == "text_model" && b == "gpt"));
    assert!(matches!(cmd.config_step(&words(&["set", "k", "v"]), "p"), LlmConfigStep::Op(ConfigOp::Put(a, b)) if a == "k" && b == "v"));
    assert!(matches!(cmd.config_step(&words(&["get"]), "p"), LlmConfigStep::Op(ConfigOp::Refuse(_))));
}

#[test]
fn help_groups_commands_by_category() {
    let defs = vec![
        CommandDefinition {
            name: "b".into(),
            description: "B".into(),
            aliases: vec![],
            usage: "/b".into(),
            category: "zeta".into(),
            min_args: 0,
        },
        CommandDefinition {
            name: "a".into(),
            description: "A".into(),
            aliases: vec!["x".into(), "y".into()],
            usage: "/a".into(),
            category: "alpha".into(),
            min_args: 0,
        },
    ];
    let text = HelpCommand.render(defs);
    assert_eq!(
        text,
        format!(
            "Available commands:\n\n\n[ALPHA]\n  {:<25} — A (aliases: x, y)\n\n[ZETA]\n  {:<25} — B\n",
            "/a", "/b"
        )
    );
}

#[test]
fn integration_commands_show_the_definition_they_were_given() {
    let def = CommandDefinition {
        name: "weather".into(),
        description: "Current weather".into(),
        aliases: vec!["w".into()],
        usage: "/weather <city>".into(),
        category: "integrations".into(),
        min_args: 1,
    };
    let cmd = minusbot::registry::IntegrationCommand { integration: "demo".into(), def };
    let shown = cmd.definition();
    assert_eq!(shown.name, "weather");
    assert_eq!(shown.aliases, vec!["w".to_string()]);
    assert_eq!(shown.usage, "/weather <city>");
    assert_eq!(shown.category, "integrations");
    assert_eq!(shown.min_args, 1);
}
