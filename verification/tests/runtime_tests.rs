use minusbot::addons::AddonManager;
use minusbot::types::AddonManifest;
use minusbot::agents::{parse_agent_file, AgentRegistry};
use minusbot::client::{
    classify_input, client_secret, parse_client_args, ClientState, InputAction, Protocol,
};
use minusbot::integrations::{DemoIntegration, IntegrationRegistry};
use minusbot::builtin::register_all;
use minusbot::config_file::{trim_matches_char, ConfigProvider, FileConfigProvider};
use minusbot::jobs::{message_actions, new_job, plan_job, sleep_until, JobAction, JobTable};
use minusbot::records::SecretDeclarationRecord;
use minusbot::registry::CommandRegistry;
use minusbot::providers::ProviderRegistry;
use minusbot::runtime::{
    declaration_for, find_record, list_declarations, lookup_command, plan_action, reply_text, route, store_prefix,
    unknown_command_reply, CommandLookup, Route,
};
use minusbot::schedule::Timestamp;
use minusbot::tool_registry::ToolRegistry;
use minusbot::tools::{
    AgentCallTool, ChatReadTool, MemoryFact, MemorySearchTool, MemoryWriteTool, ScheduleListTool,
    ScheduleUpdateTool, TaskInfo,
};

fn words(ws: &[&str]) -> Vec<String> {
    ws.iter().map(|w| w.to_string()).collect()
}

#[test]
fn messages_are_routed_by_their_slash() {
    assert!(matches!(route("  /help"), Route::Command));
    assert!(matches!(route("hello /x"), Route::Agent));
    assert_eq!(reply_text(Err("boom".into())), "Error: boom");
    assert_eq!(reply_text(Ok("fine".into())), "fine");
    assert_eq!(unknown_command_reply("zap"), "Unknown command: /zap");
}

#[test]
fn component_stores_get_prefixes() {
    assert_eq!(store_prefix(""), "");
    assert_eq!(store_prefix("channel:telegram"), "channel:telegram:");
}

#[test]
fn fired_actions_are_planned() {
    let p = plan_action(JobAction::MessageSend { content: "hi".into(), generate: true }, "c1");
    assert_eq!(p.chat_id, "c1");
    assert_eq!(p.announce.as_deref(), Some("hi"));
    assert!(p.announce_always);
    assert_eq!(p.ask, Some((None, "hi".to_string())));
    let p = plan_action(JobAction::AgentPrompt { prompt: "sum up".into(), agent_id: None }, "c1");
    assert_eq!(p.ask, Some((Some("default".to_string()), "sum up".to_string())));
    assert!(p.announce.is_none());
    let p = plan_action(JobAction::UseChat { chat_id: "c9".into(), content: "go".into() }, "c1");
    assert_eq!(p.chat_id, "c9");
    assert!(!p.announce_always);
    let p = plan_action(
        JobAction::AskAgent { chat_id: "c9".into(), content: "q".into(), agent_id: "coder".into() },
        "c1",
    );
    assert_eq!(p.ask, Some((Some("coder".to_string()), "q".to_string())));
}

#[test]
fn environment_secrets_are_declared() {
    let d = declaration_for("PROVIDER_OPENROUTER_API_KEY", None);
    assert_eq!(d.component_id, "provider:openrouter");
    assert_eq!(d.description, "Auto-declared (Provider)");
    assert!(d.approved);
    assert_eq!(d.id.len(), 36);
    let d = declaration_for("MY_TOKEN", None);
    assert_eq!(d.component_id, "system");
    assert!(!d.approved);
    let records = vec![SecretDeclarationRecord {
        id: "r1".into(),
        component_id: "comp".into(),
        key: "MY_TOKEN".into(),
        description: "mine".into(),
        required: true,
        permissions_json: "[]".into(),
        approved: true,
        created_at: "2024-01-01T00:00:00Z".into(),
    }];
    let d = declaration_for("MY_TOKEN", find_record(&records, "MY_TOKEN"));
    assert_eq!(d.id, "r1");
    assert!(d.required && d.approved);
    assert!(find_record(&records, "OTHER").is_none());
}

#[test]
fn provider_registry_keeps_a_registered_default() {
    let mut reg = ProviderRegistry::new();
    reg.register("openai", "OpenAI");
    reg.register("groq", "Groq");
    assert_eq!(reg.model_for("").err().unwrap(), "No default provider configured");
    assert_eq!(reg.set_default("nope").err().unwrap(), "Provider 'nope' not registered");
    assert!(reg.set_default("groq").is_ok());
    assert_eq!(reg.default_id().as_deref(), Some("groq"));
    assert_eq!(
        reg.model_for("").err().unwrap(),
        "No model specified and no default text model configured"
    );
    reg.set_default_model("llama");
    assert_eq!(reg.model_for("").ok().unwrap(), "llama");
    assert_eq!(reg.model_for("mix").ok().unwrap(), "mix");
    assert_eq!(
        reg.list(),
        vec![("groq".to_string(), "Groq".to_string()), ("openai".to_string(), "OpenAI".to_string())]
    );
}

#[test]
fn tool_registry_lists_sorted_names() {
    let mut reg = ToolRegistry::new();
    reg.register(MemoryWriteTool.spec());
    reg.register(ChatReadTool.spec());
    assert_eq!(reg.list_names(), vec!["chat_read", "memory_write"]);
    assert!(reg.contains("chat_read"));
    let r = reg.unknown_tool_result("c1", "nope");
    assert_eq!(r.content, "Unknown tool: nope");
    assert!(r.is_error);
}

#[test]
fn demo_integration_behaves() {
    let demo = DemoIntegration;
    assert_eq!(demo.echo("c", None).content, "(no message)");
    assert_eq!(demo.echo("c", Some("hi".into())).content, "hi");
    assert_eq!(demo.draw(Some(5), Some(5)), 5);
    let n = demo.draw(None, None);
    assert!((0..=100).contains(&n));
    assert_eq!(demo.unknown("c", "demo.x").content, "Unknown demo tool: demo.x");
    let mut reg = IntegrationRegistry::new();
    reg.register("demo", "Demo Integration");
    assert_eq!(reg.list(), vec![("demo".to_string(), "Demo Integration".to_string())]);
    assert_eq!(reg.get("demo").as_deref(), Some("Demo Integration"));
    let echoed = demo.call_tool("c1", "demo.echo", Some("yo".into()), None, None);
    assert_eq!((echoed.content.as_str(), echoed.is_error), ("yo", false));
    let drawn = demo.call_tool("c2", "demo.random_number", None, Some(-7), Some(-7));
    assert_eq!(drawn.content, "-7");
    let wide = demo.call_tool("c3", "demo.random_number", None, Some(1), Some(3));
    assert!(["1", "2", "3"].contains(&wide.content.as_str()));
    let other = demo.call_tool("c4", "demo.other", None, None, None);
    assert!(other.is_error);
    assert_eq!(other.content, "Unknown demo tool: demo.other");
}

#[test]
fn tools_check_arguments_and_format_results() {
    assert_eq!(
        MemoryWriteTool.request(Some("id".into()), None, None, None).err().unwrap(),
        "Missing brief"
    );
    let terms = MemorySearchTool.terms(Some(words(&["TEA"]))).ok().unwrap();
    assert_eq!(terms, vec!["tea"]);
    let ms = vec![
        MemoryFact { id: "a".into(), brief: "Likes Tea".into(), content: None, is_important: false },
        MemoryFact { id: "b".into(), brief: "x".into(), content: Some("coffee".into()), is_important: true },
    ];
    assert_eq!(
        MemorySearchTool.result("c1", &terms, &ms).content,
        "[a] Brief: Likes Tea\nContent: (no content)"
    );
    assert_eq!(
        MemorySearchTool.result("c1", &words(&["juice"]), &ms).content,
        "No matching memories found."
    );
    let tasks = vec![TaskInfo {
        id: "j".into(),
        name: "n".into(),
        schedule: "interval:1h".into(),
        enabled: false,
        next_run: None,
    }];
    assert_eq!(
        ScheduleListTool.result("c1", &tasks).content,
        "Scheduled Tasks:\n- [j] n: interval:1h (Disabled) - Next run: N/A\n"
    );
    assert_eq!(
        ScheduleUpdateTool
            .request(Some("j".into()), Some("n".into()), None, Some("c".into()), None)
            .err()
            .unwrap(),
        "Missing schedule"
    );
    let (agent, content, chat) = AgentCallTool
        .request(Some("coder".into()), Some("hi".into()), None, "chat-1")
        .ok()
        .unwrap();
    assert_eq!((agent.as_str(), content.as_str(), chat.as_str()), ("coder", "hi", "chat-1"));
    assert_eq!(ChatReadTool.request(Some("c".into()), None).ok().unwrap().1, 20);
}

#[test]
fn agent_files_are_parsed() {
    let a = parse_agent_file("coder", "# Code Helper \nYou write code.\n\nBe terse.\n");
    assert_eq!(a.id, "coder");
    assert_eq!(a.name, "Code Helper");
    assert_eq!(a.system_prompt, "You write code.\n\nBe terse.");
    let b = parse_agent_file("plain", "Just a prompt");
    assert_eq!(b.name, "plain");
    let mut reg = AgentRegistry::new();
    reg.replace_all(vec![a, b]);
    assert_eq!(reg.list_ids(), vec!["coder", "plain"]);
    assert_eq!(reg.get("coder").unwrap().name, "Code Helper");
    assert!(reg.get("x").is_none());
}

#[test]
fn client_options_and_lines() {
    let o = parse_client_args(&words(&["-p", "TCP", "--host", "1.2.3.4:9", "-s", "pw", "--other"]))
        .ok()
        .unwrap();
    assert_eq!(o.protocol, Protocol::Tcp);
    assert_eq!(o.host, "1.2.3.4:9");
    assert_eq!(o.secret_override.as_deref(), Some("pw"));
    assert_eq!(
        parse_client_args(&words(&["--protocol", "smoke"])).err().unwrap(),
        "Unknown protocol: smoke"
    );
    let d = parse_client_args(&vec![]).ok().unwrap();
    assert_eq!(d.protocol, Protocol::Unix);
    assert_eq!(d.host, "127.0.0.1:10000");
    assert_eq!(client_secret(Protocol::Tcp, None, Some(" pw \n".into())).as_deref(), Some("pw"));
    assert!(client_secret(Protocol::Unix, Some("x".into()), None).is_none());
    assert!(matches!(classify_input("   "), InputAction::Skip));
    assert!(matches!(classify_input(" /quit "), InputAction::Quit));
    assert!(matches!(classify_input(" hi "), InputAction::Send(t) if t == "hi"));
    let mut st = ClientState::new();
    assert_eq!(st.opening_request(), "/chat switch chat-cli");
    let shown = st.on_server_line("NOTIFICATION:switch_chat:chat-7");
    assert_eq!(st.current_chat, "chat-7");
    assert!(shown.contains("Switched to chat"));
    assert_eq!(st.on_server_line("hello"), "\x1b[1;35mbot\x1b[0m  \x1b[90m>\x1b[0m hello");
    assert_eq!(st.on_server_line("\x1b[31mred"), "\x1b[31mred");
}

#[test]
fn jobs_are_planned_from_their_schedule() {
    let now = Timestamp { secs: 1_000, nanos: 0 };
    let (kind, expr, first) = plan_job("delay:30s", now, None).ok().unwrap();
    assert_eq!((kind.as_str(), expr.as_str()), ("delay", "30s"));
    assert_eq!(first, Some(Timestamp { secs: 1_030, nanos: 0 }));
    let (kind, _, first) = plan_job("interval:2m", now, None).ok().unwrap();
    assert_eq!(kind, "interval");
    assert_eq!(first, Some(Timestamp { secs: 1_120, nanos: 0 }));
    assert!(plan_job("weekly:x", now, None).is_err());
    let job = new_job(
        "id1".into(),
        "daily",
        "cron".into(),
        "0 0 9 * * * *".into(),
        "[]".into(),
        Some("chat-1".into()),
        None,
        "2024-01-01T00:00:00Z",
    );
    assert!(job.enabled);
    assert_eq!(job.action_kind, "multi_action");
    assert_eq!(message_actions("hi".into(), false).len(), 1);
}

fn job_at(id: &str, next: Option<&str>, enabled: bool) -> minusbot::jobs::JobRecord {
    let mut job = new_job(
        id.into(),
        id,
        "delay".into(),
        "5m".into(),
        "[]".into(),
        None,
        next.map(|s| s.to_string()),
        "2024-01-01T00:00:00Z",
    );
    job.enabled = enabled;
    job
}

#[test]
fn the_scheduler_wakes_for_the_earliest_enabled_job() {
    let mut table = JobTable::new();
    assert_eq!(table.next_wakeup(), None);
    table.insert(job_at("a", Some("2024-01-01T00:10:00Z"), true));
    table.insert(job_at("b", Some("2024-01-01T00:05:00Z"), false));
    table.insert(job_at("c", Some("2024-01-01T00:07:00Z"), true));
    table.insert(job_at("d", None, true));
    assert_eq!(table.next_wakeup(), Some(Timestamp { secs: 1_704_067_620, nanos: 0 }));
}

#[test]
fn the_scheduler_sleeps_until_the_next_run() {
    let now = Timestamp { secs: 100, nanos: 500_000_000 };
    let idle = sleep_until(None, now);
    assert_eq!((idle.secs, idle.nanos), (3600, 0));
    let due = sleep_until(Some(Timestamp { secs: 100, nanos: 0 }), now);
    assert_eq!((due.secs, due.nanos), (0, 0));
    let later = sleep_until(Some(Timestamp { secs: 103, nanos: 250_000_000 }), now);
    assert_eq!((later.secs, later.nanos), (2, 750_000_000));
}

#[test]
fn slash_lines_find_their_command() {
    let mut registry = CommandRegistry::new();
    register_all(&mut registry);
    match lookup_command(&registry, "  /HELP me now ") {
        CommandLookup::Found { name, args } => {
            assert_eq!(name, "help");
            assert_eq!(args, vec!["me".to_string(), "now".to_string()]);
        }
        CommandLookup::Unknown(t) => panic!("unexpected: {t}"),
    }
    match lookup_command(&registry, "/nope") {
        CommandLookup::Unknown(t) => assert_eq!(t, "Unknown command: /nope"),
        CommandLookup::Found { .. } => panic!("found a command that does not exist"),
    }
}

#[test]
fn file_configuration_reads_toml_values() {
    assert_eq!(trim_matches_char("\"\"ab\"c\"", '"'), "ab\"c");
    assert_eq!(trim_matches_char("\"\"", '"'), "");
    let file = FileConfigProvider::new("channel.cli", "/tmp/cli.toml");
    assert_eq!(file.id(), "channel.cli");
    let text = "enabled = true\nname = \"bot\"\nport = 7\n";
    let mut keys = file.list_keys(Some(text));
    keys.sort();
    assert_eq!(keys, vec!["enabled".to_string(), "name".to_string(), "port".to_string()]);
    assert_eq!(file.read_config(Some(text), "name").as_deref(), Some("bot"));
    assert_eq!(file.read_config(Some(text), "enabled").as_deref(), Some("true"));
    assert_eq!(file.read_config(Some(text), "port").as_deref(), Some("7"));
    assert_eq!(file.read_config(Some(text), "missing"), None);
    assert_eq!(file.read_config(None, "name"), None);
    assert_eq!(file.read_config(Some("= not toml"), "name"), None);
    assert!(file.list_keys(Some("= not toml")).is_empty());
    assert!(file.list_keys(None).is_empty());
}

#[test]
fn environment_secrets_are_listed_with_their_records() {
    let records = vec![
        SecretDeclarationRecord {
            id: "r1".into(),
            component_id: "channel:telegram".into(),
            key: "BOT_TOKEN".into(),
            description: "Bot token".into(),
            required: true,
            permissions_json: "[]".into(),
            approved: false,
            created_at: "2024-01-01T00:00:00Z".into(),
        },
        SecretDeclarationRecord {
            id: "r2".into(),
            component_id: "other".into(),
            key: "BOT_TOKEN".into(),
            description: "second".into(),
            required: false,
            permissions_json: "[]".into(),
            approved: true,
            created_at: "2024-01-02T00:00:00Z".into(),
        },
    ];
    let keys = vec!["BOT_TOKEN".to_string(), "PROVIDER_GROQ_API_KEY".to_string()];
    let listed = list_declarations(&keys, &records);
    assert_eq!(listed.len(), 2);
    assert_eq!(listed[0].id, "r1");
    assert_eq!(listed[0].component_id, "channel:telegram");
    assert!(!listed[0].approved);
    assert_eq!(listed[0].created_at.as_deref(), Some("2024-01-01T00:00:00Z"));
    assert_eq!(listed[1].key, "PROVIDER_GROQ_API_KEY");
    assert_eq!(listed[1].component_id, "provider:groq");
    assert!(listed[1].approved);
    assert!(listed[1].created_at.is_none());
}

#[test]
fn one_shot_jobs_fire_once_and_intervals_reschedule() {
    let mut table = JobTable::new();
    let mut once = job_at("once", Some("2024-01-01T00:00:00Z"), true);
    once.schedule_kind = "delay".into();
    let mut every = job_at("every", Some("2024-01-01T00:00:00Z"), true);
    every.schedule_kind = "interval".into();
    every.schedule_expr = "2m".into();
    table.insert(once);
    table.insert(every);
    let now = Timestamp { secs: 1_704_067_260, nanos: 0 };
    let fired = table.tick(now, "2024-01-01T00:01:00+00:00");
    assert_eq!(fired.len(), 2);
    let every_action = fired.iter().find(|a| a.trigger_job_id == "every").unwrap();
    assert!(every_action.enabled);
    assert_eq!(every_action.next_run_at.as_deref(), Some("2024-01-01T00:03:00+00:00"));
    let once_action = fired.iter().find(|a| a.trigger_job_id == "once").unwrap();
    assert!(!once_action.enabled);
    assert_eq!(once_action.next_run_at, None);
    let later = Timestamp { secs: 1_704_067_500, nanos: 0 };
    let again = table.tick(later, "2024-01-01T00:05:00+00:00");
    assert_eq!(again.len(), 1);
    assert_eq!(again[0].trigger_job_id, "every");
}

#[test]
fn addon_manager_lists_manifests_by_id() {
    let mk = |id: &str| AddonManifest {
        id: id.to_string(),
        name: format!("{} addon", id),
        version: "1.0".to_string(),
        kind: "lua".to_string(),
        description: None,
    };
    let mut m = AddonManager::new();
    m.register(mk("zeta"));
    m.register(mk("alpha"));
    assert_eq!(m.list().len(), 2);
    m.register(mk("alpha"));
    let l = m.list();
    assert_eq!(l.len(), 2);
    assert_eq!(l[0].id, "alpha");
    assert_eq!(l[1].id, "zeta");
    assert_eq!(m.get("zeta").unwrap().name, "zeta addon");
    assert!(m.get("beta").is_none());
}
