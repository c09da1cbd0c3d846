use minusbot::agent::{
    api_key_name, available_channels, build_system_prompt, choose_api_key, choose_endpoint,
    endpoint_name, memory_briefs, readiness_reply, replay_message, tool_result_for,
    ChannelReadiness, MemoryBrief, PromptFacts, ProviderReply, ToolOutcome, TurnState, TurnStep,
};
use minusbot::text::replace_str;
use minusbot::types::{Role, ToolResult};

fn facts() -> PromptFacts {
    PromptFacts {
        date: "2024-05-06".into(),
        time: "07:08:09".into(),
        available_channels: "none here".into(),
        chat_id: "chat-1".into(),
        channel_id: "cli".into(),
        memory_briefs: "(No important memories saved yet)".into(),
    }
}

#[test]
fn prompt_placeholders_are_filled() {
    let template = "Today is {date} at {time}. Chat {chat_id} on {channel_id}. {date}!\n{memory_briefs}\n{available_channels}";
    let prompt = build_system_prompt(template, &facts(), &vec![]);
    assert_eq!(
        prompt,
        "Today is 2024-05-06 at 07:08:09. Chat chat-1 on cli. 2024-05-06!\n(No important memories saved yet)\nnone here"
    );
}

#[test]
fn prompt_lists_loaded_skills() {
    let prompt = build_system_prompt("Base", &facts(), &vec!["skill one".into(), "skill two".into()]);
    assert_eq!(prompt, "Base\n\n--- Loaded Skills ---\nskill one\nskill two\n");
}

#[test]
fn replace_handles_overlaps_and_absence() {
    assert_eq!(replace_str("aaa", "aa", "b"), "ba");
    assert_eq!(replace_str("abc", "x", "y"), "abc");
    assert_eq!(replace_str("{a}{a}", "{a}", ""), "");
}

#[test]
fn memory_briefs_are_listed() {
    assert_eq!(memory_briefs(&vec![]), "(No important memories saved yet)");
    let ms = vec![MemoryBrief { id: "m1".into(), brief: "likes tea".into(), created_at: "2024".into() }];
    assert_eq!(memory_briefs(&ms), "- [m1]: likes tea (created: 2024)\n");
}

#[test]
fn only_ready_channels_are_listed() {
    let cs = vec![
        ChannelReadiness { id: "cli".into(), name: "CLI Channel".into(), is_ready: true, active_chat: None },
        ChannelReadiness { id: "tg".into(), name: "Telegram".into(), is_ready: false, active_chat: None },
        ChannelReadiness { id: "u".into(), name: "Unix".into(), is_ready: true, active_chat: Some("c2".into()) },
    ];
    assert_eq!(
        available_channels(&cs),
        "CLI Channel (id: cli, chat: none), Unix (id: u, chat: c2)"
    );
    assert_eq!(available_channels(&vec![]), "No other ready channels available.");
}

#[test]
fn credentials_prefer_the_vault() {
    assert_eq!(api_key_name("openrouter"), "PROVIDER_OPENROUTER_API_KEY");
    assert_eq!(endpoint_name("x-ai"), "PROVIDER_X-AI_ENDPOINT");
    assert_eq!(choose_api_key(Some("v".into()), Some("e".into())), "v");
    assert_eq!(choose_api_key(None, Some("e".into())), "e");
    assert_eq!(choose_api_key(None, None), "");
    assert_eq!(choose_endpoint(None, None, Some("e".into())), Some("e".to_string()));
    assert_eq!(choose_endpoint(Some("c".into()), Some("v".into()), None), Some("c".to_string()));
}

#[test]
fn readiness_is_checked_first() {
    assert_eq!(
        readiness_reply(None).unwrap(),
        "No LLM provider is configured. Use `/providers <id>` to set one."
    );
    assert_eq!(
        readiness_reply(Some(("groq".into(), false))).unwrap(),
        "Provider 'groq' is not ready. Use '/models' to select a model."
    );
    assert!(readiness_reply(Some(("groq".into(), true))).is_none());
}

#[test]
fn stored_messages_are_replayed() {
    let (role, content) = replay_message("assistant", "", true);
    assert_eq!(role, Role::Assistant);
    assert!(content.is_none());
    let (role, content) = replay_message("robot", "hi", false);
    assert_eq!(role, Role::User);
    assert_eq!(content.as_deref(), Some("hi"));
}

#[test]
fn tool_rounds_stop_at_the_limit() {
    let mut turn = TurnState::new(1);
    match turn.after_reply(ProviderReply { content: Some(String::new()), tool_call_count: 2 }) {
        TurnStep::RunTools { assistant_content, rounds } => {
            assert!(assistant_content.is_none());
            assert_eq!(rounds, 1);
        }
        _ => panic!("expected a round of tools"),
    }
    match turn.after_reply(ProviderReply { content: None, tool_call_count: 1 }) {
        TurnStep::Finish(t) => assert_eq!(t, "I couldn't generate a response."),
        _ => panic!("expected the end of the turn"),
    }
    let mut fresh = TurnState::new(5);
    match fresh.after_reply(ProviderReply { content: Some("done".into()), tool_call_count: 0 }) {
        TurnStep::Finish(t) => assert_eq!(t, "done"),
        _ => panic!("expected the end of the turn"),
    }
}

#[test]
fn tool_results_explain_failures() {
    let denied = tool_result_for("c1", "shell", ToolOutcome::Denied);
    assert_eq!(denied.content, "Tool call denied by policy.");
    assert!(denied.is_error);
    let failed = tool_result_for("c1", "x", ToolOutcome::Failed("boom".into()));
    assert_eq!(failed.content, "Error: boom");
    assert_eq!(failed.tool_call_id, "c1");
    let done = tool_result_for(
        "c1",
        "x",
        ToolOutcome::Done(ToolResult { tool_call_id: "c1".into(), name: "x".into(), content: "ok".into(), is_error: false }),
    );
    assert_eq!(done.content, "ok");
}
