use minusbot::channels::{
    cli_chat_active, cli_config_keys, cli_feedback_text, connection_labels, request_or_raw,
    resolve_active_chat, secret_accepted, split_words, telegram_chat_active,
    telegram_feedback_text, TelegramAccess, TelegramAction,
};
use minusbot::streams::StreamTable;

#[test]
fn cli_active_chat_falls_back_to_the_default() {
    assert_eq!(resolve_active_chat(None, None), ("chat-cli".to_string(), true));
    assert_eq!(resolve_active_chat(None, Some(String::new())), ("chat-cli".to_string(), true));
    assert_eq!(resolve_active_chat(None, Some("c7".into())), ("c7".to_string(), false));
    assert_eq!(resolve_active_chat(Some("c1".into()), Some("c7".into())), ("c1".to_string(), false));
}

#[test]
fn streams_follow_their_chat() {
    let mut t = StreamTable::new();
    t.register("a", 1);
    t.register("a", 2);
    t.register("b", 3);
    assert_eq!(t.targets("a"), vec![1, 2]);
    t.switch_chat("a", "b", 1);
    assert_eq!(t.targets("a"), vec![2]);
    assert_eq!(t.targets("b"), vec![3, 1]);
    t.remove("b", 3);
    assert_eq!(t.targets("b"), vec![1]);
    assert_eq!(t.all(), vec![2, 1]);
    assert!(cli_chat_active(&None, &t, "a"));
    assert!(!cli_chat_active(&None, &t, "z"));
    assert!(cli_chat_active(&Some("z".into()), &t, "z"));
}

#[test]
fn client_secrets_are_checked() {
    assert!(secret_accepted(&None, &None));
    assert!(secret_accepted(&Some("s".into()), &Some("s".into())));
    assert!(!secret_accepted(&Some("s".into()), &Some("t".into())));
    assert!(!secret_accepted(&Some("s".into()), &None));
}

#[test]
fn raw_lines_go_to_the_current_chat() {
    let r = request_or_raw(None, "hello".into(), "chat-9");
    assert_eq!(r.chat_id, "chat-9");
    assert_eq!(r.content, "hello");
    assert!(r.secret.is_none());
}

#[test]
fn cli_texts_and_keys() {
    assert_eq!(cli_feedback_text(true, "memory", "bad".into()), "Error executing /memory: bad");
    assert_eq!(cli_feedback_text(false, "memory", "ok".into()), "ok");
    assert_eq!(cli_config_keys(vec!["a".into()]), vec!["a", "active_chat_id"]);
    assert_eq!(cli_config_keys(vec!["active_chat_id".into()]), vec!["active_chat_id"]);
    assert_eq!(
        connection_labels(Some("groq".into()), Some("m1".into()), Some("m2".into())),
        ("groq".to_string(), "m2".to_string())
    );
    assert_eq!(
        connection_labels(None, Some("m1".into()), Some("m2".into())),
        ("(none)".to_string(), "m1".to_string())
    );
}

#[test]
fn words_split_at_whitespace() {
    assert_eq!(split_words("  /link   AB12-CD34 \n"), vec!["/link", "AB12-CD34"]);
    assert!(split_words("   ").is_empty());
}

#[test]
fn telegram_link_code_is_used_once() {
    let mut access = TelegramAccess::new();
    let pin = access.setup();
    assert_eq!(pin.len(), 9);
    assert_eq!(&pin[4..5], "-");
    assert!(pin.chars().all(|c| c == '-' || c.is_ascii_uppercase() || c.is_ascii_digit()));
    let text = format!("/link {}", pin);
    assert!(matches!(access.on_message(Some(text.clone()), "42", "100"), TelegramAction::Linked(u) if u == "42"));
    assert!(matches!(access.on_message(Some(text), "43", "100"), TelegramAction::InvalidLink));
    assert!(matches!(
        access.on_message(Some("hi".into()), "42", "100"),
        TelegramAction::Route { chat_id, text } if chat_id == "100" && text == "hi"
    ));
    assert!(matches!(access.on_message(Some("hi".into()), "43", "100"), TelegramAction::Denied));
    assert!(matches!(access.on_message(None, "42", "100"), TelegramAction::Ignore));
}

#[test]
fn telegram_reads_the_allowed_user_once() {
    let mut access = TelegramAccess::new();
    assert!(matches!(access.on_message(Some("hi".into()), "7", "-5"), TelegramAction::LookupAllowed));
    access.remember_allowed(Some("7".into()));
    assert!(matches!(access.on_message(Some("hi".into()), "7", "-5"), TelegramAction::Route { .. }));
    access.enabled = false;
    assert!(matches!(access.on_message(Some("hi".into()), "7", "-5"), TelegramAction::Ignore));
    assert_eq!(
        access.reply_for(&TelegramAction::InvalidLink).unwrap(),
        "❌ *Invalid or expired link code.*"
    );
}

#[test]
fn telegram_chats_and_feedback() {
    assert!(telegram_chat_active("-100123"));
    assert!(!telegram_chat_active("chat-1"));
    assert_eq!(telegram_feedback_text(true, "nope".into()), "❌ Error: nope");
}
