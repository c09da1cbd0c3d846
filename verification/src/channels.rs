//! The decisions of the CLI and Telegram channels: which chat the CLI is on,
//! which client requests pass, what a failed command reads like, and who may
//! talk to the Telegram bot.

use vstd::prelude::*;
use crate::crypto::{is_alphanumeric, random_alphanumeric};
use crate::streams::{targets_of, StreamTable};
use crate::text::{is_ws, lit, owned, push_str, starts_with, str_eq, to_chars, to_uppercase, uppercase};

verus! {

broadcast use vstd::string::group_string_axioms;

/// The chat the CLI channel falls back to.
pub open spec fn cli_default_chat_text() -> Seq<char> {
    "chat-cli"@
}

/// The chat the CLI channel falls back to: `chat-` and its id.
pub fn cli_default_chat() -> (r: String)
    ensures
        r@ == cli_default_chat_text(),
{
    lit("chat-cli")
}

/// Which chat the CLI channel is on: the one it already chose; else the one
/// its configuration holds, when that is not empty; else the default chat,
/// which is then to be stored (the flag of the result).
pub fn resolve_active_chat(cached: Option<String>, stored: Option<String>) -> (r: (String, bool))
    ensures
        match cached {
            Some(c) => r.0 == c && !r.1,
            None => match stored {
                Some(s) => if s@.len() > 0 {
                    r.0 == s && !r.1
                } else {
                    r.0@ == cli_default_chat_text() && r.1
                },
                None => r.0@ == cli_default_chat_text() && r.1,
            },
        },
{
    match cached {
        Some(c) => (c, false),
        None => match stored {
            Some(s) => {
                if s.as_str().is_empty() {
                    (cli_default_chat(), true)
                } else {
                    (s, false)
                }
            },
            None => (cli_default_chat(), true),
        },
    }
}

/// The CLI channel counts a chat as active when it is the chosen chat or a
/// client is registered under it.
pub fn cli_chat_active(active: &Option<String>, streams: &StreamTable, chat: &str) -> (r: bool)
    ensures
        r == ((active matches Some(a) && a@ == chat@) || targets_of(streams@, chat@).len() > 0),
{
    match active {
        Some(a) => {
            if str_eq(a.as_str(), chat) {
                return true;
            }
        },
        None => {},
    }
    streams.has_chat(chat)
}

/// A client request passes when no secret is expected, or when it carries
/// exactly the expected one.
pub fn secret_accepted(expected: &Option<String>, given: &Option<String>) -> (r: bool)
    ensures
        r == match expected {
            None => true,
            Some(e) => given matches Some(g) && g@ == e@,
        },
{
    match expected {
        None => true,
        Some(e) => match given {
            Some(g) => str_eq(g.as_str(), e.as_str()),
            None => false,
        },
    }
}

/// A request of a CLI client: the chat it is for, its text and the secret it
/// carries.
pub struct CliRequest {
    pub chat_id: String,
    pub content: String,
    pub secret: Option<String>,
}

/// The request a line from a client stands for: the request it encodes, or
/// else the line itself as text for the client's current chat.
pub fn request_or_raw(parsed: Option<CliRequest>, line: String, current_chat: &str) -> (r: CliRequest)
    ensures
        match parsed {
            Some(p) => r == p,
            None => r.chat_id@ == current_chat@ && r.content == line && r.secret is None,
        },
{
    match parsed {
        Some(p) => p,
        None => CliRequest { chat_id: owned(current_chat), content: line, secret: None },
    }
}

/// What the CLI shows for the outcome of a command.
pub fn cli_feedback_text(is_error: bool, command: &str, result: String) -> (r: String)
    ensures
        is_error ==> r@ == "Error executing /"@ + command@ + ": "@ + result@,
        !is_error ==> r == result,
{
    if is_error {
        let mut t = lit("Error executing /");
        push_str(&mut t, command);
        push_str(&mut t, ": ");
        push_str(&mut t, result.as_str());
        t
    } else {
        result
    }
}

/// The configuration keys of the CLI channel: those of its file, and
/// `active_chat_id` at the end when the file does not have it.
pub fn cli_config_keys(keys: Vec<String>) -> (r: Vec<String>)
    ensures
        crate::text::views(keys@).contains("active_chat_id"@) ==> r == keys,
        !crate::text::views(keys@).contains("active_chat_id"@) ==> crate::text::views(r@)
            == crate::text::views(keys@).push("active_chat_id"@),
{
    let mut i: usize = 0;
    while i < keys.len()
        invariant
            i <= keys@.len(),
            forall|j: int| 0 <= j < i ==> keys@[j]@ != "active_chat_id"@,
        decreases keys@.len() - i,
    {
        if str_eq(keys[i].as_str(), "active_chat_id") {
            assert(crate::text::views(keys@)[i as int] == "active_chat_id"@);
            return keys;
        }
        i = i + 1;
    }
    assert(!crate::text::views(keys@).contains("active_chat_id"@)) by {
        assert forall|j: int| 0 <= j < crate::text::views(keys@).len() implies crate::text::views(
            keys@,
        )[j] != "active_chat_id"@ by {
            assert(crate::text::views(keys@)[j] == keys@[j]@);
        }
    }
    let mut out = keys;
    let ghost before = out@;
    out.push(lit("active_chat_id"));
    assert(crate::text::views(out@) =~= crate::text::views(before).push("active_chat_id"@));
    out
}

/// Whether switching a channel on or off changed it.
pub fn toggle_changed(previous: bool, flag: bool) -> (r: bool)
    ensures
        r == (previous != flag),
{
    previous != flag
}

/// The provider and model the CLI shows on connection: the configured
/// default provider and text model, `(none)` for what is missing, and the
/// provider's own text model when a provider is set and names one.
pub fn connection_labels(
    default_provider: Option<String>,
    text_model: Option<String>,
    provider_model: Option<String>,
) -> (r: (String, String))
    ensures
        r.0@ == match default_provider {
            Some(p) => p@,
            None => "(none)"@,
        },
        r.1@ == if r.0@ != "(none)"@ && provider_model is Some {
            provider_model.unwrap()@
        } else {
            match text_model {
                Some(m) => m@,
                None => "(none)"@,
            }
        },
{
    let provider = match default_provider {
        Some(p) => p,
        None => lit("(none)"),
    };
    let mut model = match text_model {
        Some(m) => m,
        None => lit("(none)"),
    };
    if !str_eq(provider.as_str(), "(none)") {
        match provider_model {
            Some(m) => {
                model = m;
            },
            None => {},
        }
    }
    (provider, model)
}

// ---------------------------------------------------------------------------
// Telegram.
// ---------------------------------------------------------------------------

/// The state of splitting at whitespace: the finished words and the one being
/// read.
pub open spec fn word_state(s: Seq<char>) -> (Seq<Seq<char>>, Seq<char>)
    decreases s.len(),
{
    if s.len() == 0 {
        (seq![], seq![])
    } else {
        let (ws, cur) = word_state(s.drop_last());
        if is_ws(s.last()) {
            if cur.len() > 0 {
                (ws.push(cur), seq![])
            } else {
                (ws, cur)
            }
        } else {
            (ws, cur.push(s.last()))
        }
    }
}

/// The words of `s`: its maximal runs of non-whitespace (`str::split_whitespace`).
pub open spec fn words(s: Seq<char>) -> Seq<Seq<char>> {
    let (ws, cur) = word_state(s);
    if cur.len() > 0 {
        ws.push(cur)
    } else {
        ws
    }
}

/// The words of `s`.
pub fn split_words(s: &str) -> (r: Vec<String>)
    ensures
        crate::text::views(r@) == words(s@),
{
    let cs = to_chars(s);
    let mut out: Vec<String> = Vec::new();
    let mut cur: Vec<char> = Vec::new();
    let mut i: usize = 0;
    while i < cs.len()
        invariant
            i <= cs@.len(),
            cs@ == s@,
            (crate::text::views(out@), cur@) == word_state(cs@.take(i as int)),
        decreases cs@.len() - i,
    {
        assert(cs@.take(i + 1).drop_last() =~= cs@.take(i as int));
        let c = cs[i];
        if crate::text::is_whitespace(c) {
            if cur.len() > 0 {
                let ghost before = out@;
                out.push(crate::text::from_chars(cur.as_slice()));
                assert(crate::text::views(out@) =~= crate::text::views(before).push(cur@));
                cur = Vec::new();
            }
        } else {
            cur.push(c);
        }
        i = i + 1;
    }
    assert(cs@.take(cs@.len() as int) =~= cs@);
    if cur.len() > 0 {
        let ghost before = out@;
        out.push(crate::text::from_chars(cur.as_slice()));
        assert(crate::text::views(out@) =~= crate::text::views(before).push(cur@));
    }
    out
}

/// What the bot does with a text message.
pub enum TelegramAction {
    /// Nothing: the channel is off or the message has no text.
    Ignore,
    /// The user linked with the right code and is now allowed; the id is to be
    /// stored as the allowed user.
    Linked(String),
    /// The link code was missing, wrong or used up.
    InvalidLink,
    /// The allowed user is not known yet: read it from the configuration and
    /// hand it to `remember_allowed`, then handle the message again.
    LookupAllowed,
    /// The sender is not the allowed user.
    Denied,
    /// Pass the text on to the daemon for this chat.
    Route { chat_id: String, text: String },
}

/// Who may talk to the Telegram bot, and the pending link code.
pub struct TelegramAccess {
    pub enabled: bool,
    pub setup_pin: Option<String>,
    pub allowed: Option<Option<String>>,
}

/// A Telegram chat id: digits and minus signs only.
pub open spec fn is_telegram_chat(chat: Seq<char>) -> bool {
    forall|i: int| 0 <= i < chat.len() ==> (('0' <= #[trigger] chat[i] && chat[i] <= '9') || chat[i] == '-')
}

impl TelegramAccess {
    /// On, with no link code and the allowed user not yet read.
    pub fn new() -> (r: Self)
        ensures
            r.enabled,
            r.setup_pin is None,
            r.allowed is None,
    {
        TelegramAccess { enabled: true, setup_pin: None, allowed: None }
    }

    /// Makes a new link code: two groups of four random letters and digits,
    /// upper-cased, joined by `-`. It replaces any earlier code.
    pub fn setup(&mut self) -> (r: String)
        ensures
            final(self).setup_pin == Some(r),
            final(self).enabled == old(self).enabled,
            final(self).allowed == old(self).allowed,
            exists|a: Seq<char>, b: Seq<char>|
                a.len() == 4 && b.len() == 4 && (forall|i: int|
                    0 <= i < 4 ==> is_alphanumeric(#[trigger] a[i]) && is_alphanumeric(b[i]))
                    && r@ == uppercase(a) + "-"@ + uppercase(b),
    {
        let p1 = random_alphanumeric(4);
        let p2 = random_alphanumeric(4);
        let mut pin = to_uppercase(p1.as_str());
        push_str(&mut pin, "-");
        let up2 = to_uppercase(p2.as_str());
        push_str(&mut pin, up2.as_str());
        assert(pin@ == uppercase(p1@) + "-"@ + uppercase(p2@));
        self.setup_pin = Some(pin.clone());
        pin
    }

    /// Records the allowed user read from the configuration.
    pub fn remember_allowed(&mut self, stored: Option<String>)
        ensures
            final(self).allowed == Some(stored),
            final(self).enabled == old(self).enabled,
            final(self).setup_pin == old(self).setup_pin,
    {
        self.allowed = Some(stored);
    }

    /// What the bot does with a message from `user_id` in `chat_id`: a
    /// `/link <code>` message links the sender when the code is the pending
    /// one, which is then used up; any other message passes only from the
    /// allowed user.
    pub fn on_message(&mut self, text: Option<String>, user_id: &str, chat_id: &str) -> (r: TelegramAction)
        ensures
            !old(self).enabled || text is None ==> r is Ignore && *final(self) == *old(self),
            old(self).enabled && text is Some && starts_with(text.unwrap()@, "/link"@) ==> {
                let ws = words(text.unwrap()@);
                if ws.len() > 1 && old(self).setup_pin is Some && old(self).setup_pin.unwrap()@ == ws[1] {
                    &&& r matches TelegramAction::Linked(u)
                    &&& u@ == user_id@
                    &&& final(self).setup_pin is None
                    &&& final(self).allowed matches Some(Some(a)) && a@ == user_id@
                    &&& final(self).enabled
                } else {
                    r is InvalidLink && *final(self) == *old(self)
                }
            },
            old(self).enabled && text is Some && !starts_with(text.unwrap()@, "/link"@) ==> {
                &&& *final(self) == *old(self)
                &&& match old(self).allowed {
                    None => r is LookupAllowed,
                    Some(a) => if a matches Some(id) && id@ == user_id@ {
                        r matches TelegramAction::Route { chat_id: c, text: t } && c@ == chat_id@
                            && t == text.unwrap()
                    } else {
                        r is Denied
                    },
                }
            },
    {
        if !self.enabled {
            return TelegramAction::Ignore;
        }
        let text = match text {
            Some(t) => t,
            None => {
                return TelegramAction::Ignore;
            },
        };
        let cs = to_chars(text.as_str());
        let link = to_chars("/link");
        if crate::text::starts_with_chars(cs.as_slice(), link.as_slice()) {
            let ws = split_words(text.as_str());
            if ws.len() > 1 {
                let matched = match &self.setup_pin {
                    Some(pin) => str_eq(pin.as_str(), ws[1].as_str()),
                    None => false,
                };
                if matched {
                    self.setup_pin = None;
                    self.allowed = Some(Some(owned(user_id)));
                    return TelegramAction::Linked(owned(user_id));
                }
            }
            return TelegramAction::InvalidLink;
        }
        match &self.allowed {
            None => TelegramAction::LookupAllowed,
            Some(a) => {
                let ok = match a {
                    Some(id) => str_eq(id.as_str(), user_id),
                    None => false,
                };
                if ok {
                    TelegramAction::Route { chat_id: owned(chat_id), text }
                } else {
                    TelegramAction::Denied
                }
            },
        }
    }

    /// The reply the bot sends for an action, if any.
    pub fn reply_for(&self, action: &TelegramAction) -> (r: Option<String>)
        ensures
            action is Linked ==> (r matches Some(t) && t@
                == "✨ *Successfully linked!* \nYou are now whitelisted and can use the bot."@),
            action is InvalidLink ==> (r matches Some(t) && t@ == "❌ *Invalid or expired link code.*"@),
            action is Denied ==> (r matches Some(t) && t@
                == "🔒 *Access Denied*\nPlease use `/link <pin>` to authorize this account."@),
            !(action is Linked || action is InvalidLink || action is Denied) ==> r is None,
    {
        match action {
            TelegramAction::Linked(_) => Some(
                lit("✨ *Successfully linked!* \nYou are now whitelisted and can use the bot."),
            ),
            TelegramAction::InvalidLink => Some(lit("❌ *Invalid or expired link code.*")),
            TelegramAction::Denied => Some(
                lit("🔒 *Access Denied*\nPlease use `/link <pin>` to authorize this account."),
            ),
            _ => None,
        }
    }
}

/// Telegram accepts any chat made of digits and minus signs.
pub fn telegram_chat_active(chat: &str) -> (r: bool)
    ensures
        r == is_telegram_chat(chat@),
{
    let cs = to_chars(chat);
    let mut i: usize = 0;
    while i < cs.len()
        invariant
            i <= cs@.len(),
            cs@ == chat@,
            forall|j: int| 0 <= j < i ==> (('0' <= #[trigger] cs@[j] && cs@[j] <= '9') || cs@[j] == '-'),
        decreases cs@.len() - i,
    {
        let c = cs[i];
        if !(('0' <= c && c <= '9') || c == '-') {
            return false;
        }
        i = i + 1;
    }
    true
}

/// What Telegram shows for the outcome of a command.
pub fn telegram_feedback_text(is_error: bool, result: String) -> (r: String)
    ensures
        is_error ==> r@ == "❌ Error: "@ + result@,
        !is_error ==> r == result,
{
    if is_error {
        let mut t = lit("❌ Error: ");
        push_str(&mut t, result.as_str());
        t
    } else {
        result
    }
}

/// A fresh password for the TCP socket: 32 random ASCII letters and digits.
pub fn tcp_password() -> (r: String)
    ensures
        r@.len() == 32,
        forall|i: int| 0 <= i < r@.len() ==> is_alphanumeric(#[trigger] r@[i]),
{
    random_alphanumeric(32)
}

} // verus!
