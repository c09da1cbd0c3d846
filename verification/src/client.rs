//! The decisions of the command-line client: its options, what it does with a
//! typed line, and how it shows and follows what the daemon sends.

use vstd::prelude::*;
use crate::text::{lit, lowercase, owned, push_str, slice, starts_with, starts_with_chars, str_eq, to_chars, to_lowercase, trim, trim_str};

verus! {

broadcast use vstd::string::group_string_axioms;

/// How the client reaches the daemon.
#[derive(PartialEq, Eq, Structural, Clone, Copy, Debug)]
pub enum Protocol {
    Unix,
    Tcp,
}

/// The options of the client.
pub struct ClientOptions {
    pub protocol: Protocol,
    pub host: String,
    pub secret_override: Option<String>,
}

/// The options as plain values.
pub struct OptionsView {
    pub protocol: Protocol,
    pub host: Seq<char>,
    pub secret: Option<Seq<char>>,
}

/// The options after reading `args` from position `i` on; a flag without a
/// value is ignored, and so is any unknown word.
pub open spec fn read_options(args: Seq<Seq<char>>, i: int, o: OptionsView) -> Result<OptionsView, Seq<char>>
    decreases args.len() - i,
{
    if i < 0 || i >= args.len() {
        Ok(o)
    } else {
        let a = args[i];
        let has_value = i + 1 < args.len();
        if (a == "--protocol"@ || a == "-p"@) && has_value {
            let v = lowercase(args[i + 1]);
            if v == "tcp"@ {
                read_options(args, i + 2, OptionsView { protocol: Protocol::Tcp, ..o })
            } else if v == "unix"@ {
                read_options(args, i + 2, OptionsView { protocol: Protocol::Unix, ..o })
            } else {
                Err("Unknown protocol: "@ + args[i + 1])
            }
        } else if (a == "--host"@ || a == "-h"@) && has_value {
            read_options(args, i + 2, OptionsView { host: args[i + 1], ..o })
        } else if (a == "--secret"@ || a == "-s"@) && has_value {
            read_options(args, i + 2, OptionsView { secret: Some(args[i + 1]), ..o })
        } else {
            read_options(args, i + 1, o)
        }
    }
}

/// The defaults: a Unix socket, the local TCP port 10000, no secret.
pub open spec fn default_options() -> OptionsView {
    OptionsView { protocol: Protocol::Unix, host: "127.0.0.1:10000"@, secret: None }
}

/// The options as plain values.
pub open spec fn options_view(o: ClientOptions) -> OptionsView {
    OptionsView {
        protocol: o.protocol,
        host: o.host@,
        secret: match o.secret_override {
            Some(s) => Some(s@),
            None => None,
        },
    }
}

/// Reads the client's options from its arguments (without the program name);
/// an unknown protocol is refused.
pub fn parse_client_args(args: &Vec<String>) -> (r: Result<ClientOptions, String>)
    ensures
        match read_options(crate::text::views(args@), 0, default_options()) {
            Ok(o) => r matches Ok(c) && options_view(c) == o,
            Err(e) => r matches Err(m) && m@ == e,
        },
{
    let ghost av = crate::text::views(args@);
    let mut o = ClientOptions { protocol: Protocol::Unix, host: lit("127.0.0.1:10000"), secret_override: None };
    let mut i: usize = 0;
    while i < args.len()
        invariant
            av == crate::text::views(args@),
            i <= args@.len() + 1,
            read_options(av, 0, default_options()) == read_options(av, i as int, options_view(o)),
        decreases args@.len() + 1 - i,
    {
        let a = args[i].as_str();
        assert(av[i as int] == a@);
        let has_value = i + 1 < args.len();
        if (str_eq(a, "--protocol") || str_eq(a, "-p")) && has_value {
            assert(av[i + 1] == args@[i + 1]@);
            let v = to_lowercase(args[i + 1].as_str());
            if str_eq(v.as_str(), "tcp") {
                o.protocol = Protocol::Tcp;
            } else if str_eq(v.as_str(), "unix") {
                o.protocol = Protocol::Unix;
            } else {
                let mut e = lit("Unknown protocol: ");
                push_str(&mut e, args[i + 1].as_str());
                return Err(e);
            }
            i = i + 2;
        } else if (str_eq(a, "--host") || str_eq(a, "-h")) && has_value {
            assert(av[i + 1] == args@[i + 1]@);
            o.host = args[i + 1].clone();
            i = i + 2;
        } else if (str_eq(a, "--secret") || str_eq(a, "-s")) && has_value {
            assert(av[i + 1] == args@[i + 1]@);
            o.secret_override = Some(args[i + 1].clone());
            i = i + 2;
        } else {
            i = i + 1;
        }
    }
    Ok(o)
}

/// The secret the client sends: over TCP, the one given on the command line,
/// else the trimmed content of the daemon's password file; none over a Unix
/// socket.
pub fn client_secret(protocol: Protocol, secret_override: Option<String>, password_file: Option<String>) -> (r: Option<String>)
    ensures
        protocol == Protocol::Unix ==> r is None,
        protocol == Protocol::Tcp ==> match secret_override {
            Some(s) => r == Some(s),
            None => match password_file {
                Some(p) => r matches Some(t) && t@ == trim(p@),
                None => r is None,
            },
        },
{
    match protocol {
        Protocol::Unix => None,
        Protocol::Tcp => match secret_override {
            Some(s) => Some(s),
            None => match password_file {
                Some(p) => Some(trim_str(p.as_str())),
                None => None,
            },
        },
    }
}

/// What the client does with a typed line.
pub enum InputAction {
    /// Nothing: the line is blank.
    Skip,
    /// Leave the client.
    Quit,
    /// Send the trimmed line to the daemon.
    Send(String),
}

/// A blank line is skipped, `/exit` and `/quit` leave, anything else is sent
/// trimmed.
pub fn classify_input(line: &str) -> (r: InputAction)
    ensures
        trim(line@).len() == 0 ==> r is Skip,
        trim(line@).len() > 0 && (trim(line@) == "/exit"@ || trim(line@) == "/quit"@) ==> r is Quit,
        trim(line@).len() > 0 && !(trim(line@) == "/exit"@ || trim(line@) == "/quit"@) ==> (r matches InputAction::Send(t) && t@ == trim(line@)),
{
    let t = trim_str(line);
    if t.as_str().is_empty() {
        InputAction::Skip
    } else if str_eq(t.as_str(), "/exit") || str_eq(t.as_str(), "/quit") {
        InputAction::Quit
    } else {
        InputAction::Send(t)
    }
}

/// The prefix of the daemon's notice that the client moved to a chat.
pub open spec fn switch_notice() -> Seq<char> {
    "NOTIFICATION:switch_chat:"@
}

/// The prefix of the daemon's notice that a chat was created for the client.
pub open spec fn new_chat_notice() -> Seq<char> {
    "NOTIFICATION:new_chat:"@
}

/// The chat the client is in.
pub struct ClientState {
    pub current_chat: String,
}

impl ClientState {
    /// The client starts in the CLI's default chat.
    pub fn new() -> (r: Self)
        ensures
            r.current_chat@ == "chat-cli"@,
    {
        ClientState { current_chat: lit("chat-cli") }
    }

    /// What the client prints for a line from the daemon: a notice moves it
    /// to the chat it names and is shown as a system line; a line that
    /// starts with an escape sequence is shown as it is; any other line is
    /// shown as the bot's.
    pub fn on_server_line(&mut self, line: &str) -> (r: String)
        ensures
            starts_with(line@, switch_notice()) ==> final(self).current_chat@ == line@.skip(25)
                && r@ == "\n\x1b[1;33m[SYSTEM]\x1b[0m Switched to chat: \x1b[1;32m"@ + line@.skip(25)
                + "\x1b[0m\n"@,
            !starts_with(line@, switch_notice()) && starts_with(line@, new_chat_notice())
                ==> final(self).current_chat@ == line@.skip(22) && r@ == "\n\x1b[1;33m[SYSTEM]\x1b[0m Created and switched to: \x1b[1;32m"@
                + line@.skip(22) + "\x1b[0m\n"@,
            !starts_with(line@, switch_notice()) && !starts_with(line@, new_chat_notice()) ==> {
                &&& final(self).current_chat == old(self).current_chat
                &&& starts_with(line@, "\x1b["@) ==> r@ == line@
                &&& !starts_with(line@, "\x1b["@) ==> r@ == "\x1b[1;35mbot\x1b[0m  \x1b[90m>\x1b[0m "@ + line@
            },
    {
        let cs = to_chars(line);
        let sw = to_chars("NOTIFICATION:switch_chat:");
        let nw = to_chars("NOTIFICATION:new_chat:");
        let esc = to_chars("\x1b[");
        proof {
            reveal_strlit("NOTIFICATION:switch_chat:");
            reveal_strlit("NOTIFICATION:new_chat:");
        }
        if starts_with_chars(cs.as_slice(), sw.as_slice()) {
            let id = crate::text::from_chars(slice(cs.as_slice(), 25, cs.len()).as_slice());
            assert(cs@.subrange(25, cs@.len() as int) =~= line@.skip(25));
            let mut out = lit("\n\x1b[1;33m[SYSTEM]\x1b[0m Switched to chat: \x1b[1;32m");
            push_str(&mut out, id.as_str());
            push_str(&mut out, "\x1b[0m\n");
            self.current_chat = id;
            out
        } else if starts_with_chars(cs.as_slice(), nw.as_slice()) {
            let id = crate::text::from_chars(slice(cs.as_slice(), 22, cs.len()).as_slice());
            assert(cs@.subrange(22, cs@.len() as int) =~= line@.skip(22));
            let mut out = lit("\n\x1b[1;33m[SYSTEM]\x1b[0m Created and switched to: \x1b[1;32m");
            push_str(&mut out, id.as_str());
            push_str(&mut out, "\x1b[0m\n");
            self.current_chat = id;
            out
        } else if starts_with_chars(cs.as_slice(), esc.as_slice()) {
            owned(line)
        } else {
            let mut out = lit("\x1b[1;35mbot\x1b[0m  \x1b[90m>\x1b[0m ");
            push_str(&mut out, line);
            out
        }
    }

    /// The prompt shown before each typed line, naming the current chat.
    pub fn prompt(&self) -> (r: String)
        ensures
            r@ == "\x1b[1;34muser\x1b[0m (\x1b[1;32m"@ + self.current_chat@ + "\x1b[0m) \x1b[90m>\x1b[0m"@,
    {
        let mut out = lit("\x1b[1;34muser\x1b[0m (\x1b[1;32m");
        push_str(&mut out, self.current_chat.as_str());
        push_str(&mut out, "\x1b[0m) \x1b[90m>\x1b[0m");
        out
    }

    /// The first request of a session: switching to the current chat, which
    /// makes the daemon send its history.
    pub fn opening_request(&self) -> (r: String)
        ensures
            r@ == "/chat switch "@ + self.current_chat@,
    {
        let mut out = lit("/chat switch ");
        push_str(&mut out, self.current_chat.as_str());
        out
    }
}

} // verus!
