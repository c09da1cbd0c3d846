use vstd::prelude::*;
use crate::builtin::{args_of, concat3, sub_names};
use crate::command::{ArgSpec, CommandSpec, ValueType};
use crate::text::{
    from_chars, index_of, index_of_char, join, lit, push_str, slice, split, split_chars, str_eq,
    to_chars, views,
};

verus! {

broadcast use vstd::string::group_string_axioms;

/// The declaration of `/secrets`.
pub fn spec() -> (r: CommandSpec)
    ensures
        r.name@ == "secrets"@,
        r.category@ == "security"@,
        !r.allow_unknown_subcommands,
        sub_names(r) == seq!["list"@, "set"@, "approve"@, "deny"@],
        args_of(r.subcommands@[1]) == seq![
            ("component/key"@, true, ValueType::String, false),
            ("value"@, true, ValueType::String, false),
        ],
        args_of(r.subcommands@[2]) == seq![("component/key"@, true, ValueType::String, false)],
        args_of(r.subcommands@[3]) == seq![("component/key"@, true, ValueType::String, false)],
{
    let list = CommandSpec::new("list", "/secrets list", "List secret declarations");
    let set = CommandSpec::new("set", "/secrets set <component/key> <value>", "Set a secret").arg(
        ArgSpec::required("component/key", "Secret target"),
    ).arg(ArgSpec::required("value", "Secret value"));
    let approve = CommandSpec::new(
        "approve",
        "/secrets approve <component/key>",
        "Approve a secret declaration",
    ).arg(ArgSpec::required("component/key", "Secret target"));
    let deny = CommandSpec::new("deny", "/secrets deny <component/key>", "Deny a secret declaration")
        .arg(ArgSpec::required("component/key", "Secret target"));
    let r = CommandSpec::new(
        "secrets",
        "/secrets <list|set|approve|deny> <component/key> [value]",
        "Manage programmatic secret declarations",
    ).category("security").strict_subcommands().subcommand(list).subcommand(set).subcommand(
        approve,
    ).subcommand(deny);
    assert(sub_names(r) =~= seq!["list"@, "set"@, "approve"@, "deny"@]);
    assert(args_of(r.subcommands@[1]) =~= seq![
        ("component/key"@, true, ValueType::String, false),
        ("value"@, true, ValueType::String, false),
    ]);
    assert(args_of(r.subcommands@[2]) =~= seq![("component/key"@, true, ValueType::String, false)]);
    assert(args_of(r.subcommands@[3]) =~= seq![("component/key"@, true, ValueType::String, false)]);
    r
}

/// A secret declaration as `/secrets list` shows it.
pub struct DeclarationRow {
    pub key: String,
    pub description: String,
    pub approved: bool,
}

/// What `/secrets` has to do.
pub enum SecretRequest {
    Reply(String),
    List,
    Store { component: String, key: String, value: String },
    Approve { component: String, key: String },
    Deny { component: String, key: String },
}

/// The component and key of a `set` target: split at its first `/`, or the
/// root component when it has none.
pub open spec fn set_target(target: Seq<char>) -> (Seq<char>, Seq<char>) {
    match index_of(target, '/') {
        Some(p) => (target.take(p), target.skip(p + 1)),
        None => (seq![], target),
    }
}

/// The request of `/secrets`, by the words it carries.
pub open spec fn secret_request_is(r: SecretRequest, args: Seq<Seq<char>>) -> bool {
    if args.len() == 0 || args[0] == "list"@ {
        r is List
    } else if args[0] == "set"@ {
        if args.len() < 3 {
            r matches SecretRequest::Reply(t) && t@ == "Usage: /secrets set <component/key> <value>"@
        } else {
            r matches SecretRequest::Store { component, key, value } && component@ == set_target(
                args[1],
            ).0 && key@ == set_target(args[1]).1 && value@ == args[2]
        }
    } else if args.len() < 2 {
        r matches SecretRequest::Reply(t) && t@ == "Usage: /secrets <approve|deny> <component_id/key>"@
    } else if split(args[1], '/').len() != 2 {
        r matches SecretRequest::Reply(t) && t@ == "Invalid target format. Use component_id/key"@
    } else {
        let parts = split(args[1], '/');
        if args[0] == "approve"@ {
            r matches SecretRequest::Approve { component, key } && component@ == parts[0] && key@
                == parts[1]
        } else if args[0] == "deny"@ {
            r matches SecretRequest::Deny { component, key } && component@ == parts[0] && key@
                == parts[1]
        } else {
            r matches SecretRequest::Reply(t) && t@ == "Unknown secret subcommand: "@ + args[0]
        }
    }
}

/// One line of `/secrets list`.
pub open spec fn declaration_line(d: DeclarationRow) -> Seq<char> {
    (if d.approved {
        "[OK]"@
    } else {
        "[PENDING]"@
    }) + " "@ + d.key@ + " — "@ + d.description@
}

/// The reply of `/secrets list`.
pub open spec fn declarations_text(ds: Seq<DeclarationRow>) -> Seq<char> {
    if ds.len() == 0 {
        "No secret declarations found."@
    } else {
        "Secret declarations:\n"@ + join(ds.map_values(|d: DeclarationRow| declaration_line(d)), "\n"@)
    }
}

/// The handler of `/secrets`.
pub struct SecretCommand;

impl SecretCommand {
    /// What `/secrets` does with `args`.
    pub fn plan(&self, args: &Vec<String>) -> (r: SecretRequest)
        ensures
            secret_request_is(r, views(args@)),
    {
        let ghost av = views(args@);
        if args.len() == 0 || str_eq(args[0].as_str(), "list") {
            return SecretRequest::List;
        }
        assert(av[0] == args@[0]@);
        let action = args[0].as_str();
        if str_eq(action, "set") {
            if args.len() < 3 {
                return SecretRequest::Reply(lit("Usage: /secrets set <component/key> <value>"));
            }
            assert(av[1] == args@[1]@ && av[2] == args@[2]@);
            let t = to_chars(args[1].as_str());
            let (component, key) = match index_of_char(t.as_slice(), '/') {
                Some(p) => {
                    assert(p < t.len());
                    let c = from_chars(slice(t.as_slice(), 0, p).as_slice());
                    let k = from_chars(slice(t.as_slice(), p + 1, t.len()).as_slice());
                    assert(t@.subrange(0, p as int) =~= t@.take(p as int));
                    assert(t@.subrange(p + 1, t@.len() as int) =~= t@.skip(p + 1));
                    (c, k)
                },
                None => {
                    assert(Seq::<char>::empty() =~= seq![]);
                    (String::new(), args[1].clone())
                },
            };
            return SecretRequest::Store { component, key, value: args[2].clone() };
        }
        if args.len() < 2 {
            return SecretRequest::Reply(lit("Usage: /secrets <approve|deny> <component_id/key>"));
        }
        assert(av[1] == args@[1]@);
        let t = to_chars(args[1].as_str());
        let parts = split_chars(t.as_slice(), '/');
        assert(parts@.map_values(|v: Vec<char>| v@).len() == parts@.len());
        if parts.len() != 2 {
            return SecretRequest::Reply(lit("Invalid target format. Use component_id/key"));
        }
        assert(parts@.map_values(|v: Vec<char>| v@)[0] == parts@[0]@);
        assert(parts@.map_values(|v: Vec<char>| v@)[1] == parts@[1]@);
        let component = from_chars(parts[0].as_slice());
        let key = from_chars(parts[1].as_slice());
        if str_eq(action, "approve") {
            SecretRequest::Approve { component, key }
        } else if str_eq(action, "deny") {
            SecretRequest::Deny { component, key }
        } else {
            let mut t = lit("Unknown secret subcommand: ");
            push_str(&mut t, action);
            SecretRequest::Reply(t)
        }
    }

    /// The reply after setting a secret.
    pub fn set_reply(&self, component: &str, key: &str) -> (r: String)
        ensures
            component@.len() == 0 ==> r@ == "Successfully set root secret: "@ + key@,
            component@.len() > 0 ==> r@ == "Successfully set secret: "@ + component@ + "/"@ + key@,
    {
        if component.is_empty() {
            let mut t = lit("Successfully set root secret: ");
            push_str(&mut t, key);
            t
        } else {
            let mut t = lit("Successfully set secret: ");
            push_str(&mut t, component);
            push_str(&mut t, "/");
            push_str(&mut t, key);
            t
        }
    }

    /// The reply after approving (`approved`) or denying a declaration.
    pub fn decision_reply(&self, approved: bool, component: &str, key: &str) -> (r: String)
        ensures
            approved ==> r@ == "Approved secret: "@ + component@ + "/"@ + key@,
            !approved ==> r@ == "Denied secret: "@ + component@ + "/"@ + key@,
    {
        let mut t = if approved {
            lit("Approved secret: ")
        } else {
            lit("Denied secret: ")
        };
        push_str(&mut t, component);
        push_str(&mut t, "/");
        push_str(&mut t, key);
        t
    }

    /// The reply of `/secrets list`.
    pub fn list_reply(&self, declarations: &Vec<DeclarationRow>) -> (r: String)
        ensures
            r@ == declarations_text(declarations@),
    {
        if declarations.len() == 0 {
            return lit("No secret declarations found.");
        }
        let ghost f = |d: DeclarationRow| declaration_line(d);
        let mut lines: Vec<String> = Vec::new();
        let mut i: usize = 0;
        while i < declarations.len()
            invariant
                i <= declarations@.len(),
                f == (|d: DeclarationRow| declaration_line(d)),
                views(lines@) == declarations@.take(i as int).map_values(f),
            decreases declarations@.len() - i,
        {
            let d = &declarations[i];
            let mut line = if d.approved {
                lit("[OK]")
            } else {
                lit("[PENDING]")
            };
            push_str(&mut line, " ");
            push_str(&mut line, d.key.as_str());
            push_str(&mut line, " — ");
            push_str(&mut line, d.description.as_str());
            let ghost before = lines@;
            lines.push(line);
            assert(views(lines@) =~= views(before).push(f(declarations@[i as int])));
            assert(declarations@.take(i + 1).map_values(f) =~= declarations@.take(i as int).map_values(
                f,
            ).push(f(declarations@[i as int])));
            i = i + 1;
        }
        assert(declarations@.take(declarations@.len() as int) =~= declarations@);
        let mut out = lit("Secret declarations:\n");
        let body = crate::text::join_strings(&lines, "\n");
        assert(lines@.map_values(|p: String| p@) =~= views(lines@));
        push_str(&mut out, body.as_str());
        out
    }
}

} // verus!
