use vstd::prelude::*;
use crate::command::{help_text, ArgSpec, CommandSpec, FlagSpec, ValueType};
use crate::strmap::StrMap;
use crate::text::{
    ascii_lower, from_chars, is_ascii_text, index_of, index_of_char, join, lowercase, lit, owned, push_str, slice, starts_with,
    starts_with_chars, to_chars, to_lowercase, trim, trim_chars, views,
};
use crate::value::{valid_value, validate_value};

verus! {

broadcast use vstd::string::group_string_axioms;

// ---------------------------------------------------------------------------
// Splitting a slash command line.
// ---------------------------------------------------------------------------

/// Whether the input, trimmed, begins with `/`.
pub fn is_slash_command(input: &str) -> (r: bool)
    ensures
        r == (trim(input@).len() > 0 && trim(input@)[0] == '/'),
{
    let cs = to_chars(input);
    let t = trim_chars(cs.as_slice());
    t.len() > 0 && t[0] == '/'
}

/// A command name and its arguments.
#[derive(Debug, Clone)]
pub struct ParsedCommand {
    pub name: String,
    pub args: Vec<String>,
}

/// The first word of a trimmed line (up to the first space).
pub open spec fn head_of(t: Seq<char>) -> Seq<char> {
    match index_of(t, ' ') {
        Some(i) => t.take(i),
        None => t,
    }
}

/// What follows the first space of a trimmed line, trimmed.
pub open spec fn rest_of(t: Seq<char>) -> Seq<char> {
    match index_of(t, ' ') {
        Some(i) => trim(t.skip(i + 1)),
        None => seq![],
    }
}

/// `s` without one leading `/`.
pub open spec fn strip_slash(s: Seq<char>) -> Seq<char> {
    if s.len() > 0 && s[0] == '/' {
        s.drop_first()
    } else {
        s
    }
}

/// The state of splitting arguments: the finished arguments, the one being
/// read, and whether a quote is open.
pub open spec fn quote_state(s: Seq<char>) -> (Seq<Seq<char>>, Seq<char>, bool)
    decreases s.len(),
{
    if s.len() == 0 {
        (seq![], seq![], false)
    } else {
        let (args, cur, q) = quote_state(s.drop_last());
        let c = s.last();
        if c == '"' {
            if q {
                (args.push(cur), seq![], false)
            } else {
                (args, cur, true)
            }
        } else if c == ' ' && !q {
            if cur.len() > 0 {
                (args.push(cur), seq![], q)
            } else {
                (args, cur, q)
            }
        } else {
            (args, cur.push(c), q)
        }
    }
}

/// The arguments of `s`: split at spaces outside double quotes; a closing quote
/// ends an argument even when it is empty.
pub open spec fn quoted_args(s: Seq<char>) -> Seq<Seq<char>> {
    let (args, cur, q) = quote_state(s);
    if cur.len() > 0 {
        args.push(cur)
    } else {
        args
    }
}

/// The arguments of what follows a command name.
pub open spec fn parsed_args(rest: Seq<char>) -> Seq<Seq<char>> {
    if rest.len() == 0 {
        seq![]
    } else {
        quoted_args(rest)
    }
}

/// Splits `input` into arguments, honouring double quotes.
pub fn parse_quoted_args(input: &str) -> (r: Vec<String>)
    ensures
        views(r@) == quoted_args(input@),
{
    let cs = to_chars(input);
    let mut args: Vec<String> = Vec::new();
    let mut current: Vec<char> = Vec::new();
    let mut in_quotes = false;
    let mut i: usize = 0;
    while i < cs.len()
        invariant
            i <= cs@.len(),
            cs@ == input@,
            (views(args@), current@, in_quotes) == quote_state(cs@.take(i as int)),
        decreases cs@.len() - i,
    {
        let ch = cs[i];
        assert(cs@.take(i + 1).drop_last() == cs@.take(i as int));
        let ghost before = args@;
        if ch == '"' {
            if in_quotes {
                args.push(from_chars(current.as_slice()));
                current = Vec::new();
                in_quotes = false;
                assert(views(args@) == views(before).push(quote_state(cs@.take(i as int)).1));
            } else {
                in_quotes = true;
            }
        } else if ch == ' ' && !in_quotes {
            if current.len() > 0 {
                args.push(from_chars(current.as_slice()));
                current = Vec::new();
                assert(views(args@) == views(before).push(quote_state(cs@.take(i as int)).1));
            }
        } else {
            current.push(ch);
        }
        i = i + 1;
    }
    assert(cs@.take(cs@.len() as int) == cs@);
    if current.len() > 0 {
        let ghost before = args@;
        args.push(from_chars(current.as_slice()));
        assert(views(args@) == views(before).push(current@));
    }
    args
}

/// Builds the parsed command from the lower-cased first word and the rest.
pub fn command_from_parts(lowered_head: &str, rest: &str) -> (r: ParsedCommand)
    ensures
        r.name@ == strip_slash(lowered_head@),
        views(r.args@) == parsed_args(rest@),
{
    let h = to_chars(lowered_head);
    let name = if h.len() > 0 && h[0] == '/' {
        from_chars(slice(h.as_slice(), 1, h.len()).as_slice())
    } else {
        from_chars(h.as_slice())
    };
    assert(h@.len() > 0 ==> h@.subrange(1, h@.len() as int) == h@.drop_first());
    let args = if rest.is_empty() {
        Vec::new()
    } else {
        parse_quoted_args(rest)
    };
    assert(rest@.len() == 0 ==> views(args@) =~= seq![]);
    ParsedCommand { name, args }
}

/// Splits a slash command line into its lower-cased name (without `/`) and its
/// arguments.
pub fn parse_slash_command(input: &str) -> (r: ParsedCommand)
    ensures
        r.name@ == strip_slash(lowercase(head_of(trim(input@)))),
        is_ascii_text(head_of(trim(input@))) ==> r.name@ == strip_slash(
            head_of(trim(input@)).map_values(|c: char| ascii_lower(c)),
        ),
        views(r.args@) == parsed_args(rest_of(trim(input@))),
{
    let cs = to_chars(input);
    let t = trim_chars(cs.as_slice());
    let (head, rest) = match index_of_char(t.as_slice(), ' ') {
        Some(i) => {
            assert(i < t.len());
            let h = slice(t.as_slice(), 0, i);
            let r = trim_chars(slice(t.as_slice(), i + 1, t.len()).as_slice());
            assert(h@ == t@.take(i as int));
            assert(t@.subrange(i + 1, t@.len() as int) == t@.skip(i + 1));
            (h, r)
        },
        None => (slice(t.as_slice(), 0, t.len()), Vec::new()),
    };
    assert(t@.subrange(0, t@.len() as int) == t@);
    let head_s = from_chars(head.as_slice());
    let lowered = to_lowercase(head_s.as_str());
    let rest_s = from_chars(rest.as_slice());
    command_from_parts(lowered.as_str(), rest_s.as_str())
}

// ---------------------------------------------------------------------------
// Flags and positional arguments.
// ---------------------------------------------------------------------------

/// Why the arguments of a command are refused.
pub enum ParseFailure {
    UnknownFlag(Seq<char>),
    MissingFlagValue(Seq<char>),
    InvalidArgument(Seq<char>, ValueType, Seq<char>),
    UnexpectedArgument(Seq<char>),
    MissingArgument(Seq<char>),
}

/// The result of reading the arguments: the flags with their values and the
/// positional arguments, or why they are refused.
pub enum ScanOutcome {
    Done(Map<Seq<char>, Option<Seq<char>>>, Seq<Seq<char>>),
    Failed(ParseFailure),
}

/// The index of the first flag named `name`.
pub open spec fn find_flag(flags: Seq<FlagSpec>, name: Seq<char>) -> Option<int>
    decreases flags.len(),
{
    if flags.len() == 0 {
        None
    } else {
        match find_flag(flags.drop_last(), name) {
            Some(i) => Some(i),
            None => if flags.last().name@ == name {
                Some(flags.len() - 1)
            } else {
                None
            },
        }
    }
}

/// The name part of `name=value` (or all of it).
pub open spec fn flag_name(nv: Seq<char>) -> Seq<char> {
    match index_of(nv, '=') {
        Some(j) => nv.take(j),
        None => nv,
    }
}

/// The value part of `name=value`, if there is one.
pub open spec fn inline_value(nv: Seq<char>) -> Option<Seq<char>> {
    match index_of(nv, '=') {
        Some(j) => Some(nv.skip(j + 1)),
        None => None,
    }
}

/// Reads the arguments from position `i` on, with the flags and positional
/// arguments read so far.
pub open spec fn scan(
    args: Seq<Seq<char>>,
    flags: Seq<FlagSpec>,
    i: int,
    seen: Map<Seq<char>, Option<Seq<char>>>,
    pos: Seq<Seq<char>>,
) -> ScanOutcome
    decreases args.len() - i,
{
    if i >= args.len() || i < 0 {
        ScanOutcome::Done(seen, pos)
    } else {
        let a = args[i];
        if starts_with(a, "--"@) {
            let nv = a.skip(2);
            let name = flag_name(nv);
            match find_flag(flags, name) {
                None => ScanOutcome::Failed(ParseFailure::UnknownFlag("--"@ + name)),
                Some(fi) => {
                    let f = flags[fi];
                    if f.takes_value {
                        let value = match inline_value(nv) {
                            Some(v) => Some(v),
                            None => if i + 1 < args.len() {
                                Some(args[i + 1])
                            } else {
                                None
                            },
                        };
                        let next = if inline_value(nv) is Some {
                            i + 1
                        } else {
                            i + 2
                        };
                        match value {
                            None => ScanOutcome::Failed(ParseFailure::MissingFlagValue("--"@ + name)),
                            Some(v) => if valid_value(v, f.value_type) {
                                scan(args, flags, next, seen.insert(f.name@, Some(v)), pos)
                            } else {
                                ScanOutcome::Failed(
                                    ParseFailure::InvalidArgument("--"@ + name, f.value_type, v),
                                )
                            },
                        }
                    } else {
                        scan(args, flags, i + 1, seen.insert(f.name@, None), pos)
                    }
                },
            }
        } else {
            scan(args, flags, i + 1, seen, pos.push(a))
        }
    }
}

/// Some argument takes all remaining values.
pub open spec fn any_variadic(args: Seq<ArgSpec>) -> bool {
    exists|i: int| 0 <= i < args.len() && args[i].variadic
}

/// The first problem with the positional arguments, checking the declared
/// arguments from `idx` on.
pub open spec fn check_args(pos: Seq<Seq<char>>, args: Seq<ArgSpec>, idx: int) -> Option<ParseFailure>
    decreases args.len() - idx,
{
    if idx >= args.len() || idx < 0 {
        None
    } else {
        let a = args[idx];
        if a.required && idx >= pos.len() {
            Some(ParseFailure::MissingArgument(a.name@))
        } else if idx < pos.len() && !valid_value(pos[idx], a.value_type) {
            Some(ParseFailure::InvalidArgument(a.name@, a.value_type, pos[idx]))
        } else if a.variadic {
            None
        } else {
            check_args(pos, args, idx + 1)
        }
    }
}

/// The first problem with the positional arguments: one too many, a missing
/// required one, or one of the wrong type.
pub open spec fn positional_failure(pos: Seq<Seq<char>>, args: Seq<ArgSpec>) -> Option<ParseFailure> {
    if !any_variadic(args) && pos.len() > args.len() {
        Some(ParseFailure::UnexpectedArgument(pos[args.len() as int]))
    } else {
        check_args(pos, args, 0)
    }
}

/// What reading `args` against `spec` gives.
pub open spec fn parse_outcome(args: Seq<Seq<char>>, spec: CommandSpec) -> ScanOutcome {
    match scan(args, spec.flags@, 0, Map::empty(), seq![]) {
        ScanOutcome::Done(f, p) => match positional_failure(p, spec.args@) {
            Some(e) => ScanOutcome::Failed(e),
            None => ScanOutcome::Done(f, p),
        },
        ScanOutcome::Failed(e) => ScanOutcome::Failed(e),
    }
}

/// Why a command line was refused; each variant names the command and carries
/// its help text.
#[derive(Debug, Clone)]
pub enum CommandParseError {
    NotSlashCommand,
    UnknownCommand { name: String, available: Vec<String> },
    UnknownSubcommand { command: String, subcommand: String, help: String },
    MissingArgument { command: String, argument: String, help: String },
    InvalidArgument { command: String, argument: String, expected: ValueType, value: String, help: String },
    UnknownFlag { command: String, flag: String, help: String },
    MissingFlagValue { command: String, flag: String, help: String },
    UnexpectedArgument { command: String, argument: String, help: String },
}

impl CommandParseError {
    /// The error reports `f` for `command` with the help text `help`.
    pub open spec fn reports(&self, command: Seq<char>, help: Seq<char>, f: ParseFailure) -> bool {
        match f {
            ParseFailure::UnknownFlag(fl) => self matches CommandParseError::UnknownFlag {
                command: c,
                flag,
                help: h,
            } && c@ == command && flag@ == fl && h@ == help,
            ParseFailure::MissingFlagValue(fl) => self matches CommandParseError::MissingFlagValue {
                command: c,
                flag,
                help: h,
            } && c@ == command && flag@ == fl && h@ == help,
            ParseFailure::InvalidArgument(a, t, v) => self matches CommandParseError::InvalidArgument {
                command: c,
                argument,
                expected,
                value,
                help: h,
            } && c@ == command && argument@ == a && expected == t && value@ == v && h@ == help,
            ParseFailure::UnexpectedArgument(a) => self matches CommandParseError::UnexpectedArgument {
                command: c,
                argument,
                help: h,
            } && c@ == command && argument@ == a && h@ == help,
            ParseFailure::MissingArgument(a) => self matches CommandParseError::MissingArgument {
                command: c,
                argument,
                help: h,
            } && c@ == command && argument@ == a && h@ == help,
        }
    }
}

/// The flags and values of a map, values by their characters.
pub open spec fn flag_view(m: Map<Seq<char>, Option<String>>) -> Map<Seq<char>, Option<Seq<char>>> {
    m.map_values(
        |o: Option<String>|
            match o {
                Some(s) => Some(s@),
                None => None,
            },
    )
}

/// The first flag named `name`.
fn find_flag_exec(flags: &Vec<FlagSpec>, name: &[char]) -> (r: Option<usize>)
    ensures
        r matches Some(i) ==> find_flag(flags@, name@) == Some(i as int) && i < flags@.len(),
        r is None ==> find_flag(flags@, name@) is None,
{
    let mut i: usize = 0;
    while i < flags.len()
        invariant
            i <= flags@.len(),
            find_flag(flags@.take(i as int), name@) is None,
        decreases flags@.len() - i,
    {
        let n = to_chars(flags[i].name.as_str());
        assert(flags@.take(i + 1).drop_last() == flags@.take(i as int));
        if crate::text::chars_eq(n.as_slice(), name) {
            proof {
                lemma_find_flag_extends(flags@, name@, i as int, i + 1);
                assert(flags@.take(flags@.len() as int) == flags@);
            }
            return Some(i);
        }
        i = i + 1;
    }
    assert(flags@.take(flags@.len() as int) == flags@);
    None
}

/// A flag found in a prefix is found at the same place in a longer prefix.
proof fn lemma_find_flag_extends(flags: Seq<FlagSpec>, name: Seq<char>, i: int, j: int)
    requires
        0 <= i < j <= flags.len(),
        find_flag(flags.take(j), name) == Some(i),
    ensures
        find_flag(flags, name) == Some(i),
    decreases flags.len() - j,
{
    if j < flags.len() {
        assert(flags.take(j + 1).drop_last() == flags.take(j));
        lemma_find_flag_extends(flags, name, i, j + 1);
    } else {
        assert(flags.take(j) == flags);
    }
}

/// Checks the positional arguments against the declared arguments.
pub fn validate_positionals(positionals: &[String], spec: &CommandSpec) -> (r: Result<(), CommandParseError>)
    ensures
        r is Ok <==> positional_failure(views(positionals@), spec.args@) is None,
        r matches Err(e) ==> e.reports(
            spec.name@,
            help_text(*spec, spec.name@),
            positional_failure(views(positionals@), spec.args@).unwrap(),
        ),
{
    let ghost pos = views(positionals@);
    let mut allows_variadic = false;
    let mut j: usize = 0;
    while j < spec.args.len()
        invariant
            j <= spec.args@.len(),
            allows_variadic == exists|k: int| 0 <= k < j && spec.args@[k].variadic,
        decreases spec.args@.len() - j,
    {
        if spec.args[j].variadic {
            allows_variadic = true;
        }
        j = j + 1;
    }
    if !allows_variadic && positionals.len() > spec.args.len() {
        let argument = positionals[spec.args.len()].clone();
        return Err(CommandParseError::UnexpectedArgument {
            command: spec.name.clone(),
            argument,
            help: spec.render_help(spec.name.as_str()),
        });
    }
    let mut index: usize = 0;
    assert(positional_failure(pos, spec.args@) == check_args(pos, spec.args@, 0));
    while index < spec.args.len()
        invariant
            index <= spec.args@.len(),
            pos == views(positionals@),
            positional_failure(pos, spec.args@) == check_args(pos, spec.args@, 0),
            check_args(pos, spec.args@, 0) == check_args(pos, spec.args@, index as int),
        decreases spec.args@.len() - index,
    {
        let arg = &spec.args[index];
        if arg.required && index >= positionals.len() {
            return Err(CommandParseError::MissingArgument {
                command: spec.name.clone(),
                argument: arg.name.clone(),
                help: spec.render_help(spec.name.as_str()),
            });
        }
        if index < positionals.len() {
            let value = &positionals[index];
            assert(pos[index as int] == value@);
            match validate_value(value.as_str(), &arg.value_type) {
                Ok(()) => {},
                Err(()) => {
                    assert(check_args(pos, spec.args@, index as int) == Some(
                        ParseFailure::InvalidArgument(arg.name@, arg.value_type, value@),
                    ));
                    let err = CommandParseError::InvalidArgument {
                        command: spec.name.clone(),
                        argument: arg.name.clone(),
                        expected: arg.value_type,
                        value: value.clone(),
                        help: spec.render_help(spec.name.as_str()),
                    };
                    assert(positional_failure(pos, spec.args@) == Some(
                        ParseFailure::InvalidArgument(arg.name@, arg.value_type, value@),
                    ));
                    assert(err.reports(
                        spec.name@,
                        help_text(*spec, spec.name@),
                        ParseFailure::InvalidArgument(arg.name@, arg.value_type, value@),
                    ));
                    return Err(err);
                },
            }
        }
        if arg.variadic {
            return Ok(());
        }
        index = index + 1;
    }
    Ok(())
}

/// Separates `--flag[=value]` arguments from positional ones and checks both
/// against the command's declaration.
pub fn parse_flags_and_positionals(args: &[String], spec: &CommandSpec) -> (r: Result<
    (StrMap<Option<String>>, Vec<String>),
    CommandParseError,
>)
    ensures
        match parse_outcome(views(args@), *spec) {
            ScanOutcome::Done(f, p) => r matches Ok((flags, pos)) && flags.wf() && flag_view(flags@) == f
                && views(pos@) == p,
            ScanOutcome::Failed(e) => r matches Err(err) && err.reports(
                spec.name@,
                help_text(*spec, spec.name@),
                e,
            ),
        },
{
    let ghost av = views(args@);
    let mut flags: StrMap<Option<String>> = StrMap::new();
    let mut positionals: Vec<String> = Vec::new();
    let dashes = to_chars("--");
    proof {
        reveal_strlit("--");
    }
    let mut i: usize = 0;
    assert(flag_view(flags@) =~= Map::empty());
    assert(views(positionals@) =~= seq![]);
    while i < args.len()
        invariant
            av == views(args@),
            dashes@ == "--"@,
            dashes@.len() == 2,
            flags.wf(),
            scan(av, spec.flags@, 0, Map::empty(), seq![]) == scan(
                av,
                spec.flags@,
                i as int,
                flag_view(flags@),
                views(positionals@),
            ),
        decreases args@.len() - i,
    {
        let arg = &args[i];
        let a = to_chars(arg.as_str());
        assert(av[i as int] == a@);
        if starts_with_chars(a.as_slice(), dashes.as_slice()) {
            let nv = slice(a.as_slice(), 2, a.len());
            assert(nv@ == a@.skip(2));
            let (name, inline) = match index_of_char(nv.as_slice(), '=') {
                Some(j) => {
                    let n = slice(nv.as_slice(), 0, j);
                    let v = slice(nv.as_slice(), j + 1, nv.len());
                    assert(n@ == nv@.take(j as int));
                    assert(v@ == nv@.skip(j + 1));
                    (n, Some(v))
                },
                None => (slice(nv.as_slice(), 0, nv.len()), None),
            };
            assert(nv@.subrange(0, nv@.len() as int) == nv@);
            let mut shown = lit("--");
            crate::text::push_chars(&mut shown, name.as_slice());
            match find_flag_exec(&spec.flags, name.as_slice()) {
                None => {
                    return Err(CommandParseError::UnknownFlag {
                        command: spec.name.clone(),
                        flag: shown,
                        help: spec.render_help(spec.name.as_str()),
                    });
                },
                Some(fi) => {
                    let flag = &spec.flags[fi];
                    if flag.takes_value {
                        let value: String = match inline {
                            Some(v) => {
                                i = i + 1;
                                from_chars(v.as_slice())
                            },
                            None => {
                                if i + 1 < args.len() {
                                    let v = args[i + 1].clone();
                                    i = i + 2;
                                    v
                                } else {
                                    return Err(CommandParseError::MissingFlagValue {
                                        command: spec.name.clone(),
                                        flag: shown,
                                        help: spec.render_help(spec.name.as_str()),
                                    });
                                }
                            },
                        };
                        match validate_value(value.as_str(), &flag.value_type) {
                            Ok(()) => {},
                            Err(()) => {
                                return Err(CommandParseError::InvalidArgument {
                                    command: spec.name.clone(),
                                    argument: shown,
                                    expected: flag.value_type,
                                    value,
                                    help: spec.render_help(spec.name.as_str()),
                                });
                            },
                        }
                        let ghost before = flags@;
                        flags.insert(flag.name.clone(), Some(value));
                        assert(flag_view(flags@) == flag_view(before).insert(flag.name@, Some(value@)));
                    } else {
                        let ghost before = flags@;
                        flags.insert(flag.name.clone(), None);
                        assert(flag_view(flags@) == flag_view(before).insert(flag.name@, None));
                        i = i + 1;
                    }
                },
            }
        } else {
            let ghost before = positionals@;
            positionals.push(arg.clone());
            assert(views(positionals@) == views(before).push(a@));
            i = i + 1;
        }
    }
    match validate_positionals(positionals.as_slice(), spec) {
        Ok(()) => Ok((flags, positionals)),
        Err(e) => Err(e),
    }
}

// ---------------------------------------------------------------------------
// Rendering errors.
// ---------------------------------------------------------------------------

/// `"  /" + name` for each available command.
pub open spec fn available_lines(names: Seq<Seq<char>>) -> Seq<Seq<char>> {
    names.map_values(|n: Seq<char>| "  /"@ + n)
}

/// The message shown for a refused command line.
pub open spec fn error_text(e: CommandParseError) -> Seq<char> {
    match e {
        CommandParseError::NotSlashCommand => "Not a slash command."@,
        CommandParseError::UnknownCommand { name, available } => if available@.len() == 0 {
            "Unknown command: /"@ + name@
        } else {
            "Unknown command: /"@ + name@ + "\n\nAvailable commands:\n"@ + join(
                available_lines(views(available@)),
                "\n"@,
            )
        },
        CommandParseError::UnknownSubcommand { command, subcommand, help } => "Unknown subcommand for /"@
            + command@ + ": "@ + subcommand@ + "\n\n"@ + help@,
        CommandParseError::MissingArgument { command, argument, help } => "Missing required argument for /"@
            + command@ + ": "@ + argument@ + "\n\n"@ + help@,
        CommandParseError::InvalidArgument { command, argument, expected, value, help } => "Invalid argument for /"@
            + command@ + ": "@ + argument@ + " expected "@ + expected.debug_name() + ", got '"@ + value@
            + "'\n\n"@ + help@,
        CommandParseError::UnknownFlag { command, flag, help } => "Unknown flag for /"@ + command@ + ": "@
            + flag@ + "\n\n"@ + help@,
        CommandParseError::MissingFlagValue { command, flag, help } => "Missing value for /"@ + command@
            + " flag: "@ + flag@ + "\n\n"@ + help@,
        CommandParseError::UnexpectedArgument { command, argument, help } => "Unexpected argument for /"@
            + command@ + ": "@ + argument@ + "\n\n"@ + help@,
    }
}

/// `"  /" + name` for each command, joined with newlines.
fn render_available(names: &Vec<String>) -> (r: String)
    ensures
        r@ == join(available_lines(views(names@)), "\n"@),
{
    let ghost ls = available_lines(views(names@));
    let mut out = String::new();
    let mut i: usize = 0;
    while i < names.len()
        invariant
            i <= names@.len(),
            ls == available_lines(views(names@)),
            out@ == join(ls.take(i as int), "\n"@),
        decreases names@.len() - i,
    {
        if i > 0 {
            push_str(&mut out, "\n");
        }
        push_str(&mut out, "  /");
        push_str(&mut out, names[i].as_str());
        assert(ls[i as int] == "  /"@ + names@[i as int]@);
        assert(ls.take(i + 1).drop_last() == ls.take(i as int));
        i = i + 1;
    }
    assert(ls.take(names@.len() as int) == ls);
    out
}

impl CommandParseError {
    /// The message shown to the user.
    pub fn render(&self) -> (r: String)
        ensures
            r@ == error_text(*self),
    {
        match self {
            CommandParseError::NotSlashCommand => lit("Not a slash command."),
            CommandParseError::UnknownCommand { name, available } => {
                let mut s = lit("Unknown command: /");
                push_str(&mut s, name.as_str());
                if available.len() > 0 {
                    push_str(&mut s, "\n\nAvailable commands:\n");
                    let list = render_available(available);
                    push_str(&mut s, list.as_str());
                }
                s
            },
            CommandParseError::UnknownSubcommand { command, subcommand, help } => {
                let mut s = lit("Unknown subcommand for /");
                push_str(&mut s, command.as_str());
                push_str(&mut s, ": ");
                push_str(&mut s, subcommand.as_str());
                push_str(&mut s, "\n\n");
                push_str(&mut s, help.as_str());
                s
            },
            CommandParseError::MissingArgument { command, argument, help } => {
                let mut s = lit("Missing required argument for /");
                push_str(&mut s, command.as_str());
                push_str(&mut s, ": ");
                push_str(&mut s, argument.as_str());
                push_str(&mut s, "\n\n");
                push_str(&mut s, help.as_str());
                s
            },
            CommandParseError::InvalidArgument { command, argument, expected, value, help } => {
                let mut s = lit("Invalid argument for /");
                push_str(&mut s, command.as_str());
                push_str(&mut s, ": ");
                push_str(&mut s, argument.as_str());
                push_str(&mut s, " expected ");
                let tn = expected.name();
                push_str(&mut s, tn.as_str());
                push_str(&mut s, ", got '");
                push_str(&mut s, value.as_str());
                push_str(&mut s, "'\n\n");
                push_str(&mut s, help.as_str());
                s
            },
            CommandParseError::UnknownFlag { command, flag, help } => {
                let mut s = lit("Unknown flag for /");
                push_str(&mut s, command.as_str());
                push_str(&mut s, ": ");
                push_str(&mut s, flag.as_str());
                push_str(&mut s, "\n\n");
                push_str(&mut s, help.as_str());
                s
            },
            CommandParseError::MissingFlagValue { command, flag, help } => {
                let mut s = lit("Missing value for /");
                push_str(&mut s, command.as_str());
                push_str(&mut s, " flag: ");
                push_str(&mut s, flag.as_str());
                push_str(&mut s, "\n\n");
                push_str(&mut s, help.as_str());
                s
            },
            CommandParseError::UnexpectedArgument { command, argument, help } => {
                let mut s = lit("Unexpected argument for /");
                push_str(&mut s, command.as_str());
                push_str(&mut s, ": ");
                push_str(&mut s, argument.as_str());
                push_str(&mut s, "\n\n");
                push_str(&mut s, help.as_str());
                s
            },
        }
    }
}

} // verus!
