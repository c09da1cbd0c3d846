use vstd::prelude::*;
use crate::text::{lit, owned, pad_right, push_char, push_padded, push_str, views};

verus! {

broadcast use vstd::string::group_string_axioms;

/// The type a command argument or flag value must have.
#[derive(PartialEq, Eq, Structural, Clone, Copy, Debug)]
pub enum ValueType {
    String,
    Integer,
    Float,
    Boolean,
}

impl ValueType {
    /// The name of the type, as `{:?}` shows it.
    pub open spec fn debug_name(self) -> Seq<char> {
        match self {
            ValueType::String => "String"@,
            ValueType::Integer => "Integer"@,
            ValueType::Float => "Float"@,
            ValueType::Boolean => "Boolean"@,
        }
    }

    /// The name of the type, as `{:?}` shows it.
    pub fn name(&self) -> (r: String)
        ensures
            r@ == self.debug_name(),
    {
        match self {
            ValueType::String => lit("String"),
            ValueType::Integer => lit("Integer"),
            ValueType::Float => lit("Float"),
            ValueType::Boolean => lit("Boolean"),
        }
    }
}

/// A positional argument of a command.
#[derive(Clone, Debug)]
pub struct ArgSpec {
    pub name: String,
    pub required: bool,
    pub value_type: ValueType,
    pub variadic: bool,
    pub description: String,
}

impl ArgSpec {
    /// A required string argument.
    pub fn required(name: &str, description: &str) -> (r: Self)
        ensures
            r.name@ == name@,
            r.required,
            r.value_type == ValueType::String,
            !r.variadic,
            r.description@ == description@,
    {
        ArgSpec {
            name: owned(name),
            required: true,
            value_type: ValueType::String,
            variadic: false,
            description: owned(description),
        }
    }

    /// An optional string argument.
    pub fn optional(name: &str, description: &str) -> (r: Self)
        ensures
            r.name@ == name@,
            !r.required,
            r.value_type == ValueType::String,
            !r.variadic,
            r.description@ == description@,
    {
        ArgSpec {
            name: owned(name),
            required: false,
            value_type: ValueType::String,
            variadic: false,
            description: owned(description),
        }
    }

    /// The same argument with another value type.
    pub fn value_type(self, value_type: ValueType) -> (r: Self)
        ensures
            r.name@ == self.name@,
            r.required == self.required,
            r.value_type == value_type,
            r.variadic == self.variadic,
            r.description@ == self.description@,
    {
        let mut s = self;
        s.value_type = value_type;
        s
    }

    /// The same argument, taking all remaining values.
    pub fn variadic(self) -> (r: Self)
        ensures
            r.name@ == self.name@,
            r.required == self.required,
            r.value_type == self.value_type,
            r.variadic,
            r.description@ == self.description@,
    {
        let mut s = self;
        s.variadic = true;
        s
    }
}

/// A `--name` flag of a command.
#[derive(Clone, Debug)]
pub struct FlagSpec {
    pub name: String,
    pub short: Option<char>,
    pub takes_value: bool,
    pub value_type: ValueType,
    pub description: String,
}

/// What a channel shows of a command.
#[derive(Clone, Debug)]
pub struct CommandDefinition {
    pub name: String,
    pub description: String,
    pub aliases: Vec<String>,
    pub usage: String,
    pub category: String,
    pub min_args: usize,
}

/// The shape of a command: its usage, arguments, flags and subcommands. The code
/// that runs a command is attached by the runtime.
#[derive(Debug)]
pub struct CommandSpec {
    pub name: String,
    pub aliases: Vec<String>,
    pub about: String,
    pub usage: String,
    pub category: String,
    pub command_aliases: Vec<String>,
    pub min_args: usize,
    pub examples: Vec<String>,
    pub args: Vec<ArgSpec>,
    pub flags: Vec<FlagSpec>,
    pub subcommands: Vec<CommandSpec>,
    pub allow_unknown_subcommands: bool,
}

/// An argument as a declaration states it: name, whether it is required, its
/// type, whether it takes all remaining values, and its description.
pub open spec fn arg_decl(a: ArgSpec) -> (Seq<char>, bool, ValueType, bool, Seq<char>) {
    (a.name@, a.required, a.value_type, a.variadic, a.description@)
}

/// A command declaration as a mathematical value: every field that parsing
/// and the help text read, with the subcommands' declarations.
pub struct Decl {
    pub name: Seq<char>,
    pub usage: Seq<char>,
    pub about: Seq<char>,
    pub category: Seq<char>,
    pub aliases: Seq<Seq<char>>,
    pub command_aliases: Seq<Seq<char>>,
    pub min_args: nat,
    pub examples: Seq<Seq<char>>,
    pub args: Seq<(Seq<char>, bool, ValueType, bool, Seq<char>)>,
    pub flags: Seq<FlagSpec>,
    pub subs: Seq<Decl>,
    pub allow_unknown: bool,
}

/// The declaration of a command made by `CommandSpec::new` and given only
/// aliases and arguments: no subcommands, flags or examples, in the `general`
/// category, accepting unknown subcommands.
pub open spec fn leaf_decl(
    name: Seq<char>,
    usage: Seq<char>,
    about: Seq<char>,
    aliases: Seq<Seq<char>>,
    args: Seq<(Seq<char>, bool, ValueType, bool, Seq<char>)>,
) -> Decl {
    Decl {
        name,
        usage,
        about,
        category: "general"@,
        aliases,
        command_aliases: seq![],
        min_args: 0,
        examples: seq![],
        args,
        flags: seq![],
        subs: seq![],
        allow_unknown: true,
    }
}

/// `s` is the command that `d` declares, field by field, down through its
/// subcommands.
pub open spec fn declares(s: CommandSpec, d: Decl) -> bool
    decreases d,
{
    &&& s.name@ == d.name
    &&& s.usage@ == d.usage
    &&& s.about@ == d.about
    &&& s.category@ == d.category
    &&& views(s.aliases@) == d.aliases
    &&& views(s.command_aliases@) == d.command_aliases
    &&& s.min_args == d.min_args
    &&& views(s.examples@) == d.examples
    &&& s.args@.map_values(|a: ArgSpec| arg_decl(a)) == d.args
    &&& s.flags@ == d.flags
    &&& s.allow_unknown_subcommands == d.allow_unknown
    &&& s.subcommands@.len() == d.subs.len()
    &&& forall|i: int| 0 <= i < d.subs.len() ==> declares(#[trigger] s.subcommands@[i], d.subs[i])
}

/// `"  " + name padded to 18 + " " + about + "\n"` for each subcommand.
pub open spec fn subcommand_lines(subs: Seq<CommandSpec>) -> Seq<char>
    decreases subs.len(),
{
    if subs.len() == 0 {
        seq![]
    } else {
        subcommand_lines(subs.drop_last()) + "  "@ + pad_right(subs.last().name@, 18) + " "@
            + subs.last().about@ + "\n"@
    }
}

/// `"required"` or `"optional"`.
pub open spec fn requirement(required: bool) -> Seq<char> {
    if required {
        "required"@
    } else {
        "optional"@
    }
}

/// `"  " + name padded to 18 + " " + description + " (required|optional)\n"`
/// for each argument.
pub open spec fn argument_lines(args: Seq<ArgSpec>) -> Seq<char>
    decreases args.len(),
{
    if args.len() == 0 {
        seq![]
    } else {
        argument_lines(args.drop_last()) + "  "@ + pad_right(args.last().name@, 18) + " "@
            + args.last().description@ + " ("@ + requirement(args.last().required) + ")\n"@
    }
}

/// `-s, ` for a flag with a short form.
pub open spec fn short_part(short: Option<char>) -> Seq<char> {
    match short {
        Some(c) => seq!['-', c, ',', ' '],
        None => seq![],
    }
}

/// `" <value>"` for a flag that takes a value.
pub open spec fn value_part(takes_value: bool) -> Seq<char> {
    if takes_value {
        " <value>"@
    } else {
        seq![]
    }
}

/// `"  " + short + "--" + name + value + "  " + description + "\n"` per flag.
pub open spec fn flag_lines(flags: Seq<FlagSpec>) -> Seq<char>
    decreases flags.len(),
{
    if flags.len() == 0 {
        seq![]
    } else {
        flag_lines(flags.drop_last()) + "  "@ + short_part(flags.last().short) + "--"@
            + flags.last().name@ + value_part(flags.last().takes_value) + "  "@
            + flags.last().description@ + "\n"@
    }
}

/// `"  " + example + "\n"` per example.
pub open spec fn example_lines(examples: Seq<Seq<char>>) -> Seq<char>
    decreases examples.len(),
{
    if examples.len() == 0 {
        seq![]
    } else {
        example_lines(examples.drop_last()) + "  "@ + examples.last() + "\n"@
    }
}

/// The help text of a command: usage and description, then the subcommands,
/// arguments, flags and examples that it has, and a pointer to `/help` when it
/// has no subcommands, arguments or flags.
pub open spec fn help_text(spec: CommandSpec, command_name: Seq<char>) -> Seq<char> {
    let head = "Usage: "@ + spec.usage@ + "\n\n"@ + spec.about@;
    let subs = if spec.subcommands@.len() > 0 {
        "\n\nSubcommands:\n"@ + subcommand_lines(spec.subcommands@)
    } else {
        seq![]
    };
    let args = if spec.args@.len() > 0 {
        "\nArguments:\n"@ + argument_lines(spec.args@)
    } else {
        seq![]
    };
    let flags = if spec.flags@.len() > 0 {
        "\nFlags:\n"@ + flag_lines(spec.flags@)
    } else {
        seq![]
    };
    let examples = if spec.examples@.len() > 0 {
        "\nExamples:\n"@ + example_lines(views(spec.examples@))
    } else {
        seq![]
    };
    let tail = if spec.subcommands@.len() == 0 && spec.args@.len() == 0 && spec.flags@.len() == 0 {
        "\nRun /help for all commands, or /"@ + command_name + " with valid args."@
    } else {
        seq![]
    };
    head + subs + args + flags + examples + tail
}

/// A copy of a list of strings.
pub fn clone_strings(v: &Vec<String>) -> (r: Vec<String>)
    ensures
        r@ == v@,
        views(r@) == views(v@),
        r@.len() == v@.len(),
{
    let mut out: Vec<String> = Vec::new();
    let mut i: usize = 0;
    while i < v.len()
        invariant
            i <= v@.len(),
            out@.len() == i,
            forall|j: int| 0 <= j < i ==> #[trigger] out@[j] == v@[j],
        decreases v@.len() - i,
    {
        out.push(v[i].clone());
        i = i + 1;
    }
    assert(out@ =~= v@);
    out
}

impl CommandSpec {
    /// A command with no arguments, flags or subcommands, in the `general`
    /// category, that accepts unknown subcommands.
    pub fn new(name: &str, usage: &str, about: &str) -> (r: Self)
        ensures
            r.name@ == name@,
            r.usage@ == usage@,
            r.about@ == about@,
            r.category@ == "general"@,
            r.aliases@.len() == 0,
            r.command_aliases@.len() == 0,
            r.min_args == 0,
            r.examples@.len() == 0,
            r.args@.len() == 0,
            r.flags@.len() == 0,
            r.subcommands@.len() == 0,
            r.allow_unknown_subcommands,
    {
        CommandSpec {
            name: owned(name),
            aliases: Vec::new(),
            about: owned(about),
            usage: owned(usage),
            category: lit("general"),
            command_aliases: Vec::new(),
            min_args: 0,
            examples: Vec::new(),
            args: Vec::new(),
            flags: Vec::new(),
            subcommands: Vec::new(),
            allow_unknown_subcommands: true,
        }
    }

    /// What channels show of the command.
    pub fn definition(&self) -> (r: CommandDefinition)
        ensures
            r.name@ == self.name@,
            r.description@ == self.about@,
            r.usage@ == self.usage@,
            r.category@ == self.category@,
            views(r.aliases@) == views(self.command_aliases@),
            r.min_args == self.min_args,
    {
        CommandDefinition {
            name: self.name.clone(),
            description: self.about.clone(),
            usage: self.usage.clone(),
            category: self.category.clone(),
            aliases: clone_strings(&self.command_aliases),
            min_args: self.min_args,
        }
    }

    /// The same command in another category.
    pub fn category(self, category: &str) -> (r: Self)
        ensures
            r == (CommandSpec { category: r.category, ..self }),
            r.category@ == category@,
    {
        let mut s = self;
        s.category = owned(category);
        s
    }

    /// The same command with one more name it is found under.
    pub fn alias(self, alias: &str) -> (r: Self)
        ensures
            r == (CommandSpec { aliases: r.aliases, ..self }),
            r.aliases@.len() == self.aliases@.len() + 1,
            views(r.aliases@) == views(self.aliases@).push(alias@),
    {
        let mut s = self;
        let ghost before = s.aliases@;
        s.aliases.push(owned(alias));
        assert(views(s.aliases@) =~= views(before).push(alias@));
        s
    }

    /// The same command with one more alias that channels list.
    pub fn command_alias(self, alias: &str) -> (r: Self)
        ensures
            r == (CommandSpec { command_aliases: r.command_aliases, ..self }),
            r.command_aliases@.len() == self.command_aliases@.len() + 1,
            views(r.command_aliases@) == views(self.command_aliases@).push(alias@),
    {
        let mut s = self;
        let ghost before = s.command_aliases@;
        s.command_aliases.push(owned(alias));
        assert(views(s.command_aliases@) =~= views(before).push(alias@));
        s
    }

    /// The same command with another minimum argument count.
    pub fn min_args(self, min_args: usize) -> (r: Self)
        ensures
            r == (CommandSpec { min_args, ..self }),
    {
        let mut s = self;
        s.min_args = min_args;
        s
    }

    /// The same command, refusing subcommands it does not declare.
    pub fn strict_subcommands(self) -> (r: Self)
        ensures
            r == (CommandSpec { allow_unknown_subcommands: false, ..self }),
    {
        let mut s = self;
        s.allow_unknown_subcommands = false;
        s
    }

    /// The same command with one more positional argument.
    pub fn arg(self, arg: ArgSpec) -> (r: Self)
        ensures
            r == (CommandSpec { args: r.args, ..self }),
            r.args@ == self.args@.push(arg),
    {
        let mut s = self;
        s.args.push(arg);
        s
    }

    /// The same command with one more flag.
    pub fn flag(self, flag: FlagSpec) -> (r: Self)
        ensures
            r == (CommandSpec { flags: r.flags, ..self }),
            r.flags@ == self.flags@.push(flag),
    {
        let mut s = self;
        s.flags.push(flag);
        s
    }

    /// The same command with one more subcommand.
    pub fn subcommand(self, subcommand: CommandSpec) -> (r: Self)
        ensures
            r == (CommandSpec { subcommands: r.subcommands, ..self }),
            r.subcommands@ == self.subcommands@.push(subcommand),
    {
        let mut s = self;
        s.subcommands.push(subcommand);
        s
    }

    /// The same command with one more example.
    pub fn example(self, example: &str) -> (r: Self)
        ensures
            r == (CommandSpec { examples: r.examples, ..self }),
            r.examples@.len() == self.examples@.len() + 1,
            views(r.examples@) == views(self.examples@).push(example@),
    {
        let mut s = self;
        let ghost before = s.examples@;
        s.examples.push(owned(example));
        assert(views(s.examples@) =~= views(before).push(example@));
        s
    }

    /// The help text shown for the command under `command_name`.
    #[verifier::rlimit(40)]
    pub fn render_help(&self, command_name: &str) -> (r: String)
        ensures
            r@ == help_text(*self, command_name@),
    {
        let mut out = lit("Usage: ");
        push_str(&mut out, self.usage.as_str());
        push_str(&mut out, "\n\n");
        push_str(&mut out, self.about.as_str());
        let ghost head = out@;
        if self.subcommands.len() > 0 {
            push_str(&mut out, "\n\nSubcommands:\n");
            push_subcommand_lines(&mut out, &self.subcommands);
        }
        let ghost s1 = out@;
        assert(s1 == head + (if self.subcommands@.len() > 0 {
            "\n\nSubcommands:\n"@ + subcommand_lines(self.subcommands@)
        } else {
            seq![]
        }));
        if self.args.len() > 0 {
            push_str(&mut out, "\nArguments:\n");
            push_argument_lines(&mut out, &self.args);
        }
        let ghost s2 = out@;
        assert(s2 == s1 + (if self.args@.len() > 0 {
            "\nArguments:\n"@ + argument_lines(self.args@)
        } else {
            seq![]
        }));
        if self.flags.len() > 0 {
            push_str(&mut out, "\nFlags:\n");
            push_flag_lines(&mut out, &self.flags);
        }
        let ghost s3 = out@;
        if self.examples.len() > 0 {
            push_str(&mut out, "\nExamples:\n");
            push_example_lines(&mut out, &self.examples);
        }
        let ghost s4 = out@;
        if self.subcommands.len() == 0 && self.args.len() == 0 && self.flags.len() == 0 {
            push_str(&mut out, "\nRun /help for all commands, or /");
            push_str(&mut out, command_name);
            push_str(&mut out, " with valid args.");
        }
        proof {
            let h = help_text(*self, command_name@);
            assert(out@ =~= h);
        }
        out
    }
}

/// Appends the subcommand lines.
fn push_subcommand_lines(out: &mut String, subs: &Vec<CommandSpec>)
    ensures
        final(out)@ == old(out)@ + subcommand_lines(subs@),
{
    let ghost start = out@;
    let mut i: usize = 0;
    while i < subs.len()
        invariant
            i <= subs@.len(),
            out@ == start + subcommand_lines(subs@.take(i as int)),
        decreases subs@.len() - i,
    {
        let sub = &subs[i];
        let ghost before = out@;
        push_str(out, "  ");
        push_padded(out, sub.name.as_str(), 18);
        push_str(out, " ");
        push_str(out, sub.about.as_str());
        push_str(out, "\n");
        assert(out@ =~= before + "  "@ + pad_right(sub.name@, 18) + " "@ + sub.about@ + "\n"@);
        assert(subs@.take(i + 1).drop_last() == subs@.take(i as int));
        i = i + 1;
    }
    assert(subs@.take(subs@.len() as int) == subs@);
}

/// Appends one argument line.
fn push_argument_line(out: &mut String, a: &ArgSpec)
    ensures
        final(out)@ == old(out)@ + "  "@ + pad_right(a.name@, 18) + " "@ + a.description@ + " ("@
            + requirement(a.required) + ")\n"@,
{
    let ghost before = out@;
    push_str(out, "  ");
    push_padded(out, a.name.as_str(), 18);
    push_str(out, " ");
    push_str(out, a.description.as_str());
    push_str(out, " (");
    if a.required {
        push_str(out, "required");
    } else {
        push_str(out, "optional");
    }
    push_str(out, ")\n");
    assert(out@ =~= before + "  "@ + pad_right(a.name@, 18) + " "@ + a.description@ + " ("@
        + requirement(a.required) + ")\n"@);
}

/// Appends the argument lines.
fn push_argument_lines(out: &mut String, args: &Vec<ArgSpec>)
    ensures
        final(out)@ == old(out)@ + argument_lines(args@),
{
    let ghost start = out@;
    let mut i: usize = 0;
    while i < args.len()
        invariant
            i <= args@.len(),
            out@ == start + argument_lines(args@.take(i as int)),
        decreases args@.len() - i,
    {
        push_argument_line(out, &args[i]);
        assert(args@.take(i + 1).drop_last() == args@.take(i as int));
        i = i + 1;
    }
    assert(args@.take(args@.len() as int) == args@);
}

/// Appends one flag line.
fn push_flag_line(out: &mut String, f: &FlagSpec)
    ensures
        final(out)@ == old(out)@ + "  "@ + short_part(f.short) + "--"@ + f.name@ + value_part(
            f.takes_value,
        ) + "  "@ + f.description@ + "\n"@,
{
    let ghost before = out@;
    push_str(out, "  ");
    let ghost a = out@;
    match f.short {
        Some(c) => {
            push_char(out, '-');
            push_char(out, c);
            push_char(out, ',');
            push_char(out, ' ');
            assert(out@ =~= a + short_part(f.short));
        },
        None => {
            assert(out@ =~= a + short_part(f.short));
        },
    }
    push_str(out, "--");
    push_str(out, f.name.as_str());
    let ghost b = out@;
    if f.takes_value {
        push_str(out, " <value>");
    }
    assert(out@ =~= b + value_part(f.takes_value));
    push_str(out, "  ");
    push_str(out, f.description.as_str());
    push_str(out, "\n");
    assert(out@ =~= before + "  "@ + short_part(f.short) + "--"@ + f.name@ + value_part(
        f.takes_value,
    ) + "  "@ + f.description@ + "\n"@);
}

/// Appends the flag lines.
fn push_flag_lines(out: &mut String, flags: &Vec<FlagSpec>)
    ensures
        final(out)@ == old(out)@ + flag_lines(flags@),
{
    let ghost start = out@;
    let mut i: usize = 0;
    while i < flags.len()
        invariant
            i <= flags@.len(),
            out@ == start + flag_lines(flags@.take(i as int)),
        decreases flags@.len() - i,
    {
        push_flag_line(out, &flags[i]);
        assert(flags@.take(i + 1).drop_last() == flags@.take(i as int));
        i = i + 1;
    }
    assert(flags@.take(flags@.len() as int) == flags@);
}

/// Appends the example lines.
fn push_example_lines(out: &mut String, examples: &Vec<String>)
    ensures
        final(out)@ == old(out)@ + example_lines(views(examples@)),
{
    let ghost start = out@;
    let mut i: usize = 0;
    while i < examples.len()
        invariant
            i <= examples@.len(),
            out@ == start + example_lines(views(examples@).take(i as int)),
        decreases examples@.len() - i,
    {
        let ghost before = out@;
        push_str(out, "  ");
        push_str(out, examples[i].as_str());
        push_str(out, "\n");
        assert(out@ =~= before + "  "@ + examples@[i as int]@ + "\n"@);
        assert(views(examples@).take(i + 1).drop_last() == views(examples@).take(i as int));
        i = i + 1;
    }
    assert(views(examples@).take(examples@.len() as int) == views(examples@));
}

} // verus!
