use vstd::prelude::*;
use crate::command::{help_text, CommandDefinition, CommandSpec};
use crate::parser::{
    flag_view, head_of, is_slash_command, parse_flags_and_positionals, parse_outcome,
    parse_slash_command, parsed_args, rest_of, strip_slash, CommandParseError, ScanOutcome,
};
use crate::strmap::StrMap;
use crate::text::{lowercase, to_chars, to_lowercase, trim, views};

verus! {

broadcast use vstd::string::group_string_axioms;

/// The subcommand `s` answers to `token` by its name or one of its aliases.
pub open spec fn answers_to(s: CommandSpec, token: Seq<char>) -> bool {
    s.name@ == token || views(s.aliases@).contains(token)
}

/// The position of the first subcommand that answers to `token`.
pub open spec fn find_sub(subs: Seq<CommandSpec>, token: Seq<char>) -> Option<int>
    decreases subs.len(),
{
    if subs.len() == 0 {
        None
    } else {
        match find_sub(subs.drop_last(), token) {
            Some(i) => Some(i),
            None => if answers_to(subs.last(), token) {
                Some(subs.len() - 1)
            } else {
                None
            },
        }
    }
}

/// Where descending through the subcommands ends.
pub enum Descent {
    /// At this command, with its arguments starting at this position, after
    /// the subcommand words of this path.
    Reached(CommandSpec, int, Seq<Seq<char>>),
    /// This command takes no other subcommands and does not know this word.
    Unknown(CommandSpec, Seq<char>),
}

/// Descends from `spec` through the words of `args` from position `i` on, as
/// long as each word names a subcommand.
pub open spec fn descend(spec: CommandSpec, args: Seq<Seq<char>>, i: int, path: Seq<Seq<char>>) -> Descent
    decreases args.len() - i,
{
    if i < 0 || i >= args.len() || spec.subcommands@.len() == 0 {
        Descent::Reached(spec, i, path)
    } else {
        match find_sub(spec.subcommands@, args[i]) {
            Some(j) => descend(spec.subcommands@[j], args, i + 1, path.push(args[i])),
            None => if spec.allow_unknown_subcommands {
                Descent::Reached(spec, i, path)
            } else {
                Descent::Unknown(spec, args[i])
            },
        }
    }
}

/// A command line resolved against its command: the subcommand words, the
/// flags and the positional arguments.
pub struct ParsedInvocation {
    pub name: String,
    pub resolved_name: String,
    pub args: Vec<String>,
    pub subcommand_path: Vec<String>,
    pub positionals: Vec<String>,
    pub flags: StrMap<Option<String>>,
}

/// The commands by lower-cased name, and the lower-cased aliases with the
/// command each stands for.
pub struct CommandRegistry {
    commands: StrMap<CommandSpec>,
    aliases: StrMap<String>,
}

/// `m` with each of `keys` mapped to `target`, in order.
pub open spec fn with_aliases(
    m: Map<Seq<char>, Seq<char>>,
    keys: Seq<Seq<char>>,
    target: Seq<char>,
) -> Map<Seq<char>, Seq<char>>
    decreases keys.len(),
{
    if keys.len() == 0 {
        m
    } else {
        with_aliases(m, keys.drop_last(), target).insert(lowercase(keys.last()), target)
    }
}

/// The values of a map of strings, by their characters.
pub open spec fn text_values(m: Map<Seq<char>, String>) -> Map<Seq<char>, Seq<char>> {
    m.map_values(|s: String| s@)
}

/// The name that `name` stands for: its lower-cased form, or the command that
/// form is an alias of.
pub open spec fn resolve(aliases: Map<Seq<char>, Seq<char>>, name: Seq<char>) -> Seq<char> {
    let lc = lowercase(name);
    if aliases.contains_key(lc) {
        aliases[lc]
    } else {
        lc
    }
}

impl CommandRegistry {
    /// The commands by name.
    pub closed spec fn commands_view(&self) -> Map<Seq<char>, CommandSpec> {
        self.commands@
    }

    /// The aliases with the name each stands for.
    pub closed spec fn aliases_view(&self) -> Map<Seq<char>, Seq<char>> {
        text_values(self.aliases@)
    }

    /// The command names, in increasing order.
    pub closed spec fn names(&self) -> Seq<Seq<char>> {
        self.commands.sorted_keys()
    }

    /// The two maps keep their entries sorted.
    pub closed spec fn wf(&self) -> bool {
        self.commands.wf() && self.aliases.wf()
    }

    /// The command that `name` stands for, if any.
    pub open spec fn lookup(&self, name: Seq<char>) -> Option<CommandSpec> {
        let key = resolve(self.aliases_view(), name);
        if self.commands_view().contains_key(key) {
            Some(self.commands_view()[key])
        } else {
            None
        }
    }

    /// An empty registry.
    pub fn new() -> (r: Self)
        ensures
            r.wf(),
            r.commands_view() == Map::<Seq<char>, CommandSpec>::empty(),
            r.aliases_view() == Map::<Seq<char>, Seq<char>>::empty(),
    {
        let r = CommandRegistry { commands: StrMap::new(), aliases: StrMap::new() };
        assert(text_values(r.aliases@) =~= Map::<Seq<char>, Seq<char>>::empty());
        r
    }

    /// Adds a command under its lower-cased name, and its command aliases,
    /// lower-cased, as names for it.
    pub fn register(&mut self, spec: CommandSpec)
        requires
            old(self).wf(),
        ensures
            final(self).wf(),
            final(self).commands_view() == old(self).commands_view().insert(
                lowercase(spec.name@),
                spec,
            ),
            final(self).aliases_view() == with_aliases(
                old(self).aliases_view(),
                views(spec.command_aliases@),
                lowercase(spec.name@),
            ),
    {
        let name = to_lowercase(spec.name.as_str());
        let ghost start = self.aliases_view();
        let ghost keys = views(spec.command_aliases@);
        let mut i: usize = 0;
        while i < spec.command_aliases.len()
            invariant
                i <= spec.command_aliases@.len(),
                keys == views(spec.command_aliases@),
                name@ == lowercase(spec.name@),
                self.commands.wf(),
                self.aliases.wf(),
                self.commands@ == old(self).commands@,
                text_values(self.aliases@) == with_aliases(start, keys.take(i as int), name@),
            decreases spec.command_aliases@.len() - i,
        {
            let alias = to_lowercase(spec.command_aliases[i].as_str());
            let ghost before = self.aliases@;
            self.aliases.insert(alias, name.clone());
            assert(keys.take(i + 1).drop_last() == keys.take(i as int));
            assert(text_values(self.aliases@) =~= text_values(before).insert(
                lowercase(keys[i as int]),
                name@,
            ));
            i = i + 1;
        }
        assert(keys.take(keys.len() as int) == keys);
        self.commands.insert(name, spec);
    }

    /// The command that `name` stands for, by name or alias, in any case.
    pub fn get(&self, name: &str) -> (r: Option<&CommandSpec>)
        requires
            self.wf(),
        ensures
            r matches Some(s) ==> self.lookup(name@) == Some(*s),
            r is None ==> self.lookup(name@) is None,
    {
        let lc = to_lowercase(name);
        match self.aliases.get(lc.as_str()) {
            Some(target) => self.commands.get(target.as_str()),
            None => self.commands.get(lc.as_str()),
        }
    }

    /// The declaration of the command that `name` stands for.
    pub fn spec(&self, name: &str) -> (r: Option<&CommandSpec>)
        requires
            self.wf(),
        ensures
            r matches Some(s) ==> self.lookup(name@) == Some(*s),
            r is None ==> self.lookup(name@) is None,
    {
        self.get(name)
    }

    /// The command names, in increasing order.
    pub fn names_sorted(&self) -> (r: Vec<String>)
        requires
            self.wf(),
        ensures
            views(r@) == self.names(),
    {
        self.commands.keys()
    }

    /// What channels show of each command, in increasing order of name.
    pub fn list(&self) -> (r: Vec<CommandDefinition>)
        requires
            self.wf(),
        ensures
            r@.len() == self.names().len(),
            forall|i: int|
                0 <= i < r@.len() ==> #[trigger] r@[i].name@ == self.commands_view()[self.names()[i]].name@
                    && self.commands_view().contains_key(self.names()[i]),
    {
        proof {
            self.commands.lemma_view();
        }
        let mut out: Vec<CommandDefinition> = Vec::new();
        let n = self.commands.count();
        let mut i: usize = 0;
        while i < n
            invariant
                self.commands.wf(),
                n == self.commands.entry_seq().len(),
                n == self.names().len(),
                self.names() == self.commands.sorted_keys(),
                i <= n,
                out@.len() == i,
                forall|k: int|
                    0 <= k < i ==> #[trigger] out@[k].name@ == self.commands_view()[self.names()[k]].name@
                        && self.commands_view().contains_key(self.names()[k]),
            decreases n - i,
        {
            let (key, spec) = self.commands.entry_at(i);
            proof {
                self.commands.lemma_view();
                assert(self.commands.entry_seq()[i as int] == (
                    self.names()[i as int],
                    self.commands_view()[self.names()[i as int]],
                ));
                assert(self.names().contains(self.names()[i as int]));
            }
            out.push(spec.definition());
            i = i + 1;
        }
        out
    }

    /// Resolves a command line against the registered commands: the command,
    /// then as many subcommand words as name subcommands, then flags and
    /// positional arguments checked against the command reached.
    pub fn parse_invocation(&self, input: &str) -> (r: Result<ParsedInvocation, CommandParseError>)
        requires
            self.wf(),
        ensures
            !(trim(input@).len() > 0 && trim(input@)[0] == '/') ==> r matches Err(
                CommandParseError::NotSlashCommand,
            ),
            (trim(input@).len() > 0 && trim(input@)[0] == '/') ==> {
                let name = strip_slash(lowercase(head_of(trim(input@))));
                let args = parsed_args(rest_of(trim(input@)));
                match self.lookup(name) {
                    None => r matches Err(CommandParseError::UnknownCommand { name: n, available })
                        && n@ == name && views(available@) == self.names(),
                    Some(root) => match descend(root, args, 0, seq![]) {
                        Descent::Unknown(cur, word) => r matches Err(
                            CommandParseError::UnknownSubcommand { command, subcommand, help },
                        ) && command@ == cur.name@ && subcommand@ == word && help@ == help_text(
                            cur,
                            cur.name@,
                        ),
                        Descent::Reached(cur, k, path) => match parse_outcome(args.skip(k), cur) {
                            ScanOutcome::Failed(e) => r matches Err(err) && err.reports(
                                cur.name@,
                                help_text(cur, cur.name@),
                                e,
                            ),
                            ScanOutcome::Done(f, p) => r matches Ok(inv) && inv.name@ == name
                                && inv.resolved_name@ == root.name@ && views(inv.args@) == args
                                && views(inv.subcommand_path@) == path && views(inv.positionals@)
                                == p && inv.flags.wf() && flag_view(inv.flags@) == f,
                        },
                    },
                }
            },
    {
        if !is_slash_command(input) {
            return Err(CommandParseError::NotSlashCommand);
        }
        let parsed = parse_slash_command(input);
        let root = match self.get(parsed.name.as_str()) {
            Some(s) => s,
            None => {
                return Err(
                    CommandParseError::UnknownCommand {
                        name: parsed.name.clone(),
                        available: self.names_sorted(),
                    },
                );
            },
        };
        let ghost av = views(parsed.args@);
        let mut current: &CommandSpec = root;
        let mut path: Vec<String> = Vec::new();
        let mut i: usize = 0;
        assert(views(path@) =~= seq![]);
        loop
            invariant
                self.wf(),
                trim(input@).len() > 0 && trim(input@)[0] == '/',
                parsed.name@ == strip_slash(lowercase(head_of(trim(input@)))),
                av == parsed_args(rest_of(trim(input@))),
                self.lookup(parsed.name@) == Some(*root),
                av == views(parsed.args@),
                i <= parsed.args@.len(),
                descend(*root, av, 0, seq![]) == descend(*current, av, i as int, views(path@)),
            ensures
                i <= parsed.args@.len(),
                descend(*root, av, 0, seq![]) == Descent::Reached(*current, i as int, views(path@)),
            decreases parsed.args@.len() - i,
        {
            if i >= parsed.args.len() || current.subcommands.len() == 0 {
                break;
            }
            match find_subcommand(&current.subcommands, parsed.args[i].as_str()) {
                Some(j) => {
                    let ghost before = path@;
                    path.push(parsed.args[i].clone());
                    assert(views(path@) =~= views(before).push(av[i as int]));
                    current = &current.subcommands[j];
                    i = i + 1;
                },
                None => {
                    if current.allow_unknown_subcommands {
                        break;
                    }
                    return Err(
                        CommandParseError::UnknownSubcommand {
                            command: current.name.clone(),
                            subcommand: parsed.args[i].clone(),
                            help: current.render_help(current.name.as_str()),
                        },
                    );
                },
            }
        }
        let rest = tail_of(&parsed.args, i);
        assert(views(rest@) == av.skip(i as int));
        match parse_flags_and_positionals(rest.as_slice(), current) {
            Ok((flags, positionals)) => Ok(
                ParsedInvocation {
                    name: parsed.name.clone(),
                    resolved_name: root.name.clone(),
                    args: parsed.args.clone(),
                    subcommand_path: path,
                    positionals,
                    flags,
                },
            ),
            Err(e) => Err(e),
        }
    }
}

/// The position of the first subcommand that answers to `token`.
fn find_subcommand(subs: &Vec<CommandSpec>, token: &str) -> (r: Option<usize>)
    ensures
        r matches Some(j) ==> j < subs@.len() && find_sub(subs@, token@) == Some(j as int),
        r is None ==> find_sub(subs@, token@) is None,
{
    let mut i: usize = 0;
    while i < subs.len()
        invariant
            i <= subs@.len(),
            find_sub(subs@.take(i as int), token@) is None,
        decreases subs@.len() - i,
    {
        assert(subs@.take(i + 1).drop_last() == subs@.take(i as int));
        assert(subs@.take(i + 1).last() == subs@[i as int]);
        if answers(&subs[i], token) {
            proof {
                lemma_find_sub_extends(subs@, token@, i as int, i + 1);
            }
            return Some(i);
        }
        i = i + 1;
    }
    assert(subs@.take(subs@.len() as int) == subs@);
    None
}

/// A subcommand found in a prefix is found at the same place in a longer one.
proof fn lemma_find_sub_extends(subs: Seq<CommandSpec>, token: Seq<char>, i: int, j: int)
    requires
        0 <= i < j <= subs.len(),
        find_sub(subs.take(j), token) == Some(i),
    ensures
        find_sub(subs, token) == Some(i),
    decreases subs.len() - j,
{
    if j < subs.len() {
        assert(subs.take(j + 1).drop_last() == subs.take(j));
        lemma_find_sub_extends(subs, token, i, j + 1);
    } else {
        assert(subs.take(j) == subs);
    }
}

/// Whether `s` answers to `token`.
fn answers(s: &CommandSpec, token: &str) -> (r: bool)
    ensures
        r == answers_to(*s, token@),
{
    if crate::text::str_eq(s.name.as_str(), token) {
        return true;
    }
    let mut k: usize = 0;
    while k < s.aliases.len()
        invariant
            k <= s.aliases@.len(),
            forall|t: int| 0 <= t < k ==> s.aliases@[t]@ != token@,
        decreases s.aliases@.len() - k,
    {
        if crate::text::str_eq(s.aliases[k].as_str(), token) {
            assert(views(s.aliases@)[k as int] == token@);
            return true;
        }
        k = k + 1;
    }
    assert forall|t: int| 0 <= t < views(s.aliases@).len() implies views(s.aliases@)[t] != token@ by {
        assert(views(s.aliases@)[t] == s.aliases@[t]@);
    }
    false
}

/// The strings of `v` from position `i` on.
fn tail_of(v: &Vec<String>, i: usize) -> (r: Vec<String>)
    requires
        i <= v@.len(),
    ensures
        views(r@) == views(v@).skip(i as int),
{
    let mut out: Vec<String> = Vec::new();
    let mut k: usize = i;
    while k < v.len()
        invariant
            i <= k <= v@.len(),
            views(out@) == views(v@).subrange(i as int, k as int),
        decreases v@.len() - k,
    {
        let ghost before = out@;
        out.push(v[k].clone());
        assert(out@ == before.push(v@[k as int]));
        assert(views(out@) =~= views(before).push(views(v@)[k as int]));
        assert(views(v@).subrange(i as int, k + 1) =~= views(v@).subrange(i as int, k as int).push(
            views(v@)[k as int],
        ));
        k = k + 1;
    }
    assert(views(v@).subrange(i as int, v@.len() as int) =~= views(v@).skip(i as int));
    out
}

/// A command that an integration provides: the integration's id and the
/// definition it gave. Running it is the integration's part.
pub struct IntegrationCommand {
    pub integration: String,
    pub def: CommandDefinition,
}

impl IntegrationCommand {
    /// The definition the integration gave.
    pub fn definition(&self) -> (r: CommandDefinition)
        ensures
            r.name@ == self.def.name@,
            r.description@ == self.def.description@,
            r.aliases@ == self.def.aliases@,
            r.usage@ == self.def.usage@,
            r.category@ == self.def.category@,
            r.min_args == self.def.min_args,
    {
        CommandDefinition {
            name: self.def.name.clone(),
            description: self.def.description.clone(),
            aliases: crate::command::clone_strings(&self.def.aliases),
            usage: self.def.usage.clone(),
            category: self.def.category.clone(),
            min_args: self.def.min_args,
        }
    }
}

} // verus!
