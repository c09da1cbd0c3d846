use vstd::prelude::*;
use crate::command::{CommandDefinition, CommandSpec};
use crate::strmap::{order_chars, seq_lt, KeyOrder};
use crate::text::{join, lit, pad_right, push_padded, push_str, to_chars, to_uppercase, uppercase, views};

verus! {

broadcast use vstd::string::group_string_axioms;

/// The declaration of `/help`.
pub fn spec() -> (r: CommandSpec)
    ensures
        r.name@ == "help"@,
        r.usage@ == "/help"@,
        r.about@ == "Show available commands"@,
        r.category@ == "core"@,
        views(r.command_aliases@) == seq!["?"@, "h"@],
        r.subcommands@.len() == 0,
        r.args@.len() == 0,
{
    CommandSpec::new("help", "/help", "Show available commands").category("core").command_alias(
        "?",
    ).command_alias("h")
}

/// `s` with `d` put after every command whose category does not come after
/// its own: one step of a stable sort by category.
pub open spec fn insert_by_category(s: Seq<CommandDefinition>, d: CommandDefinition) -> Seq<CommandDefinition>
    decreases s.len(),
{
    if s.len() == 0 {
        seq![d]
    } else if seq_lt(d.category@, s.last().category@) {
        insert_by_category(s.drop_last(), d).push(s.last())
    } else {
        s.push(d)
    }
}

/// The commands sorted by category, keeping the given order within a category.
pub open spec fn sort_by_category(s: Seq<CommandDefinition>) -> Seq<CommandDefinition>
    decreases s.len(),
{
    if s.len() == 0 {
        s
    } else {
        insert_by_category(sort_by_category(s.drop_last()), s.last())
    }
}

/// ` (aliases: a, b)`, or nothing for a command without aliases.
pub open spec fn aliases_part(aliases: Seq<Seq<char>>) -> Seq<char> {
    if aliases.len() == 0 {
        seq![]
    } else {
        " (aliases: "@ + join(aliases, ", "@) + ")"@
    }
}

/// The line of one command: usage padded to 25, description and aliases.
pub open spec fn command_line(d: CommandDefinition) -> Seq<char> {
    "  "@ + pad_right(d.usage@, 25) + " — "@ + d.description@ + aliases_part(views(d.aliases@))
        + "\n"@
}

/// The body of the listing for commands in order, with the category heading
/// written before the first command of each run of one category; also the
/// category of the last command.
pub open spec fn listing(cmds: Seq<CommandDefinition>) -> (Seq<char>, Seq<char>)
    decreases cmds.len(),
{
    if cmds.len() == 0 {
        (seq![], seq![])
    } else {
        let (text, current) = listing(cmds.drop_last());
        let d = cmds.last();
        let heading = if d.category@ != current {
            "\n["@ + uppercase(d.category@) + "]\n"@
        } else {
            seq![]
        };
        (text + heading + command_line(d), d.category@)
    }
}

/// The reply of `/help`.
pub open spec fn help_listing(cmds: Seq<CommandDefinition>) -> Seq<char> {
    "Available commands:\n\n"@ + listing(sort_by_category(cmds)).0
}

/// Inserts `d` into `out` as one step of the stable sort by category.
fn insert_sorted(out: &mut Vec<CommandDefinition>, d: CommandDefinition)
    ensures
        final(out)@ == insert_by_category(old(out)@, d),
{
    let dc = to_chars(d.category.as_str());
    let mut k: usize = out.len();
    let ghost s = out@;
    assert(s.take(k as int) =~= s);
    assert(s.skip(k as int) =~= Seq::<CommandDefinition>::empty());
    loop
        invariant
            k <= s.len(),
            out@ == s,
            dc@ == d.category@,
            insert_by_category(s, d) == insert_by_category(s.take(k as int), d) + s.skip(k as int),
        ensures
            k <= s.len(),
            k == 0 || !seq_lt(d.category@, s[k - 1].category@),
        decreases k,
    {
        if k == 0 {
            break;
        }
        let ck = to_chars(out[k - 1].category.as_str());
        if order_chars(dc.as_slice(), ck.as_slice()) != KeyOrder::Less {
            break;
        }
        proof {
            let t = s.take(k as int);
            assert(t.drop_last() =~= s.take(k - 1));
            assert(t.last() == s[k - 1]);
            assert(insert_by_category(t, d) == insert_by_category(s.take(k - 1), d).push(s[k - 1]));
            assert(s.skip(k - 1) =~= seq![s[k - 1]] + s.skip(k as int));
            assert(insert_by_category(s.take(k - 1), d).push(s[k - 1]) + s.skip(k as int)
                =~= insert_by_category(s.take(k - 1), d) + s.skip(k - 1));
        }
        k = k - 1;
    }
    proof {
        if k == 0 {
            assert(s.take(0) =~= Seq::<CommandDefinition>::empty());
            assert(insert_by_category(s, d) =~= s.insert(0, d));
        } else {
            assert(s.take(k as int).last() == s[k - 1]);
            assert(insert_by_category(s.take(k as int), d) == s.take(k as int).push(d));
            assert(insert_by_category(s, d) =~= s.insert(k as int, d));
        }
    }
    out.insert(k, d);
}

/// The line of one command.
fn line_of(d: &CommandDefinition) -> (r: String)
    ensures
        r@ == command_line(*d),
{
    let mut out = lit("  ");
    push_padded(&mut out, d.usage.as_str(), 25);
    push_str(&mut out, " — ");
    push_str(&mut out, d.description.as_str());
    if d.aliases.len() > 0 {
        push_str(&mut out, " (aliases: ");
        let joined = crate::text::join_strings(&d.aliases, ", ");
        assert(d.aliases@.map_values(|p: String| p@) =~= views(d.aliases@));
        push_str(&mut out, joined.as_str());
        push_str(&mut out, ")");
    }
    push_str(&mut out, "\n");
    out
}

/// The handler of `/help`.
pub struct HelpCommand;

impl HelpCommand {
    /// The listing of `commands`, grouped under their categories in
    /// increasing order; within a category the given order is kept.
    pub fn render(&self, commands: Vec<CommandDefinition>) -> (r: String)
        ensures
            r@ == help_listing(commands@),
    {
        let ghost all = commands@;
        let mut rest = commands;
        let total = rest.len();
        let mut sorted: Vec<CommandDefinition> = Vec::new();
        let mut n: usize = 0;
        while rest.len() > 0
            invariant
                total == all.len(),
                n <= all.len(),
                rest@ == all.skip(n as int),
                sorted@ == sort_by_category(all.take(n as int)),
            decreases rest@.len(),
        {
            let d = rest.remove(0);
            assert(all.take(n + 1).drop_last() =~= all.take(n as int));
            assert(all.take(n + 1).last() == all[n as int]);
            insert_sorted(&mut sorted, d);
            n = n + 1;
            assert(rest@ =~= all.skip(n as int));
        }
        assert(all.take(n as int) =~= all);
        let mut text = String::new();
        let mut current = String::new();
        let mut i: usize = 0;
        while i < sorted.len()
            invariant
                i <= sorted@.len(),
                (text@, current@) == listing(sorted@.take(i as int)),
            decreases sorted@.len() - i,
        {
            let d = &sorted[i];
            assert(sorted@.take(i + 1).drop_last() =~= sorted@.take(i as int));
            if !crate::text::str_eq(d.category.as_str(), current.as_str()) {
                current = d.category.clone();
                push_str(&mut text, "\n[");
                let up = to_uppercase(d.category.as_str());
                push_str(&mut text, up.as_str());
                push_str(&mut text, "]\n");
            }
            let line = line_of(d);
            push_str(&mut text, line.as_str());
            i = i + 1;
        }
        assert(sorted@.take(sorted@.len() as int) =~= sorted@);
        let mut out = lit("Available commands:\n\n");
        push_str(&mut out, text.as_str());
        out
    }
}

} // verus!
