//! Properties that hold across the operations of the library.

use vstd::prelude::*;
use crate::builtin::help::{insert_by_category, sort_by_category};
use crate::command::CommandDefinition;
use crate::runtime::vault_read;
use crate::secrets::{has_sensitive_keyword, SecretsManager};
use crate::text::{ascii_lower, ascii_upper, is_ascii_text, parse_i64_spec, signed_decimal};
use crate::strmap::{lemma_seq_lt_irreflexive, lemma_seq_lt_total, lemma_seq_lt_transitive, seq_lt};
use crate::parser::{quote_state, quoted_args};
use crate::text::{contains, index_of, starts_with, is_ws, join, lines, occurs_at, replace_all, split, split_state, strip_cr, trim, trim_end, trim_start};
use crate::secrets::{parse_env_line, parse_secrets, render_entries, secrets_of_lines};
use crate::jobs::{fired, fired_with, is_due, runs_once, JobRecord};
use crate::schedule::{add_span, duration_value, rfc3339_text, Duration, Timestamp};
use crate::vault::{decrypted_value, entries_of_lines, file_encryptable, file_entries, has_plain_value, is_plain_value, line_encryptable, lines_have_plain_value, read_as, vault_header};
use crate::vault::Vault;
use crate::addons::AddonManager;
use crate::config_path::{find_node, new_value_is, path_keys, shown, ConfigNode, ConfigValue};
use crate::types::AddonManifest;
use crate::config::SecurityConfig;
use crate::policy::{decision_is, PolicyAction, PolicyDecision};
use crate::secrets::is_sensitive;
use crate::skills::{skill_matches, SkillMeta};
use crate::tools::{memory_hits, memory_search_text, MemoryFact};
use crate::text::lowercase;
use crate::schedule::{cron_accepts, cron_next_after, max_timestamp_secs};

verus! {

/// What the vault reads back under a key is what was last put there.
pub proof fn law_vault_reads_back(v: Vault, key: Seq<char>, value: Seq<u8>)
    requires
        v.holds(key, value),
    ensures
        vault_read(v, key) == Some(value),
{
}

/// Putting a secret leaves what every other key reads unchanged: the state
/// after a successful put, as `Vault::put_secret` describes it, reads the same
/// as before on any other key.
pub proof fn law_vault_put_keeps_others(before: Vault, after: Vault, key: Seq<char>, other: Seq<char>)
    requires
        after.hwid_view() == before.hwid_view(),
        after@.dom() == before@.dom().insert(key),
        forall|k: Seq<char>|
            k != key && #[trigger] before@.contains_key(k) ==> after@[k] == before@[k],
        other != key,
    ensures
        vault_read(after, other) == vault_read(before, other),
{
    assert(after@.contains_key(other) == before@.contains_key(other));
}

/// Deleting a secret leaves every other key as it was and the deleted one
/// unreadable.
pub proof fn law_vault_delete(before: Vault, after: Vault, key: Seq<char>, other: Seq<char>)
    requires
        after.hwid_view() == before.hwid_view(),
        after@ == before@.remove(key),
    ensures
        vault_read(after, key) is None,
        other != key ==> vault_read(after, other) == vault_read(before, other),
{
}

/// The part of the vault a component sees is `<id>:` followed by its own
/// keys; two different components whose ids hold no `:` never reach the same
/// full key.
pub proof fn law_component_stores_disjoint(a: Seq<char>, b: Seq<char>, k1: Seq<char>, k2: Seq<char>)
    requires
        a.len() > 0,
        b.len() > 0,
        a != b,
        !a.contains(':'),
        !b.contains(':'),
    ensures
        a + ":"@ + k1 != b + ":"@ + k2,
{
    let x = a + ":"@ + k1;
    let y = b + ":"@ + k2;
    assert(":"@ == seq![':']) by {
        reveal_strlit(":");
    }
    if x == y {
        if a.len() == b.len() {
            assert forall|i: int| 0 <= i < a.len() implies a[i] == b[i] by {
                assert(x[i] == a[i]);
                assert(y[i] == b[i]);
            }
            assert(a =~= b);
        } else if a.len() < b.len() {
            assert(x[a.len() as int] == ':');
            assert(y[a.len() as int] == b[a.len() as int]);
            assert(b.contains(b[a.len() as int]));
        } else {
            assert(y[b.len() as int] == ':');
            assert(x[b.len() as int] == a[b.len() as int]);
            assert(a.contains(a[b.len() as int]));
        }
    }
}

/// Replacing a pattern that does not occur leaves the text as it is, so a
/// prompt template without placeholders comes out unchanged.
pub proof fn law_replace_without_pattern(s: Seq<char>, pat: Seq<char>, with: Seq<char>)
    requires
        pat.len() > 0,
        !contains(s, pat),
    ensures
        replace_all(s, pat, with) == s,
    decreases s.len(),
{
    if s.len() >= pat.len() {
        assert(!occurs_at(s, pat, 0));
        assert(s.subrange(0, pat.len() as int) != pat);
        let rest = s.skip(1);
        assert(!contains(rest, pat)) by {
            if contains(rest, pat) {
                let i = choose|i: int| occurs_at(rest, pat, i);
                assert(s.subrange(i + 1, i + 1 + pat.len()) =~= rest.subrange(i, i + pat.len()));
                assert(occurs_at(s, pat, i + 1));
            }
        }
        law_replace_without_pattern(rest, pat, with);
        assert(seq![s[0]] + rest =~= s);
    }
}

/// The commands in the order of the sort by category: no category comes
/// before one that precedes it.
pub open spec fn sorted_by_category(s: Seq<CommandDefinition>) -> bool {
    forall|i: int, j: int| 0 <= i < j < s.len() ==> !seq_lt(#[trigger] s[j].category@, #[trigger] s[i].category@)
}

/// `!seq_lt(b, a)` and `!seq_lt(c, b)` give `!seq_lt(c, a)`.
proof fn lemma_not_lt_transitive(a: Seq<char>, b: Seq<char>, c: Seq<char>)
    requires
        !seq_lt(b, a),
        !seq_lt(c, b),
    ensures
        !seq_lt(c, a),
{
    lemma_seq_lt_total(a, b);
    lemma_seq_lt_total(b, c);
    if seq_lt(c, a) {
        if a == b {
        } else if b == c {
        } else {
            lemma_seq_lt_transitive(a, b, c);
            lemma_seq_lt_transitive(c, a, b);
            lemma_seq_lt_irreflexive(c);
            lemma_seq_lt_transitive(c, a, c);
        }
    }
}

/// One step of the sort puts `d` at some position: every command before it
/// has a category not after its own, every command after it a category after
/// its own.
proof fn lemma_insert_position(s: Seq<CommandDefinition>, d: CommandDefinition) -> (k: int)
    ensures
        0 <= k <= s.len(),
        insert_by_category(s, d) == s.insert(k, d),
        k > 0 ==> !seq_lt(d.category@, s[k - 1].category@),
        forall|j: int| k <= j < s.len() ==> seq_lt(d.category@, #[trigger] s[j].category@),
    decreases s.len(),
{
    if s.len() == 0 {
        assert(insert_by_category(s, d) =~= s.insert(0, d));
        0
    } else if seq_lt(d.category@, s.last().category@) {
        let k = lemma_insert_position(s.drop_last(), d);
        assert(insert_by_category(s, d) =~= s.insert(k, d));
        assert forall|j: int| k <= j < s.len() implies seq_lt(d.category@, #[trigger] s[j].category@) by {
            if j < s.len() - 1 {
                assert(s.drop_last()[j] == s[j]);
            }
        }
        if k > 0 {
            assert(s.drop_last()[k - 1] == s[k - 1]);
        }
        k
    } else {
        assert(insert_by_category(s, d) =~= s.insert(s.len() as int, d));
        s.len() as int
    }
}

/// One step of the sort keeps the commands sorted.
proof fn lemma_insert_sorted(s: Seq<CommandDefinition>, d: CommandDefinition)
    requires
        sorted_by_category(s),
    ensures
        sorted_by_category(insert_by_category(s, d)),
{
    let k = lemma_insert_position(s, d);
    let r = s.insert(k, d);
    assert forall|i: int, j: int| 0 <= i < j < r.len() implies !seq_lt(
        #[trigger] r[j].category@,
        #[trigger] r[i].category@,
    ) by {
        if j < k {
            assert(r[i] == s[i] && r[j] == s[j]);
        } else if i > k {
            assert(r[i] == s[i - 1] && r[j] == s[j - 1]);
        } else if j == k {
            assert(r[j] == d && r[i] == s[i]);
            if i < k - 1 {
                assert(!seq_lt(s[k - 1].category@, s[i].category@));
                lemma_not_lt_transitive(s[i].category@, s[k - 1].category@, d.category@);
            }
        } else if i == k {
            assert(r[i] == d && r[j] == s[j - 1]);
            assert(seq_lt(d.category@, s[j - 1].category@));
            if seq_lt(s[j - 1].category@, d.category@) {
                lemma_seq_lt_transitive(d.category@, s[j - 1].category@, d.category@);
                lemma_seq_lt_irreflexive(d.category@);
            }
        } else {
            assert(i < k && k < j);
            assert(r[i] == s[i] && r[j] == s[j - 1]);
        }
    }
}

/// The help listing's order is a sort by category: the commands come out in
/// increasing order of category, each exactly as often as it went in.
pub proof fn law_help_sorts_by_category(cmds: Seq<CommandDefinition>)
    ensures
        sorted_by_category(sort_by_category(cmds)),
        sort_by_category(cmds).to_multiset() == cmds.to_multiset(),
    decreases cmds.len(),
{
    broadcast use vstd::seq_lib::group_to_multiset_ensures;

    if cmds.len() > 0 {
        law_help_sorts_by_category(cmds.drop_last());
        let s = sort_by_category(cmds.drop_last());
        lemma_insert_sorted(s, cmds.last());
        let k = lemma_insert_position(s, cmds.last());
        vstd::seq_lib::to_multiset_insert(s, k, cmds.last());
        vstd::seq_lib::to_multiset_build(cmds.drop_last(), cmds.last());
        assert(cmds.drop_last().push(cmds.last()) =~= cmds);
    }
}


/// A component's write never changes what another component reads: after a
/// successful put through the store of component `a` (ids without `:`), the
/// store of another component `b` reads every key as before.
pub proof fn law_component_stores_isolated(
    before: Vault,
    after: Vault,
    a: Seq<char>,
    b: Seq<char>,
    k1: Seq<char>,
    k2: Seq<char>,
)
    requires
        a.len() > 0,
        b.len() > 0,
        a != b,
        !a.contains(':'),
        !b.contains(':'),
        after.hwid_view() == before.hwid_view(),
        after@.dom() == before@.dom().insert(a + ":"@ + k1),
        forall|k: Seq<char>|
            k != a + ":"@ + k1 && #[trigger] before@.contains_key(k) ==> after@[k] == before@[k],
    ensures
        vault_read(after, b + ":"@ + k2) == vault_read(before, b + ":"@ + k2),
{
    law_component_stores_disjoint(a, b, k1, k2);
    law_vault_put_keeps_others(before, after, a + ":"@ + k1, b + ":"@ + k2);
}

/// The environment secrets read back what was set, and setting one key
/// leaves the others as they were.
pub proof fn law_secrets_set_then_get(
    before: SecretsManager,
    after: SecretsManager,
    key: Seq<char>,
    value: Seq<char>,
    other: Seq<char>,
)
    requires
        after@ == before@.insert(key, value),
    ensures
        after@.contains_key(key) && after@[key] == value,
        other != key ==> (after@.contains_key(other) == before@.contains_key(other) && (
        before@.contains_key(other) ==> after@[other] == before@[other])),
{
}

/// An unset secret is gone, and the others stay.
pub proof fn law_secrets_unset(
    before: SecretsManager,
    after: SecretsManager,
    key: Seq<char>,
    other: Seq<char>,
)
    requires
        after@ == before@.remove(key),
    ensures
        !after@.contains_key(key),
        other != key ==> (after@.contains_key(other) == before@.contains_key(other) && (
        before@.contains_key(other) ==> after@[other] == before@[other])),
{
}


/// A word that splitting at spaces keeps whole: not empty, without spaces or
/// double quotes.
pub open spec fn plain_word(w: Seq<char>) -> bool {
    w.len() > 0 && !w.contains(' ') && !w.contains('"')
}

/// Reading characters that are neither spaces nor quotes only extends the
/// argument being read.
proof fn lemma_quote_state_plain(s: Seq<char>, t: Seq<char>)
    requires
        !t.contains(' '),
        !t.contains('"'),
    ensures
        quote_state(s + t) == (quote_state(s).0, quote_state(s).1 + t, quote_state(s).2),
    decreases t.len(),
{
    if t.len() == 0 {
        assert(s + t =~= s);
        assert(quote_state(s).1 + t =~= quote_state(s).1);
    } else {
        let t0 = t.drop_last();
        assert(!t0.contains(' ')) by {
            if t0.contains(' ') {
                let i = choose|i: int| 0 <= i < t0.len() && t0[i] == ' ';
                assert(t[i] == ' ');
            }
        }
        assert(!t0.contains('"')) by {
            if t0.contains('"') {
                let i = choose|i: int| 0 <= i < t0.len() && t0[i] == '"';
                assert(t[i] == '"');
            }
        }
        lemma_quote_state_plain(s, t0);
        assert((s + t).drop_last() =~= s + t0);
        assert((s + t).last() == t.last());
        assert(t.contains(t.last()));
        assert(quote_state(s).1 + t0 + seq![t.last()] =~= quote_state(s).1 + t);
        assert((quote_state(s).1 + t0).push(t.last()) =~= quote_state(s).1 + t);
    }
}

/// Splitting words joined by single spaces is reading them one after the
/// other: all but the last are finished, the last is being read.
proof fn lemma_quote_state_words(ws: Seq<Seq<char>>)
    requires
        ws.len() > 0,
        forall|i: int| 0 <= i < ws.len() ==> plain_word(#[trigger] ws[i]),
    ensures
        quote_state(join(ws, " "@)) == (ws.drop_last(), ws.last(), false),
    decreases ws.len(),
{
    assert(" "@ == seq![' ']) by {
        reveal_strlit(" ");
    }
    if ws.len() == 1 {
        lemma_quote_state_plain(seq![], ws[0]);
        assert(Seq::<char>::empty() + ws[0] =~= ws[0]);
        assert(ws.drop_last() =~= Seq::<Seq<char>>::empty());
        assert(Seq::<char>::empty() + ws[0] =~= ws[0]);
    } else {
        let prev = ws.drop_last();
        assert forall|i: int| 0 <= i < prev.len() implies plain_word(#[trigger] prev[i]) by {
            assert(prev[i] == ws[i]);
        }
        lemma_quote_state_words(prev);
        let p = join(prev, " "@);
        let ps = p + " "@;
        assert(ps.drop_last() =~= p);
        assert(ps.last() == ' ');
        assert(prev.last() == ws[ws.len() - 2]);
        assert(quote_state(ps) == (prev.drop_last().push(prev.last()), Seq::<char>::empty(), false));
        assert(prev.drop_last().push(prev.last()) =~= prev);
        lemma_quote_state_plain(ps, ws.last());
        assert(join(ws, " "@) == ps + ws.last());
        assert(Seq::<char>::empty() + ws.last() =~= ws.last());
    }
}

/// Words without spaces or quotes, joined by single spaces, split back into
/// the same words.
pub proof fn law_split_joined_words(ws: Seq<Seq<char>>)
    requires
        forall|i: int| 0 <= i < ws.len() ==> plain_word(#[trigger] ws[i]),
    ensures
        quoted_args(join(ws, " "@)) == ws,
{
    if ws.len() > 0 {
        lemma_quote_state_words(ws);
        assert(ws.last().len() > 0);
        assert(ws.drop_last().push(ws.last()) =~= ws);
    }
}


// ---------------------------------------------------------------------------
// Files of `key=value` lines: what is written is what is read back.
// ---------------------------------------------------------------------------

/// A key or value that a `key=value` line carries unchanged: not empty, no
/// whitespace at either end, no line break inside.
pub open spec fn line_safe(s: Seq<char>) -> bool {
    &&& s.len() > 0
    &&& !is_ws(s[0])
    &&& !is_ws(s.last())
    &&& forall|i: int| 0 <= i < s.len() ==> #[trigger] s[i] != '\n'
}

/// An entry that a `key=value` line carries unchanged: a line-safe key that
/// holds no `=` and does not start a comment, and a line-safe value.
pub open spec fn storable(e: (Seq<char>, Seq<char>)) -> bool {
    &&& line_safe(e.0)
    &&& line_safe(e.1)
    &&& e.0[0] != '#'
    &&& forall|i: int| 0 <= i < e.0.len() ==> #[trigger] e.0[i] != '='
}

/// The line written for an entry.
pub open spec fn entry_line(e: (Seq<char>, Seq<char>)) -> Seq<char> {
    e.0 + seq!['='] + e.1
}

/// The lines written for the entries, in order.
pub open spec fn entry_lines(es: Seq<(Seq<char>, Seq<char>)>) -> Seq<Seq<char>> {
    es.map_values(|e: (Seq<char>, Seq<char>)| entry_line(e))
}

/// The map that inserting the entries one after the other builds.
pub open spec fn map_of_entries(es: Seq<(Seq<char>, Seq<char>)>) -> Map<Seq<char>, Seq<char>>
    decreases es.len(),
{
    if es.len() == 0 {
        Map::empty()
    } else {
        map_of_entries(es.drop_last()).insert(es.last().0, es.last().1)
    }
}

/// Reading characters other than the separator only extends the piece being
/// read.
proof fn lemma_split_append(p: Seq<char>, l: Seq<char>, c: char)
    requires
        forall|i: int| 0 <= i < l.len() ==> #[trigger] l[i] != c,
    ensures
        split_state(p + l, c) == (split_state(p, c).0, split_state(p, c).1 + l),
    decreases l.len(),
{
    if l.len() == 0 {
        assert(p + l =~= p);
        assert(split_state(p, c).1 + l =~= split_state(p, c).1);
    } else {
        lemma_split_append(p, l.drop_last(), c);
        assert((p + l).drop_last() =~= p + l.drop_last());
        assert((p + l).last() == l[l.len() - 1]);
        assert((split_state(p, c).1 + l.drop_last()).push(l.last()) =~= split_state(p, c).1 + l);
    }
}

/// A line followed by the separator finishes the piece being read.
proof fn lemma_split_line(p: Seq<char>, l: Seq<char>, c: char)
    requires
        forall|i: int| 0 <= i < l.len() ==> #[trigger] l[i] != c,
    ensures
        split_state(p + l + seq![c], c) == (split_state(p, c).0.push(split_state(p, c).1 + l), Seq::<char>::empty()),
{
    lemma_split_append(p, l, c);
    let s = p + l + seq![c];
    assert(s.drop_last() =~= p + l);
    assert(s.last() == c);
}

/// `s` is its own trimmed form when neither end is whitespace.
proof fn lemma_trim_keeps(s: Seq<char>)
    requires
        s.len() > 0,
        !is_ws(s[0]),
        !is_ws(s.last()),
    ensures
        trim(s) == s,
{
    assert(trim_start(s) == s);
    assert(trim_end(s) == s);
}

/// The line of a storable entry reads back as the entry.
proof fn lemma_entry_line_parses(e: (Seq<char>, Seq<char>))
    requires
        storable(e),
    ensures
        parse_env_line(entry_line(e)) == Some((e.0, e.1)),
        forall|i: int| 0 <= i < entry_line(e).len() ==> #[trigger] entry_line(e)[i] != '\n',
        !is_ws(entry_line(e).last()),
{
    let (k, v) = e;
    let t = entry_line(e);
    assert(t[0] == k[0]);
    assert(t.last() == v.last());
    lemma_trim_keeps(t);
    lemma_trim_keeps(k);
    lemma_trim_keeps(v);
    let n = k.len() as int;
    assert(t[n] == '=');
    assert(exists|i: int| 0 <= i < t.len() && t[i] == '=');
    let j = choose|i: int| 0 <= i < t.len() && t[i] == '=' && forall|m: int| 0 <= m < i ==> t[m] != '=';
    assert(j == n) by {
        if j < n {
            assert(t[j] == k[j]);
        }
        if j > n {
            assert(t[n] != '=');
        }
    }
    assert(index_of(t, '=') == Some(n));
    assert(t.take(n) =~= k);
    assert(t.skip(n + 1) =~= v);
    assert forall|i: int| 0 <= i < t.len() implies #[trigger] t[i] != '\n' by {
        if i < n {
            assert(t[i] == k[i]);
        } else if i > n {
            assert(t[i] == v[i - n - 1]);
        }
    }
}

/// A file of a header line and the lines of storable entries splits into
/// the header and the entries' lines.
#[verifier::spinoff_prover]
#[verifier::rlimit(40)]
proof fn lemma_rendered_split(h: Seq<char>, es: Seq<(Seq<char>, Seq<char>)>)
    requires
        forall|i: int| 0 <= i < h.len() ==> #[trigger] h[i] != '\n',
        forall|i: int| 0 <= i < es.len() ==> storable(#[trigger] es[i]),
    ensures
        split_state(h + seq!['\n'] + render_entries(es), '\n') == (
            seq![h] + entry_lines(es),
            Seq::<char>::empty(),
        ),
    decreases es.len(),
{
    if es.len() == 0 {
        lemma_split_line(Seq::<char>::empty(), h, '\n');
        assert(Seq::<char>::empty() + h + seq!['\n'] =~= h + seq!['\n'] + render_entries(es));
        assert(Seq::<char>::empty() + h =~= h);
        assert(seq![h] + entry_lines(es) =~= seq![h]);
    } else {
        let rest = es.drop_last();
        assert forall|i: int| 0 <= i < rest.len() implies storable(#[trigger] rest[i]) by {
            assert(rest[i] == es[i]);
        }
        lemma_rendered_split(h, rest);
        let e = es[es.len() - 1];
        assert(storable(e));
        lemma_entry_line_parses(e);
        let p = h + seq!['\n'] + render_entries(rest);
        lemma_split_line(p, entry_line(e), '\n');
        assert(render_entries(es) == render_entries(rest) + e.0 + seq!['='] + e.1 + seq!['\n']);
        assert(h + seq!['\n'] + render_entries(es) =~= p + entry_line(e) + seq!['\n']);
        assert(Seq::<char>::empty() + entry_line(e) =~= entry_line(e));
        assert(entry_lines(es) =~= entry_lines(rest).push(entry_line(e)));
        assert(seq![h] + entry_lines(es) =~= (seq![h] + entry_lines(rest)).push(entry_line(e)));
    }
}

/// The lines of such a file are the header and the entries' lines.
proof fn lemma_rendered_lines(h: Seq<char>, es: Seq<(Seq<char>, Seq<char>)>)
    requires
        h.len() > 0,
        !is_ws(h.last()),
        forall|i: int| 0 <= i < h.len() ==> #[trigger] h[i] != '\n',
        forall|i: int| 0 <= i < es.len() ==> storable(#[trigger] es[i]),
    ensures
        lines(h + seq!['\n'] + render_entries(es)) == seq![h] + entry_lines(es),
{
    lemma_rendered_split(h, es);
    let d = seq![h] + entry_lines(es);
    let s = h + seq!['\n'] + render_entries(es);
    assert(split(s, '\n') == d.push(Seq::<char>::empty()));
    assert(split(s, '\n').drop_last() =~= d);
    assert forall|i: int| 0 <= i < d.len() implies strip_cr(#[trigger] d[i]) == d[i] by {
        if i > 0 {
            lemma_entry_line_parses(es[i - 1]);
        }
    }
    assert(d.map_values(|l: Seq<char>| strip_cr(l)) =~= d);
}

/// The secrets of the header and entry lines: later lines win, and no
/// storable value is empty.
#[verifier::spinoff_prover]
#[verifier::rlimit(40)]
proof fn lemma_secrets_of_rendered(h: Seq<char>, es: Seq<(Seq<char>, Seq<char>)>)
    requires
        parse_env_line(h) is None,
        forall|i: int| 0 <= i < es.len() ==> storable(#[trigger] es[i]),
    ensures
        secrets_of_lines(seq![h] + entry_lines(es)) == map_of_entries(es),
    decreases es.len(),
{
    let ls = seq![h] + entry_lines(es);
    if es.len() == 0 {
        assert(ls.drop_last() =~= Seq::<Seq<char>>::empty());
        assert(ls.last() == h);
        assert(secrets_of_lines(ls) == secrets_of_lines(ls.drop_last()));
    } else {
        let rest = es.drop_last();
        assert forall|i: int| 0 <= i < rest.len() implies storable(#[trigger] rest[i]) by {
            assert(rest[i] == es[i]);
        }
        lemma_secrets_of_rendered(h, rest);
        let e = es[es.len() - 1];
        assert(storable(e));
        lemma_entry_line_parses(e);
        assert(entry_lines(es) =~= entry_lines(rest).push(entry_line(e)));
        assert(ls.drop_last() =~= seq![h] + entry_lines(rest));
        assert(ls.last() == entry_line(e));
        assert(e.1.len() > 0);
        assert(secrets_of_lines(ls) == secrets_of_lines(ls.drop_last()).insert(e.0, e.1));
        assert(map_of_entries(es) == map_of_entries(rest).insert(e.0, e.1));
    }
}

/// The entries of the header and entry lines of a vault file: later lines
/// win.
#[verifier::spinoff_prover]
#[verifier::rlimit(40)]
proof fn lemma_entries_of_rendered(h: Seq<char>, es: Seq<(Seq<char>, Seq<char>)>)
    requires
        parse_env_line(h) is None,
        forall|i: int| 0 <= i < es.len() ==> storable(#[trigger] es[i]),
    ensures
        entries_of_lines(seq![h] + entry_lines(es)) == map_of_entries(es),
    decreases es.len(),
{
    let ls = seq![h] + entry_lines(es);
    if es.len() == 0 {
        assert(ls.drop_last() =~= Seq::<Seq<char>>::empty());
        assert(ls.last() == h);
        assert(entries_of_lines(ls) == entries_of_lines(ls.drop_last()));
    } else {
        let rest = es.drop_last();
        assert forall|i: int| 0 <= i < rest.len() implies storable(#[trigger] rest[i]) by {
            assert(rest[i] == es[i]);
        }
        lemma_entries_of_rendered(h, rest);
        let e = es[es.len() - 1];
        assert(storable(e));
        lemma_entry_line_parses(e);
        assert(entry_lines(es) =~= entry_lines(rest).push(entry_line(e)));
        assert(ls.drop_last() =~= seq![h] + entry_lines(rest));
        assert(ls.last() == entry_line(e));
        assert(entries_of_lines(ls) == entries_of_lines(ls.drop_last()).insert(e.0, e.1));
        assert(map_of_entries(es) == map_of_entries(rest).insert(e.0, e.1));
    }
}

/// With distinct keys, the map of the entries has each entry's value under
/// its key, and no other keys.
proof fn lemma_map_of_entries_at(es: Seq<(Seq<char>, Seq<char>)>)
    requires
        forall|i: int, j: int| 0 <= i < j < es.len() ==> #[trigger] es[i].0 != #[trigger] es[j].0,
    ensures
        forall|i: int| 0 <= i < es.len() ==> map_of_entries(es).contains_key(#[trigger] es[i].0)
            && map_of_entries(es)[es[i].0] == es[i].1,
        forall|k: Seq<char>| #[trigger] map_of_entries(es).contains_key(k) ==> exists|i: int|
            0 <= i < es.len() && es[i].0 == k,
    decreases es.len(),
{
    if es.len() > 0 {
        let rest = es.drop_last();
        lemma_map_of_entries_at(rest);
        let n = es.len() - 1;
        assert forall|i: int| 0 <= i < es.len() implies map_of_entries(es).contains_key(#[trigger] es[i].0)
            && map_of_entries(es)[es[i].0] == es[i].1 by {
            if i < n {
                assert(rest[i] == es[i]);
                assert(es[i].0 != es[n].0);
            }
        }
        assert forall|k: Seq<char>| #[trigger] map_of_entries(es).contains_key(k) implies exists|i: int|
            0 <= i < es.len() && es[i].0 == k by {
            if k != es[n].0 {
                assert(map_of_entries(rest).contains_key(k));
                let i = choose|i: int| 0 <= i < rest.len() && rest[i].0 == k;
                assert(es[i].0 == k);
            } else {
                assert(es[n].0 == k);
            }
        }
    }
}

/// Entries with distinct keys that list a map exactly build that map.
proof fn lemma_map_of_listing(es: Seq<(Seq<char>, Seq<char>)>, m: Map<Seq<char>, Seq<char>>)
    requires
        forall|i: int, j: int| 0 <= i < j < es.len() ==> #[trigger] es[i].0 != #[trigger] es[j].0,
        forall|i: int| 0 <= i < es.len() ==> m.contains_key(#[trigger] es[i].0) && m[es[i].0] == es[i].1,
        forall|k: Seq<char>| #[trigger] m.contains_key(k) ==> exists|i: int| 0 <= i < es.len() && es[i].0 == k,
    ensures
        map_of_entries(es) == m,
{
    lemma_map_of_entries_at(es);
    assert forall|k: Seq<char>| #[trigger] map_of_entries(es).contains_key(k) <==> m.contains_key(k) by {
        if m.contains_key(k) {
            let i = choose|i: int| 0 <= i < es.len() && es[i].0 == k;
            assert(map_of_entries(es).contains_key(es[i].0));
        }
        if map_of_entries(es).contains_key(k) {
            let i = choose|i: int| 0 <= i < es.len() && es[i].0 == k;
            assert(m.contains_key(es[i].0));
        }
    }
    assert forall|k: Seq<char>| #[trigger] map_of_entries(es).contains_key(k) implies map_of_entries(es)[k] == m[k] by {
        let i = choose|i: int| 0 <= i < es.len() && es[i].0 == k;
        assert(map_of_entries(es)[es[i].0] == es[i].1);
    }
    assert(map_of_entries(es) =~= m);
}

/// Keys in strictly increasing order are distinct.
proof fn lemma_sorted_distinct(es: Seq<(Seq<char>, Seq<char>)>)
    requires
        forall|i: int, j: int| 0 <= i < j < es.len() ==> seq_lt(#[trigger] es[i].0, #[trigger] es[j].0),
    ensures
        forall|i: int, j: int| 0 <= i < j < es.len() ==> #[trigger] es[i].0 != #[trigger] es[j].0,
{
    assert forall|i: int, j: int| 0 <= i < j < es.len() implies #[trigger] es[i].0 != #[trigger] es[j].0 by {
        assert(seq_lt(es[i].0, es[j].0));
        lemma_seq_lt_irreflexive(es[i].0);
    }
}

/// Every secret that a `key=value` line carries unchanged.
pub open spec fn secrets_storable(m: Map<Seq<char>, Seq<char>>) -> bool {
    forall|k: Seq<char>| #[trigger] m.contains_key(k) ==> storable((k, m[k]))
}

/// The secrets file that the manager writes reads back as the same secrets
/// (`SecretsManager::load` gives `parse_secrets` of the file), when every key
/// and value is carried unchanged by its line.
pub proof fn law_secrets_file_reads_back(m: SecretsManager)
    requires
        m.wf(),
        secrets_storable(m@),
    ensures
        parse_secrets("# minusbot secrets — DO NOT SHARE\n"@ + render_entries(m.sorted_entries())) == m@,
{
    m.lemma_sorted_entries();
    let es = m.sorted_entries();
    let h = "# minusbot secrets — DO NOT SHARE"@;
    reveal_strlit("# minusbot secrets — DO NOT SHARE");
    reveal_strlit("# minusbot secrets — DO NOT SHARE\n");
    assert("# minusbot secrets — DO NOT SHARE\n"@ =~= h + seq!['\n']);
    assert forall|i: int| 0 <= i < es.len() implies storable(#[trigger] es[i]) by {
        assert(m@.contains_key(es[i].0));
    }
    lemma_trim_keeps(h);
    assert(parse_env_line(h) is None);
    lemma_rendered_lines(h, es);
    lemma_secrets_of_rendered(h, es);
    lemma_sorted_distinct(es);
    lemma_map_of_listing(es, m@);
    assert("# minusbot secrets — DO NOT SHARE\n"@ + render_entries(es) =~= h + seq!['\n'] + render_entries(es));
}

/// The vault file that the vault writes holds the same entries, when every
/// key and stored value is carried unchanged by its line.
pub proof fn law_vault_file_reads_back(v: Vault)
    requires
        v.wf(),
        secrets_storable(v@),
    ensures
        file_entries(vault_header() + render_entries(v.sorted_entries())) == v@,
{
    v.lemma_keys();
    let es = v.sorted_entries();
    let h = "# minusbot vault — MACHINE ENCRYPTED"@;
    reveal_strlit("# minusbot vault — MACHINE ENCRYPTED");
    reveal_strlit("# minusbot vault — MACHINE ENCRYPTED\n");
    assert(vault_header() =~= h + seq!['\n']);
    assert forall|i: int| 0 <= i < es.len() implies storable(#[trigger] es[i]) by {
        assert(v.sorted_keys().contains(v.sorted_keys()[i]));
        assert(v@.contains_key(es[i].0));
    }
    assert forall|i: int, j: int| 0 <= i < j < es.len() implies seq_lt(#[trigger] es[i].0, #[trigger] es[j].0) by {
        assert(es[i].0 == v.sorted_keys()[i]);
        assert(es[j].0 == v.sorted_keys()[j]);
    }
    assert forall|i: int| 0 <= i < es.len() implies v@.contains_key(#[trigger] es[i].0) && v@[es[i].0] == es[i].1 by {
        assert(v.sorted_keys().contains(v.sorted_keys()[i]));
    }
    assert forall|k: Seq<char>| #[trigger] v@.contains_key(k) implies exists|i: int| 0 <= i < es.len() && es[i].0 == k by {
        assert(v.sorted_keys().contains(k));
        let i = choose|i: int| 0 <= i < v.sorted_keys().len() && v.sorted_keys()[i] == k;
        assert(es[i].0 == k);
    }
    lemma_trim_keeps(h);
    assert(parse_env_line(h) is None);
    lemma_rendered_lines(h, es);
    lemma_entries_of_rendered(h, es);
    lemma_sorted_distinct(es);
    lemma_map_of_listing(es, v@);
    assert(vault_header() + render_entries(es) =~= h + seq!['\n'] + render_entries(es));
}

/// The file that a vault writes can always be opened again: no value in it is
/// kept in clear, so opening it encrypts nothing and cannot fail.
pub proof fn law_vault_file_opens(v: Vault)
    requires
        v.wf(),
        secrets_storable(v@),
    ensures
        file_encryptable(vault_header() + render_entries(v.sorted_entries())),
        !has_plain_value(vault_header() + render_entries(v.sorted_entries())),
{
    v.lemma_keys();
    v.lemma_stored_encrypted();
    let es = v.sorted_entries();
    let h = "# minusbot vault — MACHINE ENCRYPTED"@;
    reveal_strlit("# minusbot vault — MACHINE ENCRYPTED");
    reveal_strlit("# minusbot vault — MACHINE ENCRYPTED\n");
    assert(vault_header() =~= h + seq!['\n']);
    assert forall|i: int| 0 <= i < es.len() implies storable(#[trigger] es[i]) && !is_plain_value(es[i].1) by {
        assert(v.sorted_keys().contains(v.sorted_keys()[i]));
        assert(v@.contains_key(es[i].0));
    }
    lemma_trim_keeps(h);
    assert(parse_env_line(h) is None);
    lemma_rendered_lines(h, es);
    assert(vault_header() + render_entries(es) =~= h + seq!['\n'] + render_entries(es));
    let ls = seq![h] + entry_lines(es);
    assert forall|j: int| 0 <= j < ls.len() implies #[trigger] line_encryptable(ls[j]) && !line_plain(ls[j]) by {
        if j > 0 {
            assert(ls[j] == entry_line(es[j - 1]));
            lemma_entry_line_parses(es[j - 1]);
        }
    }
    assert forall|j: int| 0 <= j < ls.len() implies !#[trigger] line_plain(ls[j]) by {
        assert(line_encryptable(ls[j]));
    }
    lemma_no_plain_lines(ls);
}

/// A line that carries a plain value.
spec fn line_plain(l: Seq<char>) -> bool {
    match parse_env_line(l) {
        Some((k, x)) => is_plain_value(x),
        None => false,
    }
}

/// Lines none of which carries a plain value have no plain value.
proof fn lemma_no_plain_lines(ls: Seq<Seq<char>>)
    requires
        forall|j: int| 0 <= j < ls.len() ==> !#[trigger] line_plain(ls[j]),
    ensures
        !lines_have_plain_value(ls),
    decreases ls.len(),
{
    if ls.len() > 0 {
        assert forall|j: int| 0 <= j < ls.drop_last().len() implies !#[trigger] line_plain(ls.drop_last()[j]) by {
            assert(ls.drop_last()[j] == ls[j]);
            assert(!line_plain(ls[j]));
        }
        lemma_no_plain_lines(ls.drop_last());
        assert(ls.last() == ls[ls.len() - 1]);
        assert(!line_plain(ls[ls.len() - 1]));
    }
}

/// A vault written to its file and opened again on the same machine reads
/// every key as before: `w` is what `Vault::open` gives for the written file
/// (its `ensures` are the premises), and the storable entries make the file
/// carry every value unchanged.
pub proof fn law_vault_reopens(v: Vault, w: Vault)
    requires
        v.wf(),
        secrets_storable(v@),
        w.hwid_view() == v.hwid_view(),
        forall|k: Seq<char>| #[trigger] w@.contains_key(k) <==> file_entries(
            vault_header() + render_entries(v.sorted_entries()),
        ).contains_key(k),
        forall|k: Seq<char>| #[trigger] file_entries(vault_header() + render_entries(v.sorted_entries())).contains_key(k)
            ==> read_as(w.master_key_view(), w@[k], file_entries(vault_header() + render_entries(v.sorted_entries()))[k]),
    ensures
        forall|k: Seq<char>| #[trigger] w@.contains_key(k) <==> v@.contains_key(k),
        forall|k: Seq<char>| #[trigger] v@.contains_key(k) ==> decrypted_value(w.master_key_view(), w@[k])
            == decrypted_value(v.master_key_view(), v@[k]),
{
    law_vault_file_reads_back(v);
    assert forall|k: Seq<char>| #[trigger] v@.contains_key(k) implies decrypted_value(w.master_key_view(), w@[k])
        == decrypted_value(v.master_key_view(), v@[k]) by {
        assert(storable((k, v@[k])));
        assert(read_as(w.master_key_view(), w@[k], v@[k]));
    }
}

// ---------------------------------------------------------------------------
// The scheduler.
// ---------------------------------------------------------------------------

/// A one-shot job (`delay` or `once_at`) fires once: after a tick fires it,
/// it is disabled and never due again.
pub proof fn law_one_shot_jobs_fire_once(job: JobRecord, now: Timestamp, now_text: Seq<char>, updated: JobRecord, later: Timestamp)
    requires
        runs_once(job.schedule_kind@),
        fired(job, now, now_text, updated),
    ensures
        !updated.enabled,
        !is_due(updated, later),
{
    let c = choose|c: Option<Timestamp>| #[trigger] fired_with(job, now, now_text, updated, c);
    assert(fired_with(job, now, now_text, updated, c));
}

/// An interval job that fires stays enabled as it was and is next due one
/// interval after the tick, when that time can be represented.
pub proof fn law_interval_jobs_reschedule(job: JobRecord, now: Timestamp, now_text: Seq<char>, updated: JobRecord)
    requires
        job.schedule_kind@ == "interval"@,
        fired(job, now, now_text, updated),
        duration_value(job.schedule_expr@) matches Some(v) && v <= u64::MAX,
    ensures
        updated.enabled == job.enabled,
        match add_span(now, Duration { secs: duration_value(job.schedule_expr@).unwrap() as u64 }) {
            Some(t) => updated.next_run_at matches Some(s) && s@ == rfc3339_text(t.secs, t.nanos),
            None => updated.next_run_at is None,
        },
{
    let c = choose|c: Option<Timestamp>| #[trigger] fired_with(job, now, now_text, updated, c);
    assert(fired_with(job, now, now_text, updated, c));
    reveal_strlit("interval");
    reveal_strlit("delay");
    reveal_strlit("once_at");
    reveal_strlit("cron");
    assert(job.schedule_kind@.len() == 8);
    assert("delay"@.len() == 5 && "once_at"@.len() == 7 && "cron"@.len() == 4);
    assert(!runs_once(job.schedule_kind@));
    assert(job.schedule_kind@ != "cron"@);
}

/// Registering an addon grows the listing by one when its id is new and keeps
/// its length when the id was already registered: `before` and `after` are
/// the managers around a `register` (its `ensures` are the premises).
pub proof fn law_addon_register_counts(before: AddonManager, after: AddonManager, m: AddonManifest)
    requires
        before.wf(),
        after.wf(),
        after@ == before@.insert(m.id@, m),
    ensures
        after@.dom().len() == before@.dom().len() + (if before@.contains_key(m.id@) { 0int } else { 1int }),
        after@.contains_key(m.id@) && after@[m.id@] == m,
{
    before.lemma_ids_match();
    if before@.contains_key(m.id@) {
        assert(after@.dom() =~= before@.dom());
    } else {
        assert(after@.dom() =~= before@.dom().insert(m.id@));
    }
}

/// Whether a key is sensitive does not depend on the case of its ASCII
/// letters: `is_sensitive_key` decides an ASCII key by its upper-case form
/// (its `ensures`), and a key and its lower-case form have the same one.
pub proof fn law_sensitive_keys_ignore_case(key: Seq<char>)
    requires
        is_ascii_text(key),
    ensures
        is_ascii_text(key.map_values(|c: char| ascii_lower(c))),
        key.map_values(|c: char| ascii_lower(c)).map_values(|c: char| ascii_upper(c))
            == key.map_values(|c: char| ascii_upper(c)),
        has_sensitive_keyword(key.map_values(|c: char| ascii_lower(c)).map_values(|c: char| ascii_upper(c)))
            == has_sensitive_keyword(key.map_values(|c: char| ascii_upper(c))),
{
    let low = key.map_values(|c: char| ascii_lower(c));
    assert forall|i: int| 0 <= i < low.len() implies (#[trigger] low[i] as u32) < 128 by {
        assert((key[i] as u32) < 128);
    }
    assert(low.map_values(|c: char| ascii_upper(c)) =~= key.map_values(|c: char| ascii_upper(c)));
}

/// Two parts of the vault whose prefixes are not prefixes of each other never
/// share a key: what one lists or stores, the other cannot reach.
pub proof fn law_subvault_prefixes_disjoint(p: Seq<char>, q: Seq<char>, k1: Seq<char>, k2: Seq<char>)
    requires
        !starts_with(p, q),
        !starts_with(q, p),
    ensures
        p + k1 != q + k2,
{
    let x = p + k1;
    let y = q + k2;
    if x == y {
        if p.len() <= q.len() {
            assert forall|i: int| 0 <= i < p.len() implies q.subrange(0, p.len() as int)[i] == p[i] by {
                assert(x[i] == p[i]);
                assert(y[i] == q[i]);
            }
            assert(q.subrange(0, p.len() as int) =~= p);
        } else {
            assert forall|i: int| 0 <= i < q.len() implies p.subrange(0, q.len() as int)[i] == q[i] by {
                assert(x[i] == p[i]);
                assert(y[i] == q[i]);
            }
            assert(p.subrange(0, q.len() as int) =~= q);
        }
    }
}

/// A setting written by dotted path reads back: when `config_set` stores `v`
/// for `text` at the path (its `ensures`) and `config_apply` puts it in the
/// nodes (its `ensures`), `config_get` of the path shows `text` again — for a
/// text setting or a new key always, for a boolean when `text` is `true` or
/// `false`, for an integer when `text` is how the integer it parses to is
/// written. Every other path reads as before.
pub proof fn law_config_set_then_get(
    before: Seq<ConfigNode>,
    after: Seq<ConfigNode>,
    path: Seq<char>,
    text: Seq<char>,
    v: ConfigValue,
)
    requires
        new_value_is(find_node(before, path_keys(path)), text, v),
        find_node(after, path_keys(path)) == Some(v),
        forall|k: Seq<Seq<char>>| k != path_keys(path) ==> #[trigger] find_node(after, k) == find_node(before, k),
        match find_node(before, path_keys(path)) {
            Some(ConfigValue::Flag(_)) => text == "true"@ || text == "false"@,
            Some(ConfigValue::Integer(_)) => parse_i64_spec(text) matches Some(n) && signed_decimal(n as int) == text,
            _ => true,
        },
    ensures
        find_node(after, path_keys(path)) matches Some(x) && shown(x) == text,
        forall|k: Seq<Seq<char>>| k != path_keys(path) ==> #[trigger] find_node(after, k) == find_node(before, k),
{
    reveal_strlit("true");
    reveal_strlit("false");
}

// ---------------------------------------------------------------------------
// What the scheduler, the parser, the searches and the policy are for.
// ---------------------------------------------------------------------------

/// Firing disables only one-shot jobs: a job whose kind is neither `delay` nor
/// `once_at` keeps its enabled flag through a tick (`fired` is what
/// `JobTable::tick` ensures of the record it stores).
pub proof fn law_only_one_shot_jobs_are_disabled(job: JobRecord, now: Timestamp, now_text: Seq<char>, updated: JobRecord)
    requires
        fired(job, now, now_text, updated),
        job.schedule_kind@ != "delay"@,
        job.schedule_kind@ != "once_at"@,
    ensures
        updated.enabled == job.enabled,
        updated.schedule_kind == job.schedule_kind,
        updated.schedule_expr == job.schedule_expr,
{
}

/// A cron job that fires stays as enabled as it was, and is next due at the
/// next time its expression fires after the tick, as the cron crate computes
/// it (before chrono's last second, after which no time is represented).
pub proof fn law_cron_jobs_keep_running(job: JobRecord, now: Timestamp, now_text: Seq<char>, updated: JobRecord)
    requires
        fired(job, now, now_text, updated),
        job.schedule_kind@ == "cron"@,
        cron_accepts(job.schedule_expr@),
        now.secs < max_timestamp_secs(),
    ensures
        updated.enabled == job.enabled,
        match cron_next_after(job.schedule_expr@, now.secs, now.nanos) {
            Some((secs, nanos)) => updated.next_run_at matches Some(t) && t@ == rfc3339_text(secs, nanos),
            None => updated.next_run_at is None,
        },
{
    reveal_strlit("cron");
    reveal_strlit("delay");
    reveal_strlit("once_at");
    assert("cron"@.len() != "delay"@.len());
    assert("cron"@.len() != "once_at"@.len());
}

/// Inside double quotes every character but a quote joins the current
/// argument, spaces included.
proof fn lemma_inside_quotes(p: Seq<char>, a: Seq<Seq<char>>, t: Seq<char>)
    requires
        quote_state(p) == (a, Seq::<char>::empty(), false),
        forall|i: int| 0 <= i < t.len() ==> t[i] != '"',
    ensures
        quote_state(p + seq!['"'] + t) == (a, t, true),
    decreases t.len(),
{
    if t.len() == 0 {
        assert(p + seq!['"'] + t =~= p.push('"'));
        assert((p + seq!['"'] + t).drop_last() =~= p);
    } else {
        let u = t.drop_last();
        lemma_inside_quotes(p, a, u);
        let s = p + seq!['"'] + t;
        assert(s.drop_last() =~= p + seq!['"'] + u);
        assert(s.last() == t.last());
        assert(t.last() == t[t.len() - 1]);
        assert(u.push(t.last()) =~= t);
    }
}

/// A double-quoted argument is one argument, spaces and all: after text that
/// ends between arguments, `"t"` (with no quote in `t`) adds exactly `t`.
pub proof fn law_quoted_argument_is_one(p: Seq<char>, t: Seq<char>)
    requires
        quote_state(p).1.len() == 0,
        !quote_state(p).2,
        forall|i: int| 0 <= i < t.len() ==> t[i] != '"',
    ensures
        quoted_args(p + seq!['"'] + t + seq!['"']) == quote_state(p).0.push(t),
        quoted_args(seq!['"'] + t + seq!['"']) == seq![t],
{
    let a = quote_state(p).0;
    assert(quote_state(p) == (a, Seq::<char>::empty(), false));
    lemma_inside_quotes(p, a, t);
    let s = p + seq!['"'] + t + seq!['"'];
    assert(s.drop_last() =~= p + seq!['"'] + t);
    assert(s.last() == '"');
    let e = Seq::<char>::empty();
    assert(quote_state(e) == (Seq::<Seq<char>>::empty(), e, false));
    lemma_inside_quotes(e, Seq::<Seq<char>>::empty(), t);
    let s2 = seq!['"'] + t + seq!['"'];
    assert(s2 =~= e + seq!['"'] + t + seq!['"']);
    assert(s2.drop_last() =~= e + seq!['"'] + t);
    assert(s2.last() == '"');
    assert(Seq::<Seq<char>>::empty().push(t) =~= seq![t]);
}

/// A skill is found by its name alone, by its description alone, or by one
/// tag alone: when its lower-cased name, description or a tag contains the
/// lower-cased query, the search (`search_skills` ensures its result is this
/// filter) returns it.
pub proof fn law_skill_found_by_name(all: Seq<SkillMeta>, query: Seq<char>, m: SkillMeta)
    requires
        all.contains(m),
        contains(lowercase(m.name@), lowercase(query)) || (m.description matches Some(d) && contains(
            lowercase(d@),
            lowercase(query),
        )) || exists|i: int| 0 <= i < m.tags@.len() && contains(lowercase(#[trigger] m.tags@[i]@), lowercase(query)),
    ensures
        all.filter(|x: SkillMeta| skill_matches(x, lowercase(query))).contains(m),
{
    let pred = |x: SkillMeta| skill_matches(x, lowercase(query));
    assert(pred(m));
    let i = choose|i: int| 0 <= i < all.len() && all[i] == m;
    assert(pred(all[i]));
    all.lemma_filter_contains(pred, i);
}

/// Every memory that matches is among the hits.
proof fn lemma_hit_kept(ms: Seq<MemoryFact>, terms: Seq<Seq<char>>, j: int)
    requires
        0 <= j < ms.len(),
        crate::tools::memory_hit(ms[j], terms),
    ensures
        memory_hits(ms, terms).contains(ms[j]),
    decreases ms.len(),
{
    if j == ms.len() - 1 {
        let h = memory_hits(ms, terms);
        assert(h == memory_hits(ms.drop_last(), terms).push(ms.last()));
        assert(h[h.len() - 1] == ms[j]);
    } else {
        lemma_hit_kept(ms.drop_last(), terms, j);
        assert(ms.drop_last()[j] == ms[j]);
        let h0 = memory_hits(ms.drop_last(), terms);
        let i = choose|i: int| 0 <= i < h0.len() && h0[i] == ms[j];
        if crate::tools::memory_hit(ms.last(), terms) {
            assert(memory_hits(ms, terms)[i] == ms[j]);
        }
    }
}

/// The memory search looks in the content as well as the brief: a memory whose
/// lower-cased content or brief contains one of the (lower-cased) search terms
/// is among the hits, and the answer is not the no-match text.
pub proof fn law_memory_found_by_content(ms: Seq<MemoryFact>, terms: Seq<Seq<char>>, j: int, t: int, c: Seq<char>)
    requires
        0 <= j < ms.len(),
        0 <= t < terms.len(),
        (ms[j].content matches Some(s) && s@ == c && contains(lowercase(c), terms[t])) || contains(
            lowercase(ms[j].brief@),
            terms[t],
        ),
    ensures
        memory_hits(ms, terms).contains(ms[j]),
        memory_search_text(ms, terms) != "No matching memories found."@,
{
    assert(crate::tools::memory_hit(ms[j], terms));
    lemma_hit_kept(ms, terms, j);
    let h = memory_hits(ms, terms);
    assert(h.len() > 0);
    let ents = h.map_values(|m: MemoryFact| crate::tools::memory_search_entry(m));
    reveal_strlit("No matching memories found.");
    reveal_strlit("[");
    let e0 = crate::tools::memory_search_entry(h[0]);
    assert(ents[0] == e0);
    assert(e0[0] == '[');
    lemma_join_first(ents, "\n---\n"@);
    let txt = memory_search_text(ms, terms);
    assert(txt == join(ents, "\n---\n"@));
    assert(txt[0] == '[');
    assert("No matching memories found."@[0] == 'N');
}

/// A join of parts begins as its first part does.
proof fn lemma_join_first(parts: Seq<Seq<char>>, sep: Seq<char>)
    requires
        parts.len() > 0,
        parts[0].len() > 0,
    ensures
        join(parts, sep).len() > 0,
        join(parts, sep)[0] == parts[0][0],
    decreases parts.len(),
{
    if parts.len() > 1 {
        lemma_join_first(parts.drop_last(), sep);
        assert(parts.drop_last()[0] == parts[0]);
    }
}

/// The policy refuses only two things: reading a sensitive environment key,
/// and shell execution when the settings do not allow it. Every other action,
/// under any settings, is allowed — provider calls in particular.
pub proof fn law_policy_allows_the_rest(security: SecurityConfig, action: PolicyAction, d: PolicyDecision)
    requires
        decision_is(security, action, d),
        !(action matches PolicyAction::EnvGet { key } && is_sensitive(key@)),
        !(action is ShellExec && !security.allow_shell),
    ensures
        d is Allow,
        action is ProviderCall ==> d is Allow,
{
}

} // verus!
