use vstd::prelude::*;
use vstd::utf8::encode_utf8;
use crate::strmap::StrMap;
use crate::text::{ascii_upper, is_ascii_text, contains, contains_chars, from_chars, index_of, index_of_char, lines, lines_of, lit, owned, push_str, slice, to_chars, to_uppercase, trim, trim_chars, uppercase};

verus! {

broadcast use vstd::string::group_string_axioms;

/// The keywords that mark a key as holding a secret value.
pub open spec fn sensitive_keywords() -> Seq<Seq<char>> {
    seq![
        seq!['K', 'E', 'Y'],
        seq!['T', 'O', 'K', 'E', 'N'],
        seq!['S', 'E', 'C', 'R', 'E', 'T'],
        seq!['P', 'A', 'S', 'S', 'W', 'O', 'R', 'D'],
        seq!['P', 'R', 'I', 'V', 'A', 'T', 'E'],
        seq!['C', 'R', 'E', 'D', 'E', 'N', 'T', 'I', 'A', 'L'],
    ]
}

/// `upper` contains one of the sensitive keywords.
pub open spec fn has_sensitive_keyword(upper: Seq<char>) -> bool {
    exists|i: int| 0 <= i < sensitive_keywords().len() && contains(upper, #[trigger] sensitive_keywords()[i])
}

/// A key is sensitive when its upper-case form contains a sensitive keyword.
pub open spec fn is_sensitive(key: Seq<char>) -> bool {
    has_sensitive_keyword(uppercase(key))
}

/// The marker appended to a shown prefix of a redacted value.
pub open spec fn redacted_suffix() -> Seq<char> {
    seq!['.', '.', '.', 'r', 'e', 'd', 'a', 'c', 't', 'e', 'd']
}

/// What a short sensitive value is shown as.
pub open spec fn redacted_full() -> Seq<char> {
    seq!['*', '*', '*', 'r', 'e', 'd', 'a', 'c', 't', 'e', 'd', '*', '*', '*']
}

/// The first four characters of a value, or all of a shorter one.
pub open spec fn shown_prefix(value: Seq<char>) -> Seq<char> {
    if value.len() >= 4 {
        value.take(4)
    } else {
        value
    }
}

/// How a value is displayed: sensitive values longer than six bytes (in
/// UTF-8) show their first four characters and a marker, shorter ones only a
/// marker, others in full.
pub open spec fn redacted(key: Seq<char>, value: Seq<char>) -> Seq<char> {
    if is_sensitive(key) {
        if encode_utf8(value).len() > 6 {
            shown_prefix(value) + redacted_suffix()
        } else {
            redacted_full()
        }
    } else {
        value
    }
}

fn keyword(i: usize) -> (r: Vec<char>)
    requires
        i < 6,
    ensures
        r@ == sensitive_keywords()[i as int],
{
    let mut v: Vec<char> = Vec::new();
    if i == 0 {
        v.push('K');
        v.push('E');
        v.push('Y');
    } else if i == 1 {
        v.push('T');
        v.push('O');
        v.push('K');
        v.push('E');
        v.push('N');
    } else if i == 2 {
        v.push('S');
        v.push('E');
        v.push('C');
        v.push('R');
        v.push('E');
        v.push('T');
    } else if i == 3 {
        v.push('P');
        v.push('A');
        v.push('S');
        v.push('S');
        v.push('W');
        v.push('O');
        v.push('R');
        v.push('D');
    } else if i == 4 {
        v.push('P');
        v.push('R');
        v.push('I');
        v.push('V');
        v.push('A');
        v.push('T');
        v.push('E');
    } else {
        v.push('C');
        v.push('R');
        v.push('E');
        v.push('D');
        v.push('E');
        v.push('N');
        v.push('T');
        v.push('I');
        v.push('A');
        v.push('L');
    }
    v
}

/// Whether an already upper-cased key contains one of the sensitive keywords.
pub fn contains_sensitive_keyword(upper: &str) -> (r: bool)
    ensures
        r == has_sensitive_keyword(upper@),
{
    let u = to_chars(upper);
    let mut i: usize = 0;
    while i < 6
        invariant
            i <= 6,
            u@ == upper@,
            forall|j: int| 0 <= j < i ==> !contains(upper@, #[trigger] sensitive_keywords()[j]),
        decreases 6 - i,
    {
        let kw = keyword(i);
        if contains_chars(u.as_slice(), kw.as_slice()) {
            return true;
        }
        i = i + 1;
    }
    false
}

/// Whether `key` looks like it holds a sensitive value.
pub fn is_sensitive_key(key: &str) -> (r: bool)
    ensures
        r == is_sensitive(key@),
        is_ascii_text(key@) ==> r == has_sensitive_keyword(key@.map_values(|c: char| ascii_upper(c))),
{
    let upper = to_uppercase(key);
    contains_sensitive_keyword(upper.as_str())
}

/// How `value` is shown, given whether its key is sensitive.
pub fn redact_for(sensitive: bool, value: &str) -> (r: String)
    ensures
        sensitive && encode_utf8(value@).len() > 6 ==> r@ == shown_prefix(value@) + redacted_suffix(),
        sensitive && encode_utf8(value@).len() <= 6 ==> r@ == redacted_full(),
        !sensitive ==> r@ == value@,
{
    let cs = to_chars(value);
    if sensitive {
        if value.as_bytes().len() > 6 {
            let n: usize = if cs.len() >= 4 {
                4
            } else {
                cs.len()
            };
            let mut out = from_chars(slice(cs.as_slice(), 0, n).as_slice());
            push_str(&mut out, "...redacted");
            proof {
                reveal_strlit("...redacted");
                assert(value@.subrange(0, n as int) == shown_prefix(value@));
            }
            out
        } else {
            let r = lit("***redacted***");
            proof {
                reveal_strlit("***redacted***");
            }
            r
        }
    } else {
        owned(value)
    }
}

/// Redacts a value for display (the first four characters and a marker for
/// long sensitive values, only a marker for short ones).
pub fn redact_value(key: &str, value: &str) -> (r: String)
    ensures
        r@ == redacted(key@, value@),
        is_ascii_text(key@) ==> r@ == (if has_sensitive_keyword(key@.map_values(|c: char| ascii_upper(c))) {
            if encode_utf8(value@).len() > 6 {
                shown_prefix(value@) + redacted_suffix()
            } else {
                redacted_full()
            }
        } else {
            value@
        }),
{
    let sensitive = is_sensitive_key(key);
    redact_for(sensitive, value)
}


// ---------------------------------------------------------------------------
// The secrets.env file.
// ---------------------------------------------------------------------------

/// A `key=value` line of an env file: trimmed, with the key and the value
/// trimmed too. Empty lines, comments and lines without `=` give nothing.
pub open spec fn parse_env_line(line: Seq<char>) -> Option<(Seq<char>, Seq<char>)> {
    let t = trim(line);
    if t.len() == 0 || t[0] == '#' {
        None
    } else {
        match index_of(t, '=') {
            Some(i) => Some((trim(t.take(i)), trim(t.skip(i + 1)))),
            None => None,
        }
    }
}

/// The secrets that lines define: later lines win, empty values are skipped.
pub open spec fn secrets_of_lines(ls: Seq<Seq<char>>) -> Map<Seq<char>, Seq<char>>
    decreases ls.len(),
{
    if ls.len() == 0 {
        Map::empty()
    } else {
        let m = secrets_of_lines(ls.drop_last());
        match parse_env_line(ls.last()) {
            Some((k, v)) => if v.len() > 0 {
                m.insert(k, v)
            } else {
                m
            },
            None => m,
        }
    }
}

/// The secrets that a secrets.env file holds.
pub open spec fn parse_secrets(content: Seq<char>) -> Map<Seq<char>, Seq<char>> {
    secrets_of_lines(lines(content))
}

/// `key=value` lines for the entries, in order.
pub open spec fn render_entries(es: Seq<(Seq<char>, Seq<char>)>) -> Seq<char>
    decreases es.len(),
{
    if es.len() == 0 {
        seq![]
    } else {
        render_entries(es.drop_last()) + es.last().0 + seq!['='] + es.last().1 + seq!['\n']
    }
}

/// Parses one line of an env file.
pub fn parse_env_line_exec(line: &[char]) -> (r: Option<(Vec<char>, Vec<char>)>)
    ensures
        r matches Some((k, v)) ==> parse_env_line(line@) == Some((k@, v@)),
        r is None ==> parse_env_line(line@) is None,
{
    let t = trim_chars(line);
    if t.len() == 0 || t[0] == '#' {
        return None;
    }
    match index_of_char(t.as_slice(), '=') {
        Some(i) => {
            let k = trim_chars(slice(t.as_slice(), 0, i).as_slice());
            let v = trim_chars(slice(t.as_slice(), i + 1, t.len()).as_slice());
            assert(t@.subrange(0, i as int) == t@.take(i as int));
            assert(t@.subrange(i + 1, t@.len() as int) == t@.skip(i + 1));
            Some((k, v))
        },
        None => None,
    }
}

/// Private configuration held in the secrets.env file.
pub struct SecretsManager {
    values: StrMap<String>,
    path: String,
}

impl View for SecretsManager {
    type V = Map<Seq<char>, Seq<char>>;

    closed spec fn view(&self) -> Map<Seq<char>, Seq<char>> {
        self.values@.map_values(|v: String| v@)
    }
}

impl SecretsManager {
    /// The manager's internal consistency.
    pub closed spec fn wf(&self) -> bool {
        self.values.wf()
    }

    /// Where the file lives.
    pub closed spec fn path_view(&self) -> Seq<char> {
        self.path@
    }

    /// The entries in increasing key order, as written to the file.
    pub closed spec fn sorted_entries(&self) -> Seq<(Seq<char>, Seq<char>)> {
        self.values.entry_seq().map_values(|e: (Seq<char>, String)| (e.0, e.1@))
    }

    /// The sorted entries are exactly the secrets, in increasing key order.
    pub proof fn lemma_sorted_entries(&self)
        requires
            self.wf(),
        ensures
            forall|i: int, j: int|
                0 <= i < j < self.sorted_entries().len() ==> crate::strmap::seq_lt(
                    #[trigger] self.sorted_entries()[i].0,
                    #[trigger] self.sorted_entries()[j].0,
                ),
            forall|i: int|
                0 <= i < self.sorted_entries().len() ==> self@.contains_key(
                    #[trigger] self.sorted_entries()[i].0,
                ) && self@[self.sorted_entries()[i].0] == self.sorted_entries()[i].1,
            forall|k: Seq<char>|
                #[trigger] self@.contains_key(k) ==> exists|i: int|
                    0 <= i < self.sorted_entries().len() && self.sorted_entries()[i].0 == k,
            self.sorted_entries().len() == self@.dom().len(),
    {
        self.values.lemma_view();
        let es = self.sorted_entries();
        assert forall|i: int| 0 <= i < es.len() implies self@.contains_key(#[trigger] es[i].0)
            && self@[es[i].0] == es[i].1 by {
            assert(self.values.entry_seq()[i] == (
                self.values.sorted_keys()[i],
                self.values@[self.values.sorted_keys()[i]],
            ));
            assert(self.values.sorted_keys().contains(es[i].0));
        }
        assert forall|k: Seq<char>| #[trigger] self@.contains_key(k) implies exists|i: int|
            0 <= i < es.len() && es[i].0 == k by {
            assert(self.values.sorted_keys().contains(k));
            let i = choose|i: int|
                0 <= i < self.values.sorted_keys().len() && self.values.sorted_keys()[i] == k;
            assert(self.values.entry_seq()[i] == (
                self.values.sorted_keys()[i],
                self.values@[self.values.sorted_keys()[i]],
            ));
            assert(es[i].0 == k);
        }
        assert forall|i: int, j: int| 0 <= i < j < es.len() implies crate::strmap::seq_lt(
            #[trigger] es[i].0,
            #[trigger] es[j].0,
        ) by {
            assert(self.values.entry_seq()[i].0 == self.values.sorted_keys()[i]);
            assert(self.values.entry_seq()[j].0 == self.values.sorted_keys()[j]);
        }
        assert(self@.dom() == self.values@.dom());
    }

    /// Builds the manager for the file at `path` from the file's content.
    pub fn load(path: String, content: &str) -> (r: Self)
        ensures
            r.wf(),
            r@ == parse_secrets(content@),
            r.path_view() == path@,
    {
        let cs = to_chars(content);
        let ls = lines_of(cs.as_slice());
        let ghost lv = ls@.map_values(|v: Vec<char>| v@);
        let mut values: StrMap<String> = StrMap::new();
        let mut i: usize = 0;
        while i < ls.len()
            invariant
                i <= ls@.len(),
                lv == ls@.map_values(|v: Vec<char>| v@),
                lv == lines(content@),
                values.wf(),
                values@.map_values(|v: String| v@) == secrets_of_lines(lv.take(i as int)),
            decreases ls@.len() - i,
        {
            assert(lv.take(i + 1).drop_last() == lv.take(i as int));
            assert(lv[i as int] == ls@[i as int]@);
            match parse_env_line_exec(ls[i].as_slice()) {
                Some((k, v)) => {
                    if v.len() > 0 {
                        let ghost before = values@;
                        let ks = from_chars(k.as_slice());
                        let vs = from_chars(v.as_slice());
                        values.insert(ks, vs);
                        assert(values@.map_values(|v: String| v@) == before.map_values(
                            |v: String| v@,
                        ).insert(k@, v@));
                    }
                },
                None => {},
            }
            i = i + 1;
        }
        assert(lv.take(ls@.len() as int) == lv);
        SecretsManager { values, path }
    }

    /// The value of a secret.
    pub fn get(&self, key: &str) -> (r: Option<&str>)
        requires
            self.wf(),
        ensures
            r matches Some(v) ==> self@.contains_key(key@) && v@ == self@[key@],
            r is None ==> !self@.contains_key(key@),
    {
        match self.values.get(key) {
            Some(v) => Some(v.as_str()),
            None => None,
        }
    }

    /// Sets a secret. The file content to persist is then `render_file`.
    pub fn set(&mut self, key: &str, value: &str)
        requires
            old(self).wf(),
        ensures
            final(self).wf(),
            final(self)@ == old(self)@.insert(key@, value@),
            final(self).path_view() == old(self).path_view(),
    {
        let ghost before = self.values@;
        let k = owned(key);
        let v = owned(value);
        self.values.insert(k, v);
        assert(self.values@.map_values(|v: String| v@) == before.map_values(|v: String| v@).insert(
            key@,
            value@,
        ));
    }

    /// Removes a secret; true when it existed (and the file must then be
    /// rewritten with `render_file`).
    pub fn unset(&mut self, key: &str) -> (r: bool)
        requires
            old(self).wf(),
        ensures
            final(self).wf(),
            final(self)@ == old(self)@.remove(key@),
            r == old(self)@.contains_key(key@),
            final(self).path_view() == old(self).path_view(),
    {
        let ghost before = self.values@;
        let r = self.values.remove(key);
        assert(self.values@.map_values(|v: String| v@) == before.map_values(|v: String| v@).remove(
            key@,
        ));
        r.is_some()
    }

    /// All secrets with redacted values, in increasing key order.
    pub fn list_redacted(&self) -> (r: Vec<(String, String)>)
        requires
            self.wf(),
        ensures
            r@.len() == self.sorted_entries().len(),
            forall|i: int|
                0 <= i < r@.len() ==> (#[trigger] r@[i]).0@ == self.sorted_entries()[i].0
                    && r@[i].1@ == redacted(self.sorted_entries()[i].0, self.sorted_entries()[i].1),
    {
        proof {
            self.lemma_sorted_entries();
        }
        let n = self.values.count();
        let mut out: Vec<(String, String)> = Vec::new();
        let mut i: usize = 0;
        while i < n
            invariant
                self.wf(),
                n == self.sorted_entries().len(),
                i <= n,
                out@.len() == i,
                forall|j: int|
                    0 <= j < i ==> (#[trigger] out@[j]).0@ == self.sorted_entries()[j].0
                        && out@[j].1@ == redacted(self.sorted_entries()[j].0, self.sorted_entries()[j].1),
            decreases n - i,
        {
            let (k, v) = self.values.entry_at(i);
            let shown = redact_value(k.as_str(), v.as_str());
            out.push((k.clone(), shown));
            i = i + 1;
        }
        out
    }

    /// The content that the secrets file is written with: a header line, then
    /// one `key=value` line per secret in increasing key order.
    pub fn render_file(&self) -> (r: String)
        requires
            self.wf(),
        ensures
            r@ == "# minusbot secrets — DO NOT SHARE\n"@ + render_entries(self.sorted_entries()),
    {
        let mut out = lit("# minusbot secrets — DO NOT SHARE\n");
        let ghost head = out@;
        let n = self.values.count();
        let mut i: usize = 0;
        while i < n
            invariant
                self.wf(),
                n == self.sorted_entries().len(),
                i <= n,
                out@ == head + render_entries(self.sorted_entries().take(i as int)),
            decreases n - i,
        {
            let (k, v) = self.values.entry_at(i);
            push_str(&mut out, k.as_str());
            push_str(&mut out, "=");
            push_str(&mut out, v.as_str());
            push_str(&mut out, "\n");
            proof {
                reveal_strlit("=");
                reveal_strlit("\n");
                assert(self.sorted_entries().take(i + 1).drop_last() == self.sorted_entries().take(
                    i as int,
                ));
            }
            i = i + 1;
        }
        assert(self.sorted_entries().take(n as int) == self.sorted_entries());
        out
    }

    /// The path of the secrets file.
    pub fn path(&self) -> (r: &str)
        ensures
            r@ == self.path_view(),
    {
        self.path.as_str()
    }
}

} // verus!
