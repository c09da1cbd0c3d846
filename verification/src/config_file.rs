//! Configuration kept in a TOML file per component: which keys it has and
//! what value each reads as. The runtime reads and writes the file.

use vstd::prelude::*;
use crate::text::{lit, owned, str_eq, to_chars, views};

verus! {

broadcast use vstd::string::group_string_axioms;

/// The top-level entries of a TOML document, each value written as the `toml`
/// crate writes a value; `None` when the text is not TOML.
pub uninterp spec fn toml_entries(content: Seq<char>) -> Option<Seq<(Seq<char>, Seq<char>)>>;

/// `toml::from_str::<toml::Value>`, then the entries of the top-level table,
/// each value written with `to_string`.
#[verifier::external_body]
fn read_toml_entries(content: &str) -> (r: Option<Vec<(String, String)>>)
    ensures
        match r {
            Some(v) => toml_entries(content@) == Some(entry_views(v@)),
            None => toml_entries(content@) is None,
        },
{
    let value = match toml::from_str::<toml::Value>(content) {
        Ok(v) => v,
        Err(_) => return None,
    };
    value.as_table().map(|t| t.iter().map(|(k, v)| (k.clone(), v.to_string())).collect())
}

/// The string that a TOML document holds at the path of table keys `keys`;
/// `None` when the text is not TOML or the path does not lead to a string.
pub uninterp spec fn toml_string_at(content: Seq<char>, keys: Seq<Seq<char>>) -> Option<Seq<char>>;

/// `toml::from_str::<toml::Value>`, then `get` for each key in turn and
/// `as_str` at the end: the string the document holds at that path.
#[verifier::external_body]
fn toml_string_lookup(content: &str, keys: &Vec<String>) -> (r: Option<String>)
    ensures
        match r {
            Some(s) => toml_string_at(content@, views(keys@)) == Some(s@),
            None => toml_string_at(content@, views(keys@)) is None,
        },
{
    let value = toml::from_str::<toml::Value>(content).ok()?;
    let mut current = &value;
    for k in keys {
        current = current.get(k.as_str())?;
    }
    current.as_str().map(String::from)
}

/// The text that `toml::to_string_pretty` writes for the TOML document
/// `content` with `key` set to the string `value` in its top-level table;
/// `None` when the text is not TOML or cannot be written back.
pub uninterp spec fn toml_with_string(content: Seq<char>, key: Seq<char>, value: Seq<char>) -> Option<Seq<char>>;

/// `toml::from_str::<toml::Value>`, `insert` of `key` as a string into the
/// top-level table, then `toml::to_string_pretty`. A parsed TOML document is
/// always a table.
#[verifier::external_body]
fn toml_set_string(content: &str, key: &str, value: &str) -> (r: Option<String>)
    ensures
        match r {
            Some(s) => toml_with_string(content@, key@, value@) == Some(s@),
            None => toml_with_string(content@, key@, value@) is None,
        },
{
    let mut doc = toml::from_str::<toml::Value>(content).ok()?;
    doc.as_table_mut()?.insert(key.to_string(), toml::Value::String(value.to_string()));
    toml::to_string_pretty(&doc).ok()
}

/// The provider that the settings text names and its text model
/// (`provider.default`, `provider.text_model`); none without settings text.
pub fn configured_provider(config_text: Option<&str>) -> (r: (Option<String>, Option<String>))
    ensures
        match config_text {
            Some(t) => (match r.0 {
                Some(s) => toml_string_at(t@, seq!["provider"@, "default"@]) == Some(s@),
                None => toml_string_at(t@, seq!["provider"@, "default"@]) is None,
            }) && (match r.1 {
                Some(s) => toml_string_at(t@, seq!["provider"@, "text_model"@]) == Some(s@),
                None => toml_string_at(t@, seq!["provider"@, "text_model"@]) is None,
            }),
            None => r.0 is None && r.1 is None,
        },
{
    match config_text {
        Some(t) => {
            let mut default_keys: Vec<String> = Vec::new();
            default_keys.push(lit("provider"));
            default_keys.push(lit("default"));
            let mut model_keys: Vec<String> = Vec::new();
            model_keys.push(lit("provider"));
            model_keys.push(lit("text_model"));
            assert(views(default_keys@) =~= seq!["provider"@, "default"@]);
            assert(views(model_keys@) =~= seq!["provider"@, "text_model"@]);
            (toml_string_lookup(t, &default_keys), toml_string_lookup(t, &model_keys))
        },
        None => (None, None),
    }
}

/// The text model that a provider's settings text names (`text_model`); none
/// without settings text.
pub fn provider_text_model(provider_text: Option<&str>) -> (r: Option<String>)
    ensures
        match provider_text {
            Some(t) => match r {
                Some(s) => toml_string_at(t@, seq!["text_model"@]) == Some(s@),
                None => toml_string_at(t@, seq!["text_model"@]) is None,
            },
            None => r is None,
        },
{
    match provider_text {
        Some(t) => {
            let mut keys: Vec<String> = Vec::new();
            keys.push(lit("text_model"));
            assert(views(keys@) =~= seq!["text_model"@]);
            toml_string_lookup(t, &keys)
        },
        None => None,
    }
}

/// The entries' keys and values as text.
pub open spec fn entry_views(es: Seq<(String, String)>) -> Seq<(Seq<char>, Seq<char>)> {
    es.map_values(|e: (String, String)| (e.0@, e.1@))
}

/// The keys of the entries, in order.
pub open spec fn entry_keys(es: Seq<(Seq<char>, Seq<char>)>) -> Seq<Seq<char>> {
    es.map_values(|e: (Seq<char>, Seq<char>)| e.0)
}

/// `s` without the `c` characters at its start.
pub open spec fn strip_leading(s: Seq<char>, c: char) -> Seq<char>
    decreases s.len(),
{
    if s.len() > 0 && s[0] == c {
        strip_leading(s.drop_first(), c)
    } else {
        s
    }
}

/// `s` without the `c` characters at its end.
pub open spec fn strip_trailing(s: Seq<char>, c: char) -> Seq<char>
    decreases s.len(),
{
    if s.len() > 0 && s.last() == c {
        strip_trailing(s.drop_last(), c)
    } else {
        s
    }
}

/// `s` without the `c` characters at either end (`str::trim_matches`).
pub open spec fn trim_char(s: Seq<char>, c: char) -> Seq<char> {
    strip_trailing(strip_leading(s, c), c)
}

/// `s` without the `c` characters at either end.
pub fn trim_matches_char(s: &str, c: char) -> (r: String)
    ensures
        r@ == trim_char(s@, c),
{
    let cs = to_chars(s);
    let mut a: usize = 0;
    assert(cs@.skip(0) =~= cs@);
    while a < cs.len() && cs[a] == c
        invariant
            a <= cs@.len(),
            strip_leading(cs@, c) == strip_leading(cs@.skip(a as int), c),
        decreases cs@.len() - a,
    {
        assert(cs@.skip(a as int).drop_first() =~= cs@.skip(a + 1));
        a = a + 1;
    }
    let ghost lead = cs@.skip(a as int);
    assert(strip_leading(cs@, c) == lead);
    let mut b: usize = cs.len();
    while b > a && cs[b - 1] == c
        invariant
            a <= b <= cs@.len(),
            lead == cs@.skip(a as int),
            strip_trailing(lead, c) == strip_trailing(cs@.subrange(a as int, b as int), c),
        decreases b - a,
    {
        assert(cs@.subrange(a as int, b as int).drop_last() =~= cs@.subrange(a as int, b - 1));
        b = b - 1;
    }
    assert(lead =~= cs@.subrange(a as int, cs@.len() as int));
    let out = crate::text::slice(cs.as_slice(), a, b);
    crate::text::from_chars(out.as_slice())
}

/// The keys of a configuration file, when it is TOML; none otherwise.
pub open spec fn file_keys(content: Option<Seq<char>>) -> Seq<Seq<char>> {
    match content {
        Some(c) => match toml_entries(c) {
            Some(es) => entry_keys(es),
            None => seq![],
        },
        None => seq![],
    }
}

/// The first entry of `es` for `key`.
pub open spec fn entry_for(es: Seq<(Seq<char>, Seq<char>)>, key: Seq<char>) -> Option<Seq<char>>
    decreases es.len(),
{
    if es.len() == 0 {
        None
    } else if es[0].0 == key {
        Some(es[0].1)
    } else {
        entry_for(es.drop_first(), key)
    }
}

/// What `key` reads as in a configuration file: its value as TOML writes it,
/// without the double quotes around a string.
pub open spec fn file_value(content: Option<Seq<char>>, key: Seq<char>) -> Option<Seq<char>> {
    match content {
        Some(c) => match toml_entries(c) {
            Some(es) => match entry_for(es, key) {
                Some(v) => Some(trim_char(v, '"')),
                None => None,
            },
            None => None,
        },
        None => None,
    }
}

/// The configuration of a component, read from the text its store holds.
pub trait ConfigProvider {
    /// The component the configuration belongs to.
    fn id(&self) -> String;

    /// The keys the stored text holds (`None` when nothing is stored).
    fn list_keys(&self, content: Option<&str>) -> Vec<String>;

    /// What `key` reads as in the stored text (`None` when nothing is stored).
    fn read_config(&self, content: Option<&str>, key: &str) -> Option<String>;
}

/// The configuration of one component, kept in a TOML file.
pub struct FileConfigProvider {
    pub id: String,
    pub path: String,
}

impl FileConfigProvider {
    /// The configuration of component `id` in the file at `path`.
    pub fn new(id: &str, path: &str) -> (r: Self)
        ensures
            r.id@ == id@,
            r.path@ == path@,
    {
        FileConfigProvider { id: owned(id), path: owned(path) }
    }

    /// The text the file holds after `key` is set to the string `value`,
    /// from the text it holds now (empty when there is no file); `None` when
    /// that text is not TOML or cannot be written back.
    pub fn set_config_text(&self, content: Option<&str>, key: &str, value: &str) -> (r: Option<String>)
        ensures
            match r {
                Some(s) => toml_with_string(
                    match content {
                        Some(c) => c@,
                        None => ""@,
                    },
                    key@,
                    value@,
                ) == Some(s@),
                None => toml_with_string(
                    match content {
                        Some(c) => c@,
                        None => ""@,
                    },
                    key@,
                    value@,
                ) is None,
            },
    {
        match content {
            Some(c) => toml_set_string(c, key, value),
            None => toml_set_string("", key, value),
        }
    }

}

impl ConfigProvider for FileConfigProvider {
    fn id(&self) -> (r: String)
        ensures
            r@ == self.id@,
    {
        self.id.clone()
    }

    /// The keys the file's text holds (`None` when there is no file).
    fn list_keys(&self, content: Option<&str>) -> (r: Vec<String>)
        ensures
            views(r@) == file_keys(
                match content {
                    Some(c) => Some(c@),
                    None => None,
                },
            ),
    {
        match content {
            Some(c) => match read_toml_entries(c) {
                Some(es) => {
                    let mut out: Vec<String> = Vec::new();
                    let mut i: usize = 0;
                    while i < es.len()
                        invariant
                            i <= es@.len(),
                            views(out@) == entry_keys(entry_views(es@)).take(i as int),
                        decreases es@.len() - i,
                    {
                        let ghost before = out@;
                        out.push(es[i].0.clone());
                        assert(views(out@) =~= views(before).push(es@[i as int].0@));
                        assert(entry_keys(entry_views(es@)).take(i + 1) =~= entry_keys(entry_views(es@)).take(i as int).push(es@[i as int].0@));
                        i = i + 1;
                    }
                    assert(entry_keys(entry_views(es@)).take(es@.len() as int) =~= entry_keys(entry_views(es@)));
                    out
                },
                None => Vec::new(),
            },
            None => Vec::new(),
        }
    }

    /// What `key` reads as in the file's text (`None` when there is no file).
    fn read_config(&self, content: Option<&str>, key: &str) -> (r: Option<String>)
        ensures
            match r {
                Some(v) => file_value(
                    match content {
                        Some(c) => Some(c@),
                        None => None,
                    },
                    key@,
                ) == Some(v@),
                None => file_value(
                    match content {
                        Some(c) => Some(c@),
                        None => None,
                    },
                    key@,
                ) is None,
            },
    {
        let c = match content {
            Some(c) => c,
            None => {
                return None;
            },
        };
        let es = match read_toml_entries(c) {
            Some(es) => es,
            None => {
                return None;
            },
        };
        let ghost ev = entry_views(es@);
        let mut i: usize = 0;
        assert(ev.skip(0) =~= ev);
        while i < es.len()
            invariant
                i <= es@.len(),
                ev == entry_views(es@),
                toml_entries(c@) == Some(ev),
                content == Some(c),
                entry_for(ev, key@) == entry_for(ev.skip(i as int), key@),
            decreases es@.len() - i,
        {
            assert(ev.skip(i as int)[0] == (es@[i as int].0@, es@[i as int].1@));
            if str_eq(es[i].0.as_str(), key) {
                assert(entry_for(ev.skip(i as int), key@) == Some(es@[i as int].1@));
                let res = trim_matches_char(es[i].1.as_str(), '"');
                assert(file_value(Some(c@), key@) == Some(res@));
                return Some(res);
            }
            assert(ev.skip(i as int).drop_first() =~= ev.skip(i + 1));
            i = i + 1;
        }
        assert(ev.skip(es@.len() as int) =~= Seq::<(Seq<char>, Seq<char>)>::empty());
        None
    }
}

} // verus!
