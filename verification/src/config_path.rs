//! Reading and writing the settings by dotted path (`agent.max_iterations`),
//! over the settings' TOML form given as its list of nodes.

use vstd::prelude::*;
use crate::text::{from_chars, i64_to_string, lit, owned, parse_i64, parse_i64_spec, signed_decimal, split, split_chars, str_eq, to_chars, views};

verus! {

broadcast use vstd::string::group_string_axioms;

/// The value at one node of the settings' TOML form. Floats, tables and
/// arrays are carried as the text that TOML shows for them.
#[derive(Clone, Debug)]
pub enum ConfigValue {
    Text(String),
    Flag(bool),
    Integer(i64),
    Float(String),
    Table(String),
    Other(String),
}

/// One node of the settings' TOML form: the keys that lead to it from the
/// top-level table, and its value.
pub struct ConfigNode {
    pub keys: Vec<String>,
    pub value: ConfigValue,
}

/// The keys of a node.
pub open spec fn node_keys(n: ConfigNode) -> Seq<Seq<char>> {
    views(n.keys@)
}

/// The value of the first node that `keys` lead to.
pub open spec fn find_node(nodes: Seq<ConfigNode>, keys: Seq<Seq<char>>) -> Option<ConfigValue>
    decreases nodes.len(),
{
    if nodes.len() == 0 {
        None
    } else if node_keys(nodes[0]) == keys {
        Some(nodes[0].value)
    } else {
        find_node(nodes.drop_first(), keys)
    }
}

/// The keys of a dotted path.
pub open spec fn path_keys(path: Seq<char>) -> Seq<Seq<char>> {
    split(path, '.')
}

/// How a value is shown: text as it is, booleans and integers in their usual
/// form, anything else as TOML shows it.
pub open spec fn shown(v: ConfigValue) -> Seq<char> {
    match v {
        ConfigValue::Text(s) => s@,
        ConfigValue::Flag(b) => if b {
            "true"@
        } else {
            "false"@
        },
        ConfigValue::Integer(i) => signed_decimal(i as int),
        ConfigValue::Float(t) => t@,
        ConfigValue::Table(t) => t@,
        ConfigValue::Other(t) => t@,
    }
}

/// What setting `path` to `value` does to the settings' TOML form.
pub enum ConfigChange {
    /// A table on the way to the path is missing.
    NotFound,
    /// The path's parent is not a table; nothing is set.
    NotTable,
    /// Store `value` under `keys`.
    Put { keys: Vec<String>, value: ConfigValue },
}

/// The value that replaces `existing` when `text` is set: a boolean stays a
/// boolean (`true` only for the text `true`), an integer stays an integer (0
/// for text that is not one), anything else becomes text.
pub open spec fn new_value_is(existing: Option<ConfigValue>, text: Seq<char>, v: ConfigValue) -> bool {
    match existing {
        Some(ConfigValue::Flag(_)) => v == ConfigValue::Flag(text == "true"@),
        Some(ConfigValue::Integer(_)) => v == ConfigValue::Integer(
            match parse_i64_spec(text) {
                Some(n) => n,
                None => 0,
            },
        ),
        _ => v matches ConfigValue::Text(s) && s@ == text,
    }
}

/// The keys of `path` as strings.
pub fn path_parts(path: &str) -> (r: Vec<String>)
    ensures
        views(r@) == path_keys(path@),
        r@.len() > 0,
{
    let cs = to_chars(path);
    let parts = split_chars(cs.as_slice(), '.');
    let mut out: Vec<String> = Vec::new();
    let mut i: usize = 0;
    while i < parts.len()
        invariant
            i <= parts@.len(),
            parts@.map_values(|v: Vec<char>| v@) == split(path@, '.'),
            views(out@) == split(path@, '.').take(i as int),
        decreases parts@.len() - i,
    {
        let s = from_chars(parts[i].as_slice());
        let ghost before = out@;
        out.push(s);
        assert(split(path@, '.')[i as int] == parts@[i as int]@);
        assert(views(out@) =~= views(before).push(s@));
        assert(split(path@, '.').take(i + 1) =~= split(path@, '.').take(i as int).push(s@));
        i = i + 1;
    }
    assert(split(path@, '.').take(parts@.len() as int) =~= split(path@, '.'));
    out
}

/// Whether two key lists are equal.
pub fn same_keys(a: &Vec<String>, b: &Vec<String>) -> (r: bool)
    ensures
        r == (views(a@) == views(b@)),
{
    if a.len() != b.len() {
        assert(views(a@).len() != views(b@).len());
        return false;
    }
    let mut i: usize = 0;
    while i < a.len()
        invariant
            a@.len() == b@.len(),
            i <= a@.len(),
            forall|j: int| 0 <= j < i ==> a@[j]@ == b@[j]@,
        decreases a@.len() - i,
    {
        if !str_eq(a[i].as_str(), b[i].as_str()) {
            assert(views(a@)[i as int] != views(b@)[i as int]);
            return false;
        }
        i = i + 1;
    }
    assert(views(a@) =~= views(b@));
    true
}

/// With no match among the first `i` nodes, the first match is found among
/// the rest.
pub proof fn lemma_find_skip(nodes: Seq<ConfigNode>, keys: Seq<Seq<char>>, i: int)
    requires
        0 <= i <= nodes.len(),
        forall|j: int| 0 <= j < i ==> node_keys(#[trigger] nodes[j]) != keys,
    ensures
        find_node(nodes, keys) == find_node(nodes.skip(i), keys),
    decreases i,
{
    if i > 0 {
        lemma_find_skip(nodes, keys, i - 1);
        let rest = nodes.skip(i - 1);
        assert(rest[0] == nodes[i - 1]);
        assert(rest.drop_first() =~= nodes.skip(i));
    } else {
        assert(nodes.skip(0) =~= nodes);
    }
}

/// The value of the first node that `keys` lead to.
pub fn find_value<'a>(nodes: &'a Vec<ConfigNode>, keys: &Vec<String>) -> (r: Option<&'a ConfigValue>)
    ensures
        match find_node(nodes@, views(keys@)) {
            Some(v) => r matches Some(x) && *x == v,
            None => r is None,
        },
{
    let mut i: usize = 0;
    while i < nodes.len()
        invariant
            i <= nodes@.len(),
            forall|j: int| 0 <= j < i ==> node_keys(#[trigger] nodes@[j]) != views(keys@),
        decreases nodes@.len() - i,
    {
        if same_keys(&nodes[i].keys, keys) {
            proof {
                lemma_find_skip(nodes@, views(keys@), i as int);
                assert(nodes@.skip(i as int)[0] == nodes@[i as int]);
            }
            return Some(&nodes[i].value);
        }
        i = i + 1;
    }
    proof {
        lemma_find_skip(nodes@, views(keys@), nodes@.len() as int);
    }
    None
}

/// How `v` is shown.
pub fn show_value(v: &ConfigValue) -> (r: String)
    ensures
        r@ == shown(*v),
{
    match v {
        ConfigValue::Text(s) => owned(s.as_str()),
        ConfigValue::Flag(b) => {
            if *b {
                let r = lit("true");
                proof {
                    reveal_strlit("true");
                }
                r
            } else {
                let r = lit("false");
                proof {
                    reveal_strlit("false");
                }
                r
            }
        },
        ConfigValue::Integer(i) => i64_to_string(*i),
        ConfigValue::Float(t) => owned(t.as_str()),
        ConfigValue::Table(t) => owned(t.as_str()),
        ConfigValue::Other(t) => owned(t.as_str()),
    }
}

/// The setting at a dotted path, shown as text; `None` when the path leads
/// nowhere.
pub fn config_get(nodes: &Vec<ConfigNode>, path: &str) -> (r: Option<String>)
    ensures
        match find_node(nodes@, path_keys(path@)) {
            Some(v) => r matches Some(s) && s@ == shown(v),
            None => r is None,
        },
{
    let keys = path_parts(path);
    match find_value(nodes, &keys) {
        Some(v) => Some(show_value(v)),
        None => None,
    }
}

/// What setting `path` to `value` changes: the path's parent must be a table
/// (the top-level table for a single key), and the new value keeps the type
/// of the one it replaces.
pub fn config_set(nodes: &Vec<ConfigNode>, path: &str, value: &str) -> (r: ConfigChange)
    ensures
        ({
            let keys = path_keys(path@);
            let parent = keys.drop_last();
            if parent.len() > 0 && find_node(nodes@, parent) is None {
                r is NotFound
            } else if parent.len() > 0 && !(find_node(nodes@, parent) matches Some(ConfigValue::Table(_))) {
                r is NotTable
            } else {
                r matches ConfigChange::Put { keys: k, value: v } && views(k@) == keys
                    && new_value_is(find_node(nodes@, keys), value@, v)
            }
        }),
{
    let keys = path_parts(path);
    let ghost ks = views(keys@);
    let mut parent: Vec<String> = Vec::new();
    let mut i: usize = 0;
    while i < keys.len() - 1
        invariant
            keys@.len() > 0,
            i + 1 <= keys@.len(),
            views(parent@) == views(keys@).take(i as int),
        decreases keys@.len() - i,
    {
        let ghost before = parent@;
        parent.push(keys[i].clone());
        assert(views(parent@) =~= views(before).push(keys@[i as int]@));
        assert(views(keys@).take(i + 1) =~= views(keys@).take(i as int).push(keys@[i as int]@));
        i = i + 1;
    }
    assert(views(parent@) =~= ks.drop_last());
    if parent.len() > 0 {
        match find_value(nodes, &parent) {
            None => {
                return ConfigChange::NotFound;
            },
            Some(ConfigValue::Table(_)) => {},
            Some(_) => {
                return ConfigChange::NotTable;
            },
        }
    }
    let new_value = match find_value(nodes, &keys) {
        Some(ConfigValue::Flag(_)) => {
            proof {
                reveal_strlit("true");
            }
            ConfigValue::Flag(str_eq(value, "true"))
        },
        Some(ConfigValue::Integer(_)) => {
            let cs = to_chars(value);
            match parse_i64(cs.as_slice()) {
                Some(n) => ConfigValue::Integer(n),
                None => ConfigValue::Integer(0),
            }
        },
        _ => ConfigValue::Text(owned(value)),
    };
    ConfigChange::Put { keys, value: new_value }
}

/// Two node lists that agree everywhere except at nodes that neither reach
/// through `k` give the same value for `k`.
pub proof fn lemma_find_same(a: Seq<ConfigNode>, b: Seq<ConfigNode>, k: Seq<Seq<char>>)
    requires
        a.len() == b.len(),
        forall|j: int| 0 <= j < a.len() ==> #[trigger] a[j] == b[j] || (node_keys(a[j]) != k && node_keys(b[j]) != k),
    ensures
        find_node(a, k) == find_node(b, k),
    decreases a.len(),
{
    if a.len() > 0 {
        assert forall|j: int| 0 <= j < a.drop_first().len() implies #[trigger] a.drop_first()[j] == b.drop_first()[j]
            || (node_keys(a.drop_first()[j]) != k && node_keys(b.drop_first()[j]) != k) by {
            assert(a.drop_first()[j] == a[j + 1]);
            assert(b.drop_first()[j] == b[j + 1]);
        }
        lemma_find_same(a.drop_first(), b.drop_first(), k);
        assert(a[0] == b[0] || (node_keys(a[0]) != k && node_keys(b[0]) != k));
    }
}

/// A node added at the end is found only where no earlier node is.
pub proof fn lemma_find_push(a: Seq<ConfigNode>, n: ConfigNode, k: Seq<Seq<char>>)
    ensures
        find_node(a.push(n), k) == (if find_node(a, k) is Some {
            find_node(a, k)
        } else if node_keys(n) == k {
            Some(n.value)
        } else {
            None
        }),
    decreases a.len(),
{
    if a.len() == 0 {
        assert(a.push(n).drop_first() =~= Seq::<ConfigNode>::empty());
        assert(find_node(a.push(n).drop_first(), k) is None);
        assert(a.push(n)[0] == n);
        assert(find_node(a, k) is None);
    } else {
        lemma_find_push(a.drop_first(), n, k);
        assert(a.push(n).drop_first() =~= a.drop_first().push(n));
        assert(a.push(n)[0] == a[0]);
        assert(a.push(n).len() > 0);
        if node_keys(a[0]) == k {
            assert(find_node(a, k) == Some(a[0].value));
        } else {
            assert(find_node(a, k) == find_node(a.drop_first(), k));
            assert(find_node(a.push(n), k) == find_node(a.push(n).drop_first(), k));
        }
    }
}

/// The position of the first node with `keys`, if any.
fn position(nodes: &Vec<ConfigNode>, keys: &Vec<String>) -> (r: Option<usize>)
    ensures
        r matches Some(i) ==> i < nodes@.len() && node_keys(nodes@[i as int]) == views(keys@),
        forall|j: int| 0 <= j < (match r { Some(i) => i as int, None => nodes@.len() as int }) ==> node_keys(
            #[trigger] nodes@[j],
        ) != views(keys@),
{
    let mut i: usize = 0;
    while i < nodes.len()
        invariant
            i <= nodes@.len(),
            forall|j: int| 0 <= j < i ==> node_keys(#[trigger] nodes@[j]) != views(keys@),
        decreases nodes@.len() - i,
    {
        if same_keys(&nodes[i].keys, keys) {
            return Some(i);
        }
        i = i + 1;
    }
    None
}

/// The nodes with `value` stored under `keys`: the first node with those keys
/// gets the new value, or a new node is added at the end. What `keys` read
/// is `value`; every other path reads as before.
pub fn config_apply(nodes: Vec<ConfigNode>, keys: Vec<String>, value: ConfigValue) -> (r: Vec<ConfigNode>)
    ensures
        find_node(r@, views(keys@)) == Some(value),
        forall|k: Seq<Seq<char>>| k != views(keys@) ==> #[trigger] find_node(r@, k) == find_node(nodes@, k),
{
    let ghost ks = views(keys@);
    let ghost orig = nodes@;
    let pos = position(&nodes, &keys);
    let mut out = nodes;
    let node = ConfigNode { keys, value };
    let ghost n = node;
    match pos {
        Some(i) => {
            out.set(i, node);
            proof {
                assert(node_keys(out@[i as int]) == ks);
                assert forall|j: int| 0 <= j < i implies node_keys(#[trigger] out@[j]) != ks by {
                    assert(out@[j] == orig[j]);
                }
                lemma_find_skip(out@, ks, i as int);
                assert(out@.skip(i as int)[0] == out@[i as int]);
                assert forall|k: Seq<Seq<char>>| k != ks implies #[trigger] find_node(out@, k) == find_node(orig, k) by {
                    assert forall|j: int| 0 <= j < out@.len() implies #[trigger] out@[j] == orig[j]
                        || (node_keys(out@[j]) != k && node_keys(orig[j]) != k) by {
                        if j != i {
                            assert(out@[j] == orig[j]);
                        }
                    }
                    lemma_find_same(out@, orig, k);
                }
            }
        },
        None => {
            proof {
                lemma_find_skip(orig, ks, orig.len() as int);
                assert(orig.skip(orig.len() as int) =~= Seq::<ConfigNode>::empty());
            }
            out.push(node);
            proof {
                assert forall|k: Seq<Seq<char>>| #[trigger] find_node(out@, k) == (if find_node(orig, k) is Some {
                    find_node(orig, k)
                } else if node_keys(n) == k {
                    Some(n.value)
                } else {
                    None
                }) by {
                    lemma_find_push(orig, n, k);
                }
            }
        },
    }
    out
}

} // verus!
