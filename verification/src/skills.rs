use vstd::prelude::*;
use crate::records::SkillRecord;
use crate::text::{
    chars_eq, contains, contains_chars, find, find_chars, from_chars, index_of, index_of_char, lines,
    lines_of, lit, lowercase, push_str, slice, split, split_chars, starts_with, starts_with_chars,
    str_contains, to_chars, to_lowercase, trim, trim_chars, views,
};

verus! {

broadcast use vstd::string::group_string_axioms;

/// Metadata from the front matter of a skill file.
#[derive(Debug, Clone)]
pub struct SkillMeta {
    pub id: String,
    pub name: String,
    pub description: Option<String>,
    pub tags: Vec<String>,
}

/// Why a skill file was refused.
#[derive(Debug, Clone)]
pub enum SkillError {
    NoFrontMatter,
    UnclosedFrontMatter,
    MissingId,
    MissingName,
}

/// The message shown for a refused skill file.
pub open spec fn skill_error_text(e: SkillError) -> Seq<char> {
    match e {
        SkillError::NoFrontMatter => "Skill file must start with YAML frontmatter (---)"@,
        SkillError::UnclosedFrontMatter => "Missing closing --- for frontmatter"@,
        SkillError::MissingId => "Skill frontmatter missing 'id'"@,
        SkillError::MissingName => "Skill frontmatter missing 'name'"@,
    }
}

impl SkillError {
    /// The message shown for the error.
    pub fn message(&self) -> (r: String)
        ensures
            r@ == skill_error_text(*self),
    {
        match self {
            SkillError::NoFrontMatter => lit("Skill file must start with YAML frontmatter (---)"),
            SkillError::UnclosedFrontMatter => lit("Missing closing --- for frontmatter"),
            SkillError::MissingId => lit("Skill frontmatter missing 'id'"),
            SkillError::MissingName => lit("Skill frontmatter missing 'name'"),
        }
    }
}

/// `s` without all its leading `c`.
pub open spec fn strip_leading(s: Seq<char>, c: char) -> Seq<char>
    decreases s.len(),
{
    if s.len() > 0 && s[0] == c {
        strip_leading(s.drop_first(), c)
    } else {
        s
    }
}

/// `s` without all its trailing `c`.
pub open spec fn strip_trailing(s: Seq<char>, c: char) -> Seq<char>
    decreases s.len(),
{
    if s.len() > 0 && s.last() == c {
        strip_trailing(s.drop_last(), c)
    } else {
        s
    }
}

/// The non-empty trimmed pieces of `ps`, in order.
pub open spec fn nonempty_trimmed(ps: Seq<Seq<char>>) -> Seq<Seq<char>>
    decreases ps.len(),
{
    if ps.len() == 0 {
        seq![]
    } else {
        let rest = nonempty_trimmed(ps.drop_last());
        if trim(ps.last()).len() > 0 {
            rest.push(trim(ps.last()))
        } else {
            rest
        }
    }
}

/// The tags of `[a, b, c]`: brackets stripped, split at commas, trimmed, empty
/// ones dropped.
pub open spec fn tag_list(val: Seq<char>) -> Seq<Seq<char>> {
    nonempty_trimmed(split(strip_trailing(strip_leading(val, '['), ']'), ','))
}

/// The fields read so far from the front matter.
pub struct MetaFields {
    pub id: Option<Seq<char>>,
    pub name: Option<Seq<char>>,
    pub description: Option<Seq<char>>,
    pub tags: Seq<Seq<char>>,
}

/// The fields of `key: value` lines; later lines win, other keys are ignored.
pub open spec fn meta_fields(ls: Seq<Seq<char>>) -> MetaFields
    decreases ls.len(),
{
    if ls.len() == 0 {
        MetaFields { id: None, name: None, description: None, tags: seq![] }
    } else {
        let f = meta_fields(ls.drop_last());
        let line = trim(ls.last());
        if line.len() == 0 {
            f
        } else {
            match index_of(line, ':') {
                None => f,
                Some(i) => {
                    let key = trim(line.take(i));
                    let val = trim(line.skip(i + 1));
                    if key == "id"@ {
                        MetaFields { id: Some(val), ..f }
                    } else if key == "name"@ {
                        MetaFields { name: Some(val), ..f }
                    } else if key == "description"@ {
                        MetaFields { description: Some(val), ..f }
                    } else if key == "tags"@ {
                        MetaFields { tags: tag_list(val), ..f }
                    } else {
                        f
                    }
                },
            }
        }
    }
}

/// The metadata is that of the fields.
pub open spec fn meta_is(m: SkillMeta, f: MetaFields) -> bool {
    &&& f.id == Some(m.id@)
    &&& f.name == Some(m.name@)
    &&& f.description == (match m.description {
        Some(d) => Some(d@),
        None => None::<Seq<char>>,
    })
    &&& f.tags == views(m.tags@)
}

fn strip_leading_exec(s: &[char], c: char) -> (r: Vec<char>)
    ensures
        r@ == strip_leading(s@, c),
{
    let mut i: usize = 0;
    assert(s@.skip(0) == s@);
    while i < s.len() && s[i] == c
        invariant
            i <= s@.len(),
            strip_leading(s@, c) == strip_leading(s@.skip(i as int), c),
        decreases s@.len() - i,
    {
        assert(s@.skip(i as int).drop_first() == s@.skip(i + 1));
        i = i + 1;
    }
    let r = slice(s, i, s.len());
    assert(r@ == s@.skip(i as int));
    r
}

fn strip_trailing_exec(s: &[char], c: char) -> (r: Vec<char>)
    ensures
        r@ == strip_trailing(s@, c),
{
    let mut k: usize = s.len();
    assert(s@.take(s@.len() as int) == s@);
    while k > 0 && s[k - 1] == c
        invariant
            k <= s@.len(),
            strip_trailing(s@, c) == strip_trailing(s@.take(k as int), c),
        decreases k,
    {
        assert(s@.take(k as int).drop_last() == s@.take(k - 1));
        k = k - 1;
    }
    let r = slice(s, 0, k);
    assert(r@ == s@.take(k as int));
    r
}

fn tags_exec(val: &[char]) -> (r: Vec<String>)
    ensures
        views(r@) == tag_list(val@),
{
    let a = strip_leading_exec(val, '[');
    let b = strip_trailing_exec(a.as_slice(), ']');
    let pieces = split_chars(b.as_slice(), ',');
    let ghost ps = pieces@.map_values(|v: Vec<char>| v@);
    let mut out: Vec<String> = Vec::new();
    let mut i: usize = 0;
    while i < pieces.len()
        invariant
            i <= pieces@.len(),
            ps == pieces@.map_values(|v: Vec<char>| v@),
            views(out@) == nonempty_trimmed(ps.take(i as int)),
        decreases pieces@.len() - i,
    {
        let t = trim_chars(pieces[i].as_slice());
        assert(ps.take(i + 1).drop_last() == ps.take(i as int));
        assert(ps[i as int] == pieces@[i as int]@);
        if t.len() > 0 {
            let ghost before = out@;
            out.push(from_chars(t.as_slice()));
            assert(views(out@) == views(before).push(t@));
        }
        i = i + 1;
    }
    assert(ps.take(pieces@.len() as int) == ps);
    out
}

fn word_is(s: &[char], w: &str) -> (r: bool)
    ensures
        r == (s@ == w@),
{
    let wc = to_chars(w);
    chars_eq(s, wc.as_slice())
}

/// Reads the `id`, `name`, `description` and `tags` fields of YAML front
/// matter, one `key: value` per line.
pub fn parse_yaml_meta(yaml: &str) -> (r: Result<SkillMeta, SkillError>)
    ensures
        meta_fields(lines(yaml@)).id is None ==> (r matches Err(SkillError::MissingId)),
        meta_fields(lines(yaml@)).id is Some && meta_fields(lines(yaml@)).name is None ==> (r matches Err(
            SkillError::MissingName,
        )),
        meta_fields(lines(yaml@)).id is Some && meta_fields(lines(yaml@)).name is Some ==> (r matches Ok(
            m,
        ) && meta_is(m, meta_fields(lines(yaml@)))),
{
    let cs = to_chars(yaml);
    let ls = lines_of(cs.as_slice());
    let ghost lv = ls@.map_values(|v: Vec<char>| v@);
    let mut id: Option<String> = None;
    let mut name: Option<String> = None;
    let mut description: Option<String> = None;
    let mut tags: Vec<String> = Vec::new();
    let mut i: usize = 0;
    while i < ls.len()
        invariant
            i <= ls@.len(),
            lv == ls@.map_values(|v: Vec<char>| v@),
            lv == lines(yaml@),
            meta_fields(lv.take(i as int)).id == (match id {
                Some(s) => Some(s@),
                None => None::<Seq<char>>,
            }),
            meta_fields(lv.take(i as int)).name == (match name {
                Some(s) => Some(s@),
                None => None::<Seq<char>>,
            }),
            meta_fields(lv.take(i as int)).description == (match description {
                Some(s) => Some(s@),
                None => None::<Seq<char>>,
            }),
            meta_fields(lv.take(i as int)).tags == views(tags@),
        decreases ls@.len() - i,
    {
        assert(lv.take(i + 1).drop_last() == lv.take(i as int));
        assert(lv[i as int] == ls@[i as int]@);
        let line = trim_chars(ls[i].as_slice());
        if line.len() > 0 {
            match index_of_char(line.as_slice(), ':') {
                None => {},
                Some(j) => {
                    let key = trim_chars(slice(line.as_slice(), 0, j).as_slice());
                    let val = trim_chars(slice(line.as_slice(), j + 1, line.len()).as_slice());
                    assert(line@.subrange(0, j as int) == line@.take(j as int));
                    assert(line@.subrange(j + 1, line@.len() as int) == line@.skip(j + 1));
                    if word_is(key.as_slice(), "id") {
                        id = Some(from_chars(val.as_slice()));
                    } else if word_is(key.as_slice(), "name") {
                        name = Some(from_chars(val.as_slice()));
                    } else if word_is(key.as_slice(), "description") {
                        description = Some(from_chars(val.as_slice()));
                    } else if word_is(key.as_slice(), "tags") {
                        tags = tags_exec(val.as_slice());
                    }
                },
            }
        }
        i = i + 1;
    }
    assert(lv.take(ls@.len() as int) == lv);
    match id {
        None => Err(SkillError::MissingId),
        Some(id) => match name {
            None => Err(SkillError::MissingName),
            Some(name) => Ok(SkillMeta { id, name, description, tags }),
        },
    }
}

/// A skill file's parts: the front matter between the first `---` and the next
/// one, and the trimmed body after it.
pub enum FrontMatter {
    Missing,
    Unclosed,
    Found(Seq<char>, Seq<char>),
}

/// Splits a skill file into its trimmed front matter and trimmed body.
pub open spec fn front_matter(content: Seq<char>) -> FrontMatter {
    let c = trim(content);
    if !starts_with(c, "---"@) {
        FrontMatter::Missing
    } else {
        let rest = c.skip(3);
        match find(rest, "---"@) {
            None => FrontMatter::Unclosed,
            Some(end) => FrontMatter::Found(trim(rest.take(end)), trim(rest.skip(end + 3))),
        }
    }
}

/// Splits a skill file into its trimmed front matter and trimmed body.
#[verifier::rlimit(40)]
pub fn split_front_matter(content: &str) -> (r: Result<(String, String), SkillError>)
    ensures
        front_matter(content@) is Missing ==> (r matches Err(SkillError::NoFrontMatter)),
        front_matter(content@) is Unclosed ==> (r matches Err(SkillError::UnclosedFrontMatter)),
        front_matter(content@) matches FrontMatter::Found(yaml, body) ==> (r matches Ok((y, b))
            && y@ == yaml && b@ == body),
{
    let cs = to_chars(content);
    let c = trim_chars(cs.as_slice());
    let dashes = to_chars("---");
    proof {
        reveal_strlit("---");
    }
    if !starts_with_chars(c.as_slice(), dashes.as_slice()) {
        return Err(SkillError::NoFrontMatter);
    }
    let rest = slice(c.as_slice(), 3, c.len());
    assert(rest@ == c@.skip(3));
    match find_chars(rest.as_slice(), dashes.as_slice()) {
        None => Err(SkillError::UnclosedFrontMatter),
        Some(end) => {
            assert(end + 3 <= rest@.len());
            let yaml = trim_chars(slice(rest.as_slice(), 0, end).as_slice());
            let body = trim_chars(slice(rest.as_slice(), end + 3, rest.len()).as_slice());
            assert(rest@.subrange(0, end as int) == rest@.take(end as int));
            assert(rest@.subrange(end + 3, rest@.len() as int) == rest@.skip(end + 3));
            Ok((from_chars(yaml.as_slice()), from_chars(body.as_slice())))
        },
    }
}

/// Parses the YAML front matter of a skill file, giving its metadata and its
/// body.
pub fn parse_skill_frontmatter(content: &str) -> (r: Result<(SkillMeta, String), SkillError>)
    ensures
        front_matter(content@) is Missing ==> (r matches Err(SkillError::NoFrontMatter)),
        front_matter(content@) is Unclosed ==> (r matches Err(SkillError::UnclosedFrontMatter)),
        front_matter(content@) matches FrontMatter::Found(yaml, body) ==> ({
            let f = meta_fields(lines(yaml));
            &&& f.id is None ==> (r matches Err(SkillError::MissingId))
            &&& f.id is Some && f.name is None ==> (r matches Err(SkillError::MissingName))
            &&& f.id is Some && f.name is Some ==> (r matches Ok((m, b)) && meta_is(m, f) && b@ == body)
        }),
{
    match split_front_matter(content) {
        Err(e) => Err(e),
        Ok((yaml, body)) => match parse_yaml_meta(yaml.as_str()) {
            Ok(m) => Ok((m, body)),
            Err(e) => Err(e),
        },
    }
}

/// A skill matches a lower-cased query when its lower-cased name, description
/// or one of its tags contains it.
pub open spec fn skill_matches(m: SkillMeta, query_lower: Seq<char>) -> bool {
    ||| contains(lowercase(m.name@), query_lower)
    ||| (m.description matches Some(d) && contains(lowercase(d@), query_lower))
    ||| exists|i: int| 0 <= i < m.tags@.len() && contains(lowercase(#[trigger] m.tags@[i]@), query_lower)
}

/// Whether a skill matches a lower-cased query.
pub fn matches_query(m: &SkillMeta, query_lower: &str) -> (r: bool)
    ensures
        r == skill_matches(*m, query_lower@),
{
    let n = to_lowercase(m.name.as_str());
    if str_contains(n.as_str(), query_lower) {
        return true;
    }
    match &m.description {
        Some(d) => {
            let dl = to_lowercase(d.as_str());
            if str_contains(dl.as_str(), query_lower) {
                return true;
            }
        },
        None => {},
    }
    let mut i: usize = 0;
    while i < m.tags.len()
        invariant
            i <= m.tags@.len(),
            forall|j: int| 0 <= j < i ==> !contains(lowercase(#[trigger] m.tags@[j]@), query_lower@),
        decreases m.tags@.len() - i,
    {
        let tl = to_lowercase(m.tags[i].as_str());
        if str_contains(tl.as_str(), query_lower) {
            return true;
        }
        i = i + 1;
    }
    false
}

/// The skills of `all` that match `query` (case-insensitively), in order.
pub fn search_skills(all: Vec<SkillMeta>, query: &str) -> (r: Vec<SkillMeta>)
    ensures
        r@ == all@.filter(|m: SkillMeta| skill_matches(m, lowercase(query@))),
{
    let q = to_lowercase(query);
    let ghost orig = all@;
    let ghost pred = |m: SkillMeta| skill_matches(m, lowercase(query@));
    let mut rest = all;
    let mut out: Vec<SkillMeta> = Vec::new();
    let ghost mut i: int = 0;
    while rest.len() > 0
        invariant
            0 <= i <= orig.len(),
            rest@ == orig.skip(i as int),
            q@ == lowercase(query@),
            pred == (|m: SkillMeta| skill_matches(m, lowercase(query@))),
            out@ == orig.take(i as int).filter(pred),
        decreases rest@.len(),
    {
        let m = rest.remove(0);
        assert(m == orig[i as int]);
        assert(orig.take(i + 1).drop_last() == orig.take(i as int));
        assert(orig.take(i + 1).last() == m);
        reveal_with_fuel(Seq::<_>::filter, 1);
        if matches_query(&m, q.as_str()) {
            out.push(m);
        }
        proof {
            i = i + 1;
        }
        assert(rest@ == orig.skip(i as int));
    }
    assert(orig.take(i as int) == orig);
    out
}


/// The reply after loading a skill into a chat.
pub fn loaded_reply(skill_name: &str) -> (r: String)
    ensures
        r@ == "Loaded skill \""@ + skill_name@ + "\""@,
{
    crate::builtin::concat3("Loaded skill \"", skill_name, "\"")
}

/// The reply after unloading a skill from a chat: whether it was loaded decides.
pub fn unloaded_reply(skill_name: &str, removed: bool) -> (r: String)
    ensures
        removed ==> r@ == "Unloaded skill \""@ + skill_name@ + "\""@,
        !removed ==> r@ == "Skill \""@ + skill_name@ + "\" was not loaded for this chat"@,
{
    if removed {
        crate::builtin::concat3("Unloaded skill \"", skill_name, "\"")
    } else {
        crate::builtin::concat3("Skill \"", skill_name, "\" was not loaded for this chat")
    }
}

/// The error for a skill name that is not indexed.
pub fn skill_not_found(skill_name: &str) -> (r: String)
    ensures
        r@ == "Skill '"@ + skill_name@ + "' not found"@,
{
    crate::builtin::concat3("Skill '", skill_name, "' not found")
}

/// The strings of a JSON list of strings, as `serde_json` reads it; `None`
/// when the text is not such a list.
pub uninterp spec fn json_string_list(text: Seq<char>) -> Option<Seq<Seq<char>>>;

/// `serde_json::from_str::<Vec<String>>`, with `None` for its error.
#[verifier::external_body]
fn parse_string_list(text: &str) -> (r: Option<Vec<String>>)
    ensures
        match r {
            Some(v) => json_string_list(text@) == Some(views(v@)),
            None => json_string_list(text@) is None,
        },
{
    serde_json::from_str::<Vec<String>>(text).ok()
}

/// The JSON text `serde_json` writes for a list of strings.
pub uninterp spec fn json_of_strings(items: Seq<Seq<char>>) -> Seq<char>;

/// `serde_json::to_string` of a list of strings. It writes each string into a
/// `Vec<u8>`, which does not fail, so the default never stands in for it.
#[verifier::external_body]
fn write_string_list(items: &Vec<String>) -> (r: String)
    ensures
        r@ == json_of_strings(views(items@)),
{
    serde_json::to_string(items).unwrap_or_default()
}

/// The tags kept with an indexed skill: the JSON list it was stored with,
/// none when there is none or it does not read as a list of strings.
pub open spec fn record_tags(tags_json: Option<String>) -> Seq<Seq<char>> {
    match tags_json {
        Some(t) => match json_string_list(t@) {
            Some(ts) => ts,
            None => seq![],
        },
        None => seq![],
    }
}

/// The metadata listed for an indexed skill.
pub fn skill_meta_of(r: SkillRecord) -> (m: SkillMeta)
    ensures
        m.id == r.id,
        m.name == r.name,
        m.description == r.description,
        views(m.tags@) == record_tags(r.tags_json),
{
    let tags = match &r.tags_json {
        Some(t) => match parse_string_list(t.as_str()) {
            Some(v) => v,
            None => Vec::new(),
        },
        None => Vec::new(),
    };
    proof {
        if views(tags@).len() == 0 {
            assert(views(tags@) =~= seq![]);
        }
    }
    SkillMeta { id: r.id, name: r.name, description: r.description, tags }
}

/// The metadata of every indexed skill, in the records' order.
pub fn list_skills(records: Vec<SkillRecord>) -> (r: Vec<SkillMeta>)
    ensures
        r@.len() == records@.len(),
        forall|i: int| 0 <= i < records@.len() ==> {
            let (m, rec) = (#[trigger] r@[i], records@[i]);
            &&& m.id == rec.id
            &&& m.name == rec.name
            &&& m.description == rec.description
            &&& views(m.tags@) == record_tags(rec.tags_json)
        },
{
    let ghost orig = records@;
    let mut rest = records;
    let mut out: Vec<SkillMeta> = Vec::new();
    while rest.len() > 0
        invariant
            out@.len() + rest@.len() == orig.len(),
            rest@ == orig.skip(out@.len() as int),
            forall|i: int| 0 <= i < out@.len() ==> {
                let (m, rec) = (#[trigger] out@[i], orig[i]);
                &&& m.id == rec.id
                &&& m.name == rec.name
                &&& m.description == rec.description
                &&& views(m.tags@) == record_tags(rec.tags_json)
            },
        decreases rest@.len(),
    {
        let rec = rest.remove(0);
        assert(rec == orig[out@.len() as int]);
        let m = skill_meta_of(rec);
        out.push(m);
        assert(rest@ =~= orig.skip(out@.len() as int));
    }
    out
}

/// The contents of the skills loaded for a chat, in the records' order.
pub fn loaded_content(records: Vec<SkillRecord>) -> (r: Vec<String>)
    ensures
        r@ == records@.map_values(|rec: SkillRecord| rec.content),
{
    let ghost orig = records@;
    let mut rest = records;
    let mut out: Vec<String> = Vec::new();
    while rest.len() > 0
        invariant
            out@.len() + rest@.len() == orig.len(),
            rest@ == orig.skip(out@.len() as int),
            out@ == orig.take(out@.len() as int).map_values(|rec: SkillRecord| rec.content),
        decreases rest@.len(),
    {
        let ghost n = out@.len() as int;
        let rec = rest.remove(0);
        assert(rec == orig[n]);
        out.push(rec.content);
        assert(orig.take(n + 1).map_values(|rec: SkillRecord| rec.content) =~= orig.take(n).map_values(
            |rec: SkillRecord| rec.content,
        ).push(orig[n].content));
        assert(rest@ =~= orig.skip(n + 1));
    }
    assert(orig.take(orig.len() as int) =~= orig);
    out
}

/// What indexing a skill file stores: its metadata, its body and its tags as
/// a JSON list.
pub fn index_skill(content: &str) -> (r: Result<(SkillMeta, String, String), SkillError>)
    ensures
        front_matter(content@) is Missing ==> (r matches Err(SkillError::NoFrontMatter)),
        front_matter(content@) is Unclosed ==> (r matches Err(SkillError::UnclosedFrontMatter)),
        front_matter(content@) matches FrontMatter::Found(yaml, body) ==> ({
            let f = meta_fields(lines(yaml));
            &&& f.id is None ==> (r matches Err(SkillError::MissingId))
            &&& f.id is Some && f.name is None ==> (r matches Err(SkillError::MissingName))
            &&& f.id is Some && f.name is Some ==> (r matches Ok((m, b, t)) && meta_is(m, f)
                && b@ == body && t@ == json_of_strings(views(m.tags@)))
        }),
{
    match parse_skill_frontmatter(content) {
        Err(e) => Err(e),
        Ok((meta, body)) => {
            let tags = write_string_list(&meta.tags);
            Ok((meta, body, tags))
        },
    }
}

} // verus!
