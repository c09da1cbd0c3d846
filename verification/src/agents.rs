//! The utility agents defined as Markdown files: how a file becomes an agent,
//! and the registry of the agents found.

use vstd::prelude::*;
use crate::strmap::StrMap;
use crate::text::{
    from_chars, join, lines, lines_of, owned, starts_with, starts_with_chars, to_chars, trim,
    trim_chars, views,
};
use crate::types::AgentDefinition;

verus! {

broadcast use vstd::string::group_string_axioms;

/// The name and the prompt lines of an agent file, line by line: a line that
/// starts with `# ` names the agent (the last such line wins), every other
/// line belongs to the prompt.
pub open spec fn agent_parts(ls: Seq<Seq<char>>, default_name: Seq<char>) -> (Seq<char>, Seq<Seq<char>>)
    decreases ls.len(),
{
    if ls.len() == 0 {
        (default_name, seq![])
    } else {
        let (name, prompt) = agent_parts(ls.drop_last(), default_name);
        let l = ls.last();
        if starts_with(l, "# "@) {
            (trim(l.skip(2)), prompt)
        } else {
            (name, prompt.push(l))
        }
    }
}

/// The agent that the file `id.md` with text `content` defines: named by its
/// heading line, or by its id; its prompt is the other lines, joined and trimmed.
pub open spec fn agent_from(id: Seq<char>, content: Seq<char>) -> (Seq<char>, Seq<char>) {
    let (name, prompt) = agent_parts(lines(content), id);
    (name, trim(join(prompt, "\n"@)))
}

/// The agent that the file `id.md` with text `content` defines.
pub fn parse_agent_file(id: &str, content: &str) -> (r: AgentDefinition)
    ensures
        r.id@ == id@,
        r.name@ == agent_from(id@, content@).0,
        r.system_prompt@ == agent_from(id@, content@).1,
{
    let cs = to_chars(content);
    let ls = lines_of(cs.as_slice());
    let ghost lv = ls@.map_values(|v: Vec<char>| v@);
    let hash = to_chars("# ");
    proof {
        reveal_strlit("# ");
    }
    let mut name: Vec<char> = to_chars(id);
    let mut prompt: Vec<String> = Vec::new();
    let mut i: usize = 0;
    while i < ls.len()
        invariant
            i <= ls@.len(),
            lv == ls@.map_values(|v: Vec<char>| v@),
            lv == lines(content@),
            hash@ == "# "@,
            hash@.len() == 2,
            (name@, views(prompt@)) == agent_parts(lv.take(i as int), id@),
        decreases ls@.len() - i,
    {
        assert(lv.take(i + 1).drop_last() =~= lv.take(i as int));
        assert(lv.take(i + 1).last() == ls@[i as int]@);
        let l = &ls[i];
        if starts_with_chars(l.as_slice(), hash.as_slice()) {
            let rest = crate::text::slice(l.as_slice(), 2, l.len());
            assert(l@.subrange(2, l@.len() as int) =~= l@.skip(2));
            name = trim_chars(rest.as_slice());
        } else {
            let ghost before = prompt@;
            prompt.push(from_chars(l.as_slice()));
            assert(views(prompt@) =~= views(before).push(l@));
        }
        i = i + 1;
    }
    assert(lv.take(ls@.len() as int) =~= lv);
    assert(prompt@.map_values(|p: String| p@) =~= views(prompt@));
    let joined = crate::text::join_strings(&prompt, "\n");
    AgentDefinition {
        id: owned(id),
        name: from_chars(name.as_slice()),
        system_prompt: crate::text::trim_str(joined.as_str()),
    }
}

/// The definitions by id, a later one replacing an earlier one with the same
/// id.
pub open spec fn agents_by_id(ds: Seq<AgentDefinition>) -> Map<Seq<char>, AgentDefinition>
    decreases ds.len(),
{
    if ds.len() == 0 {
        Map::empty()
    } else {
        agents_by_id(ds.drop_last()).insert(ds.last().id@, ds.last())
    }
}

/// The agents found, by id.
pub struct AgentRegistry {
    agents: StrMap<AgentDefinition>,
}

impl AgentRegistry {
    /// The agents by id.
    pub closed spec fn agents_view(&self) -> Map<Seq<char>, AgentDefinition> {
        self.agents@
    }

    /// The registry keeps its entries sorted.
    pub closed spec fn wf(&self) -> bool {
        self.agents.wf()
    }

    /// The ids, in increasing order.
    pub closed spec fn ids(&self) -> Seq<Seq<char>> {
        self.agents.sorted_keys()
    }

    /// No agents.
    pub fn new() -> (r: Self)
        ensures
            r.wf(),
            r.agents_view() == Map::<Seq<char>, AgentDefinition>::empty(),
    {
        AgentRegistry { agents: StrMap::new() }
    }

    /// Replaces the agents by those of a scan, each under its id; a later
    /// definition with the same id replaces an earlier one.
    pub fn replace_all(&mut self, found: Vec<AgentDefinition>)
        ensures
            final(self).wf(),
            final(self).agents_view() == agents_by_id(found@),
    {
        let mut m: StrMap<AgentDefinition> = StrMap::new();
        let ghost all = found@;
        let mut rest = found;
        let mut n: usize = 0;
        let total = rest.len();
        assert(agents_by_id(all.take(0)) =~= Map::<Seq<char>, AgentDefinition>::empty());
        while rest.len() > 0
            invariant
                total == all.len(),
                n <= all.len(),
                rest@ == all.skip(n as int),
                m.wf(),
                m@ == agents_by_id(all.take(n as int)),
            decreases rest@.len(),
        {
            let d = rest.remove(0);
            assert(d == all[n as int]);
            assert(all.take(n + 1).drop_last() =~= all.take(n as int));
            let key = d.id.clone();
            m.insert(key, d);
            n = n + 1;
            assert(rest@ =~= all.skip(n as int));
        }
        assert(all.take(n as int) =~= all);
        self.agents = m;
    }

    /// The agent with `id`, if any.
    pub fn get(&self, id: &str) -> (r: Option<&AgentDefinition>)
        requires
            self.wf(),
        ensures
            r matches Some(a) ==> self.agents_view().contains_key(id@) && *a == self.agents_view()[id@],
            r is None ==> !self.agents_view().contains_key(id@),
    {
        self.agents.get(id)
    }

    /// The ids of the agents, in increasing order.
    pub fn list_ids(&self) -> (r: Vec<String>)
        requires
            self.wf(),
        ensures
            views(r@) == self.ids(),
    {
        self.agents.keys()
    }
}

} // verus!
