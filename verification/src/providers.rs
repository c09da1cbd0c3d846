//! The registry of language-model providers: which are known by id and name,
//! which one is the default, and which model a request uses.

use vstd::prelude::*;
use crate::strmap::StrMap;
use crate::text::{lit, owned, push_str, views};

verus! {

broadcast use vstd::string::group_string_axioms;

/// The providers by id with their display names, the default provider and the
/// default text model.
pub struct ProviderRegistry {
    providers: StrMap<String>,
    default_id: Option<String>,
    default_model: Option<String>,
}

impl ProviderRegistry {
    /// The providers by id, with their names.
    pub closed spec fn providers_view(&self) -> Map<Seq<char>, Seq<char>> {
        self.providers@.map_values(|n: String| n@)
    }

    /// The default provider, if one was chosen.
    pub closed spec fn default_view(&self) -> Option<Seq<char>> {
        match self.default_id {
            Some(d) => Some(d@),
            None => None,
        }
    }

    /// The default text model, if one was chosen.
    pub closed spec fn model_view(&self) -> Option<Seq<char>> {
        match self.default_model {
            Some(m) => Some(m@),
            None => None,
        }
    }

    /// The ids in increasing order.
    pub closed spec fn ids(&self) -> Seq<Seq<char>> {
        self.providers.sorted_keys()
    }

    /// The entries are sorted, and the default provider is a registered one.
    pub closed spec fn wf(&self) -> bool {
        &&& self.providers.wf()
        &&& self.default_id matches Some(d) ==> self.providers@.contains_key(d@)
    }

    /// No providers and no defaults.
    pub fn new() -> (r: Self)
        ensures
            r.wf(),
            r.providers_view() == Map::<Seq<char>, Seq<char>>::empty(),
            r.default_view() is None,
            r.model_view() is None,
    {
        let r = ProviderRegistry { providers: StrMap::new(), default_id: None, default_model: None };
        assert(r.providers_view() =~= Map::<Seq<char>, Seq<char>>::empty());
        r
    }

    /// Registers a provider under its id, replacing one with the same id.
    pub fn register(&mut self, id: &str, name: &str)
        requires
            old(self).wf(),
        ensures
            final(self).wf(),
            final(self).providers_view() == old(self).providers_view().insert(id@, name@),
            final(self).default_view() == old(self).default_view(),
            final(self).model_view() == old(self).model_view(),
    {
        let ghost before = self.providers@;
        self.providers.insert(owned(id), owned(name));
        assert(self.providers_view() =~= before.map_values(|n: String| n@).insert(id@, name@));
    }

    /// Makes `id` the default provider; refused for an id that is not registered.
    pub fn set_default(&mut self, id: &str) -> (r: Result<(), String>)
        requires
            old(self).wf(),
        ensures
            final(self).wf(),
            final(self).providers_view() == old(self).providers_view(),
            final(self).model_view() == old(self).model_view(),
            old(self).providers_view().contains_key(id@) ==> r is Ok && final(self).default_view()
                == Some(id@),
            !old(self).providers_view().contains_key(id@) ==> (r matches Err(e) && e@ == "Provider '"@
                + id@ + "' not registered"@) && final(self).default_view() == old(self).default_view(),
    {
        if !self.providers.contains_key(id) {
            let mut e = lit("Provider '");
            push_str(&mut e, id);
            push_str(&mut e, "' not registered");
            return Err(e);
        }
        self.default_id = Some(owned(id));
        Ok(())
    }

    /// Makes `model` the default text model.
    pub fn set_default_model(&mut self, model: &str)
        requires
            old(self).wf(),
        ensures
            final(self).wf(),
            final(self).providers_view() == old(self).providers_view(),
            final(self).default_view() == old(self).default_view(),
            final(self).model_view() == Some(model@),
    {
        self.default_model = Some(owned(model));
    }

    /// The default provider's id.
    pub fn default_id(&self) -> (r: Option<String>)
        ensures
            match r {
                Some(d) => self.default_view() == Some(d@),
                None => self.default_view() is None,
            },
    {
        match &self.default_id {
            Some(d) => Some(d.clone()),
            None => None,
        }
    }

    /// The default text model.
    pub fn default_model(&self) -> (r: Option<String>)
        ensures
            match r {
                Some(m) => self.model_view() == Some(m@),
                None => self.model_view() is None,
            },
    {
        match &self.default_model {
            Some(m) => Some(m.clone()),
            None => None,
        }
    }

    /// The name of the provider `id`, if registered.
    pub fn get(&self, id: &str) -> (r: Option<String>)
        requires
            self.wf(),
        ensures
            match r {
                Some(n) => self.providers_view().contains_key(id@) && n@ == self.providers_view()[id@],
                None => !self.providers_view().contains_key(id@),
            },
    {
        match self.providers.get(id) {
            Some(n) => Some(n.clone()),
            None => None,
        }
    }

    /// The providers as `(id, name)`, in increasing order of id.
    pub fn list(&self) -> (r: Vec<(String, String)>)
        requires
            self.wf(),
        ensures
            r@.len() == self.ids().len(),
            forall|i: int|
                0 <= i < r@.len() ==> (#[trigger] r@[i]).0@ == self.ids()[i] && r@[i].1@
                    == self.providers_view()[self.ids()[i]],
    {
        proof {
            self.providers.lemma_view();
        }
        let n = self.providers.count();
        let mut out: Vec<(String, String)> = Vec::new();
        let mut i: usize = 0;
        while i < n
            invariant
                self.providers.wf(),
                n == self.providers.entry_seq().len(),
                n == self.ids().len(),
                self.ids() == self.providers.sorted_keys(),
                forall|k: int|
                    0 <= k < self.providers.entry_seq().len() ==> #[trigger] self.providers.entry_seq()[k]
                        == (self.ids()[k], self.providers@[self.ids()[k]]),
                forall|k: Seq<char>| self.providers@.contains_key(k) <==> self.ids().contains(k),
                i <= n,
                out@.len() == i,
                forall|k: int|
                    0 <= k < i ==> (#[trigger] out@[k]).0@ == self.ids()[k] && out@[k].1@
                        == self.providers_view()[self.ids()[k]],
            decreases n - i,
        {
            let (id, name) = self.providers.entry_at(i);
            assert(self.providers.entry_seq()[i as int] == (self.ids()[i as int], self.providers@[self.ids()[i as int]]));
            assert(self.ids().contains(self.ids()[i as int]));
            out.push((id.clone(), name.clone()));
            i = i + 1;
        }
        out
    }

    /// Whether a default provider was chosen.
    pub fn is_configured(&self) -> (r: bool)
        ensures
            r == self.default_view() is Some,
    {
        self.default_id.is_some()
    }

    /// The model a completion uses: the request's own, else the default text
    /// model; refused when there is no default provider, or no model at all.
    pub fn model_for(&self, requested: &str) -> (r: Result<String, String>)
        requires
            self.wf(),
        ensures
            self.default_view() is None ==> (r matches Err(e) && e@ == "No default provider configured"@),
            self.default_view() is Some && requested@.len() > 0 ==> (r matches Ok(m) && m@ == requested@),
            self.default_view() is Some && requested@.len() == 0 ==> match self.model_view() {
                Some(m) => r matches Ok(x) && x@ == m,
                None => r matches Err(e) && e@ == "No model specified and no default text model configured"@,
            },
    {
        if self.default_id.is_none() {
            return Err(lit("No default provider configured"));
        }
        if !requested.is_empty() {
            return Ok(owned(requested));
        }
        match &self.default_model {
            Some(m) => Ok(m.clone()),
            None => Err(lit("No model specified and no default text model configured")),
        }
    }
}

} // verus!
