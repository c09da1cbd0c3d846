use vstd::prelude::*;
use crate::strmap::{seq_lt, StrMap};
use crate::types::AddonManifest;

verus! {

/// The addons registered so far, by id.
pub struct AddonManager {
    manifests: StrMap<AddonManifest>,
}

impl View for AddonManager {
    type V = Map<Seq<char>, AddonManifest>;

    closed spec fn view(&self) -> Map<Seq<char>, AddonManifest> {
        self.manifests@
    }
}

impl AddonManager {
    /// The manager's internal consistency: the entries are sorted, and each
    /// manifest is stored under its own id.
    pub closed spec fn wf(&self) -> bool {
        &&& self.manifests.wf()
        &&& forall|k: Seq<char>| #[trigger] self.manifests@.contains_key(k) ==> self.manifests@[k].id@ == k
    }

    /// Every manifest is registered under its own id.
    pub proof fn lemma_ids_match(&self)
        requires
            self.wf(),
        ensures
            forall|k: Seq<char>| #[trigger] self@.contains_key(k) ==> self@[k].id@ == k,
            self.sorted_ids().len() == self@.dom().len(),
            self@.dom().finite(),
    {
        self.manifests.lemma_view();
    }

    /// The registered ids in increasing order.
    pub closed spec fn sorted_ids(&self) -> Seq<Seq<char>> {
        self.manifests.sorted_keys()
    }

    /// The ids in order are the registered ids, each once, increasing.
    pub proof fn lemma_sorted_ids(&self)
        requires
            self.wf(),
        ensures
            forall|k: Seq<char>| self@.contains_key(k) <==> self.sorted_ids().contains(k),
            forall|i: int, j: int|
                0 <= i < j < self.sorted_ids().len() ==> seq_lt(
                    #[trigger] self.sorted_ids()[i],
                    #[trigger] self.sorted_ids()[j],
                ),
    {
        self.manifests.lemma_view();
    }

    /// No addons.
    pub fn new() -> (r: Self)
        ensures
            r.wf(),
            r@ == Map::<Seq<char>, AddonManifest>::empty(),
    {
        AddonManager { manifests: StrMap::new() }
    }

    /// Registers a manifest under its id, replacing one with the same id.
    pub fn register(&mut self, manifest: AddonManifest)
        requires
            old(self).wf(),
        ensures
            final(self).wf(),
            final(self)@ == old(self)@.insert(manifest.id@, manifest),
    {
        let id = manifest.id.clone();
        self.manifests.insert(id, manifest);
        assert(forall|k: Seq<char>| #[trigger] self.manifests@.contains_key(k) ==> self.manifests@[k].id@ == k);
    }

    /// The manifests, in increasing order of id.
    pub fn list(&self) -> (r: Vec<&AddonManifest>)
        requires
            self.wf(),
        ensures
            r@.len() == self.sorted_ids().len(),
            r@.len() == self@.dom().len(),
            forall|i: int| 0 <= i < r@.len() ==> *(#[trigger] r@[i]) == self@[self.sorted_ids()[i]],
            forall|i: int| 0 <= i < r@.len() ==> (#[trigger] r@[i]).id@ == self.sorted_ids()[i]
                && self@.contains_key(r@[i].id@) && *r@[i] == self@[r@[i].id@],
            forall|i: int, j: int| 0 <= i < j < r@.len() ==> seq_lt(#[trigger] r@[i].id@, #[trigger] r@[j].id@),
            forall|k: Seq<char>| #[trigger] self@.contains_key(k) ==> exists|i: int| 0 <= i < r@.len() && (#[trigger] r@[i]).id@ == k,
    {
        proof {
            self.manifests.lemma_view();
        }
        let n = self.manifests.count();
        let mut out: Vec<&AddonManifest> = Vec::new();
        let mut i: usize = 0;
        while i < n
            invariant
                self.wf(),
                n == self.manifests.entry_seq().len(),
                n == self.sorted_ids().len(),
                i <= n,
                out@.len() == i,
                forall|j: int| 0 <= j < i ==> *(#[trigger] out@[j]) == self@[self.sorted_ids()[j]],
            decreases n - i,
        {
            let (_, m) = self.manifests.entry_at(i);
            proof {
                self.manifests.lemma_view();
            }
            out.push(m);
            i = i + 1;
        }
        proof {
            self.manifests.lemma_view();
            assert forall|j: int| 0 <= j < out@.len() implies (#[trigger] out@[j]).id@ == self.sorted_ids()[j]
                && self@.contains_key(out@[j].id@) && *out@[j] == self@[out@[j].id@] by {
                assert(self.sorted_ids().contains(self.sorted_ids()[j]));
            }
            assert forall|k: Seq<char>| #[trigger] self@.contains_key(k) implies exists|i: int|
                0 <= i < out@.len() && (#[trigger] out@[i]).id@ == k by {
                assert(self.manifests.view().contains_key(k));
                assert(self.manifests.sorted_keys().contains(k));
                let i = choose|i: int| 0 <= i < self.sorted_ids().len() && self.sorted_ids()[i] == k;
                assert(out@[i].id@ == self.sorted_ids()[i]);
            }
        }
        out
    }

    /// The manifest registered under `id`.
    pub fn get(&self, id: &str) -> (r: Option<&AddonManifest>)
        requires
            self.wf(),
        ensures
            r matches Some(m) ==> self@.contains_key(id@) && *m == self@[id@],
            r is None ==> !self@.contains_key(id@),
    {
        self.manifests.get(id)
    }
}

/// The Lua scripting runtime, not yet providing anything.
pub struct LuaRuntime;

impl LuaRuntime {
    /// The runtime.
    pub fn new() -> (r: Self)
        ensures
            r == LuaRuntime,
    {
        LuaRuntime
    }
}

} // verus!
