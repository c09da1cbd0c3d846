use vstd::prelude::*;
use crate::text::{to_chars, views};

verus! {

broadcast use vstd::string::group_string_axioms;

/// Lexicographic order on strings by code point, which is the order of `String`'s
/// `Ord` (the byte order of UTF-8 agrees with code point order).
pub open spec fn seq_lt(a: Seq<char>, b: Seq<char>) -> bool
    decreases a.len(),
{
    if a.len() == 0 {
        b.len() > 0
    } else if b.len() == 0 {
        false
    } else if a[0] < b[0] {
        true
    } else if a[0] == b[0] {
        seq_lt(a.drop_first(), b.drop_first())
    } else {
        false
    }
}

/// No string precedes itself.
pub proof fn lemma_seq_lt_irreflexive(a: Seq<char>)
    ensures
        !seq_lt(a, a),
    decreases a.len(),
{
    if a.len() > 0 {
        lemma_seq_lt_irreflexive(a.drop_first());
    }
}

/// The order is transitive.
pub proof fn lemma_seq_lt_transitive(a: Seq<char>, b: Seq<char>, c: Seq<char>)
    requires
        seq_lt(a, b),
        seq_lt(b, c),
    ensures
        seq_lt(a, c),
    decreases a.len(),
{
    if a.len() > 0 && b.len() > 0 && c.len() > 0 {
        if a[0] == b[0] && b[0] == c[0] {
            lemma_seq_lt_transitive(a.drop_first(), b.drop_first(), c.drop_first());
        }
    }
}

/// Two different strings are ordered one way or the other.
pub proof fn lemma_seq_lt_total(a: Seq<char>, b: Seq<char>)
    ensures
        a == b || seq_lt(a, b) || seq_lt(b, a),
    decreases a.len(),
{
    if a.len() > 0 && b.len() > 0 {
        if a[0] == b[0] {
            lemma_seq_lt_total(a.drop_first(), b.drop_first());
            if a.drop_first() == b.drop_first() {
                assert(a == seq![a[0]] + a.drop_first());
                assert(b == seq![b[0]] + b.drop_first());
            }
        }
    } else if a.len() == 0 && b.len() == 0 {
        assert(a == b);
    }
}

/// The outcome of comparing two strings.
#[derive(PartialEq, Eq, Structural, Clone, Copy, Debug)]
pub enum KeyOrder {
    Less,
    Equal,
    Greater,
}

/// Compares two strings by code point.
pub fn order_chars(a: &[char], b: &[char]) -> (r: KeyOrder)
    ensures
        r == KeyOrder::Less <==> seq_lt(a@, b@),
        r == KeyOrder::Equal <==> a@ == b@,
        r == KeyOrder::Greater <==> seq_lt(b@, a@),
{
    let mut i: usize = 0;
    assert(a@.skip(0) == a@);
    assert(b@.skip(0) == b@);
    loop
        invariant
            i <= a@.len(),
            i <= b@.len(),
            a@.take(i as int) == b@.take(i as int),
            seq_lt(a@, b@) == seq_lt(a@.skip(i as int), b@.skip(i as int)),
            seq_lt(b@, a@) == seq_lt(b@.skip(i as int), a@.skip(i as int)),
        decreases a@.len() - i,
    {
        if i == a.len() || i == b.len() {
            proof {
                lemma_seq_lt_irreflexive(a@);
                if i == a.len() && i == b.len() {
                    assert(a@ == a@.take(i as int));
                    assert(b@ == b@.take(i as int));
                } else {
                    if a@ == b@ {
                        assert(a@.len() == b@.len());
                    }
                }
            }
            if i == a.len() && i == b.len() {
                return KeyOrder::Equal;
            } else if i == a.len() {
                return KeyOrder::Less;
            } else {
                return KeyOrder::Greater;
            }
        }
        let x = a[i];
        let y = b[i];
        if x != y {
            proof {
                if a@ == b@ {
                    assert(a@[i as int] == b@[i as int]);
                }
                lemma_seq_lt_irreflexive(a@);
            }
            if x < y {
                return KeyOrder::Less;
            } else {
                return KeyOrder::Greater;
            }
        }
        proof {
            assert(a@.skip(i as int).drop_first() == a@.skip(i + 1));
            assert(b@.skip(i as int).drop_first() == b@.skip(i + 1));
            assert(a@.take(i + 1) == a@.take(i as int).push(x));
            assert(b@.take(i + 1) == b@.take(i as int).push(y));
        }
        i = i + 1;
    }
}

/// A map from strings to values that keeps its entries sorted by key, so that
/// its keys come out in order.
pub struct StrMap<V> {
    entries: Vec<(String, V)>,
}

impl<V> View for StrMap<V> {
    type V = Map<Seq<char>, V>;

    closed spec fn view(&self) -> Map<Seq<char>, V> {
        Map::new(
            |k: Seq<char>| exists|i: int| 0 <= i < self.entries@.len() && self.entries@[i].0@ == k,
            |k: Seq<char>| self.entries@[self.index_of_key(k)].1,
        )
    }

}

impl<V> StrMap<V> {
    /// The position of the entry whose key is `k`.
    closed spec fn index_of_key(&self, k: Seq<char>) -> int {
        choose|i: int| 0 <= i < self.entries@.len() && self.entries@[i].0@ == k
    }

    /// The keys of the entries, in stored order.
    pub closed spec fn key_seq(&self) -> Seq<Seq<char>> {
        self.entries@.map_values(|e: (String, V)| e.0@)
    }

    /// The entries, keys taken by their characters, in stored order.
    pub closed spec fn entry_seq(&self) -> Seq<(Seq<char>, V)> {
        self.entries@.map_values(|e: (String, V)| (e.0@, e.1))
    }

    /// The entries are sorted strictly by key.
    pub closed spec fn wf(&self) -> bool {
        forall|i: int, j: int|
            0 <= i < j < self.entries@.len() ==> seq_lt(
                #[trigger] self.entries@[i].0@,
                #[trigger] self.entries@[j].0@,
            )
    }

    /// The keys in increasing order.
    pub open spec fn sorted_keys(&self) -> Seq<Seq<char>> {
        self.key_seq()
    }

    /// Facts that tie the stored order to the map.
    pub proof fn lemma_view(&self)
        requires
            self.wf(),
        ensures
            self.sorted_keys().len() == self.view().dom().len(),
            self.view().dom().finite(),
            forall|k: Seq<char>| self.view().contains_key(k) <==> self.sorted_keys().contains(k),
            forall|i: int, j: int|
                0 <= i < j < self.sorted_keys().len() ==> seq_lt(
                    #[trigger] self.sorted_keys()[i],
                    #[trigger] self.sorted_keys()[j],
                ),
            forall|i: int|
                0 <= i < self.entry_seq().len() ==> #[trigger] self.entry_seq()[i] == (
                    self.sorted_keys()[i],
                    self.view()[self.sorted_keys()[i]],
                ),
            self.entry_seq().len() == self.sorted_keys().len(),
    {
        let ks = self.key_seq();
        assert forall|k: Seq<char>| self.view().contains_key(k) <==> ks.contains(k) by {
            if self.view().contains_key(k) {
                let i = choose|i: int| 0 <= i < self.entries@.len() && self.entries@[i].0@ == k;
                assert(ks[i] == k);
            }
            if ks.contains(k) {
                let i = choose|i: int| 0 <= i < ks.len() && ks[i] == k;
                assert(self.entries@[i].0@ == k);
            }
        }
        assert forall|i: int, j: int| 0 <= i < j < ks.len() implies seq_lt(#[trigger] ks[i], #[trigger] ks[j]) by {
            assert(seq_lt(self.entries@[i].0@, self.entries@[j].0@));
        }
        assert(ks.no_duplicates()) by {
            assert forall|i: int, j: int| 0 <= i < ks.len() && 0 <= j < ks.len() && i != j implies ks[i] != ks[j] by {
                if i < j {
                    assert(seq_lt(ks[i], ks[j]));
                    lemma_seq_lt_irreflexive(ks[i]);
                } else {
                    assert(seq_lt(ks[j], ks[i]));
                    lemma_seq_lt_irreflexive(ks[j]);
                }
            }
        }
        assert(self.view().dom() == ks.to_set());
        ks.unique_seq_to_set();
        assert forall|i: int| 0 <= i < self.entry_seq().len() implies #[trigger] self.entry_seq()[i] == (
            ks[i],
            self.view()[ks[i]],
        ) by {
            self.lemma_index_value(i);
        }
    }

    /// The entry at `i` is the map's entry for its key.
    proof fn lemma_index_value(&self, i: int)
        requires
            self.wf(),
            0 <= i < self.entries@.len(),
        ensures
            self.view().contains_key(self.entries@[i].0@),
            self.view()[self.entries@[i].0@] == self.entries@[i].1,
    {
        let k = self.entries@[i].0@;
        assert(self.view().dom().contains(k));
        let c = self.index_of_key(k);
        self.lemma_unique_index(c, i);
        assert(self.view()[k] == self.entries@[c].1);
    }

    /// Two entries with the same key are the same entry.
    proof fn lemma_unique_index(&self, i: int, j: int)
        requires
            self.wf(),
            0 <= i < self.entries@.len(),
            0 <= j < self.entries@.len(),
            self.entries@[i].0@ == self.entries@[j].0@,
        ensures
            i == j,
    {
        if i < j {
            assert(seq_lt(self.entries@[i].0@, self.entries@[j].0@));
            lemma_seq_lt_irreflexive(self.entries@[i].0@);
        } else if j < i {
            assert(seq_lt(self.entries@[j].0@, self.entries@[i].0@));
            lemma_seq_lt_irreflexive(self.entries@[i].0@);
        }
    }

    /// An empty map.
    pub fn new() -> (r: Self)
        ensures
            r.wf(),
            r@ == Map::<Seq<char>, V>::empty(),
    {
        let r = StrMap { entries: Vec::new() };
        assert(r@ == Map::<Seq<char>, V>::empty());
        r
    }

    /// The number of entries.
    pub fn len(&self) -> (r: usize)
        requires
            self.wf(),
        ensures
            r == self@.dom().len(),
    {
        proof {
            self.lemma_view();
        }
        self.entries.len()
    }

    /// The position of `key` among the entries, or where it would be inserted.
    fn locate(&self, key: &[char]) -> (r: (usize, bool))
        requires
            self.wf(),
        ensures
            r.0 <= self.entries@.len(),
            forall|j: int| 0 <= j < r.0 ==> seq_lt(#[trigger] self.entries@[j].0@, key@),
            r.1 ==> r.0 < self.entries@.len() && self.entries@[r.0 as int].0@ == key@,
            !r.1 ==> forall|j: int|
                r.0 <= j < self.entries@.len() ==> seq_lt(key@, #[trigger] self.entries@[j].0@),
    {
        let mut i: usize = 0;
        while i < self.entries.len()
            invariant
                self.wf(),
                i <= self.entries@.len(),
                forall|j: int| 0 <= j < i ==> seq_lt(#[trigger] self.entries@[j].0@, key@),
            decreases self.entries@.len() - i,
        {
            let k = to_chars(self.entries[i].0.as_str());
            match order_chars(k.as_slice(), key) {
                KeyOrder::Less => {
                    i = i + 1;
                },
                KeyOrder::Equal => {
                    return (i, true);
                },
                KeyOrder::Greater => {
                    proof {
                        assert forall|j: int| i <= j < self.entries@.len() implies seq_lt(
                            key@,
                            #[trigger] self.entries@[j].0@,
                        ) by {
                            if j > i {
                                assert(seq_lt(self.entries@[i as int].0@, self.entries@[j].0@));
                                lemma_seq_lt_transitive(key@, self.entries@[i as int].0@, self.entries@[j].0@);
                            }
                        }
                    }
                    return (i, false);
                },
            }
        }
        (i, false)
    }

    /// The value for `key`, if any.
    pub fn get(&self, key: &str) -> (r: Option<&V>)
        requires
            self.wf(),
        ensures
            r matches Some(v) ==> self@.contains_key(key@) && *v == self@[key@],
            r is None ==> !self@.contains_key(key@),
    {
        let k = to_chars(key);
        let (i, found) = self.locate(k.as_slice());
        if found {
            proof {
                self.lemma_index_value(i as int);
            }
            Some(&self.entries[i].1)
        } else {
            proof {
                if self@.contains_key(key@) {
                    let j = choose|j: int| 0 <= j < self.entries@.len() && self.entries@[j].0@ == key@;
                    lemma_seq_lt_irreflexive(key@);
                    if j < i {
                        assert(seq_lt(self.entries@[j].0@, key@));
                    } else {
                        assert(seq_lt(key@, self.entries@[j].0@));
                    }
                }
            }
            None
        }
    }

    /// Whether `key` has an entry.
    pub fn contains_key(&self, key: &str) -> (r: bool)
        requires
            self.wf(),
        ensures
            r == self@.contains_key(key@),
    {
        self.get(key).is_some()
    }

    /// Sets the value for `key`, returning the value it replaces.
    pub fn insert(&mut self, key: String, value: V) -> (r: Option<V>)
        requires
            old(self).wf(),
        ensures
            final(self).wf(),
            final(self)@ == old(self)@.insert(key@, value),
            r matches Some(v) ==> old(self)@.contains_key(key@) && v == old(self)@[key@],
            r is None ==> !old(self)@.contains_key(key@),
    {
        let k = to_chars(key.as_str());
        let (i, found) = self.locate(k.as_slice());
        let ghost pre = self.entries@;
        if found {
            proof {
                self.lemma_index_value(i as int);
            }
            let old_entry = self.entries.remove(i);
            self.entries.insert(i, (key, value));
            proof {
                assert(self.entries@ == pre.update(i as int, (self.entries@[i as int].0, value)));
                assert forall|a: int, b: int| 0 <= a < b < self.entries@.len() implies seq_lt(
                    #[trigger] self.entries@[a].0@,
                    #[trigger] self.entries@[b].0@,
                ) by {
                    assert(seq_lt(pre[a].0@, pre[b].0@));
                }
                assert(self@ =~= old(self)@.insert(key@, value)) by {
                    assert forall|q: Seq<char>| self@.contains_key(q) implies old(self)@.insert(
                        key@,
                        value,
                    ).contains_key(q) by {
                        let j = choose|j: int| 0 <= j < self.entries@.len() && self.entries@[j].0@ == q;
                        assert(pre[j].0@ == q);
                    }
                    assert forall|q: Seq<char>| old(self)@.insert(key@, value).contains_key(q) implies self@.contains_key(q) by {
                        if q != key@ {
                            let j = choose|j: int| 0 <= j < pre.len() && pre[j].0@ == q;
                            assert(self.entries@[j].0@ == q);
                        } else {
                            assert(self.entries@[i as int].0@ == q);
                        }
                    }
                    assert forall|q: Seq<char>| #[trigger] self@.contains_key(q) implies self@[q] == old(self)@.insert(
                        key@,
                        value,
                    )[q] by {
                        let j = choose|j: int| 0 <= j < self.entries@.len() && self.entries@[j].0@ == q;
                        self.lemma_index_value(j);
                        if q != key@ {
                            old(self).lemma_index_value(j);
                        } else {
                            self.lemma_unique_index(j, i as int);
                        }
                    }
                }
            }
            Some(old_entry.1)
        } else {
            self.entries.insert(i, (key, value));
            proof {
                assert forall|a: int, b: int| 0 <= a < b < self.entries@.len() implies seq_lt(
                    #[trigger] self.entries@[a].0@,
                    #[trigger] self.entries@[b].0@,
                ) by {
                    if b < i {
                        assert(seq_lt(pre[a].0@, pre[b].0@));
                    } else if b == i {
                        assert(seq_lt(pre[a].0@, k@));
                    } else if a < i {
                        assert(seq_lt(pre[a].0@, k@));
                        assert(seq_lt(k@, pre[b - 1].0@));
                        lemma_seq_lt_transitive(pre[a].0@, k@, pre[b - 1].0@);
                    } else if a == i {
                        assert(seq_lt(k@, pre[b - 1].0@));
                    } else {
                        assert(seq_lt(pre[a - 1].0@, pre[b - 1].0@));
                    }
                }
                assert(!old(self)@.contains_key(key@)) by {
                    if old(self)@.contains_key(key@) {
                        let j = choose|j: int| 0 <= j < pre.len() && pre[j].0@ == key@;
                        lemma_seq_lt_irreflexive(key@);
                        if j < i {
                            assert(seq_lt(pre[j].0@, key@));
                        } else {
                            assert(seq_lt(key@, pre[j].0@));
                        }
                    }
                }
                assert(self@ =~= old(self)@.insert(key@, value)) by {
                    assert forall|q: Seq<char>| self@.contains_key(q) implies old(self)@.insert(
                        key@,
                        value,
                    ).contains_key(q) by {
                        let j = choose|j: int| 0 <= j < self.entries@.len() && self.entries@[j].0@ == q;
                        if j < i {
                            assert(pre[j].0@ == q);
                        } else if j > i {
                            assert(pre[j - 1].0@ == q);
                        }
                    }
                    assert forall|q: Seq<char>| old(self)@.insert(key@, value).contains_key(q) implies self@.contains_key(q) by {
                        if q != key@ {
                            let j = choose|j: int| 0 <= j < pre.len() && pre[j].0@ == q;
                            if j < i {
                                assert(self.entries@[j].0@ == q);
                            } else {
                                assert(self.entries@[j + 1].0@ == q);
                            }
                        } else {
                            assert(self.entries@[i as int].0@ == q);
                        }
                    }
                    assert forall|q: Seq<char>| #[trigger] self@.contains_key(q) implies self@[q] == old(self)@.insert(
                        key@,
                        value,
                    )[q] by {
                        let j = choose|j: int| 0 <= j < self.entries@.len() && self.entries@[j].0@ == q;
                        self.lemma_index_value(j);
                        if j < i {
                            old(self).lemma_index_value(j);
                        } else if j > i {
                            old(self).lemma_index_value(j - 1);
                        }
                    }
                }
            }
            None
        }
    }

    /// Removes the entry for `key`, returning its value.
    pub fn remove(&mut self, key: &str) -> (r: Option<V>)
        requires
            old(self).wf(),
        ensures
            final(self).wf(),
            final(self)@ == old(self)@.remove(key@),
            r matches Some(v) ==> old(self)@.contains_key(key@) && v == old(self)@[key@],
            r is None ==> !old(self)@.contains_key(key@),
    {
        let k = to_chars(key);
        let (i, found) = self.locate(k.as_slice());
        let ghost pre = self.entries@;
        if found {
            proof {
                self.lemma_index_value(i as int);
            }
            let old_entry = self.entries.remove(i);
            proof {
                assert forall|a: int, b: int| 0 <= a < b < self.entries@.len() implies seq_lt(
                    #[trigger] self.entries@[a].0@,
                    #[trigger] self.entries@[b].0@,
                ) by {
                    if b < i {
                        assert(seq_lt(pre[a].0@, pre[b].0@));
                    } else if a < i {
                        assert(seq_lt(pre[a].0@, pre[b + 1].0@));
                    } else {
                        assert(seq_lt(pre[a + 1].0@, pre[b + 1].0@));
                    }
                }
                assert(self@ =~= old(self)@.remove(key@)) by {
                    assert forall|q: Seq<char>| self@.contains_key(q) implies old(self)@.remove(key@).contains_key(q) by {
                        let j = choose|j: int| 0 <= j < self.entries@.len() && self.entries@[j].0@ == q;
                        if j < i {
                            assert(pre[j].0@ == q);
                            assert(seq_lt(q, key@));
                        } else {
                            assert(pre[j + 1].0@ == q);
                            assert(seq_lt(key@, q));
                        }
                        lemma_seq_lt_irreflexive(q);
                    }
                    assert forall|q: Seq<char>| old(self)@.remove(key@).contains_key(q) implies self@.contains_key(q) by {
                        let j = choose|j: int| 0 <= j < pre.len() && pre[j].0@ == q;
                        if j < i {
                            assert(self.entries@[j].0@ == q);
                        } else if j > i {
                            assert(self.entries@[j - 1].0@ == q);
                        }
                    }
                    assert forall|q: Seq<char>| #[trigger] self@.contains_key(q) implies self@[q] == old(self)@.remove(key@)[q] by {
                        let j = choose|j: int| 0 <= j < self.entries@.len() && self.entries@[j].0@ == q;
                        self.lemma_index_value(j);
                        if j < i {
                            old(self).lemma_index_value(j);
                        } else {
                            old(self).lemma_index_value(j + 1);
                        }
                    }
                }
            }
            Some(old_entry.1)
        } else {
            proof {
                if old(self)@.contains_key(key@) {
                    let j = choose|j: int| 0 <= j < pre.len() && pre[j].0@ == key@;
                    lemma_seq_lt_irreflexive(key@);
                    if j < i {
                        assert(seq_lt(pre[j].0@, key@));
                    } else {
                        assert(seq_lt(key@, pre[j].0@));
                    }
                }
                assert(self@ =~= old(self)@.remove(key@));
            }
            None
        }
    }

    /// The keys in increasing order.
    pub fn keys(&self) -> (r: Vec<String>)
        requires
            self.wf(),
        ensures
            views(r@) == self.sorted_keys(),
    {
        let mut out: Vec<String> = Vec::new();
        let mut i: usize = 0;
        while i < self.entries.len()
            invariant
                i <= self.entries@.len(),
                out@.len() == i,
                views(out@) == self.key_seq().take(i as int),
            decreases self.entries@.len() - i,
        {
            let ghost before = out@;
            out.push(self.entries[i].0.clone());
            i = i + 1;
            assert forall|j: int| 0 <= j < i implies #[trigger] views(out@)[j]
                == self.key_seq().take(i as int)[j] by {
                if j < i - 1 {
                    assert(out@[j] == before[j]);
                    assert(views(before)[j] == self.key_seq().take(i - 1)[j]);
                }
            }
            assert(views(out@) =~= self.key_seq().take(i as int));
        }
        assert(self.key_seq().take(self.entries@.len() as int) =~= self.key_seq());
        out
    }

    /// The entry at position `i` of the sorted order.
    pub fn entry_at(&self, i: usize) -> (r: (&String, &V))
        requires
            self.wf(),
            i < self.entry_seq().len(),
        ensures
            (r.0@, *r.1) == self.entry_seq()[i as int],
    {
        (&self.entries[i].0, &self.entries[i].1)
    }

    /// The number of entries, as the length of the sorted order.
    pub fn count(&self) -> (r: usize)
        ensures
            r == self.entry_seq().len(),
    {
        self.entries.len()
    }
}

} // verus!
