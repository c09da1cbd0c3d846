//! Which connected socket clients listen to which chat. Each client gets a
//! number when it connects; a message for a chat goes to every client
//! registered under that chat.

use vstd::prelude::*;

verus! {

broadcast use vstd::string::group_string_axioms;

/// The registrations without the one of client `id` under `chat`.
pub open spec fn without(s: Seq<(Seq<char>, u64)>, chat: Seq<char>, id: u64) -> Seq<(Seq<char>, u64)>
    decreases s.len(),
{
    if s.len() == 0 {
        s
    } else if s.last().0 == chat && s.last().1 == id {
        without(s.drop_last(), chat, id)
    } else {
        without(s.drop_last(), chat, id).push(s.last())
    }
}

/// The clients registered under `chat`, in order of registration.
pub open spec fn targets_of(s: Seq<(Seq<char>, u64)>, chat: Seq<char>) -> Seq<u64>
    decreases s.len(),
{
    if s.len() == 0 {
        seq![]
    } else if s.last().0 == chat {
        targets_of(s.drop_last(), chat).push(s.last().1)
    } else {
        targets_of(s.drop_last(), chat)
    }
}

/// The table of registrations.
pub struct StreamTable {
    entries: Vec<(String, u64)>,
}

impl View for StreamTable {
    type V = Seq<(Seq<char>, u64)>;

    closed spec fn view(&self) -> Seq<(Seq<char>, u64)> {
        self.entries@.map_values(|e: (String, u64)| (e.0@, e.1))
    }
}

/// Removing the registrations of client `id` under `chat` leaves it no
/// registration there.
pub proof fn lemma_without_removes(s: Seq<(Seq<char>, u64)>, chat: Seq<char>, id: u64)
    ensures
        !targets_of(without(s, chat, id), chat).contains(id),
        forall|c: Seq<char>| c != chat ==> targets_of(without(s, chat, id), c) == targets_of(s, c),
    decreases s.len(),
{
    if s.len() > 0 {
        lemma_without_removes(s.drop_last(), chat, id);
        let w = without(s.drop_last(), chat, id);
        if !(s.last().0 == chat && s.last().1 == id) {
            let w2 = w.push(s.last());
            assert(w2.drop_last() == w);
            if s.last().0 == chat {
                assert(targets_of(w2, chat) == targets_of(w, chat).push(s.last().1));
                assert forall|k: int| 0 <= k < targets_of(w2, chat).len() implies targets_of(
                    w2,
                    chat,
                )[k] != id by {
                    if k < targets_of(w, chat).len() {
                        assert(targets_of(w2, chat)[k] == targets_of(w, chat)[k]);
                    }
                }
            }
            assert forall|c: Seq<char>| c != chat implies targets_of(w2, c) == targets_of(s, c) by {
                assert(targets_of(w, c) == targets_of(s.drop_last(), c));
            }
        } else {
            assert forall|c: Seq<char>| c != chat implies targets_of(w, c) == targets_of(s, c) by {
                assert(targets_of(w, c) == targets_of(s.drop_last(), c));
            }
        }
    }
}

impl StreamTable {
    /// No registrations.
    pub fn new() -> (r: Self)
        ensures
            r@ == Seq::<(Seq<char>, u64)>::empty(),
    {
        let r = StreamTable { entries: Vec::new() };
        assert(r@ =~= Seq::<(Seq<char>, u64)>::empty());
        r
    }

    /// Registers client `id` under `chat`.
    pub fn register(&mut self, chat: &str, id: u64)
        ensures
            final(self)@ == old(self)@.push((chat@, id)),
    {
        let ghost before = self@;
        self.entries.push((crate::text::owned(chat), id));
        assert(self@ =~= before.push((chat@, id)));
    }

    /// Drops the registration of client `id` under `chat`.
    pub fn remove(&mut self, chat: &str, id: u64)
        ensures
            final(self)@ == without(old(self)@, chat@, id),
    {
        let ghost start = self@;
        let mut kept: Vec<(String, u64)> = Vec::new();
        let mut i: usize = 0;
        while i < self.entries.len()
            invariant
                i <= self.entries@.len(),
                start == self@,
                kept@.map_values(|e: (String, u64)| (e.0@, e.1)) == without(start.take(i as int), chat@, id),
            decreases self.entries@.len() - i,
        {
            let ghost kv = kept@.map_values(|e: (String, u64)| (e.0@, e.1));
            assert(start.take(i + 1).drop_last() =~= start.take(i as int));
            assert(start.take(i + 1).last() == (self.entries@[i as int].0@, self.entries@[i as int].1));
            let same = crate::text::str_eq(self.entries[i].0.as_str(), chat) && self.entries[i].1 == id;
            if !same {
                let e = (self.entries[i].0.clone(), self.entries[i].1);
                kept.push(e);
                assert(kept@.map_values(|e: (String, u64)| (e.0@, e.1)) =~= kv.push(
                    (self.entries@[i as int].0@, self.entries@[i as int].1),
                ));
            }
            i = i + 1;
        }
        assert(start.take(self.entries@.len() as int) =~= start);
        self.entries = kept;
    }

    /// Moves client `id` from `old_chat` to `new_chat`.
    pub fn switch_chat(&mut self, old_chat: &str, new_chat: &str, id: u64)
        ensures
            final(self)@ == without(old(self)@, old_chat@, id).push((new_chat@, id)),
    {
        self.remove(old_chat, id);
        self.register(new_chat, id);
    }

    /// The clients registered under `chat`, in order of registration.
    pub fn targets(&self, chat: &str) -> (r: Vec<u64>)
        ensures
            r@ == targets_of(self@, chat@),
    {
        let mut out: Vec<u64> = Vec::new();
        let mut i: usize = 0;
        while i < self.entries.len()
            invariant
                i <= self.entries@.len(),
                out@ == targets_of(self@.take(i as int), chat@),
            decreases self.entries@.len() - i,
        {
            assert(self@.take(i + 1).drop_last() =~= self@.take(i as int));
            assert(self@.take(i + 1).last() == (self.entries@[i as int].0@, self.entries@[i as int].1));
            if crate::text::str_eq(self.entries[i].0.as_str(), chat) {
                out.push(self.entries[i].1);
            }
            i = i + 1;
        }
        assert(self@.take(self.entries@.len() as int) =~= self@);
        out
    }

    /// Whether some client is registered under `chat`.
    pub fn has_chat(&self, chat: &str) -> (r: bool)
        ensures
            r == (targets_of(self@, chat@).len() > 0),
    {
        let t = self.targets(chat);
        t.len() > 0
    }

    /// Every registered client, once per registration.
    pub fn all(&self) -> (r: Vec<u64>)
        ensures
            r@ == self@.map_values(|e: (Seq<char>, u64)| e.1),
    {
        let mut out: Vec<u64> = Vec::new();
        let mut i: usize = 0;
        while i < self.entries.len()
            invariant
                i <= self.entries@.len(),
                out@ == self@.take(i as int).map_values(|e: (Seq<char>, u64)| e.1),
            decreases self.entries@.len() - i,
        {
            out.push(self.entries[i].1);
            i = i + 1;
            assert(out@ =~= self@.take(i as int).map_values(|e: (Seq<char>, u64)| e.1));
        }
        assert(self@.take(self.entries@.len() as int) =~= self@);
        out
    }
}

/// A client that moves to another chat gets that chat's messages and no
/// longer those of the chat it left.
pub proof fn law_switch_moves_client(s: Seq<(Seq<char>, u64)>, old_chat: Seq<char>, new_chat: Seq<char>, id: u64)
    requires
        old_chat != new_chat,
    ensures
        targets_of(without(s, old_chat, id).push((new_chat, id)), new_chat).contains(id),
        !targets_of(without(s, old_chat, id).push((new_chat, id)), old_chat).contains(id),
{
    lemma_without_removes(s, old_chat, id);
    let w = without(s, old_chat, id);
    let w2 = w.push((new_chat, id));
    assert(w2.drop_last() == w);
    assert(targets_of(w2, new_chat) == targets_of(w, new_chat).push(id));
    assert(targets_of(w2, new_chat)[targets_of(w, new_chat).len() as int] == id);
    assert(targets_of(w2, old_chat) == targets_of(w, old_chat));
}

} // verus!
