use vstd::prelude::*;
use crate::text::{owned, push_str, slice, starts_with, starts_with_chars, to_chars, from_chars, views};
use crate::vault::{decrypted_value, encryptable, encrypted_form, Vault, VaultError};

verus! {

/// The keys of `ks` that begin with `prefix`, with the prefix removed, in order.
pub open spec fn strip_prefixed(ks: Seq<Seq<char>>, prefix: Seq<char>) -> Seq<Seq<char>>
    decreases ks.len(),
{
    if ks.len() == 0 {
        seq![]
    } else {
        let rest = strip_prefixed(ks.drop_last(), prefix);
        if starts_with(ks.last(), prefix) {
            rest.push(ks.last().skip(prefix.len() as int))
        } else {
            rest
        }
    }
}

/// Every stripped key comes from a key that the prefix and it make up, and the
/// other way round.
pub proof fn lemma_strip_prefixed(ks: Seq<Seq<char>>, prefix: Seq<char>)
    ensures
        forall|k: Seq<char>| strip_prefixed(ks, prefix).contains(k) <==> ks.contains(prefix + k),
    decreases ks.len(),
{
    if ks.len() > 0 {
        lemma_strip_prefixed(ks.drop_last(), prefix);
        let rest = strip_prefixed(ks.drop_last(), prefix);
        assert forall|k: Seq<char>| strip_prefixed(ks, prefix).contains(k) <==> ks.contains(prefix + k) by {
            if strip_prefixed(ks, prefix).contains(k) {
                if rest.contains(k) {
                    let j = choose|j: int| 0 <= j < ks.drop_last().len() && ks.drop_last()[j] == prefix + k;
                    assert(ks[j] == prefix + k);
                } else {
                    assert(k == ks.last().skip(prefix.len() as int));
                    assert(ks.last() =~= prefix + k);
                    assert(ks[ks.len() - 1] == prefix + k);
                }
            }
            if ks.contains(prefix + k) {
                let j = choose|j: int| 0 <= j < ks.len() && ks[j] == prefix + k;
                if j < ks.len() - 1 {
                    assert(ks.drop_last()[j] == prefix + k);
                    assert(rest.contains(k));
                    if starts_with(ks.last(), prefix) {
                        assert(strip_prefixed(ks, prefix) == rest.push(ks.last().skip(prefix.len() as int)));
                        let t = choose|t: int| 0 <= t < rest.len() && rest[t] == k;
                        assert(strip_prefixed(ks, prefix)[t] == k);
                    }
                } else {
                    assert((prefix + k).subrange(0, prefix.len() as int) =~= prefix);
                    assert((prefix + k).skip(prefix.len() as int) =~= k);
                    let s = strip_prefixed(ks, prefix);
                    assert(s[s.len() - 1] == k);
                }
            }
        }
    }
}

/// Isolated access to the secrets of the vault whose keys begin with a prefix
/// (such as `PROVIDER_OPENROUTER_`).
pub struct SubVault {
    prefix: String,
}

impl SubVault {
    /// The prefix of this part of the vault.
    pub closed spec fn prefix_view(&self) -> Seq<char> {
        self.prefix@
    }

    /// A view of the keys that begin with `prefix`.
    pub fn new(prefix: &str) -> (r: SubVault)
        ensures
            r.prefix_view() == prefix@,
    {
        SubVault { prefix: owned(prefix) }
    }

    /// The vault key that `key` stands for: the prefix followed by `key`.
    pub fn prefixed_key(&self, key: &str) -> (r: String)
        ensures
            r@ == self.prefix_view() + key@,
    {
        let mut s = owned(self.prefix.as_str());
        push_str(&mut s, key);
        s
    }

    /// Stores `value` under the prefixed key.
    pub fn put_secret(&self, vault: &mut Vault, key: &str, value: &[u8]) -> (r: Result<(), VaultError>)
        requires
            old(vault).wf(),
            value@.len() <= isize::MAX,
        ensures
            final(vault).wf(),
            final(vault).hwid_view() == old(vault).hwid_view(),
            r is Ok ==> final(vault).holds(self.prefix_view() + key@, value@) && final(vault)@.dom()
                == old(vault)@.dom().insert(self.prefix_view() + key@) && forall|k: Seq<char>|
                k != self.prefix_view() + key@ && #[trigger] old(vault)@.contains_key(k)
                    ==> final(vault)@[k] == old(vault)@[k],
            r is Ok ==> encrypted_form(final(vault).master_key_view(), final(vault)@[self.prefix_view() + key@], value@),
            r is Ok <==> encryptable(value@.len()),
            r is Err ==> final(vault)@ == old(vault)@,
    {
        let k = self.prefixed_key(key);
        vault.put_secret(k.as_str(), value)
    }

    /// Reads the secret under the prefixed key.
    pub fn get_secret(&self, vault: &Vault, key: &str) -> (r: Result<Vec<u8>, VaultError>)
        requires
            vault.wf(),
        ensures
            !vault@.contains_key(self.prefix_view() + key@) ==> (r matches Err(VaultError::NotFound(k))
                && k@ == self.prefix_view() + key@),
            vault@.contains_key(self.prefix_view() + key@) ==> match r {
                Ok(p) => decrypted_value(vault.master_key_view(), vault@[self.prefix_view() + key@])
                    == Ok::<Seq<u8>, VaultError>(p@),
                Err(e) => decrypted_value(vault.master_key_view(), vault@[self.prefix_view() + key@])
                    == Err::<Seq<u8>, VaultError>(e),
            },
    {
        let k = self.prefixed_key(key);
        vault.get_secret(k.as_str())
    }

    /// Deletes the secret under the prefixed key; true when there was one.
    pub fn delete_secret(&self, vault: &mut Vault, key: &str) -> (r: bool)
        requires
            old(vault).wf(),
        ensures
            final(vault).wf(),
            final(vault)@ == old(vault)@.remove(self.prefix_view() + key@),
            r == old(vault)@.contains_key(self.prefix_view() + key@),
            final(vault).hwid_view() == old(vault).hwid_view(),
    {
        let k = self.prefixed_key(key);
        vault.delete_secret(k.as_str())
    }

    /// The keys of this part of the vault, without the prefix, in the order of
    /// the full keys.
    pub fn list_secrets(&self, vault: &Vault) -> (r: Vec<String>)
        requires
            vault.wf(),
        ensures
            views(r@) == strip_prefixed(vault.sorted_keys(), self.prefix_view()),
            forall|k: Seq<char>| views(r@).contains(k) <==> vault@.contains_key(self.prefix_view() + k),
    {
        let all = vault.list_keys();
        let p = to_chars(self.prefix.as_str());
        let mut out: Vec<String> = Vec::new();
        let mut i: usize = 0;
        while i < all.len()
            invariant
                i <= all@.len(),
                p@ == self.prefix_view(),
                views(all@) == vault.sorted_keys(),
                views(out@) == strip_prefixed(views(all@).take(i as int), p@),
            decreases all@.len() - i,
        {
            let k = to_chars(all[i].as_str());
            assert(views(all@).take(i + 1).drop_last() == views(all@).take(i as int));
            assert(views(all@)[i as int] == all@[i as int]@);
            let ghost before = out@;
            if starts_with_chars(k.as_slice(), p.as_slice()) {
                let stripped = from_chars(slice(k.as_slice(), p.len(), k.len()).as_slice());
                out.push(stripped);
                assert(views(out@) == views(before).push(stripped@));
            }
            i = i + 1;
        }
        assert(views(all@).take(all@.len() as int) == views(all@));
        proof {
            vault.lemma_keys();
            lemma_strip_prefixed(vault.sorted_keys(), self.prefix_view());
        }
        out
    }

    /// Whether a secret is stored under the prefixed key.
    pub fn has_secret(&self, vault: &Vault, key: &str) -> (r: bool)
        requires
            vault.wf(),
        ensures
            r == vault@.contains_key(self.prefix_view() + key@),
    {
        let k = self.prefixed_key(key);
        vault.has_secret(k.as_str())
    }
}

} // verus!
