use vstd::prelude::*;
use vstd::string::StringSliceAdditionalSpecFns;
use vstd::utf8::encode_utf8;
use crate::crypto::{
    aes_gcm_decrypt, aes_gcm_encrypt, aes_gcm_opened, base64_decode, base64_decoded, base64_encode,
    aes_gcm_plaintext_limit, is_base64_char, random_nonce, sha256, sha256_of,
};
use crate::secrets::{parse_env_line, parse_env_line_exec, render_entries};
use crate::strmap::{seq_lt, StrMap};
use crate::text::{
    from_chars, is_ws, lemma_trim_end, lemma_trim_start, lines, lines_of, lit, owned, push_str,
    starts_with, to_chars, trim, trim_str,
};

verus! {

broadcast use vstd::string::group_string_axioms;

/// The marker in front of an encrypted value.
pub open spec fn enc_prefix() -> Seq<char> {
    seq!['e', 'n', 'c', ':']
}

/// Why a vault operation failed.
#[derive(Clone, Debug)]
pub enum VaultError {
    /// The cipher refused to encrypt the value.
    EncryptionFailed,
    /// No secret is stored under the key.
    NotFound(String),
    /// The stored value is not valid base64.
    DecodeFailed,
    /// The stored value is too short to hold a nonce.
    InvalidData,
    /// The stored value does not authenticate under the machine key.
    DecryptionFailed,
}

/// The message shown for a vault error.
pub open spec fn vault_error_text(e: VaultError) -> Seq<char> {
    match e {
        VaultError::EncryptionFailed => "Encryption failed: aead::Error"@,
        VaultError::NotFound(key) => "Secret '"@ + key@ + "' not found in vault"@,
        VaultError::DecodeFailed => "Failed to decode secret data"@,
        VaultError::InvalidData => "Invalid secret data"@,
        VaultError::DecryptionFailed => "Decryption failed: aead::Error"@,
    }
}

impl VaultError {
    /// The message shown for the error.
    pub fn message(&self) -> (r: String)
        ensures
            r@ == vault_error_text(*self),
    {
        match self {
            VaultError::EncryptionFailed => lit("Encryption failed: aead::Error"),
            VaultError::NotFound(key) => {
                let mut s = lit("Secret '");
                push_str(&mut s, key.as_str());
                push_str(&mut s, "' not found in vault");
                s
            },
            VaultError::DecodeFailed => lit("Failed to decode secret data"),
            VaultError::InvalidData => lit("Invalid secret data"),
            VaultError::DecryptionFailed => lit("Decryption failed: aead::Error"),
        }
    }
}

/// A copy of `s[a..b]`.
pub fn sub_bytes(s: &[u8], a: usize, b: usize) -> (r: Vec<u8>)
    requires
        a <= b <= s@.len(),
    ensures
        r@ == s@.subrange(a as int, b as int),
{
    let mut out: Vec<u8> = Vec::new();
    let mut i = a;
    while i < b
        invariant
            a <= i <= b,
            b <= s@.len(),
            out@ == s@.subrange(a as int, i as int),
        decreases b - i,
    {
        out.push(s[i]);
        i = i + 1;
    }
    out
}

/// Encryption under `key` of `value`, stored as base64 of the nonce followed by
/// the ciphertext: decrypting what is stored gives `value` back.
pub open spec fn stored_encryption_of(key: Seq<u8>, stored: Seq<char>, value: Seq<u8>) -> bool {
    &&& forall|i: int| 0 <= i < stored.len() ==> is_base64_char(#[trigger] stored[i])
    &&& match base64_decoded(stored) {
        Some(data) => data.len() >= 12 && aes_gcm_opened(key, data.take(12), data.skip(12)) == Some(
            value,
        ),
        None => false,
    }
}

/// What reading a stored value gives: the decryption of an `enc:` value, the
/// UTF-8 bytes of any other value.
pub open spec fn decrypted_value(key: Seq<u8>, stored: Seq<char>) -> Result<Seq<u8>, VaultError> {
    if starts_with(stored, enc_prefix()) {
        let text = trim(stored.skip(4));
        match base64_decoded(text) {
            None => Err(VaultError::DecodeFailed),
            Some(data) => if data.len() < 12 {
                Err(VaultError::InvalidData)
            } else {
                match aes_gcm_opened(key, data.take(12), data.skip(12)) {
                    Some(p) => Ok(p),
                    None => Err(VaultError::DecryptionFailed),
                }
            },
        }
    } else {
        Ok(encode_utf8(stored))
    }
}

/// Whether a value of `len` bytes can be stored encrypted: the cipher takes
/// it, and the nonce, ciphertext and 16-byte tag together fit in memory.
pub open spec fn encryptable(len: nat) -> bool {
    len <= aes_gcm_plaintext_limit() && len + 28 <= isize::MAX
}

/// Encrypts `value` under `key` with a fresh random nonce; the text stored is
/// the base64 of the nonce followed by the ciphertext.
pub fn encrypt_value(key: &[u8], value: &[u8]) -> (r: Result<String, VaultError>)
    requires
        key@.len() == 32,
        value@.len() <= isize::MAX,
    ensures
        r is Ok <==> encryptable(value@.len()),
        r matches Ok(s) ==> stored_encryption_of(key@, s@, value@),
        r matches Err(e) ==> e == VaultError::EncryptionFailed,
{
    let nonce = random_nonce();
    match aes_gcm_encrypt(key, nonce.as_slice(), value) {
        None => Err(VaultError::EncryptionFailed),
        Some(ciphertext) => {
            let mut data: Vec<u8> = Vec::new();
            let mut i: usize = 0;
            while i < 12
                invariant
                    nonce@.len() == 12,
                    i <= 12,
                    data@ == nonce@.take(i as int),
                decreases 12 - i,
            {
                data.push(nonce[i]);
                i = i + 1;
            }
            let mut j: usize = 0;
            while j < ciphertext.len()
                invariant
                    nonce@.len() == 12,
                    j <= ciphertext@.len(),
                    data@ == nonce@ + ciphertext@.take(j as int),
                decreases ciphertext@.len() - j,
            {
                data.push(ciphertext[j]);
                j = j + 1;
            }
            assert(nonce@.take(12) == nonce@);
            assert(ciphertext@.take(ciphertext@.len() as int) == ciphertext@);
            assert(data@.take(12) == nonce@);
            assert(data@.skip(12) == ciphertext@);
            if data.len() > (isize::MAX as usize) {
                return Err(VaultError::EncryptionFailed);
            }
            let s = base64_encode(data.as_slice());
            assert(base64_decoded(s@) == Some(data@));
            Ok(s)
        },
    }
}

/// Trimming a text of base64 characters changes nothing.
pub proof fn lemma_trim_base64(s: Seq<char>)
    requires
        forall|i: int| 0 <= i < s.len() ==> is_base64_char(#[trigger] s[i]),
    ensures
        trim(s) == s,
{
    lemma_trim_start(s, 0);
    assert(s.subrange(0, s.len() as int) == s);
    lemma_trim_end(s, s.len() as int);
}

/// Decrypts a stored text (the part after `enc:`) under `key`.
pub fn decrypt_value(key: &[u8], encrypted_b64: &str) -> (r: Result<Vec<u8>, VaultError>)
    requires
        key@.len() == 32,
    ensures
        r matches Ok(p) ==> decrypted_value(key@, enc_prefix() + encrypted_b64@) == Ok::<Seq<u8>, VaultError>(p@),
        r matches Err(e) ==> decrypted_value(key@, enc_prefix() + encrypted_b64@) == Err::<Seq<u8>, VaultError>(e),
{
    proof {
        assert((enc_prefix() + encrypted_b64@).skip(4) == encrypted_b64@);
        assert((enc_prefix() + encrypted_b64@).subrange(0, 4) == enc_prefix());
    }
    let text = trim_str(encrypted_b64);
    match base64_decode(text.as_str()) {
        None => Err(VaultError::DecodeFailed),
        Some(data) => {
            if data.len() < 12 {
                return Err(VaultError::InvalidData);
            }
            let nonce = sub_bytes(data.as_slice(), 0, 12);
            let ciphertext = sub_bytes(data.as_slice(), 12, data.len());
            assert(nonce@ == data@.take(12));
            assert(ciphertext@ == data@.skip(12));
            match aes_gcm_decrypt(key, nonce.as_slice(), ciphertext.as_slice()) {
                Some(p) => Ok(p),
                None => Err(VaultError::DecryptionFailed),
            }
        },
    }
}

/// The vault's file header.
pub open spec fn vault_header() -> Seq<char> {
    "# minusbot vault — MACHINE ENCRYPTED\n"@
}

/// A store of secrets encrypted with a key derived from the machine's hardware
/// id.
pub struct Vault {
    vault_path: String,
    hwid: String,
    master_key: Vec<u8>,
    entries: StrMap<String>,
}

impl View for Vault {
    type V = Map<Seq<char>, Seq<char>>;

    /// The stored values, by key.
    closed spec fn view(&self) -> Map<Seq<char>, Seq<char>> {
        self.entries@.map_values(|v: String| v@)
    }
}

impl Vault {
    /// The vault's internal consistency.
    pub closed spec fn wf(&self) -> bool {
        &&& self.entries.wf()
        &&& self.master_key@.len() == 32
        &&& self.master_key@ == sha256_of(encode_utf8(self.hwid@))
        &&& forall|k: Seq<char>| #[trigger] self.entries@.contains_key(k) ==> !is_plain_value(self.entries@[k]@)
    }

    /// No value is kept in clear: every stored value is `enc:`-prefixed or
    /// empty.
    pub proof fn lemma_stored_encrypted(&self)
        requires
            self.wf(),
        ensures
            forall|k: Seq<char>| #[trigger] self@.contains_key(k) ==> !is_plain_value(self@[k]),
    {
        assert forall|k: Seq<char>| #[trigger] self@.contains_key(k) implies !is_plain_value(self@[k]) by {
            assert(self.entries@.contains_key(k));
        }
    }

    /// The machine id the vault is bound to.
    pub closed spec fn hwid_view(&self) -> Seq<char> {
        self.hwid@
    }

    /// The path of the vault file.
    pub closed spec fn path_view(&self) -> Seq<char> {
        self.vault_path@
    }

    /// The key that the values are encrypted with: SHA-256 of the machine id.
    pub open spec fn master_key_view(&self) -> Seq<u8> {
        sha256_of(encode_utf8(self.hwid_view()))
    }

    /// The entries in increasing key order.
    pub closed spec fn sorted_entries(&self) -> Seq<(Seq<char>, Seq<char>)> {
        self.entries.entry_seq().map_values(|e: (Seq<char>, String)| (e.0, e.1@))
    }

    /// The keys in increasing order.
    pub closed spec fn sorted_keys(&self) -> Seq<Seq<char>> {
        self.entries.sorted_keys()
    }

    /// The secret stored under `key` reads back as `value`.
    pub open spec fn holds(&self, key: Seq<char>, value: Seq<u8>) -> bool {
        self@.contains_key(key) && decrypted_value(self.master_key_view(), self@[key]) == Ok::<
            Seq<u8>,
            VaultError,
        >(value)
    }

    /// The sorted keys are exactly the vault's keys, in increasing order.
    pub proof fn lemma_keys(&self)
        requires
            self.wf(),
        ensures
            forall|k: Seq<char>| self@.contains_key(k) <==> self.sorted_keys().contains(k),
            forall|i: int, j: int|
                0 <= i < j < self.sorted_keys().len() ==> seq_lt(
                    #[trigger] self.sorted_keys()[i],
                    #[trigger] self.sorted_keys()[j],
                ),
            self.sorted_keys().len() == self@.dom().len(),
            self.sorted_entries().len() == self.sorted_keys().len(),
            forall|i: int|
                0 <= i < self.sorted_entries().len() ==> #[trigger] self.sorted_entries()[i] == (
                    self.sorted_keys()[i],
                    self@[self.sorted_keys()[i]],
                ),
    {
        self.entries.lemma_view();
        assert(self@.dom() == self.entries@.dom());
        assert forall|i: int| 0 <= i < self.sorted_entries().len() implies #[trigger] self.sorted_entries()[i] == (
            self.sorted_keys()[i],
            self@[self.sorted_keys()[i]],
        ) by {
            assert(self.entries.entry_seq()[i] == (
                self.entries.sorted_keys()[i],
                self.entries@[self.entries.sorted_keys()[i]],
            ));
            assert(self.entries.sorted_keys().contains(self.entries.sorted_keys()[i]));
        }
    }

    /// Opens the vault file at `vault_path` with `content` (absent when the file
    /// does not exist yet), for the machine `hwid`. Values that are neither empty
    /// nor `enc:`-prefixed are encrypted; the flag says whether that happened, so
    /// that the file must be rewritten.
    pub fn open(vault_path: String, hwid: String, content: Option<&str>) -> (r: Result<(Vault, bool), VaultError>)
        ensures
            r matches Ok((v, dirty)) ==> {
                &&& v.wf()
                &&& v.hwid_view() == hwid@
                &&& v.path_view() == vault_path@
                &&& content is None ==> v@ == Map::<Seq<char>, Seq<char>>::empty()
                &&& content matches Some(c) ==> (forall|k: Seq<char>|
                    #[trigger] v@.contains_key(k) <==> file_entries(c@).contains_key(k))
                &&& content matches Some(c) ==> (forall|k: Seq<char>|
                    #[trigger] file_entries(c@).contains_key(k) ==> read_as(
                        v.master_key_view(),
                        v@[k],
                        file_entries(c@)[k],
                    ))
                &&& content matches Some(c) ==> dirty == has_plain_value(c@)
                &&& content is None ==> !dirty
            },
            r is Ok <==> match content {
                None => true,
                Some(c) => file_encryptable(c@),
            },
            r matches Err(e) ==> e == VaultError::EncryptionFailed,
    {
        let hb = hwid.as_str().as_bytes();
        let key = sha256(hb);
        let mut entries: StrMap<String> = StrMap::new();
        let mut dirty = false;
        match content {
            None => {},
            Some(c) => {
                let cs = to_chars(c);
                let ls = lines_of(cs.as_slice());
                let ghost lv = ls@.map_values(|v: Vec<char>| v@);
                let mut i: usize = 0;
                while i < ls.len()
                    invariant
                        i <= ls@.len(),
                        lv == ls@.map_values(|v: Vec<char>| v@),
                        lv == lines(c@),
                        key@.len() == 32,
                        entries.wf(),
                        forall|k: Seq<char>|
                            #[trigger] entries@.contains_key(k) <==> entries_of_lines(
                                lv.take(i as int),
                            ).contains_key(k),
                        forall|k: Seq<char>|
                            #[trigger] entries_of_lines(lv.take(i as int)).contains_key(k) ==> read_as(
                                key@,
                                entries@[k]@,
                                entries_of_lines(lv.take(i as int))[k],
                            ),
                        dirty == lines_have_plain_value(lv.take(i as int)),
                        forall|j: int| 0 <= j < i ==> #[trigger] line_encryptable(lv[j]),
                        content == Some(c),
                    decreases ls@.len() - i,
                {
                    assert(lv.take(i + 1).drop_last() == lv.take(i as int));
                    assert(lv[i as int] == ls@[i as int]@);
                    let ghost before = entries@;
                    match parse_env_line_exec(ls[i].as_slice()) {
                        Some((k, v)) => {
                            let ks = from_chars(k.as_slice());
                            let vs = from_chars(v.as_slice());
                            let enc = to_chars("enc:");
                            proof {
                                reveal_strlit("enc:");
                                assert(enc@ == enc_prefix());
                            }
                            let is_enc = crate::text::starts_with_chars(v.as_slice(), enc.as_slice());
                            let stored = if !is_enc && v.len() > 0 {
                                let plain = vs.as_str().as_bytes();
                                proof {
                                    assert(is_plain_value(v@));
                                    assert(parse_env_line(lv[i as int]) == Some((k@, v@)));
                                }
                                if plain.len() > (isize::MAX as usize) {
                                    proof {
                                        assert(!line_encryptable(lv[i as int]));
                                        assert(lines(c@)[i as int] == lv[i as int]);
                                        assert(!file_encryptable(c@));
                                    }
                                    return Err(VaultError::EncryptionFailed);
                                }
                                let encrypted = match encrypt_value(key.as_slice(), plain) {
                                    Ok(e) => e,
                                    Err(e) => {
                                        proof {
                                            assert(!line_encryptable(lv[i as int]));
                                            assert(lines(c@)[i as int] == lv[i as int]);
                                            assert(!file_encryptable(c@));
                                        }
                                        return Err(e);
                                    },
                                };
                                let mut st = lit("enc:");
                                push_str(&mut st, encrypted.as_str());
                                proof {
                                    lemma_enc_reads_back(key@, encrypted@, encode_utf8(v@));
                                    lemma_encrypted_form(key@, encrypted@, encode_utf8(v@));
                                    assert(st@ == enc_prefix() + encrypted@);
                                }
                                dirty = true;
                                st
                            } else {
                                vs
                            };
                            proof {
                                assert(read_as(key@, stored@, v@));
                            }
                            entries.insert(ks, stored);
                            proof {
                                let m = entries_of_lines(lv.take(i + 1));
                                assert(m == entries_of_lines(lv.take(i as int)).insert(k@, v@));
                                assert forall|q: Seq<char>| #[trigger] m.contains_key(q) implies read_as(
                                    key@,
                                    entries@[q]@,
                                    m[q],
                                ) by {
                                    if q != k@ {
                                        assert(entries@[q] == before[q]);
                                    }
                                }
                            }
                        },
                        None => {
                            assert(entries_of_lines(lv.take(i + 1)) == entries_of_lines(lv.take(i as int)));
                        },
                    }
                    i = i + 1;
                }
                assert(lv.take(ls@.len() as int) == lv);
            },
        }
        let v = Vault { vault_path, hwid, master_key: key, entries };
        Ok((v, dirty))
    }

    /// Stores `value` encrypted under `key`.
    pub fn put_secret(&mut self, key: &str, value: &[u8]) -> (r: Result<(), VaultError>)
        requires
            old(self).wf(),
            value@.len() <= isize::MAX,
        ensures
            final(self).wf(),
            final(self).hwid_view() == old(self).hwid_view(),
            final(self).path_view() == old(self).path_view(),
            r is Ok ==> final(self).holds(key@, value@) && final(self)@.dom() == old(self)@.dom().insert(key@)
                && forall|k: Seq<char>| k != key@ && #[trigger] old(self)@.contains_key(k) ==> final(self)@[k] == old(self)@[k],
            r is Ok ==> encrypted_form(final(self).master_key_view(), final(self)@[key@], value@),
            r is Ok <==> encryptable(value@.len()),
            r is Err ==> final(self)@ == old(self)@ && r == Err::<(), VaultError>(VaultError::EncryptionFailed),
    {
        let encrypted = match encrypt_value(self.master_key.as_slice(), value) {
            Ok(e) => e,
            Err(e) => {
                return Err(e);
            },
        };
        let mut stored = lit("enc:");
        push_str(&mut stored, encrypted.as_str());
        proof {
            reveal_strlit("enc:");
            lemma_enc_reads_back(self.master_key@, encrypted@, value@);
            lemma_encrypted_form(self.master_key@, encrypted@, value@);
        }
        let ghost before = self.entries@;
        let k = owned(key);
        proof {
            assert(stored@ == enc_prefix() + encrypted@);
        }
        self.entries.insert(k, stored);
        assert(self@ == old(self)@.insert(key@, enc_prefix() + encrypted@));
        assert(self.master_key_view() == self.master_key@);
        Ok(())
    }

    /// Reads the secret stored under `key`.
    pub fn get_secret(&self, key: &str) -> (r: Result<Vec<u8>, VaultError>)
        requires
            self.wf(),
        ensures
            !self@.contains_key(key@) ==> (r matches Err(VaultError::NotFound(k)) && k@ == key@),
            self@.contains_key(key@) ==> match r {
                Ok(p) => decrypted_value(self.master_key_view(), self@[key@]) == Ok::<Seq<u8>, VaultError>(p@),
                Err(e) => decrypted_value(self.master_key_view(), self@[key@]) == Err::<Seq<u8>, VaultError>(e),
            },
    {
        match self.entries.get(key) {
            None => Err(VaultError::NotFound(owned(key))),
            Some(val) => {
                let cs = to_chars(val.as_str());
                let enc = to_chars("enc:");
                proof {
                    reveal_strlit("enc:");
                    assert(enc@ == enc_prefix());
                }
                if crate::text::starts_with_chars(cs.as_slice(), enc.as_slice()) {
                    let rest = from_chars(crate::text::slice(cs.as_slice(), 4, cs.len()).as_slice());
                    proof {
                        assert(enc@ == enc_prefix());
                        assert(val@ =~= enc_prefix() + rest@);
                        assert(self.master_key_view() == self.master_key@);
                    }
                    decrypt_value(self.master_key.as_slice(), rest.as_str())
                } else {
                    let b = val.as_str().as_bytes();
                    let out = sub_bytes(b, 0, b.len());
                    proof {
                        assert(out@ == b@);
                        assert(b@ == encode_utf8(val@));
                    }
                    Ok(out)
                }
            },
        }
    }

    /// Deletes the secret stored under `key`; true when there was one (and the
    /// file must then be rewritten with `render_file`).
    pub fn delete_secret(&mut self, key: &str) -> (r: bool)
        requires
            old(self).wf(),
        ensures
            final(self).wf(),
            final(self)@ == old(self)@.remove(key@),
            r == old(self)@.contains_key(key@),
            final(self).hwid_view() == old(self).hwid_view(),
            final(self).path_view() == old(self).path_view(),
    {
        let ghost before = self.entries@;
        let r = self.entries.remove(key);
        assert(self@ == old(self)@.remove(key@));
        r.is_some()
    }

    /// All keys, in increasing order.
    pub fn list_keys(&self) -> (r: Vec<String>)
        requires
            self.wf(),
        ensures
            crate::text::views(r@) == self.sorted_keys(),
    {
        self.entries.keys()
    }

    /// Whether a secret is stored under `key`.
    pub fn has_secret(&self, key: &str) -> (r: bool)
        requires
            self.wf(),
        ensures
            r == self@.contains_key(key@),
    {
        self.entries.contains_key(key)
    }

    /// The machine id the vault is bound to.
    pub fn hwid(&self) -> (r: &str)
        ensures
            r@ == self.hwid_view(),
    {
        self.hwid.as_str()
    }

    /// The path of the vault file.
    pub fn path(&self) -> (r: &str)
        ensures
            r@ == self.path_view(),
    {
        self.vault_path.as_str()
    }

    /// The content the vault file is written with: a header, then one
    /// `key=value` line per entry in increasing key order.
    pub fn render_file(&self) -> (r: String)
        requires
            self.wf(),
        ensures
            r@ == vault_header() + render_entries(self.sorted_entries()),
    {
        let mut out = lit("# minusbot vault — MACHINE ENCRYPTED\n");
        let ghost head = out@;
        let n = self.entries.count();
        let mut i: usize = 0;
        while i < n
            invariant
                self.wf(),
                n == self.sorted_entries().len(),
                i <= n,
                out@ == head + render_entries(self.sorted_entries().take(i as int)),
            decreases n - i,
        {
            let (k, v) = self.entries.entry_at(i);
            push_str(&mut out, k.as_str());
            push_str(&mut out, "=");
            push_str(&mut out, v.as_str());
            push_str(&mut out, "\n");
            proof {
                reveal_strlit("=");
                reveal_strlit("\n");
                assert(self.sorted_entries().take(i + 1).drop_last() == self.sorted_entries().take(
                    i as int,
                ));
            }
            i = i + 1;
        }
        assert(self.sorted_entries().take(n as int) == self.sorted_entries());
        out
    }
}

/// The `key=value` pairs of a vault file's lines, later lines winning.
pub open spec fn entries_of_lines(ls: Seq<Seq<char>>) -> Map<Seq<char>, Seq<char>>
    decreases ls.len(),
{
    if ls.len() == 0 {
        Map::empty()
    } else {
        let m = entries_of_lines(ls.drop_last());
        match parse_env_line(ls.last()) {
            Some((k, v)) => m.insert(k, v),
            None => m,
        }
    }
}

/// The `key=value` pairs of a vault file.
pub open spec fn file_entries(content: Seq<char>) -> Map<Seq<char>, Seq<char>> {
    entries_of_lines(lines(content))
}

/// A value that the vault encrypts when it opens the file.
pub open spec fn is_plain_value(v: Seq<char>) -> bool {
    !starts_with(v, enc_prefix()) && v.len() > 0
}

/// Some line holds a value that is neither empty nor encrypted.
pub open spec fn lines_have_plain_value(ls: Seq<Seq<char>>) -> bool
    decreases ls.len(),
{
    if ls.len() == 0 {
        false
    } else {
        lines_have_plain_value(ls.drop_last()) || match parse_env_line(ls.last()) {
            Some((k, v)) => is_plain_value(v),
            None => false,
        }
    }
}

/// The vault file holds a value that must be encrypted.
pub open spec fn has_plain_value(content: Seq<char>) -> bool {
    lines_have_plain_value(lines(content))
}

/// A stored value that holds `value` encrypted: `enc:` followed by the base64
/// of a nonce and the AES-GCM ciphertext of `value` under `key`.
pub open spec fn encrypted_form(key: Seq<u8>, stored: Seq<char>, value: Seq<u8>) -> bool {
    &&& starts_with(stored, enc_prefix())
    &&& stored_encryption_of(key, stored.skip(4), value)
}

/// A stored value reads as the file's value would: plain values were stored
/// encrypted and decrypt to their UTF-8 bytes, other values are kept as they
/// are.
pub open spec fn read_as(key: Seq<u8>, stored: Seq<char>, file_value: Seq<char>) -> bool {
    if is_plain_value(file_value) {
        &&& encrypted_form(key, stored, encode_utf8(file_value))
        &&& decrypted_value(key, stored) == Ok::<Seq<u8>, VaultError>(encode_utf8(file_value))
    } else {
        stored == file_value
    }
}

/// A line of the vault file that the vault can open: a plain value on it is
/// short enough to be encrypted.
pub open spec fn line_encryptable(line: Seq<char>) -> bool {
    match parse_env_line(line) {
        Some((k, v)) => is_plain_value(v) ==> encryptable(encode_utf8(v).len()),
        None => true,
    }
}

/// Every plain value in the vault file can be encrypted.
pub open spec fn file_encryptable(content: Seq<char>) -> bool {
    forall|j: int| 0 <= j < lines(content).len() ==> #[trigger] line_encryptable(lines(content)[j])
}

/// `enc:` followed by an encryption of `value` is the encrypted form of `value`.
pub proof fn lemma_encrypted_form(key: Seq<u8>, encrypted: Seq<char>, value: Seq<u8>)
    requires
        stored_encryption_of(key, encrypted, value),
    ensures
        encrypted_form(key, enc_prefix() + encrypted, value),
{
    let s = enc_prefix() + encrypted;
    assert(s.subrange(0, 4) == enc_prefix());
    assert(s.skip(4) == encrypted);
}

/// An `enc:` value made from an encryption reads back as the encrypted bytes.
pub proof fn lemma_enc_reads_back(key: Seq<u8>, encrypted: Seq<char>, value: Seq<u8>)
    requires
        stored_encryption_of(key, encrypted, value),
    ensures
        decrypted_value(key, enc_prefix() + encrypted) == Ok::<Seq<u8>, VaultError>(value),
{
    let s = enc_prefix() + encrypted;
    assert(s.subrange(0, 4) == enc_prefix());
    assert(s.skip(4) == encrypted);
    lemma_trim_base64(encrypted);
}

} // verus!
