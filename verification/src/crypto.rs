use vstd::prelude::*;
use aes_gcm::aead::{Aead, KeyInit};
use base64::Engine;
use rand::distributions::DistString;
use rand::RngCore;
use sha2::Digest;

verus! {

/// What SHA-256 gives for a message.
pub uninterp spec fn sha256_of(data: Seq<u8>) -> Seq<u8>;

/// What AES-256-GCM encryption under `key` and `nonce` gives for a plaintext.
pub uninterp spec fn aes_gcm_sealed(key: Seq<u8>, nonce: Seq<u8>, plaintext: Seq<u8>) -> Option<Seq<u8>>;

/// What AES-256-GCM decryption under `key` and `nonce` gives for a ciphertext.
pub uninterp spec fn aes_gcm_opened(key: Seq<u8>, nonce: Seq<u8>, ciphertext: Seq<u8>) -> Option<Seq<u8>>;

/// The standard, padded base64 encoding of some bytes.
pub uninterp spec fn base64_encoded(data: Seq<u8>) -> Seq<char>;

/// What standard, padded base64 decoding gives for a text.
pub uninterp spec fn base64_decoded(text: Seq<char>) -> Option<Seq<u8>>;

/// A character of the standard base64 alphabet or the padding `=`.
pub open spec fn is_base64_char(c: char) -> bool {
    ('A' <= c && c <= 'Z') || ('a' <= c && c <= 'z') || ('0' <= c && c <= '9') || c == '+' || c
        == '/' || c == '='
}

/// `sha2::Sha256::digest`: the SHA-256 digest, 32 bytes.
#[verifier::external_body]
pub(crate) fn sha256(data: &[u8]) -> (r: Vec<u8>)
    ensures
        r@ == sha256_of(data@),
        r@.len() == 32,
{
    sha2::Sha256::digest(data).to_vec()
}

/// The longest plaintext that AES-GCM encrypts: the crate's `P_MAX`, 2^36 bytes.
pub open spec fn aes_gcm_plaintext_limit() -> nat {
    0x10_0000_0000
}

/// `aes_gcm::Aes256Gcm` (`KeyInit::new`, `Aead::encrypt`): encrypts and
/// authenticates `plaintext` under a 32-byte key and a 12-byte nonce. The result
/// is deterministic in its inputs, and decryption under the same key and nonce
/// gives the plaintext back. The crate refuses (here `None`) exactly a plaintext
/// longer than its `P_MAX`; otherwise the ciphertext is the encrypted plaintext
/// followed by the 16-byte tag.
#[verifier::external_body]
pub(crate) fn aes_gcm_encrypt(key: &[u8], nonce: &[u8], plaintext: &[u8]) -> (r: Option<Vec<u8>>)
    requires
        key@.len() == 32,
        nonce@.len() == 12,
        plaintext@.len() <= isize::MAX,
    ensures
        r is Some <==> plaintext@.len() <= aes_gcm_plaintext_limit(),
        r matches Some(c) ==> Some(c@) == aes_gcm_sealed(key@, nonce@, plaintext@)
            && aes_gcm_opened(key@, nonce@, c@) == Some(plaintext@)
            && c@.len() == plaintext@.len() + 16,
        r is None ==> aes_gcm_sealed(key@, nonce@, plaintext@) is None,
{
    let cipher = aes_gcm::Aes256Gcm::new(aes_gcm::Key::<aes_gcm::Aes256Gcm>::from_slice(key));
    cipher.encrypt(aes_gcm::Nonce::from_slice(nonce), plaintext).ok()
}

/// `aes_gcm::Aes256Gcm` (`KeyInit::new`, `Aead::decrypt`): checks and decrypts
/// `ciphertext` under a 32-byte key and a 12-byte nonce; `None` when
/// authentication fails.
#[verifier::external_body]
pub(crate) fn aes_gcm_decrypt(key: &[u8], nonce: &[u8], ciphertext: &[u8]) -> (r: Option<Vec<u8>>)
    requires
        key@.len() == 32,
        nonce@.len() == 12,
    ensures
        r matches Some(p) ==> aes_gcm_opened(key@, nonce@, ciphertext@) == Some(p@),
        r is None ==> aes_gcm_opened(key@, nonce@, ciphertext@) is None,
{
    let cipher = aes_gcm::Aes256Gcm::new(aes_gcm::Key::<aes_gcm::Aes256Gcm>::from_slice(key));
    cipher.decrypt(aes_gcm::Nonce::from_slice(nonce), ciphertext).ok()
}

/// `rand::thread_rng().fill_bytes`: twelve random bytes. Nothing is known of
/// their values.
#[verifier::external_body]
pub(crate) fn random_nonce() -> (r: Vec<u8>)
    ensures
        r@.len() == 12,
{
    let mut bytes = [0u8; 12];
    rand::thread_rng().fill_bytes(&mut bytes);
    bytes.to_vec()
}

/// `base64::engine::general_purpose::STANDARD.encode`: the padded base64 text of
/// `data`, made of the standard alphabet and `=`; decoding it gives `data` back.
#[verifier::external_body]
pub(crate) fn base64_encode(data: &[u8]) -> (r: String)
    requires
        data@.len() <= isize::MAX,
    ensures
        r@ == base64_encoded(data@),
        base64_decoded(r@) == Some(data@),
        forall|i: int| 0 <= i < r@.len() ==> is_base64_char(#[trigger] r@[i]),
{
    base64::engine::general_purpose::STANDARD.encode(data)
}

/// `base64::engine::general_purpose::STANDARD.decode`: the bytes that a padded
/// base64 text stands for; `None` for malformed input.
#[verifier::external_body]
pub(crate) fn base64_decode(text: &str) -> (r: Option<Vec<u8>>)
    ensures
        r matches Some(b) ==> base64_decoded(text@) == Some(b@),
        r is None ==> base64_decoded(text@) is None,
{
    base64::engine::general_purpose::STANDARD.decode(text).ok()
}


/// An ASCII letter or digit, the alphabet of `rand::distributions::Alphanumeric`.
pub open spec fn is_alphanumeric(c: char) -> bool {
    ('A' <= c && c <= 'Z') || ('a' <= c && c <= 'z') || ('0' <= c && c <= '9')
}

/// `rand::distributions::Alphanumeric.sample_string` with the thread's
/// generator: `len` random ASCII letters and digits. Nothing else is known of
/// which ones.
#[verifier::external_body]
pub(crate) fn random_alphanumeric(len: usize) -> (r: String)
    ensures
        r@.len() == len,
        forall|i: int| 0 <= i < r@.len() ==> is_alphanumeric(#[trigger] r@[i]),
{
    rand::distributions::Alphanumeric.sample_string(&mut rand::thread_rng(), len)
}


/// `uuid::Uuid::new_v4` written with `to_string`: a random identifier in the
/// hyphenated form, 36 characters with hyphens at positions 8, 13, 18 and 23.
/// Nothing else is known of which one.
#[verifier::external_body]
pub(crate) fn new_uuid() -> (r: String)
    ensures
        r@.len() == 36,
        r@[8] == '-' && r@[13] == '-' && r@[18] == '-' && r@[23] == '-',
{
    uuid::Uuid::new_v4().to_string()
}

} // verus!
