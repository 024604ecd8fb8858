//! Signatures, encryption and encodings.
//!
//! The cryptography itself is that of the `ed25519-dalek`, `aes-gcm` and `base64` crates; this
//! module names what they compute and makes it available to the verified code.
use crate::containers::Dup;
use vstd::prelude::*;

use aes_gcm::aead::Aead;
use aes_gcm::KeyInit;
use base64::Engine;
use ed25519_dalek::{Signer, Verifier};

verus! {

broadcast use vstd::string::group_string_axioms;

/// The bytes that an unpadded base64url text stands for, if it is one.
pub uninterp spec fn base64url_decoded(s: Seq<char>) -> Option<Seq<u8>>;

/// `decode` of base64's `URL_SAFE_NO_PAD` engine: the bytes, or nothing where the text is not
/// unpadded base64url. A function of the text alone.
#[verifier::external_body]
pub(crate) fn base64url_decode(s: &str) -> (r: Option<Vec<u8>>)
    ensures
        r.deep_view() == base64url_decoded(s@),
{
    base64::engine::general_purpose::URL_SAFE_NO_PAD.decode(s).ok()
}

/// The unpadded base64url text of some bytes.
pub uninterp spec fn base64url_encoded(b: Seq<u8>) -> Seq<char>;

/// `encode` of base64's `URL_SAFE_NO_PAD` engine: a text that the same engine decodes to the same
/// bytes. A function of the bytes alone.
#[verifier::external_body]
pub(crate) fn base64url_encode(b: &Vec<u8>) -> (r: String)
    ensures
        r@ == base64url_encoded(b@),
        base64url_decoded(r@) == Some(b@),
{
    base64::engine::general_purpose::URL_SAFE_NO_PAD.encode(b)
}

/// Whether 32 bytes are an Ed25519 public key.
pub uninterp spec fn ed25519_is_key(key: Seq<u8>) -> bool;

/// `ed25519_dalek::VerifyingKey::from_bytes`: whether the bytes decompress to a point of the
/// curve. A function of the bytes alone.
#[verifier::external_body]
pub(crate) fn is_ed25519_key(key: &[u8; 32]) -> (r: bool)
    ensures
        r == ed25519_is_key(key@),
{
    ed25519_dalek::VerifyingKey::from_bytes(key).is_ok()
}

/// Whether a signature of a message is valid under a public key.
pub uninterp spec fn ed25519_valid(key: Seq<u8>, msg: Seq<u8>, sig: Seq<u8>) -> bool;

/// `ed25519_dalek::VerifyingKey::verify`: whether the signature is valid; never under bytes that
/// are no key. A function of the three arguments alone.
#[verifier::external_body]
pub(crate) fn ed25519_verify(key: &[u8; 32], msg: &[u8], sig: &[u8; 64]) -> (r: bool)
    ensures
        r == ed25519_valid(key@, msg@, sig@),
        r ==> ed25519_is_key(key@),
{
    match ed25519_dalek::VerifyingKey::from_bytes(key) {
        Ok(vk) => vk.verify(msg, &ed25519_dalek::Signature::from_bytes(sig)).is_ok(),
        Err(_) => false,
    }
}

/// The signature of a message under a secret key.
pub uninterp spec fn ed25519_signature(secret: Seq<u8>, msg: Seq<u8>) -> Seq<u8>;

/// `ed25519_dalek::SigningKey::sign`: the signature of the message, 64 bytes. Ed25519 signing is
/// deterministic: a function of the key and the message alone.
#[verifier::external_body]
pub(crate) fn ed25519_sign(secret: &[u8; 32], msg: &[u8]) -> (r: Vec<u8>)
    ensures
        r@ == ed25519_signature(secret@, msg@),
        r@.len() == 64,
{
    ed25519_dalek::SigningKey::from_bytes(secret).sign(msg).to_bytes().to_vec()
}

impl Dup for [u8; 32] {
    fn dup(&self) -> (r: [u8; 32]) {
        *self
    }
}

/// 32 bytes as an array.
pub fn array32(v: &Vec<u8>) -> (r: Option<[u8; 32]>)
    ensures
        match r {
            Some(a) => a@ == v@,
            None => v@.len() != 32,
        },
{
    if v.len() != 32 {
        return None;
    }
    let mut a: [u8; 32] = [0u8; 32];
    let mut i: usize = 0;
    while i < 32
        invariant
            i <= 32,
            v@.len() == 32,
            forall|j: int| 0 <= j < i ==> a@[j] == v@[j],
        decreases 32 - i,
    {
        a[i] = v[i];
        i = i + 1;
    }
    assert(a@ =~= v@);
    Some(a)
}

/// 64 bytes as an array.
pub fn array64(v: &Vec<u8>) -> (r: Option<[u8; 64]>)
    ensures
        match r {
            Some(a) => a@ == v@,
            None => v@.len() != 64,
        },
{
    if v.len() != 64 {
        return None;
    }
    let mut a: [u8; 64] = [0u8; 64];
    let mut i: usize = 0;
    while i < 64
        invariant
            i <= 64,
            v@.len() == 64,
            forall|j: int| 0 <= j < i ==> a@[j] == v@[j],
        decreases 64 - i,
    {
        a[i] = v[i];
        i = i + 1;
    }
    assert(a@ =~= v@);
    Some(a)
}

/// The text that a text with percent signs in it stands for, where it is valid UTF-8.
pub uninterp spec fn unescaped_percents(s: Seq<char>) -> Option<Seq<char>>;

/// The text that a percent-encoded text stands for, where it is valid UTF-8; one without percent
/// signs stands for itself.
pub open spec fn percent_decoded(s: Seq<char>) -> Option<Seq<char>> {
    if s.contains('%') {
        unescaped_percents(s)
    } else {
        Some(s)
    }
}

/// `urlencoding::decode`: the text with every `%xx` replaced by its byte, or nothing where the
/// result is not UTF-8. A function of the text alone.
#[verifier::external_body]
pub(crate) fn percent_decode(s: &str) -> (r: Option<String>)
    ensures
        r.deep_view() == if s@.contains('%') { unescaped_percents(s@) } else { Some(s@) },
{
    match urlencoding::decode(s) {
        Ok(d) => Some(d.into_owned()),
        Err(_) => None,
    }
}

// ── Encryption at rest ──────────────────────────────────────────────

/// How many bytes AES-256-GCM encrypts at once.
pub const MAX_PLAINTEXT: u64 = 68_719_476_736;

/// The AES-256-GCM ciphertext of a plaintext, with its tag.
pub uninterp spec fn aes_sealed(key: Seq<u8>, nonce: Seq<u8>, plain: Seq<u8>) -> Seq<u8>;

/// The plaintext of an AES-256-GCM ciphertext with its tag, if the tag is right.
pub uninterp spec fn aes_opened(key: Seq<u8>, nonce: Seq<u8>, sealed: Seq<u8>) -> Option<Seq<u8>>;

/// `aes_gcm::Aes256Gcm::encrypt` without associated data: the ciphertext with its tag of 16 bytes,
/// which decrypts to the plaintext again under the same key and nonce. It fails on plaintexts that
/// are too long only. A function of the three arguments alone.
#[verifier::external_body]
pub(crate) fn aes_encrypt(key: &[u8; 32], nonce: &[u8; 12], plain: &[u8]) -> (r: Vec<u8>)
    requires
        plain@.len() <= MAX_PLAINTEXT,
    ensures
        r@ == aes_sealed(key@, nonce@, plain@),
        r@.len() == plain@.len() + 16,
        aes_opened(key@, nonce@, r@) == Some(plain@),
{
    let cipher = aes_gcm::Aes256Gcm::new(key.into());
    cipher.encrypt(aes_gcm::Nonce::from_slice(nonce), plain).unwrap_or_default()
}

/// `aes_gcm::Aes256Gcm::decrypt` without associated data: the plaintext, or nothing where the tag is
/// wrong or missing. A function of the three arguments alone.
#[verifier::external_body]
pub(crate) fn aes_decrypt(key: &[u8; 32], nonce: &[u8; 12], sealed: &[u8]) -> (r: Option<Vec<u8>>)
    ensures
        r.deep_view() == aes_opened(key@, nonce@, sealed@),
{
    let cipher = aes_gcm::Aes256Gcm::new(key.into());
    cipher.decrypt(aes_gcm::Nonce::from_slice(nonce), sealed).ok()
}

/// The bytes that a padded base64 text stands for, if it is one.
pub uninterp spec fn base64_decoded(s: Seq<char>) -> Option<Seq<u8>>;

/// The padded base64 text of some bytes.
pub uninterp spec fn base64_encoded(b: Seq<u8>) -> Seq<char>;

/// `decode` of base64's `STANDARD` engine: the bytes, or nothing where the text is not padded
/// base64. A function of the text alone.
#[verifier::external_body]
pub(crate) fn base64_decode(s: &str) -> (r: Option<Vec<u8>>)
    ensures
        r.deep_view() == base64_decoded(s@),
{
    base64::engine::general_purpose::STANDARD.decode(s).ok()
}

/// `encode` of base64's `STANDARD` engine: a text that the same engine decodes to the same bytes. A
/// function of the bytes alone.
#[verifier::external_body]
pub(crate) fn base64_encode(b: &Vec<u8>) -> (r: String)
    ensures
        r@ == base64_encoded(b@),
        base64_decoded(r@) == Some(b@),
{
    base64::engine::general_purpose::STANDARD.encode(b)
}

/// `rand::random`: twelve bytes that nothing else determines.
#[verifier::external_body]
pub(crate) fn random_nonce() -> (r: [u8; 12]) {
    rand::random::<[u8; 12]>()
}

/// The text of bytes that are not all UTF-8, with a replacement character for what is not.
pub uninterp spec fn lossy_text(b: Seq<u8>) -> Seq<char>;

/// The text that some bytes stand for: what they encode in UTF-8, where they do.
pub open spec fn text_of_bytes(b: Seq<u8>) -> Seq<char> {
    if vstd::utf8::valid_utf8(b) {
        vstd::utf8::decode_utf8(b)
    } else {
        lossy_text(b)
    }
}

/// `String::from_utf8_lossy`: the text of the bytes where they are UTF-8, else with a replacement
/// character for each part that is not. A function of the bytes alone.
#[verifier::external_body]
pub(crate) fn to_lossy_text(b: &Vec<u8>) -> (r: String)
    ensures
        r@ == if vstd::utf8::valid_utf8(b@) { vstd::utf8::decode_utf8(b@) } else { lossy_text(b@) },
{
    String::from_utf8_lossy(b).into_owned()
}

/// 12 bytes as an array.
pub fn array12(v: &Vec<u8>) -> (r: [u8; 12])
    requires
        v@.len() >= 12,
    ensures
        r@ == v@.take(12),
{
    let mut a: [u8; 12] = [0u8; 12];
    let mut i: usize = 0;
    while i < 12
        invariant
            i <= 12,
            v@.len() >= 12,
            forall|j: int| 0 <= j < i ==> a@[j] == v@[j],
        decreases 12 - i,
    {
        a[i] = v[i];
        i = i + 1;
    }
    assert(a@ =~= v@.take(12));
    a
}

} // verus!
