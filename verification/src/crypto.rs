//! The cryptographic primitives that the audit log and the secret store rest
//! on: AES-256-GCM from the `aes-gcm` crate, HKDF-SHA256 from `hkdf` and
//! `sha2`, and fresh nonces from the operating system's generator (`rand`).
//!
//! What a cipher computes is not restated here: its results carry names, and
//! the only facts stated of them are the ones the crates document — the
//! length of a sealed message, the plaintext limit, and that opening what was
//! sealed under the same key and nonce gives the plaintext back.
use vstd::prelude::*;

use aes_gcm::aead::Aead;
use aes_gcm::KeyInit;
use rand::RngCore;

verus! {

/// The length of an AES-256 key in bytes.
pub const KEY_LEN: usize = 32;

/// The length of an AES-GCM nonce in bytes.
pub const NONCE_LEN: usize = 12;

/// The length of the AES-GCM authentication tag appended to a ciphertext.
pub const TAG_LEN: usize = 16;

/// The longest plaintext that AES-GCM seals (`aes_gcm::P_MAX`, 2^36 bytes).
pub open spec fn max_plaintext_len() -> nat {
    0x10_0000_0000
}

/// The ciphertext, tag appended, that AES-256-GCM makes of `plaintext`
/// under `key` and `nonce`, with no associated data.
pub uninterp spec fn aes256gcm_seal(key: Seq<u8>, nonce: Seq<u8>, plaintext: Seq<u8>) -> Seq<u8>;

/// What AES-256-GCM opening of `ciphertext` under `key` and `nonce` gives:
/// the plaintext where the tag authenticates, nothing where it does not.
pub uninterp spec fn aes256gcm_open(key: Seq<u8>, nonce: Seq<u8>, ciphertext: Seq<u8>) -> Option<Seq<u8>>;

/// The 32 bytes of output keying material that HKDF-SHA256 derives from
/// `salt`, `ikm` and `info`.
pub uninterp spec fn hkdf_sha256_32(salt: Seq<u8>, ikm: Seq<u8>, info: Seq<u8>) -> Seq<u8>;

/// The text of the `aes-gcm` crate's opaque error (`aead::Error`).
pub open spec fn aead_error_text() -> Seq<char> {
    "aead::Error"@
}

/// AES-256-GCM encryption (`aes_gcm::Aes256Gcm` through `aead::Aead::encrypt`).
///
/// Claimed of the crate: it succeeds exactly on plaintexts of at most
/// `P_MAX` bytes, giving the sealed message, which is the plaintext's length
/// plus the 16-byte tag; otherwise it fails with `aead::Error`.
#[verifier::external_body]
pub(crate) fn aes256gcm_encrypt(key: &[u8; 32], nonce: &[u8; 12], plaintext: &[u8]) -> (r: Result<Vec<u8>, String>)
    ensures
        match r {
            Ok(c) => plaintext@.len() <= max_plaintext_len() && c@ == aes256gcm_seal(key@, nonce@, plaintext@)
                && c@.len() == plaintext@.len() + 16,
            Err(e) => plaintext@.len() > max_plaintext_len() && e@ == aead_error_text(),
        },
{
    let cipher = aes_gcm::Aes256Gcm::new(key.into());
    let n = aes_gcm::Nonce::from_slice(nonce);
    match cipher.encrypt(n, plaintext) {
        Ok(c) => Ok(c),
        Err(e) => Err(e.to_string()),
    }
}

/// AES-256-GCM decryption (`aes_gcm::Aes256Gcm` through `aead::Aead::decrypt`).
///
/// Claimed of the crate: the result is the opening of the ciphertext, and an
/// unauthentic ciphertext fails with `aead::Error`; a message that this key
/// and nonce sealed opens to its plaintext.
#[verifier::external_body]
pub(crate) fn aes256gcm_decrypt(key: &[u8; 32], nonce: &[u8; 12], ciphertext: &[u8]) -> (r: Result<Vec<u8>, String>)
    ensures
        match r {
            Ok(q) => aes256gcm_open(key@, nonce@, ciphertext@) == Some(q@) && forall|p: Seq<u8>|
                p.len() <= max_plaintext_len() && ciphertext@ == #[trigger] aes256gcm_seal(key@, nonce@, p)
                    ==> q@ == p,
            Err(e) => aes256gcm_open(key@, nonce@, ciphertext@) is None && e@ == aead_error_text() && forall|p: Seq<u8>|
                p.len() <= max_plaintext_len() ==> ciphertext@ != #[trigger] aes256gcm_seal(key@, nonce@, p),
        },
{
    let cipher = aes_gcm::Aes256Gcm::new(key.into());
    let n = aes_gcm::Nonce::from_slice(nonce);
    match cipher.decrypt(n, ciphertext) {
        Ok(p) => Ok(p),
        Err(e) => Err(e.to_string()),
    }
}

/// A fresh random nonce from the operating system's generator
/// (`rand::rngs::OsRng::fill_bytes`).
///
/// Nothing is claimed of the bytes: they depend on chance. The generator
/// panics where the operating system cannot supply randomness.
#[verifier::external_body]
pub(crate) fn fresh_nonce() -> (r: [u8; 12]) {
    let mut n = [0u8; 12];
    rand::rngs::OsRng.fill_bytes(&mut n);
    n
}

/// HKDF-SHA256 extract-then-expand into 32 bytes (`hkdf::Hkdf::<Sha256>::new`
/// with a salt, then `expand`).
///
/// Claimed of the crate: expansion into 32 bytes never exceeds the 255-block
/// limit, so it succeeds, with the derived bytes.
#[verifier::external_body]
pub(crate) fn hkdf_sha256_expand32(salt: &[u8], ikm: &[u8], info: &[u8]) -> (r: Result<[u8; 32], String>)
    ensures
        match r {
            Ok(k) => k@ == hkdf_sha256_32(salt@, ikm@, info@),
            Err(_) => false,
        },
{
    let hk = hkdf::Hkdf::<sha2::Sha256>::new(Some(salt), ikm);
    let mut out = [0u8; 32];
    match hk.expand(info, &mut out) {
        Ok(()) => Ok(out),
        Err(e) => Err(e.to_string()),
    }
}

/// Appends the bytes of `t` to `v`.
pub fn push_bytes(v: &mut Vec<u8>, t: &[u8])
    ensures
        final(v)@ == old(v)@ + t@,
{
    let mut i: usize = 0;
    while i < t.len()
        invariant
            0 <= i <= t@.len(),
            v@ == old(v)@ + t@.take(i as int),
        decreases t.len() - i,
    {
        v.push(t[i]);
        i = i + 1;
        assert(v@ =~= old(v)@ + t@.take(i as int));
    }
    assert(t@.take(t@.len() as int) =~= t@);
}

/// The bytes `v[from..to]` as a new vector.
pub fn bytes_range(v: &[u8], from: usize, to: usize) -> (r: Vec<u8>)
    requires
        from <= to <= v@.len(),
    ensures
        r@ == v@.subrange(from as int, to as int),
{
    let mut r: Vec<u8> = Vec::new();
    let mut i = from;
    while i < to
        invariant
            from <= i <= to <= v@.len(),
            r@ == v@.subrange(from as int, i as int),
        decreases to - i,
    {
        r.push(v[i]);
        i = i + 1;
        assert(r@ =~= v@.subrange(from as int, i as int));
    }
    r
}

/// The twelve bytes `v[from..from + 12]` as a nonce.
pub fn nonce_at(v: &[u8], from: usize) -> (r: [u8; 12])
    requires
        from + 12 <= v@.len(),
    ensures
        r@ == v@.subrange(from as int, from + 12),
{
    let r: [u8; 12] = [
        v[from], v[from + 1], v[from + 2], v[from + 3], v[from + 4], v[from + 5],
        v[from + 6], v[from + 7], v[from + 8], v[from + 9], v[from + 10], v[from + 11],
    ];
    assert(r@ =~= v@.subrange(from as int, from + 12));
    r
}

} // verus!
