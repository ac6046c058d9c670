//! The platform secret stores: the Linux store, which prefers the Secret
//! Service and falls back to AES-256-GCM-encrypted files keyed from the
//! machine id, and the macOS Keychain store.
//!
//! The fallback file of a key `k` is `<root>/<sanitized k>`, holding the
//! 12-byte nonce followed by the ciphertext. Its AES key is derived with
//! HKDF-SHA256 from the machine id, so a copy of the file opens only on the
//! same host.
use vstd::prelude::*;

use crate::crypto::{
    aead_error_text, aes256gcm_decrypt, aes256gcm_encrypt, aes256gcm_open, aes256gcm_seal,
    bytes_range, fresh_nonce, hkdf_sha256_32, hkdf_sha256_expand32, max_plaintext_len, nonce_at,
    push_bytes, NONCE_LEN, TAG_LEN,
};
use crate::dirs::{base_data_dir, join_path, opt_view, path_join};
use crate::text::{chars_of, push_char, push_str, trim, trim_str};

verus! {

/// The label prefix of Secret Service items.
pub const KEYRING_LABEL_PREFIX: &'static str = "thane: ";

/// The Secret Service attribute naming the application.
pub const KEYRING_ATTR_APP: &'static str = "application";

/// The application's value of that attribute.
pub const KEYRING_ATTR_APP_VALUE: &'static str = "com.thane.app";

/// The Secret Service attribute naming the key.
pub const KEYRING_ATTR_KEY: &'static str = "key";

/// The Keychain service of every thane secret (macOS).
pub const KEYCHAIN_SERVICE: &'static str = "com.thane.app";

/// The Keychain status of a missing item (`errSecItemNotFound`).
pub const KEYCHAIN_ITEM_NOT_FOUND: i32 = -25300;

/// The HKDF salt of the fallback key.
pub const FALLBACK_SALT: &'static str = "thane-secret-store-salt-v1";

/// The HKDF info of the fallback key.
pub const FALLBACK_INFO: &'static str = "thane-secret-store-fallback-v1";

/// The ways a secret store fails.
#[derive(Debug)]
pub enum SecretError {
    /// The backend is not available, or refused the operation.
    Unavailable(String),
    /// Encryption or decryption failed.
    Crypto(String),
    /// A file could not be read or written.
    Io(String),
}

impl SecretError {
    /// The description carried by the error.
    pub open spec fn text(&self) -> Seq<char> {
        match self {
            SecretError::Unavailable(m) => m@,
            SecretError::Crypto(m) => m@,
            SecretError::Io(m) => m@,
        }
    }

    /// The description carried by the error.
    pub fn message(&self) -> (r: String)
        ensures
            r@ == self.text(),
    {
        let mut r = String::new();
        match self {
            SecretError::Unavailable(m) => push_str(&mut r, m.as_str()),
            SecretError::Crypto(m) => push_str(&mut r, m.as_str()),
            SecretError::Io(m) => push_str(&mut r, m.as_str()),
        }
        r
    }
}

// ---------------------------------------------------------------------------
// File names
// ---------------------------------------------------------------------------

/// Whether `c` may stand in a fallback file name: an ASCII letter or digit,
/// `.`, `-` or `_`.
pub open spec fn key_char_allowed(c: char) -> bool {
    ('a' <= c && c <= 'z') || ('A' <= c && c <= 'Z') || ('0' <= c && c <= '9') || c == '.' || c == '-' || c
        == '_'
}

/// A key made fit for a file name: every character outside `[A-Za-z0-9._-]`
/// becomes `_`.
pub open spec fn sanitized(key: Seq<char>) -> Seq<char> {
    Seq::new(key.len(), |i: int| if key_char_allowed(key[i]) { key[i] } else { '_' })
}

/// A key made fit for a file name: path separators and every other
/// character outside `[A-Za-z0-9._-]` become `_`.
pub fn sanitize_key(key: &str) -> (r: String)
    ensures
        r@ == sanitized(key@),
{
    let v = chars_of(key);
    let mut out = String::new();
    let mut i: usize = 0;
    while i < v.len()
        invariant
            0 <= i <= v@.len(),
            v@ == key@,
            out@ == sanitized(key@).take(i as int),
        decreases v.len() - i,
    {
        let c = v[i];
        if ('a' <= c && c <= 'z') || ('A' <= c && c <= 'Z') || ('0' <= c && c <= '9') || c == '.' || c == '-'
            || c == '_' {
            push_char(&mut out, c);
        } else {
            push_char(&mut out, '_');
        }
        i = i + 1;
        assert(out@ =~= sanitized(key@).take(i as int));
    }
    assert(sanitized(key@).take(v@.len() as int) =~= sanitized(key@));
    out
}

/// A sanitized key is one path component: it has the key's length and no
/// character outside `[A-Za-z0-9._-]`, so no separator.
pub proof fn lemma_sanitized_is_one_component(key: Seq<char>)
    ensures
        sanitized(key).len() == key.len(),
        forall|i: int| 0 <= i < key.len() ==> key_char_allowed(#[trigger] sanitized(key)[i]),
        !sanitized(key).contains('/'),
        forall|i: int| 0 <= i < key.len() && key_char_allowed(key[i]) ==> #[trigger] sanitized(key)[i] == key[i],
{
    if sanitized(key).contains('/') {
        let i = choose|i: int| 0 <= i < sanitized(key).len() && sanitized(key)[i] == '/';
        assert(key_char_allowed(sanitized(key)[i]));
    }
}

/// Sanitizing keeps every ASCII letter (either case), digit, `.`, `-` and
/// `_` of the key where it stands and turns every other character into `_`;
/// so two keys made only of those characters share a file only when they
/// are the same key.
pub proof fn lemma_sanitize_keeps_name_characters(key: Seq<char>, other: Seq<char>)
    ensures
        sanitized(key).len() == key.len(),
        forall|i: int|
            0 <= i < key.len() ==> (if ('a' <= #[trigger] key[i] <= 'z') || ('A' <= key[i] <= 'Z') || ('0' <= key[i]
                <= '9') || key[i] == '.' || key[i] == '-' || key[i] == '_' {
                sanitized(key)[i] == key[i]
            } else {
                sanitized(key)[i] == '_'
            }),
        (forall|i: int|
            0 <= i < key.len() ==> ('a' <= #[trigger] key[i] <= 'z') || ('A' <= key[i] <= 'Z') || ('0' <= key[i]
                <= '9') || key[i] == '.' || key[i] == '-' || key[i] == '_') && (forall|i: int|
            0 <= i < other.len() ==> ('a' <= #[trigger] other[i] <= 'z') || ('A' <= other[i] <= 'Z') || ('0'
                <= other[i] <= '9') || other[i] == '.' || other[i] == '-' || other[i] == '_') && sanitized(key)
            == sanitized(other) ==> key == other,
{
    if (forall|i: int|
        0 <= i < key.len() ==> ('a' <= #[trigger] key[i] <= 'z') || ('A' <= key[i] <= 'Z') || ('0' <= key[i]
            <= '9') || key[i] == '.' || key[i] == '-' || key[i] == '_') && (forall|i: int|
        0 <= i < other.len() ==> ('a' <= #[trigger] other[i] <= 'z') || ('A' <= other[i] <= 'Z') || ('0'
            <= other[i] <= '9') || other[i] == '.' || other[i] == '-' || other[i] == '_') && sanitized(key)
        == sanitized(other) {
        assert(sanitized(key).len() == key.len());
        assert(sanitized(other).len() == other.len());
        assert forall|i: int| 0 <= i < key.len() implies key[i] == other[i] by {
            assert(sanitized(key)[i] == sanitized(other)[i]);
        }
        assert(key =~= other);
    }
}

/// The fallback root under a known or unknown data directory:
/// `thane/secrets` beneath it, or beneath `/var/tmp`.
pub open spec fn fallback_root_spec(data_dir: Option<Seq<char>>) -> Seq<char> {
    path_join(
        path_join(
            match data_dir {
                Some(d) => d,
                None => "/var/tmp"@,
            },
            "thane"@,
        ),
        "secrets"@,
    )
}

/// The fallback root for a known or unknown data directory.
pub fn fallback_root_from(data_dir: Option<String>) -> (r: String)
    ensures
        r@ == fallback_root_spec(opt_view(data_dir)),
{
    let base = match data_dir {
        Some(d) => d,
        None => "/var/tmp".to_owned(),
    };
    let app = join_path(base.as_str(), "thane");
    join_path(app.as_str(), "secrets")
}

/// The fallback root under the user's data directory (`dirs::data_dir`).
pub fn default_fallback_root() -> (r: String)
    ensures
        exists|d: Option<Seq<char>>| r@ == fallback_root_spec(d),
{
    let d = base_data_dir();
    fallback_root_from(d)
}

/// The Secret Service attributes that identify the item of `key`.
pub fn attrs_for(key: &str) -> (r: Vec<(String, String)>)
    ensures
        r@.len() == 2,
        r@[0].0@ == KEYRING_ATTR_APP@ && r@[0].1@ == KEYRING_ATTR_APP_VALUE@,
        r@[1].0@ == KEYRING_ATTR_KEY@ && r@[1].1@ == key@,
{
    let mut attrs: Vec<(String, String)> = Vec::new();
    attrs.push((KEYRING_ATTR_APP.to_owned(), KEYRING_ATTR_APP_VALUE.to_owned()));
    attrs.push((KEYRING_ATTR_KEY.to_owned(), key.to_owned()));
    attrs
}

/// The Secret Service label of the item of `key`: `thane: <key>`.
pub fn keyring_label(key: &str) -> (r: String)
    ensures
        r@ == KEYRING_LABEL_PREFIX@ + key@,
{
    let mut r = String::new();
    push_str(&mut r, KEYRING_LABEL_PREFIX);
    push_str(&mut r, key);
    r
}

/// The Linux secret store, with the root of its encrypted-file fallback.
pub struct LinuxSecretStore {
    fallback_root: String,
}

impl LinuxSecretStore {
    /// The fallback root.
    pub closed spec fn root(&self) -> Seq<char> {
        self.fallback_root@
    }

    /// A store whose fallback lives under the user's data directory.
    pub fn new() -> (r: Self)
        ensures
            exists|d: Option<Seq<char>>| r.root() == fallback_root_spec(d),
    {
        LinuxSecretStore { fallback_root: default_fallback_root() }
    }

    /// A store whose fallback lives under `root`.
    pub fn with_fallback_root(root: String) -> (r: Self)
        ensures
            r.root() == root@,
    {
        LinuxSecretStore { fallback_root: root }
    }

    /// The fallback file of `key`: the sanitized key under the root.
    pub fn fallback_path(&self, key: &str) -> (r: String)
        ensures
            r@ == path_join(self.root(), sanitized(key@)),
    {
        let name = sanitize_key(key);
        join_path(self.fallback_root.as_str(), name.as_str())
    }
}

/// Every key's fallback file lies directly in the root: it is the root, a
/// separator and the sanitized key, which holds no separator.
pub proof fn lemma_fallback_path_stays_in_root(root: Seq<char>, key: Seq<char>)
    requires
        root.len() > 0,
        root.last() != '/',
    ensures
        path_join(root, sanitized(key)) == root + seq!['/'] + sanitized(key),
        !sanitized(key).contains('/'),
{
    lemma_sanitized_is_one_component(key);
    if sanitized(key).len() > 0 {
        assert(sanitized(key)[0] != '/') by {
            assert(key_char_allowed(sanitized(key)[0]));
        }
    }
}

// ---------------------------------------------------------------------------
// The encrypted-file fallback
// ---------------------------------------------------------------------------

/// The machine id among the candidates' contents (`/etc/machine-id`, then
/// `/var/lib/dbus/machine-id`): the first readable one that is not blank,
/// trimmed.
pub open spec fn machine_id_spec(candidates: Seq<Option<Seq<char>>>) -> Option<Seq<char>>
    decreases candidates.len(),
{
    if candidates.len() == 0 {
        None
    } else {
        match candidates[0] {
            Some(c) => if trim(c).len() > 0 {
                Some(trim(c))
            } else {
                machine_id_spec(candidates.drop_first())
            },
            None => machine_id_spec(candidates.drop_first()),
        }
    }
}

/// The error when no machine id is available.
pub open spec fn no_machine_id_text() -> Seq<char> {
    "no machine-id available (tried /etc/machine-id and /var/lib/dbus/machine-id)"@
}

/// The views of the candidates' contents.
pub open spec fn candidate_views(c: Seq<Option<String>>) -> Seq<Option<Seq<char>>> {
    c.map_values(|o: Option<String>| opt_view(o))
}

/// The machine id, given what reading each candidate file gave (`None`
/// where it could not be read).
pub fn machine_id_from(candidates: &[Option<String>]) -> (r: Result<String, SecretError>)
    ensures
        match machine_id_spec(candidate_views(candidates@)) {
            Some(id) => r matches Ok(s) && s@ == id,
            None => r matches Err(SecretError::Unavailable(m)) && m@ == no_machine_id_text(),
        },
{
    let mut i: usize = 0;
    assert(candidate_views(candidates@).skip(0) =~= candidate_views(candidates@));
    while i < candidates.len()
        invariant
            0 <= i <= candidates@.len(),
            machine_id_spec(candidate_views(candidates@)) == machine_id_spec(
                candidate_views(candidates@).skip(i as int),
            ),
        decreases candidates.len() - i,
    {
        let ghost rest = candidate_views(candidates@).skip(i as int);
        assert(rest.drop_first() =~= candidate_views(candidates@).skip(i + 1));
        assert(rest[0] == opt_view(candidates@[i as int]));
        match &candidates[i] {
            Some(c) => {
                let t = trim_str(c.as_str());
                if !t.as_str().is_empty() {
                    return Ok(t);
                }
            },
            None => {},
        }
        i = i + 1;
    }
    assert(candidate_views(candidates@).skip(i as int) =~= Seq::<Option<Seq<char>>>::empty());
    Err(SecretError::Unavailable("no machine-id available (tried /etc/machine-id and /var/lib/dbus/machine-id)".to_owned()))
}

/// The fallback key of a machine: HKDF-SHA256 over the machine id, with the
/// store's salt and info.
pub open spec fn fallback_key_spec(machine_id: Seq<u8>) -> Seq<u8> {
    hkdf_sha256_32(vstd::utf8::encode_utf8(FALLBACK_SALT@), machine_id, vstd::utf8::encode_utf8(FALLBACK_INFO@))
}

/// The fallback key of a machine, derived from its id.
pub fn derive_fallback_key(machine_id: &str) -> (r: Result<[u8; 32], SecretError>)
    ensures
        r matches Ok(k) && k@ == fallback_key_spec(vstd::utf8::encode_utf8(machine_id@)),
{
    match hkdf_sha256_expand32(FALLBACK_SALT.as_bytes(), machine_id.as_bytes(), FALLBACK_INFO.as_bytes()) {
        Ok(k) => Ok(k),
        Err(e) => {
            let mut m = String::new();
            push_str(&mut m, "HKDF expand: ");
            push_str(&mut m, e.as_str());
            Err(SecretError::Crypto(m))
        },
    }
}

/// A fallback file: the nonce, then the ciphertext.
pub open spec fn fallback_blob(nonce: Seq<u8>, ciphertext: Seq<u8>) -> Seq<u8> {
    nonce + ciphertext
}

/// The error of a fallback file too short to hold a nonce and a tag.
pub open spec fn blob_too_small_text() -> Seq<char> {
    "fallback file too small to contain nonce + ciphertext"@
}

/// Encrypts `value` for the fallback file of the machine with id
/// `machine_id`, under the given nonce: the file is the nonce followed by the
/// value sealed under the machine's key, with its tag. Only a value beyond
/// the cipher's limit is refused.
pub fn seal_fallback_blob_with_nonce(value: &[u8], machine_id: &str, nonce: &[u8; 12]) -> (r: Result<
    Vec<u8>,
    SecretError,
>)
    ensures
        value@.len() <= max_plaintext_len() <==> r is Ok,
        match r {
            Ok(blob) => blob@ == fallback_blob(
                nonce@,
                aes256gcm_seal(fallback_key_spec(vstd::utf8::encode_utf8(machine_id@)), nonce@, value@),
            ) && blob@.len() == NONCE_LEN + value@.len() + TAG_LEN,
            Err(e) => e matches SecretError::Crypto(m) && m@ == "encrypt: "@ + aead_error_text(),
        },
{
    let key = match derive_fallback_key(machine_id) {
        Ok(k) => k,
        Err(e) => return Err(e),
    };
    match aes256gcm_encrypt(&key, nonce, value) {
        Err(e) => {
            let mut m = String::new();
            push_str(&mut m, "encrypt: ");
            push_str(&mut m, e.as_str());
            Err(SecretError::Crypto(m))
        },
        Ok(ciphertext) => {
            let mut blob: Vec<u8> = Vec::new();
            push_bytes(&mut blob, nonce);
            push_bytes(&mut blob, ciphertext.as_slice());
            assert(blob@ =~= fallback_blob(nonce@, aes256gcm_seal(key@, nonce@, value@)));
            Ok(blob)
        },
    }
}

/// Encrypts `value` for the fallback file of this machine, with a fresh
/// nonce.
///
/// A machine-id error is passed on; otherwise the file is the nonce the
/// generator gave followed by the value sealed under the machine's key.
pub fn seal_fallback_blob(value: &[u8], machine_id: Result<String, SecretError>) -> (r: Result<
    Vec<u8>,
    SecretError,
>)
    ensures
        match machine_id {
            Err(e) => r matches Err(e2) && e2 == e,
            Ok(_) => true,
        },
        match machine_id {
            Ok(id) => value@.len() <= max_plaintext_len() <==> r is Ok,
            Err(_) => true,
        },
        match (machine_id, r) {
            (Ok(id), Ok(blob)) => blob@.len() == NONCE_LEN + value@.len() + TAG_LEN && exists|nonce: Seq<u8>|
                nonce.len() == NONCE_LEN && #[trigger] fallback_blob(
                    nonce,
                    aes256gcm_seal(fallback_key_spec(vstd::utf8::encode_utf8(id@)), nonce, value@),
                ) == blob@,
            (Ok(id), Err(e)) => e matches SecretError::Crypto(m) && m@ == "encrypt: "@ + aead_error_text(),
            _ => true,
        },
{
    let id = match machine_id {
        Ok(id) => id,
        Err(e) => return Err(e),
    };
    let nonce = fresh_nonce();
    seal_fallback_blob_with_nonce(value, id.as_str(), &nonce)
}

/// Decrypts a fallback file read back from disk.
///
/// A file shorter than a nonce and a tag is refused first; then a
/// machine-id error is passed on; then the ciphertext is opened under the
/// machine's key. A file sealed on this machine opens to its value.
pub fn open_fallback_blob(blob: &[u8], machine_id: Result<String, SecretError>) -> (r: Result<
    Vec<u8>,
    SecretError,
>)
    ensures
        blob@.len() < NONCE_LEN + TAG_LEN ==> (r matches Err(SecretError::Crypto(m)) && m@ == blob_too_small_text()),
        blob@.len() >= NONCE_LEN + TAG_LEN ==> match machine_id {
            Err(e) => r matches Err(e2) && e2 == e,
            Ok(_) => true,
        },
        blob@.len() >= NONCE_LEN + TAG_LEN && machine_id is Ok ==> match aes256gcm_open(
            fallback_key_spec(vstd::utf8::encode_utf8(machine_id->Ok_0@)),
            blob@.take(NONCE_LEN as int),
            blob@.skip(NONCE_LEN as int),
        ) {
            Some(p) => r matches Ok(q) && q@ == p,
            None => r matches Err(SecretError::Crypto(m)) && m@ == "decrypt: "@ + aead_error_text(),
        },
        forall|nonce: Seq<u8>, p: Seq<u8>|
            machine_id is Ok && nonce.len() == NONCE_LEN && p.len() <= max_plaintext_len() && blob@.len()
                >= NONCE_LEN + TAG_LEN && blob@ == #[trigger] fallback_blob(
                nonce,
                aes256gcm_seal(fallback_key_spec(vstd::utf8::encode_utf8(machine_id->Ok_0@)), nonce, p),
            ) ==> (r matches Ok(q) && q@ == p),
{
    if blob.len() < NONCE_LEN + TAG_LEN {
        proof {
            reveal_strlit("fallback file too small to contain nonce + ciphertext");
        }
        return Err(SecretError::Crypto("fallback file too small to contain nonce + ciphertext".to_owned()));
    }
    let id = match machine_id {
        Ok(id) => id,
        Err(e) => return Err(e),
    };
    let key = match derive_fallback_key(id.as_str()) {
        Ok(k) => k,
        Err(e) => return Err(e),
    };
    let nonce = nonce_at(blob, 0);
    let ciphertext = bytes_range(blob, NONCE_LEN, blob.len());
    assert(nonce@ =~= blob@.take(NONCE_LEN as int));
    assert(ciphertext@ =~= blob@.skip(NONCE_LEN as int));
    proof {
        assert forall|n: Seq<u8>, p: Seq<u8>|
            n.len() == NONCE_LEN && blob@ == #[trigger] fallback_blob(n, aes256gcm_seal(key@, n, p)) implies n
            == nonce@ && ciphertext@ == aes256gcm_seal(key@, n, p) by {
            let f = fallback_blob(n, aes256gcm_seal(key@, n, p));
            assert(f.take(NONCE_LEN as int) =~= n);
            assert(f.skip(NONCE_LEN as int) =~= aes256gcm_seal(key@, n, p));
        }
    }
    match aes256gcm_decrypt(&key, &nonce, ciphertext.as_slice()) {
        Ok(p) => Ok(p),
        Err(e) => {
            let mut m = String::new();
            push_str(&mut m, "decrypt: ");
            push_str(&mut m, e.as_str());
            Err(SecretError::Crypto(m))
        },
    }
}

// ---------------------------------------------------------------------------
// Backend decisions
// ---------------------------------------------------------------------------

/// What a Secret Service lookup settles: the secret where it found one;
/// otherwise (item missing, or the service unavailable) the fallback file is
/// asked, and `None` is returned.
pub fn secret_service_hit(lookup: Result<Option<Vec<u8>>, SecretError>) -> (r: Option<Vec<u8>>)
    ensures
        match lookup {
            Ok(Some(v)) => r == Some(v),
            _ => r is None,
        },
{
    match lookup {
        Ok(Some(v)) => Some(v),
        _ => None,
    }
}

/// The outcome of deleting from both backends: an error only where both
/// failed, naming both failures.
pub fn linux_delete_outcome(service: Option<SecretError>, file: Option<SecretError>) -> (r: Result<(), SecretError>)
    ensures
        match (service, file) {
            (Some(e1), Some(e2)) => r matches Err(SecretError::Unavailable(m)) && m@ == "secret-service: "@
                + e1.text() + "; file fallback: "@ + e2.text(),
            _ => r is Ok,
        },
{
    match (service, file) {
        (Some(e1), Some(e2)) => {
            let mut m = String::new();
            push_str(&mut m, "secret-service: ");
            let t1 = e1.message();
            push_str(&mut m, t1.as_str());
            push_str(&mut m, "; file fallback: ");
            let t2 = e2.message();
            push_str(&mut m, t2.as_str());
            Err(SecretError::Unavailable(m))
        },
        _ => Ok(()),
    }
}

/// The macOS Keychain secret store.
#[derive(Debug, Default, Clone, Copy)]
pub struct MacosSecretStore;

impl MacosSecretStore {
    /// The store.
    pub fn new() -> (r: Self) {
        MacosSecretStore
    }

    /// The outcome of a Keychain read, given the secret or the failure's
    /// status code and text: a missing item is no secret; any other failure
    /// is the Keychain being unavailable.
    pub fn get_outcome(read: Result<Vec<u8>, (i32, String)>) -> (r: Result<Option<Vec<u8>>, SecretError>)
        ensures
            match read {
                Ok(b) => r matches Ok(Some(v)) && v == b,
                Err((code, text)) => if code == KEYCHAIN_ITEM_NOT_FOUND {
                    r matches Ok(None)
                } else {
                    r matches Err(SecretError::Unavailable(m)) && m@ == "Keychain read failed: "@ + text@
                },
            },
    {
        match read {
            Ok(b) => Ok(Some(b)),
            Err((code, text)) => {
                if code == KEYCHAIN_ITEM_NOT_FOUND {
                    Ok(None)
                } else {
                    let mut m = String::new();
                    push_str(&mut m, "Keychain read failed: ");
                    push_str(&mut m, text.as_str());
                    Err(SecretError::Unavailable(m))
                }
            },
        }
    }

    /// The outcome of a Keychain write, given the failure's text if any.
    pub fn set_outcome(write: Result<(), String>) -> (r: Result<(), SecretError>)
        ensures
            match write {
                Ok(()) => r is Ok,
                Err(text) => r matches Err(SecretError::Unavailable(m)) && m@ == "Keychain write failed: "@ + text@,
            },
    {
        match write {
            Ok(()) => Ok(()),
            Err(text) => {
                let mut m = String::new();
                push_str(&mut m, "Keychain write failed: ");
                push_str(&mut m, text.as_str());
                Err(SecretError::Unavailable(m))
            },
        }
    }

    /// The outcome of a Keychain delete: a missing item counts as deleted.
    pub fn delete_outcome(delete: Result<(), (i32, String)>) -> (r: Result<(), SecretError>)
        ensures
            match delete {
                Ok(()) => r is Ok,
                Err((code, text)) => if code == KEYCHAIN_ITEM_NOT_FOUND {
                    r is Ok
                } else {
                    r matches Err(SecretError::Unavailable(m)) && m@ == "Keychain delete failed: "@ + text@
                },
            },
    {
        match delete {
            Ok(()) => Ok(()),
            Err((code, text)) => {
                if code == KEYCHAIN_ITEM_NOT_FOUND {
                    Ok(())
                } else {
                    let mut m = String::new();
                    push_str(&mut m, "Keychain delete failed: ");
                    push_str(&mut m, text.as_str());
                    Err(SecretError::Unavailable(m))
                }
            },
        }
    }
}

/// The operating systems that thane tells apart.
#[derive(Debug, Clone, Copy, PartialEq, Eq, Structural)]
pub enum Platform {
    Linux,
    MacOs,
    /// Any other system, where secrets live in memory only.
    Other,
}

/// The human-readable name of the platform's secret-store backend.
pub open spec fn backend_name_spec(platform: Platform) -> Seq<char> {
    match platform {
        Platform::MacOs => "Keychain"@,
        Platform::Linux => "Secret Service / local fallback"@,
        Platform::Other => "in-memory (test) store"@,
    }
}

/// The human-readable name of the secret-store backend on `platform`, as
/// the audit-encryption settings show it; Linux can fall back from the
/// Secret Service to the encrypted-file store at runtime, so both are named.
pub fn default_secret_store_backend_name(platform: Platform) -> (r: &'static str)
    ensures
        r@ == backend_name_spec(platform),
{
    match platform {
        Platform::MacOs => "Keychain",
        Platform::Linux => "Secret Service / local fallback",
        Platform::Other => "in-memory (test) store",
    }
}

} // verus!
