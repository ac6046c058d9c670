//! The audit log on disk: the encrypted file format of rotated logs, and the
//! decisions of the audit store — file names, rotation, retention and load
//! order.
//!
//! The active `audit.jsonl` stays plaintext; a rotated file gets a single
//! encryption pass into `audit.N.jsonl.enc`, laid out as the magic
//! `THANEAUD`, the version byte `1`, a 12-byte nonce and the AES-256-GCM
//! ciphertext with its tag.
use vstd::prelude::*;

use crate::crypto::{
    aead_error_text, aes256gcm_decrypt, aes256gcm_encrypt, aes256gcm_open, aes256gcm_seal,
    bytes_range, fresh_nonce, max_plaintext_len, nonce_at, push_bytes, NONCE_LEN, TAG_LEN,
};
use crate::dirs::{join_path, path_join};
use crate::paths::{has_extension, path_extension};
use crate::text::{decimal, push_decimal, push_str};
use crate::timestamp::{before, days_before, days_before_secs, days_before_spec, is_before, Timestamp, EARLIEST_SECS};

verus! {

// ---------------------------------------------------------------------------
// The encrypted file format
// ---------------------------------------------------------------------------

/// The on-disk format version.
pub const VERSION: u8 = 1;

/// The offset of the ciphertext: magic, version byte and nonce.
pub const HEADER_LEN: usize = 8 + 1 + NONCE_LEN;

/// The eight magic bytes `THANEAUD` that open an encrypted audit file.
pub open spec fn magic_spec() -> Seq<u8> {
    seq![84u8, 72u8, 65u8, 78u8, 69u8, 65u8, 85u8, 68u8]
}

/// The eight magic bytes `THANEAUD`.
pub fn magic() -> (r: [u8; 8])
    ensures
        r@ == magic_spec(),
{
    let r: [u8; 8] = [84, 72, 65, 78, 69, 65, 85, 68];
    assert(r@ =~= magic_spec());
    r
}

/// An encrypted audit file: magic, version, nonce, then the ciphertext.
pub open spec fn audit_frame(nonce: Seq<u8>, ciphertext: Seq<u8>) -> Seq<u8> {
    magic_spec() + seq![VERSION] + nonce + ciphertext
}

/// The ways reading or writing an encrypted audit file fails.
#[derive(Debug)]
pub enum CryptoError {
    /// The file could not be read or written.
    Io(String),
    /// The ciphertext did not authenticate: wrong key or tampered file.
    AuthenticationFailed,
    /// The file is shorter than the header.
    Truncated { len: u64 },
    /// The file does not start with the magic bytes.
    BadMagic { got: [u8; 8] },
    /// The file has a format version that this build does not read.
    UnsupportedVersion { got: u8, expected: u8 },
    /// The cipher refused to encrypt.
    EncryptionFailed(String),
}

/// The numbers of a byte list separated by `, ` (the inside of its `Debug`
/// text).
pub open spec fn byte_list(s: Seq<u8>) -> Seq<char>
    decreases s.len(),
{
    if s.len() == 0 {
        Seq::empty()
    } else if s.len() == 1 {
        decimal(s[0] as nat)
    } else {
        byte_list(s.drop_last()) + ", "@ + decimal(s.last() as nat)
    }
}

/// The `Debug` text of a byte array: `[1, 2, 3]`.
pub open spec fn debug_bytes(s: Seq<u8>) -> Seq<char> {
    "["@ + byte_list(s) + "]"@
}

/// Appends the `Debug` text of a byte array to `out`.
fn push_debug_bytes(out: &mut String, b: &[u8])
    ensures
        final(out)@ == old(out)@ + debug_bytes(b@),
{
    push_str(out, "[");
    let ghost start = out@;
    let mut i: usize = 0;
    while i < b.len()
        invariant
            0 <= i <= b@.len(),
            out@ == start + byte_list(b@.take(i as int)),
        decreases b.len() - i,
    {
        if i > 0 {
            push_str(out, ", ");
        }
        push_decimal(out, b[i] as u64);
        proof {
            let t = b@.take(i + 1);
            assert(t.drop_last() =~= b@.take(i as int));
            assert(t.last() == b@[i as int]);
            if i == 0 {
                assert(b@.take(0) =~= Seq::<u8>::empty());
            }
        }
        i = i + 1;
    }
    assert(b@.take(b@.len() as int) =~= b@);
    push_str(out, "]");
}

impl CryptoError {
    /// The human-readable description of the error.
    pub fn message(&self) -> (r: String)
        ensures
            r@ == match self {
                CryptoError::Io(e) => "IO error: "@ + e@,
                CryptoError::AuthenticationFailed =>
                    "ciphertext authentication failed (wrong key or tampered file)"@,
                CryptoError::Truncated { len } => "file is too short to be a thane-encrypted audit log ("@
                    + decimal(*len as nat) + " bytes)"@,
                CryptoError::BadMagic { got } => "bad magic: expected THANEAUD, got "@ + debug_bytes(got@),
                CryptoError::UnsupportedVersion { got, expected } => "unsupported file format version "@
                    + decimal(*got as nat) + " (this build understands "@ + decimal(*expected as nat) + ")"@,
                CryptoError::EncryptionFailed(e) => "encryption failed: "@ + e@,
            },
    {
        let mut r = String::new();
        match self {
            CryptoError::Io(e) => {
                push_str(&mut r, "IO error: ");
                push_str(&mut r, e.as_str());
            },
            CryptoError::AuthenticationFailed => {
                push_str(&mut r, "ciphertext authentication failed (wrong key or tampered file)");
            },
            CryptoError::Truncated { len } => {
                push_str(&mut r, "file is too short to be a thane-encrypted audit log (");
                push_decimal(&mut r, *len);
                push_str(&mut r, " bytes)");
            },
            CryptoError::BadMagic { got } => {
                push_str(&mut r, "bad magic: expected THANEAUD, got ");
                push_debug_bytes(&mut r, got);
            },
            CryptoError::UnsupportedVersion { got, expected } => {
                push_str(&mut r, "unsupported file format version ");
                push_decimal(&mut r, *got as u64);
                push_str(&mut r, " (this build understands ");
                push_decimal(&mut r, *expected as u64);
                push_str(&mut r, ")");
            },
            CryptoError::EncryptionFailed(e) => {
                push_str(&mut r, "encryption failed: ");
                push_str(&mut r, e.as_str());
            },
        }
        assert(Seq::<char>::empty() + "a"@ == "a"@);
        r
    }
}

/// Encrypts the bytes of an audit log under `key` with the given nonce and
/// frames them as an encrypted audit file: the magic bytes, the format
/// version, the nonce and the sealed plaintext with its tag, so the file is
/// `HEADER_LEN + plaintext + TAG_LEN` bytes long. Only a plaintext beyond the
/// cipher's limit is refused.
pub fn seal_audit_bytes_with_nonce(plaintext: &[u8], key: &[u8; 32], nonce: &[u8; 12]) -> (r: Result<
    Vec<u8>,
    CryptoError,
>)
    ensures
        plaintext@.len() <= max_plaintext_len() <==> r is Ok,
        match r {
            Ok(file) => file@ == audit_frame(nonce@, aes256gcm_seal(key@, nonce@, plaintext@))
                && file@.len() == HEADER_LEN + plaintext@.len() + TAG_LEN,
            Err(e) => e matches CryptoError::EncryptionFailed(m) && m@ == aead_error_text(),
        },
{
    match aes256gcm_encrypt(key, nonce, plaintext) {
        Err(e) => Err(CryptoError::EncryptionFailed(e)),
        Ok(ciphertext) => {
            let m = magic();
            let mut file: Vec<u8> = Vec::new();
            push_bytes(&mut file, &m);
            file.push(VERSION);
            push_bytes(&mut file, nonce);
            push_bytes(&mut file, ciphertext.as_slice());
            assert(file@ =~= audit_frame(nonce@, aes256gcm_seal(key@, nonce@, plaintext@)));
            Ok(file)
        },
    }
}

/// Encrypts the bytes of an audit log under `key` with a fresh nonce from
/// the operating system's generator and frames them as an encrypted audit
/// file.
///
/// Whatever nonce the generator gave, the file is the frame of that nonce
/// and of the plaintext sealed under it, `HEADER_LEN + plaintext + TAG_LEN`
/// bytes long; only a plaintext beyond the cipher's limit is refused.
pub fn seal_audit_bytes(plaintext: &[u8], key: &[u8; 32]) -> (r: Result<Vec<u8>, CryptoError>)
    ensures
        plaintext@.len() <= max_plaintext_len() <==> r is Ok,
        match r {
            Ok(file) => file@.len() == HEADER_LEN + plaintext@.len() + TAG_LEN && exists|nonce: Seq<u8>|
                nonce.len() == NONCE_LEN && #[trigger] audit_frame(nonce, aes256gcm_seal(key@, nonce, plaintext@))
                    == file@,
            Err(e) => e matches CryptoError::EncryptionFailed(m) && m@ == aead_error_text(),
        },
{
    let nonce = fresh_nonce();
    seal_audit_bytes_with_nonce(plaintext, key, &nonce)
}

/// Whether the first eight bytes of `b` are the magic bytes.
fn has_magic(b: &[u8]) -> (r: bool)
    requires
        b@.len() >= 8,
    ensures
        r == (b@.take(8) == magic_spec()),
{
    let m = magic();
    let mut i: usize = 0;
    while i < 8
        invariant
            0 <= i <= 8,
            b@.len() >= 8,
            m@ == magic_spec(),
            forall|j: int| 0 <= j < i ==> b@[j] == magic_spec()[j],
        decreases 8 - i,
    {
        if b[i] != m[i] {
            assert(b@.take(8)[i as int] != magic_spec()[i as int]);
            return false;
        }
        i = i + 1;
    }
    assert(b@.take(8) =~= magic_spec());
    true
}

/// Reads an encrypted audit file's bytes back to the plaintext.
///
/// A file shorter than the header is truncated; one that does not open with
/// the magic bytes, or carries another version, is refused as such; then the
/// ciphertext is opened under the key and the nonce of the header. A file
/// that `seal_audit_bytes` made of a plaintext under this key opens to that
/// plaintext.
pub fn open_audit_bytes(bytes: &[u8], key: &[u8; 32]) -> (r: Result<Vec<u8>, CryptoError>)
    requires
        bytes@.len() <= u64::MAX,
    ensures
        bytes@.len() < HEADER_LEN ==> (r matches Err(CryptoError::Truncated { len }) && len == bytes@.len()),
        bytes@.len() >= HEADER_LEN && bytes@.take(8) != magic_spec() ==> (r matches Err(
            CryptoError::BadMagic { got },
        ) && got@ == bytes@.take(8)),
        bytes@.len() >= HEADER_LEN && bytes@.take(8) == magic_spec() && bytes@[8] != VERSION ==> (r matches Err(
            CryptoError::UnsupportedVersion { got, expected },
        ) && got == bytes@[8] && expected == VERSION),
        bytes@.len() >= HEADER_LEN && bytes@.take(8) == magic_spec() && bytes@[8] == VERSION ==> match aes256gcm_open(
            key@,
            bytes@.subrange(9, HEADER_LEN as int),
            bytes@.skip(HEADER_LEN as int),
        ) {
            Some(p) => r matches Ok(q) && q@ == p,
            None => r matches Err(CryptoError::AuthenticationFailed),
        },
        forall|nonce: Seq<u8>, p: Seq<u8>|
            nonce.len() == NONCE_LEN && p.len() <= max_plaintext_len() && bytes@ == #[trigger] audit_frame(
                nonce,
                aes256gcm_seal(key@, nonce, p),
            ) ==> (r matches Ok(q) && q@ == p),
{
    if bytes.len() < HEADER_LEN {
        return Err(CryptoError::Truncated { len: bytes.len() as u64 });
    }
    if !has_magic(bytes) {
        let got: [u8; 8] = [bytes[0], bytes[1], bytes[2], bytes[3], bytes[4], bytes[5], bytes[6], bytes[7]];
        assert(got@ =~= bytes@.take(8));
        return Err(CryptoError::BadMagic { got });
    }
    let version = bytes[8];
    if version != VERSION {
        return Err(CryptoError::UnsupportedVersion { got: version, expected: VERSION });
    }
    let nonce = nonce_at(bytes, 9);
    let ciphertext = bytes_range(bytes, HEADER_LEN, bytes.len());
    assert(ciphertext@ =~= bytes@.skip(HEADER_LEN as int));
    proof {
        assert forall|n: Seq<u8>, p: Seq<u8>|
            n.len() == NONCE_LEN && bytes@ == #[trigger] audit_frame(n, aes256gcm_seal(key@, n, p)) implies n
            == nonce@ && ciphertext@ == aes256gcm_seal(key@, n, p) by {
            let f = audit_frame(n, aes256gcm_seal(key@, n, p));
            assert(f.subrange(9, HEADER_LEN as int) =~= n);
            assert(f.skip(HEADER_LEN as int) =~= aes256gcm_seal(key@, n, p));
        }
    }
    match aes256gcm_decrypt(key, &nonce, ciphertext.as_slice()) {
        Ok(p) => Ok(p),
        Err(_) => Err(CryptoError::AuthenticationFailed),
    }
}

// ---------------------------------------------------------------------------
// The audit store
// ---------------------------------------------------------------------------

/// The size at which the active log is rotated (5 MB).
pub const MAX_FILE_SIZE: u64 = 5 * 1024 * 1024;

/// The number of rotated files kept.
pub const MAX_ROTATED_FILES: usize = 5;

/// The retention window of a new store, in days.
pub const DEFAULT_RETENTION_DAYS: u32 = 90;

/// The file-based audit log: the active `audit.jsonl`, plus up to five
/// rotated files `audit.N.jsonl` (or `audit.N.jsonl.enc` where rotation
/// encrypts), `N` from 1 (newest) to 5 (oldest).
pub struct AuditStore {
    dir: String,
    /// Days to keep rotated files; `0` keeps them forever.
    retention_days: u32,
    /// The AES-256-GCM key for rotated files, where rotation encrypts.
    encryption_key: Option<[u8; 32]>,
}

/// What is on disk at one rotated slot.
#[derive(Debug, Clone, Copy, PartialEq, Eq, Structural)]
pub struct SlotFiles {
    /// Whether `audit.N.jsonl.enc` exists.
    pub encrypted: bool,
    /// Whether `audit.N.jsonl` exists.
    pub plaintext: bool,
}

/// A file operation that the store asks of the file system.
#[derive(Debug)]
pub enum FileAction {
    /// Delete the file.
    Remove(String),
    /// Rename `from` to `to`, replacing `to`.
    Rename { from: String, to: String },
    /// Encrypt `from` into `to` (see `seal_audit_bytes`) and delete `from`.
    Encrypt { from: String, to: String },
}

/// A file operation, over the paths' text.
pub ghost enum ActionView {
    Remove(Seq<char>),
    Rename(Seq<char>, Seq<char>),
    Encrypt(Seq<char>, Seq<char>),
}

impl View for FileAction {
    type V = ActionView;

    open spec fn view(&self) -> ActionView {
        match self {
            FileAction::Remove(p) => ActionView::Remove(p@),
            FileAction::Rename { from, to } => ActionView::Rename(from@, to@),
            FileAction::Encrypt { from, to } => ActionView::Encrypt(from@, to@),
        }
    }
}

/// The views of a list of file actions.
pub open spec fn actions_view(v: Seq<FileAction>) -> Seq<ActionView> {
    v.map_values(|a: FileAction| a@)
}

/// The active log: `audit.jsonl` in the store's directory.
pub open spec fn current_path(dir: Seq<char>) -> Seq<char> {
    path_join(dir, "audit.jsonl"@)
}

/// The plaintext rotated file at slot `n`: `audit.<n>.jsonl`.
pub open spec fn plaintext_path(dir: Seq<char>, n: nat) -> Seq<char> {
    path_join(dir, "audit."@ + decimal(n) + ".jsonl"@)
}

/// The encrypted rotated file at slot `n`: `audit.<n>.jsonl.enc`.
pub open spec fn encrypted_path(dir: Seq<char>, n: nat) -> Seq<char> {
    path_join(dir, "audit."@ + decimal(n) + ".jsonl.enc"@)
}

/// The rotated file on disk at slot `n`, the encrypted one first.
pub open spec fn found_rotated(dir: Seq<char>, n: nat, slot: SlotFiles) -> Option<Seq<char>> {
    if slot.encrypted {
        Some(encrypted_path(dir, n))
    } else if slot.plaintext {
        Some(plaintext_path(dir, n))
    } else {
        None
    }
}

/// Whether a path names an encrypted audit file: its extension is `enc`.
pub open spec fn is_encrypted_path_spec(path: Seq<char>) -> bool {
    path_extension(path) == Some("enc"@)
}

/// Whether a path names an encrypted audit file (its extension is `enc`).
pub fn is_encrypted_path(path: &str) -> (r: bool)
    ensures
        r == is_encrypted_path_spec(path@),
{
    proof {
        reveal_strlit("enc");
    }
    has_extension(path, "enc")
}

/// Rotation's first step: the oldest slot's file is deleted, whichever kind
/// it is.
pub open spec fn drop_oldest(dir: Seq<char>, oldest: SlotFiles) -> Seq<ActionView> {
    match found_rotated(dir, MAX_ROTATED_FILES as nat, oldest) {
        Some(p) => seq![ActionView::Remove(p)],
        None => Seq::empty(),
    }
}

/// Rotation's shift of slot `n` to slot `n + 1`, keeping the file's kind.
pub open spec fn shift_slot(dir: Seq<char>, n: nat, slot: SlotFiles) -> Seq<ActionView> {
    match found_rotated(dir, n, slot) {
        Some(from) => seq![ActionView::Rename(
            from,
            if is_encrypted_path_spec(from) {
                encrypted_path(dir, n + 1)
            } else {
                plaintext_path(dir, n + 1)
            },
        )],
        None => Seq::empty(),
    }
}

/// The shifts of slots `n`, `n - 1`, ..., `1`, in that order.
pub open spec fn shift_slots(dir: Seq<char>, slots: Seq<SlotFiles>, n: nat) -> Seq<ActionView>
    decreases n,
{
    if n == 0 {
        Seq::empty()
    } else {
        shift_slot(dir, n, slots[n - 1]) + shift_slots(dir, slots, (n - 1) as nat)
    }
}

/// Rotation's last step: the active log becomes slot 1, encrypted where the
/// store has a key.
pub open spec fn retire_current(dir: Seq<char>, encrypting: bool, current_exists: bool) -> Seq<ActionView> {
    if !current_exists {
        Seq::empty()
    } else if encrypting {
        seq![ActionView::Encrypt(current_path(dir), encrypted_path(dir, 1))]
    } else {
        seq![ActionView::Rename(current_path(dir), plaintext_path(dir, 1))]
    }
}

/// The file operations of a rotation, in order, for the slots as they are
/// on disk (`slots[n - 1]` for slot `n`).
pub open spec fn rotation_spec(dir: Seq<char>, encrypting: bool, slots: Seq<SlotFiles>, current_exists: bool) -> Seq<
    ActionView,
> {
    drop_oldest(dir, slots[MAX_ROTATED_FILES - 1]) + shift_slots(dir, slots, (MAX_ROTATED_FILES - 1) as nat)
        + retire_current(dir, encrypting, current_exists)
}

/// The shifts of slots `m` down to 1 hold the shift of every slot `n <= m`.
proof fn lemma_shift_slots_contains(dir: Seq<char>, slots: Seq<SlotFiles>, m: nat, n: nat)
    requires
        1 <= n <= m <= slots.len(),
        found_rotated(dir, n, slots[n - 1]) is Some,
    ensures
        shift_slots(dir, slots, m).contains(shift_slot(dir, n, slots[n - 1])[0]),
    decreases m,
{
    let here = shift_slot(dir, m, slots[m - 1]);
    let rest = shift_slots(dir, slots, (m - 1) as nat);
    if n == m {
        assert((here + rest)[0] == here[0]);
    } else {
        lemma_shift_slots_contains(dir, slots, (m - 1) as nat, n);
        let k = choose|k: int| 0 <= k < rest.len() && rest[k] == shift_slot(dir, n, slots[n - 1])[0];
        assert((here + rest)[here.len() + k] == rest[k]);
    }
}

/// Rotation keeps every log: the oldest rotated file (slot 5) is the one
/// deleted, and first; every other rotated file moves up one slot, keeping
/// its kind (encrypted or plaintext); and the active log, where there is
/// one, becomes slot 1 last, encrypted into `audit.1.jsonl.enc` when the
/// store has a key and renamed to `audit.1.jsonl` otherwise.
pub proof fn lemma_rotation_moves_every_log(
    dir: Seq<char>,
    encrypting: bool,
    slots: Seq<SlotFiles>,
    current_exists: bool,
    n: nat,
)
    requires
        slots.len() == MAX_ROTATED_FILES,
    ensures
        found_rotated(dir, 5, slots[4]) matches Some(p) ==> rotation_spec(dir, encrypting, slots, current_exists)[0]
            == ActionView::Remove(p),
        1 <= n < 5 && found_rotated(dir, n, slots[n - 1]) is Some ==> rotation_spec(
            dir,
            encrypting,
            slots,
            current_exists,
        ).contains(
            ActionView::Rename(
                found_rotated(dir, n, slots[n - 1])->Some_0,
                if is_encrypted_path_spec(found_rotated(dir, n, slots[n - 1])->Some_0) {
                    encrypted_path(dir, n + 1)
                } else {
                    plaintext_path(dir, n + 1)
                },
            ),
        ),
        current_exists && encrypting ==> rotation_spec(dir, encrypting, slots, current_exists).last()
            == ActionView::Encrypt(current_path(dir), encrypted_path(dir, 1)),
        current_exists && !encrypting ==> rotation_spec(dir, encrypting, slots, current_exists).last()
            == ActionView::Rename(current_path(dir), plaintext_path(dir, 1)),
{
    let a = drop_oldest(dir, slots[4]);
    let b = shift_slots(dir, slots, 4);
    let c = retire_current(dir, encrypting, current_exists);
    let plan = rotation_spec(dir, encrypting, slots, current_exists);
    assert(plan == a + b + c);
    if let Some(p) = found_rotated(dir, 5, slots[4]) {
        assert(plan[0] == a[0]);
    }
    if 1 <= n < 5 && found_rotated(dir, n, slots[n - 1]) is Some {
        lemma_shift_slots_contains(dir, slots, 4, n);
        let k = choose|k: int| 0 <= k < b.len() && b[k] == shift_slot(dir, n, slots[n - 1])[0];
        assert(plan[a.len() + k] == b[k]);
    }
    if current_exists {
        assert(plan.last() == c.last());
    }
}

/// Whether a rotated file whose newest event is `newest` is past the
/// retention window at `now`: never with retention `0` or without events.
pub open spec fn expired_spec(retention_days: u32, now: Timestamp, newest: Option<Timestamp>) -> bool {
    retention_days != 0 && match newest {
        Some(t) => is_before(t, days_before_spec(now, retention_days as int)),
        None => false,
    }
}

/// The latest of a list of timestamps.
pub open spec fn latest(ts: Seq<Timestamp>) -> Option<Timestamp>
    decreases ts.len(),
{
    if ts.len() == 0 {
        None
    } else {
        match latest(ts.drop_last()) {
            None => Some(ts.last()),
            Some(m) => if is_before(m, ts.last()) {
                Some(ts.last())
            } else {
                Some(m)
            },
        }
    }
}

/// The sum of the sizes that are known.
pub open spec fn known_total(sizes: Seq<Option<u64>>) -> nat
    decreases sizes.len(),
{
    if sizes.len() == 0 {
        0
    } else {
        known_total(sizes.drop_last()) + match sizes.last() {
            Some(n) => n as nat,
            None => 0,
        }
    }
}

/// The error of a store operation.
#[derive(Debug)]
pub enum AuditStoreError {
    /// A file could not be read or written.
    Io(String),
    /// An event could not be serialised or parsed.
    Json(String),
    /// An encrypted file could not be read.
    Crypto(CryptoError),
    /// An encrypted file was met, but the store has no key.
    EncryptedFileButNoKey { path: String },
}

/// How an existing audit file is read.
#[derive(Debug)]
pub enum AuditRead {
    /// The file holds the events as plaintext.
    Plain,
    /// The file is encrypted; open it with this key (`open_audit_bytes`).
    Decrypt([u8; 32]),
}

/// How an existing audit file at `path` is read: an encrypted file needs
/// the key, a plaintext one is read as it is.
pub fn audit_read_mode(path: &str, key: Option<[u8; 32]>) -> (r: Result<AuditRead, AuditStoreError>)
    ensures
        !is_encrypted_path_spec(path@) ==> r matches Ok(AuditRead::Plain),
        is_encrypted_path_spec(path@) && key is None ==> (r matches Err(
            AuditStoreError::EncryptedFileButNoKey { path: p },
        ) && p@ == path@),
        is_encrypted_path_spec(path@) && key is Some ==> (r matches Ok(AuditRead::Decrypt(k)) && key == Some(k)),
{
    if is_encrypted_path(path) {
        match key {
            None => Err(AuditStoreError::EncryptedFileButNoKey { path: path.to_owned() }),
            Some(k) => Ok(AuditRead::Decrypt(k)),
        }
    } else {
        Ok(AuditRead::Plain)
    }
}

/// The newest of a file's event times is one of them and no event is
/// later (by second, then by sub-second part); there is none only for a file
/// without events.
pub proof fn lemma_latest_is_newest(ts: Seq<Timestamp>)
    ensures
        latest(ts) is None <==> ts.len() == 0,
        latest(ts) matches Some(m) ==> ts.contains(m) && forall|i: int|
            0 <= i < ts.len() ==> !((#[trigger] ts[i]).secs > m.secs || (ts[i].secs == m.secs && ts[i].nanos
                > m.nanos)),
    decreases ts.len(),
{
    if ts.len() > 0 {
        let prev = ts.drop_last();
        lemma_latest_is_newest(prev);
        assert forall|i: int| 0 <= i < prev.len() implies #[trigger] prev[i] == ts[i] by {}
        let n = ts.len() - 1;
        assert(ts[n] == ts.last());
        let r = latest(ts)->Some_0;
        match latest(prev) {
            None => {
                assert(prev.len() == 0);
                assert(r == ts.last());
            },
            Some(m) => {
                let k = choose|k: int| 0 <= k < prev.len() && prev[k] == m;
                assert(ts[k] == m);
            },
        }
        assert(ts.contains(r));
        assert forall|i: int| 0 <= i < ts.len() implies !((#[trigger] ts[i]).secs > r.secs || (ts[i].secs
            == r.secs && ts[i].nanos > r.nanos)) by {
            if i < n {
                assert(ts[i] == prev[i]);
            }
        }
    }
}

/// The latest of the events' timestamps, if there is any event.
pub fn newest_timestamp(ts: &[Timestamp]) -> (r: Option<Timestamp>)
    ensures
        r == latest(ts@),
{
    let mut best: Option<Timestamp> = None;
    let mut i: usize = 0;
    while i < ts.len()
        invariant
            0 <= i <= ts@.len(),
            best == latest(ts@.take(i as int)),
        decreases ts.len() - i,
    {
        assert(ts@.take(i + 1).drop_last() =~= ts@.take(i as int));
        let t = ts[i];
        best = match best {
            None => Some(t),
            Some(m) => if before(m, t) {
                Some(t)
            } else {
                Some(m)
            },
        };
        i = i + 1;
    }
    assert(ts@.take(ts@.len() as int) =~= ts@);
    best
}

impl AuditStore {
    /// The store's directory.
    pub closed spec fn dir_spec(&self) -> Seq<char> {
        self.dir@
    }

    /// The store's retention window, in days.
    pub closed spec fn retention_spec(&self) -> u32 {
        self.retention_days
    }

    /// The store's key for rotated files.
    pub closed spec fn key_spec(&self) -> Option<[u8; 32]> {
        self.encryption_key
    }

    /// A store in `dir` that keeps rotated files for 90 days, unencrypted.
    pub fn new(dir: String) -> (r: Self)
        ensures
            r.dir_spec() == dir@,
            r.retention_spec() == DEFAULT_RETENTION_DAYS,
            r.key_spec() is None,
    {
        AuditStore { dir, retention_days: DEFAULT_RETENTION_DAYS, encryption_key: None }
    }

    /// The store with another retention window; `0` disables purging.
    pub fn with_retention_days(self, days: u32) -> (r: Self)
        ensures
            r.dir_spec() == self.dir_spec(),
            r.retention_spec() == days,
            r.key_spec() == self.key_spec(),
    {
        AuditStore { retention_days: days, ..self }
    }

    /// The retention window, in days.
    pub fn retention_days(&self) -> (r: u32)
        ensures
            r == self.retention_spec(),
    {
        self.retention_days
    }

    /// The store with rotated-file encryption enabled (`Some(key)`) or
    /// disabled (`None`).
    pub fn with_encryption_key(self, key: Option<[u8; 32]>) -> (r: Self)
        ensures
            r.dir_spec() == self.dir_spec(),
            r.retention_spec() == self.retention_spec(),
            r.key_spec() == key,
    {
        AuditStore { encryption_key: key, ..self }
    }

    /// Whether rotated files are encrypted.
    pub fn encryption_enabled(&self) -> (r: bool)
        ensures
            r == self.key_spec() is Some,
    {
        self.encryption_key.is_some()
    }

    /// The key for rotated files, where rotation encrypts.
    pub fn encryption_key(&self) -> (r: Option<[u8; 32]>)
        ensures
            r == self.key_spec(),
    {
        self.encryption_key
    }

    /// The active log file.
    pub fn current_file(&self) -> (r: String)
        ensures
            r@ == current_path(self.dir_spec()),
    {
        proof {
            reveal_strlit("audit.jsonl");
        }
        join_path(self.dir.as_str(), "audit.jsonl")
    }

    /// The plaintext rotated file at slot `n`.
    pub fn plaintext_rotated_file(&self, n: usize) -> (r: String)
        ensures
            r@ == plaintext_path(self.dir_spec(), n as nat),
    {
        let mut name = String::new();
        push_str(&mut name, "audit.");
        push_decimal(&mut name, n as u64);
        push_str(&mut name, ".jsonl");
        proof {
            assert(name@ =~= "audit."@ + decimal(n as nat) + ".jsonl"@);
        }
        join_path(self.dir.as_str(), name.as_str())
    }

    /// The encrypted rotated file at slot `n`.
    pub fn encrypted_rotated_file(&self, n: usize) -> (r: String)
        ensures
            r@ == encrypted_path(self.dir_spec(), n as nat),
    {
        let mut name = String::new();
        push_str(&mut name, "audit.");
        push_decimal(&mut name, n as u64);
        push_str(&mut name, ".jsonl.enc");
        proof {
            assert(name@ =~= "audit."@ + decimal(n as nat) + ".jsonl.enc"@);
        }
        join_path(self.dir.as_str(), name.as_str())
    }

    /// Both possible files at slot `n`: the encrypted one, then the
    /// plaintext one.
    pub fn both_rotated_paths(&self, n: usize) -> (r: [String; 2])
        ensures
            r[0]@ == encrypted_path(self.dir_spec(), n as nat),
            r[1]@ == plaintext_path(self.dir_spec(), n as nat),
    {
        [self.encrypted_rotated_file(n), self.plaintext_rotated_file(n)]
    }

    /// The rotated file on disk at slot `n`, the encrypted one first, given
    /// which of the two exist.
    pub fn find_rotated_file(&self, n: usize, slot: SlotFiles) -> (r: Option<String>)
        ensures
            match r {
                Some(p) => found_rotated(self.dir_spec(), n as nat, slot) == Some(p@),
                None => found_rotated(self.dir_spec(), n as nat, slot) is None,
            },
    {
        if slot.encrypted {
            Some(self.encrypted_rotated_file(n))
        } else if slot.plaintext {
            Some(self.plaintext_rotated_file(n))
        } else {
            None
        }
    }
}

/// The file found at a slot, as a list of at most one path.
pub open spec fn slot_file_list(found: Option<Seq<char>>) -> Seq<Seq<char>> {
    match found {
        Some(p) => seq![p],
        None => Seq::empty(),
    }
}

/// The rotated files that loading reads, oldest first: slots 5 down to 1.
pub open spec fn rotated_load_order(dir: Seq<char>, slots: Seq<SlotFiles>, n: nat) -> Seq<Seq<char>>
    decreases n,
{
    if n == 0 {
        Seq::empty()
    } else {
        slot_file_list(found_rotated(dir, n, slots[n - 1])) + rotated_load_order(dir, slots, (n - 1) as nat)
    }
}

/// The files that clearing removes at slots `1..=n`: at each slot the
/// encrypted file, then the plaintext one, where they exist.
pub open spec fn clear_slots(dir: Seq<char>, slots: Seq<SlotFiles>, n: nat) -> Seq<Seq<char>>
    decreases n,
{
    if n == 0 {
        Seq::empty()
    } else {
        clear_slots(dir, slots, (n - 1) as nat) + (if slots[n - 1].encrypted {
            seq![encrypted_path(dir, n)]
        } else {
            Seq::empty()
        }) + (if slots[n - 1].plaintext {
            seq![plaintext_path(dir, n)]
        } else {
            Seq::empty()
        })
    }
}

/// The migration step at slot `n`: a plaintext file is encrypted, unless
/// an encrypted file is already there, in which case the plaintext
/// straggler is deleted.
pub open spec fn migrate_slot(dir: Seq<char>, n: nat, slot: SlotFiles) -> Seq<ActionView> {
    if !slot.plaintext {
        Seq::empty()
    } else if slot.encrypted {
        seq![ActionView::Remove(plaintext_path(dir, n))]
    } else {
        seq![ActionView::Encrypt(plaintext_path(dir, n), encrypted_path(dir, n))]
    }
}

/// The migration steps at slots `1..=n`, in that order.
pub open spec fn migrate_slots(dir: Seq<char>, slots: Seq<SlotFiles>, n: nat) -> Seq<ActionView>
    decreases n,
{
    if n == 0 {
        Seq::empty()
    } else {
        migrate_slots(dir, slots, (n - 1) as nat) + migrate_slot(dir, n, slots[n - 1])
    }
}

impl AuditStore {
    /// The file operations of a rotation, in order, given what is on disk:
    /// the oldest rotated file is deleted, slots 4 down to 1 move up one
    /// slot keeping their kind, and the active log becomes slot 1, encrypted
    /// where the store has a key.
    pub fn rotation_plan(&self, slots: &[SlotFiles], current_exists: bool) -> (r: Vec<FileAction>)
        requires
            slots@.len() == MAX_ROTATED_FILES,
        ensures
            actions_view(r@) == rotation_spec(self.dir_spec(), self.key_spec() is Some, slots@, current_exists),
    {
        let mut plan: Vec<FileAction> = Vec::new();
        match self.find_rotated_file(MAX_ROTATED_FILES, slots[MAX_ROTATED_FILES - 1]) {
            Some(oldest) => plan.push(FileAction::Remove(oldest)),
            None => {},
        }
        let ghost head = actions_view(plan@);
        assert(head =~= drop_oldest(self.dir_spec(), slots@[MAX_ROTATED_FILES - 1]));
        assert(shift_slots(self.dir_spec(), slots@, 0) =~= Seq::<ActionView>::empty());
        let mut i: usize = MAX_ROTATED_FILES - 1;
        while i > 0
            invariant
                0 <= i <= MAX_ROTATED_FILES - 1,
                slots@.len() == MAX_ROTATED_FILES,
                head == drop_oldest(self.dir_spec(), slots@[MAX_ROTATED_FILES - 1]),
                shift_slots(self.dir_spec(), slots@, (MAX_ROTATED_FILES - 1) as nat) =~= actions_view(plan@).skip(
                    head.len() as int,
                ) + shift_slots(self.dir_spec(), slots@, i as nat),
                actions_view(plan@).take(head.len() as int) == head,
                actions_view(plan@).len() >= head.len(),
            decreases i,
        {
            let ghost before_plan = actions_view(plan@);
            match self.find_rotated_file(i, slots[i - 1]) {
                Some(from) => {
                    let to = if is_encrypted_path(from.as_str()) {
                        self.encrypted_rotated_file(i + 1)
                    } else {
                        self.plaintext_rotated_file(i + 1)
                    };
                    plan.push(FileAction::Rename { from, to });
                },
                None => {},
            }
            proof {
                let step = shift_slot(self.dir_spec(), i as nat, slots@[i - 1]);
                assert(actions_view(plan@) =~= before_plan + step);
                assert(shift_slots(self.dir_spec(), slots@, i as nat) == step + shift_slots(
                    self.dir_spec(),
                    slots@,
                    (i - 1) as nat,
                ));
                assert(actions_view(plan@).skip(head.len() as int) =~= before_plan.skip(head.len() as int) + step);
                assert(actions_view(plan@).take(head.len() as int) =~= before_plan.take(head.len() as int));
            }
            i = i - 1;
        }
        let ghost mid = actions_view(plan@);
        if current_exists {
            let current = self.current_file();
            if self.encryption_key.is_some() {
                plan.push(FileAction::Encrypt { from: current, to: self.encrypted_rotated_file(1) });
            } else {
                plan.push(FileAction::Rename { from: current, to: self.plaintext_rotated_file(1) });
            }
        }
        proof {
            assert(mid =~= head + shift_slots(self.dir_spec(), slots@, (MAX_ROTATED_FILES - 1) as nat)) by {
                assert(mid =~= mid.take(head.len() as int) + mid.skip(head.len() as int));
            }
            assert(actions_view(plan@) =~= mid + retire_current(
                self.dir_spec(),
                self.key_spec() is Some,
                current_exists,
            ));
        }
        plan
    }

    /// The files that loading reads, in order: the rotated files from the
    /// oldest slot to the newest, then the active log.
    pub fn load_order(&self, slots: &[SlotFiles]) -> (r: Vec<String>)
        requires
            slots@.len() == MAX_ROTATED_FILES,
        ensures
            r@.map_values(|p: String| p@) == rotated_load_order(self.dir_spec(), slots@, MAX_ROTATED_FILES as nat).push(
                current_path(self.dir_spec()),
            ),
    {
        let mut order: Vec<String> = Vec::new();
        let mut i: usize = MAX_ROTATED_FILES;
        while i > 0
            invariant
                0 <= i <= MAX_ROTATED_FILES,
                slots@.len() == MAX_ROTATED_FILES,
                rotated_load_order(self.dir_spec(), slots@, MAX_ROTATED_FILES as nat) =~= order@.map_values(
                    |p: String| p@,
                ) + rotated_load_order(self.dir_spec(), slots@, i as nat),
            decreases i,
        {
            let ghost prev = order@.map_values(|p: String| p@);
            match self.find_rotated_file(i, slots[i - 1]) {
                Some(p) => order.push(p),
                None => {},
            }
            assert(order@.map_values(|p: String| p@) =~= prev + slot_file_list(
                found_rotated(self.dir_spec(), i as nat, slots@[i - 1]),
            ));
            i = i - 1;
        }
        let ghost prev = order@.map_values(|p: String| p@);
        order.push(self.current_file());
        assert(order@.map_values(|p: String| p@) =~= prev.push(current_path(self.dir_spec())));
        order
    }

    /// The files that clearing the store removes, in order: the active log
    /// where it exists, then at each slot from 1 to 5 the encrypted and the
    /// plaintext file where they exist.
    pub fn clear_targets(&self, current_exists: bool, slots: &[SlotFiles]) -> (r: Vec<String>)
        requires
            slots@.len() == MAX_ROTATED_FILES,
        ensures
            r@.map_values(|p: String| p@) == (if current_exists {
                seq![current_path(self.dir_spec())]
            } else {
                Seq::empty()
            }) + clear_slots(self.dir_spec(), slots@, MAX_ROTATED_FILES as nat),
    {
        let mut targets: Vec<String> = Vec::new();
        if current_exists {
            targets.push(self.current_file());
        }
        let ghost first = targets@.map_values(|p: String| p@);
        let mut i: usize = 1;
        while i <= MAX_ROTATED_FILES
            invariant
                1 <= i <= MAX_ROTATED_FILES + 1,
                slots@.len() == MAX_ROTATED_FILES,
                targets@.map_values(|p: String| p@) =~= first + clear_slots(self.dir_spec(), slots@, (i - 1) as nat),
            decreases MAX_ROTATED_FILES + 1 - i,
        {
            let ghost prev = targets@.map_values(|p: String| p@);
            if slots[i - 1].encrypted {
                targets.push(self.encrypted_rotated_file(i));
            }
            let ghost mid = targets@.map_values(|p: String| p@);
            if slots[i - 1].plaintext {
                targets.push(self.plaintext_rotated_file(i));
            }
            assert(mid =~= prev + (if slots@[i - 1].encrypted {
                seq![encrypted_path(self.dir_spec(), i as nat)]
            } else {
                Seq::empty()
            }));
            assert(targets@.map_values(|p: String| p@) =~= mid + (if slots@[i - 1].plaintext {
                seq![plaintext_path(self.dir_spec(), i as nat)]
            } else {
                Seq::empty()
            }));
            i = i + 1;
        }
        targets
    }

    /// The migration of plaintext rotated files to encrypted ones: nothing
    /// without a key or without the directory; otherwise, slot by slot from
    /// 1 to 5, a plaintext file is encrypted in place, or deleted where an
    /// encrypted file already holds the slot.
    pub fn migration_plan(&self, dir_exists: bool, slots: &[SlotFiles]) -> (r: Vec<FileAction>)
        requires
            slots@.len() == MAX_ROTATED_FILES,
        ensures
            actions_view(r@) == if self.key_spec() is None || !dir_exists {
                Seq::empty()
            } else {
                migrate_slots(self.dir_spec(), slots@, MAX_ROTATED_FILES as nat)
            },
    {
        let mut plan: Vec<FileAction> = Vec::new();
        if self.encryption_key.is_none() || !dir_exists {
            assert(actions_view(plan@) =~= Seq::<ActionView>::empty());
            return plan;
        }
        let mut i: usize = 1;
        while i <= MAX_ROTATED_FILES
            invariant
                1 <= i <= MAX_ROTATED_FILES + 1,
                slots@.len() == MAX_ROTATED_FILES,
                actions_view(plan@) =~= migrate_slots(self.dir_spec(), slots@, (i - 1) as nat),
            decreases MAX_ROTATED_FILES + 1 - i,
        {
            let ghost prev = actions_view(plan@);
            let slot = slots[i - 1];
            if slot.plaintext {
                let plain = self.plaintext_rotated_file(i);
                if slot.encrypted {
                    plan.push(FileAction::Remove(plain));
                } else {
                    let enc = self.encrypted_rotated_file(i);
                    plan.push(FileAction::Encrypt { from: plain, to: enc });
                }
            }
            assert(actions_view(plan@) =~= prev + migrate_slot(self.dir_spec(), i as nat, slot));
            i = i + 1;
        }
        plan
    }

    /// Whether a rotated file whose newest event is `newest` is purged at
    /// `now`: only with a retention window, only a file with events, and
    /// only when its newest event is older than `now` minus the window.
    pub fn is_expired(&self, now: Timestamp, newest: Option<Timestamp>) -> (r: bool)
        requires
            self.retention_spec() != 0 ==> days_before_secs(now, self.retention_spec() as int) >= EARLIEST_SECS,
        ensures
            r == expired_spec(self.retention_spec(), now, newest),
    {
        if self.retention_days == 0 {
            return false;
        }
        let cutoff = days_before(now, self.retention_days);
        match newest {
            Some(t) => before(t, cutoff),
            None => false,
        }
    }

    /// The total size in bytes of the store's files, given the sizes that
    /// could be read: the active log's and each rotated file's.
    pub fn total_size(&self, current: Option<u64>, rotated: &[Option<u64>]) -> (r: u64)
        requires
            known_total(seq![current] + rotated@) <= u64::MAX,
        ensures
            r == known_total(seq![current] + rotated@),
    {
        let ghost all = seq![current] + rotated@;
        let mut size: u64 = match current {
            Some(n) => n,
            None => 0,
        };
        assert(all.take(1).drop_last() =~= Seq::<Option<u64>>::empty());
        assert(all.take(1).last() == current);
        assert(known_total(Seq::<Option<u64>>::empty()) == 0);
        let mut i: usize = 0;
        while i < rotated.len()
            invariant
                0 <= i <= rotated@.len(),
                all == seq![current] + rotated@,
                known_total(all) <= u64::MAX,
                size == known_total(all.take(i + 1)),
            decreases rotated.len() - i,
        {
            assert(all.take(i + 2).drop_last() =~= all.take(i + 1));
            proof {
                lemma_known_total_prefix(all, i + 2);
            }
            match rotated[i] {
                Some(n) => size = size + n,
                None => {},
            }
            i = i + 1;
        }
        assert(all.take(rotated@.len() + 1 as int) =~= all);
        size
    }
}

/// A prefix's known total is at most the whole's.
pub proof fn lemma_known_total_prefix(s: Seq<Option<u64>>, k: int)
    requires
        0 <= k <= s.len(),
    ensures
        known_total(s.take(k)) <= known_total(s),
    decreases s.len() - k,
{
    if k < s.len() {
        lemma_known_total_prefix(s, k + 1);
        assert(s.take(k + 1).drop_last() =~= s.take(k));
    } else {
        assert(s.take(k) =~= s);
    }
}

/// With a retention window of `0`, no rotated file ever expires.
pub proof fn lemma_retention_zero_keeps_all(now: Timestamp, newest: Option<Timestamp>)
    ensures
        !expired_spec(0, now, newest),
{
}

/// Expiry only grows with time: a file expired at `now` is expired at any
/// later moment too (for a `now` outside a leap second).
pub proof fn lemma_expiry_monotone(days: u32, now: Timestamp, later: Timestamp, newest: Option<Timestamp>)
    requires
        now.nanos < crate::timestamp::NANOS_PER_SEC,
        !is_before(later, now),
        days_before_secs(now, days as int) >= EARLIEST_SECS,
    ensures
        expired_spec(days, now, newest) ==> expired_spec(days, later, newest),
{
    if expired_spec(days, now, newest) {
        let t = newest->Some_0;
        let c1 = days_before_spec(now, days as int);
        let c2 = days_before_spec(later, days as int);
        assert(days >= 1);
        assert(c1.secs == now.secs - days * 86400);
        assert(days_before_secs(later, days as int) <= i64::MAX);
        assert(days_before_secs(later, days as int) >= days_before_secs(now, days as int));
        assert(c2.secs == days_before_secs(later, days as int));
        assert(!is_before(c2, c1));
    }
}

/// A file without events never expires, whatever the window and the time.
pub proof fn lemma_empty_file_kept(days: u32, now: Timestamp)
    ensures
        !expired_spec(days, now, None),
{
}

/// What a slot holds once its migration step has been carried out: a
/// plaintext file has become (or given way to) the encrypted one.
pub open spec fn migrated_slot(slot: SlotFiles) -> SlotFiles {
    SlotFiles { encrypted: slot.encrypted || slot.plaintext, plaintext: false }
}

/// What the slots hold once every migration step has been carried out.
pub open spec fn migrated_slots(slots: Seq<SlotFiles>) -> Seq<SlotFiles> {
    slots.map_values(|slot: SlotFiles| migrated_slot(slot))
}

/// Migrating slots that hold no plaintext file asks for nothing.
proof fn lemma_migrate_settled(dir: Seq<char>, slots: Seq<SlotFiles>, n: nat)
    requires
        n <= slots.len(),
        forall|i: int| 0 <= i < slots.len() ==> !(#[trigger] slots[i]).plaintext,
    ensures
        migrate_slots(dir, slots, n) == Seq::<ActionView>::empty(),
    decreases n,
{
    if n > 0 {
        lemma_migrate_settled(dir, slots, (n - 1) as nat);
        assert(!slots[n - 1].plaintext);
        assert(migrate_slots(dir, slots, (n - 1) as nat) + migrate_slot(dir, n, slots[n - 1]) =~= Seq::<
            ActionView,
        >::empty());
    }
}

/// The number of encryptions among file actions.
pub open spec fn encrypt_count(actions: Seq<ActionView>) -> nat
    decreases actions.len(),
{
    if actions.len() == 0 {
        0
    } else {
        encrypt_count(actions.drop_last()) + if actions.last() is Encrypt {
            1nat
        } else {
            0nat
        }
    }
}

/// The number of slots among `1..=n` that hold a plaintext file and no
/// encrypted one.
pub open spec fn plaintext_only_count(slots: Seq<SlotFiles>, n: nat) -> nat
    decreases n,
{
    if n == 0 {
        0
    } else {
        plaintext_only_count(slots, (n - 1) as nat) + if slots[n - 1].plaintext && !slots[n - 1].encrypted {
            1nat
        } else {
            0nat
        }
    }
}

/// The encryptions of two action lists one after the other add up.
proof fn lemma_encrypt_count_append(a: Seq<ActionView>, b: Seq<ActionView>)
    ensures
        encrypt_count(a + b) == encrypt_count(a) + encrypt_count(b),
    decreases b.len(),
{
    if b.len() == 0 {
        assert(a + b =~= a);
    } else {
        lemma_encrypt_count_append(a, b.drop_last());
        assert((a + b).drop_last() =~= a + b.drop_last());
    }
}

/// Migration encrypts exactly the slots that hold a plaintext file and no
/// encrypted one: where every encryption succeeds, that is the number it
/// reports.
pub proof fn lemma_migration_count(dir: Seq<char>, slots: Seq<SlotFiles>, n: nat)
    requires
        n <= slots.len(),
    ensures
        encrypt_count(migrate_slots(dir, slots, n)) == plaintext_only_count(slots, n),
    decreases n,
{
    if n > 0 {
        lemma_migration_count(dir, slots, (n - 1) as nat);
        let step = migrate_slot(dir, n, slots[n - 1]);
        lemma_encrypt_count_append(migrate_slots(dir, slots, (n - 1) as nat), step);
        if step.len() == 1 {
            assert(step.drop_last() =~= Seq::<ActionView>::empty());
        }
        assert(encrypt_count(Seq::<ActionView>::empty()) == 0);
    }
}

/// Migration settles the slots: once its steps have been carried out, a
/// second migration asks for nothing. Loading reads the same slots as
/// before: a slot that held an encrypted file is read from that file, a slot
/// that held only a plaintext file is read from the encrypted file that its
/// migration step made of that plaintext, and an empty slot stays empty.
pub proof fn lemma_migration_settles(dir: Seq<char>, slots: Seq<SlotFiles>)
    requires
        slots.len() == MAX_ROTATED_FILES,
    ensures
        migrate_slots(dir, migrated_slots(slots), MAX_ROTATED_FILES as nat) == Seq::<ActionView>::empty(),
        forall|n: nat| 1 <= n <= MAX_ROTATED_FILES ==> {
            let before = #[trigger] slots[n - 1];
            let after = migrated_slots(slots)[n - 1];
            &&& before.encrypted ==> found_rotated(dir, n, after) == found_rotated(dir, n, before)
            &&& !before.encrypted && before.plaintext ==> found_rotated(dir, n, after) == Some(
                encrypted_path(dir, n),
            ) && migrate_slot(dir, n, before) == seq![
                ActionView::Encrypt(plaintext_path(dir, n), encrypted_path(dir, n)),
            ]
            &&& !before.encrypted && !before.plaintext ==> found_rotated(dir, n, after) is None
        },
{
    let m = migrated_slots(slots);
    assert forall|i: int| 0 <= i < m.len() implies !(#[trigger] m[i]).plaintext by {
        assert(m[i] == migrated_slot(slots[i]));
    }
    lemma_migrate_settled(dir, m, MAX_ROTATED_FILES as nat);
    assert forall|n: nat| 1 <= n <= MAX_ROTATED_FILES implies {
        let before = #[trigger] slots[n - 1];
        let after = migrated_slots(slots)[n - 1];
        &&& before.encrypted ==> found_rotated(dir, n, after) == found_rotated(dir, n, before)
        &&& !before.encrypted && before.plaintext ==> found_rotated(dir, n, after) == Some(
            encrypted_path(dir, n),
        ) && migrate_slot(dir, n, before) == seq![
            ActionView::Encrypt(plaintext_path(dir, n), encrypted_path(dir, n)),
        ]
        &&& !before.encrypted && !before.plaintext ==> found_rotated(dir, n, after) is None
    } by {
        assert(m[n - 1] == migrated_slot(slots[n - 1]));
    }
}

/// The records of a JSONL text: its lines trimmed, blank ones left out.
pub open spec fn jsonl_records_spec(ls: Seq<Seq<char>>) -> Seq<Seq<char>>
    decreases ls.len(),
{
    if ls.len() == 0 {
        Seq::empty()
    } else {
        jsonl_records_spec(ls.drop_last()) + if crate::text::trim(ls.last()).len() > 0 {
            seq![crate::text::trim(ls.last())]
        } else {
            Seq::empty()
        }
    }
}

/// The records of an audit log's text, one event per line: each line
/// trimmed, blank lines skipped.
pub fn jsonl_records(text: &str) -> (r: Vec<String>)
    ensures
        crate::text::string_views(r@) == jsonl_records_spec(crate::policy::lines(text@)),
{
    let v = crate::text::chars_of(text);
    let ranges = crate::policy::line_ranges(&v);
    let ghost ls = crate::policy::lines(v@);
    let mut out: Vec<String> = Vec::new();
    let mut k: usize = 0;
    while k < ranges.len()
        invariant
            0 <= k <= ranges@.len(),
            ranges@.len() == ls.len(),
            ls == crate::policy::lines(v@),
            v@ == text@,
            forall|j: int| 0 <= j < ranges@.len() ==> (#[trigger] ranges@[j]).0 <= ranges@[j].1 <= v@.len()
                && v@.subrange(ranges@[j].0 as int, ranges@[j].1 as int) == ls[j],
            crate::text::string_views(out@) == jsonl_records_spec(ls.take(k as int)),
        decreases ranges.len() - k,
    {
        let (a, b) = ranges[k];
        let line = crate::text::string_from_range(&v, a, b);
        assert(ls.take(k + 1).drop_last() =~= ls.take(k as int));
        assert(ls.take(k + 1).last() == ls[k as int]);
        let t = crate::text::trim_str(line.as_str());
        let ghost prev = crate::text::string_views(out@);
        if !t.as_str().is_empty() {
            out.push(t);
        }
        assert(crate::text::string_views(out@) =~= prev + if crate::text::trim(ls[k as int]).len() > 0 {
            seq![crate::text::trim(ls[k as int])]
        } else {
            Seq::empty()
        });
        k = k + 1;
    }
    assert(ls.take(ls.len() as int) =~= ls);
    out
}

/// The instant that chrono reads from an RFC 3339 date-time text, as whole
/// seconds since the epoch and the sub-second nanoseconds; `None` where the
/// text is not an RFC 3339 date-time.
pub uninterp spec fn rfc3339_instant(text: Seq<char>) -> Option<(i64, u32)>;

/// Parses an RFC 3339 date-time with `chrono::DateTime::parse_from_rfc3339`
/// and reads it back with `timestamp` and `timestamp_subsec_nanos`. The
/// contract names the outcome; what RFC 3339 accepts is chrono's and is not
/// restated here.
#[verifier::external_body]
fn parse_rfc3339(text: &str) -> (r: Option<(i64, u32)>)
    ensures
        r == rfc3339_instant(text@),
{
    match chrono::DateTime::parse_from_rfc3339(text) {
        Ok(t) => Some((t.timestamp(), t.timestamp_subsec_nanos())),
        Err(_) => None,
    }
}

/// The time of one audit record: its `timestamp` string, read as an RFC
/// 3339 date-time; `None` where the record is not JSON, has no such string,
/// or the string is not a date-time.
pub open spec fn record_timestamp(record: Seq<char>) -> Option<Timestamp> {
    match crate::version::json_string_field(record, "timestamp"@) {
        Some(Some(t)) => match rfc3339_instant(t) {
            Some((secs, nanos)) => Some(Timestamp { secs, nanos }),
            None => None,
        },
        _ => None,
    }
}

/// The times of the records that carry one, in order.
pub open spec fn record_timestamps(records: Seq<Seq<char>>) -> Seq<Timestamp>
    decreases records.len(),
{
    if records.len() == 0 {
        Seq::empty()
    } else {
        record_timestamps(records.drop_last()) + match record_timestamp(records.last()) {
            Some(t) => seq![t],
            None => Seq::empty(),
        }
    }
}

/// The times of the events of an audit log's text: each record's
/// `timestamp`, skipping records that do not give one.
pub fn event_timestamps(text: &str) -> (r: Vec<Timestamp>)
    ensures
        r@ == record_timestamps(jsonl_records_spec(crate::policy::lines(text@))),
{
    let records = jsonl_records(text);
    let ghost rs = jsonl_records_spec(crate::policy::lines(text@));
    let mut out: Vec<Timestamp> = Vec::new();
    let mut k: usize = 0;
    while k < records.len()
        invariant
            0 <= k <= records@.len(),
            crate::text::string_views(records@) == rs,
            out@ == record_timestamps(rs.take(k as int)),
        decreases records.len() - k,
    {
        assert(rs.take(k + 1).drop_last() =~= rs.take(k as int));
        assert(rs.take(k + 1).last() == records@[k as int]@);
        let ghost prev = out@;
        match crate::version::string_field_of_json(records[k].as_str(), "timestamp") {
            Some(Some(t)) => match parse_rfc3339(t.as_str()) {
                Some((secs, nanos)) => out.push(Timestamp { secs, nanos }),
                None => {},
            },
            _ => {},
        }
        assert(out@ =~= prev + match record_timestamp(rs[k as int]) {
            Some(t) => seq![t],
            None => Seq::<Timestamp>::empty(),
        });
        k = k + 1;
    }
    assert(rs.take(rs.len() as int) =~= rs);
    out
}

} // verus!
