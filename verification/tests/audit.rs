use thane::audit::{
    audit_read_mode, event_timestamps, is_encrypted_path, jsonl_records, magic, newest_timestamp, open_audit_bytes, seal_audit_bytes, seal_audit_bytes_with_nonce, AuditRead,
    AuditStore, AuditStoreError, CryptoError, FileAction, SlotFiles, HEADER_LEN, VERSION,
};
use thane::timestamp::Timestamp;

const NONE: SlotFiles = SlotFiles { encrypted: false, plaintext: false };
const ENC: SlotFiles = SlotFiles { encrypted: true, plaintext: false };
const PLAIN: SlotFiles = SlotFiles { encrypted: false, plaintext: true };
const BOTH: SlotFiles = SlotFiles { encrypted: true, plaintext: true };

fn at(secs: i64) -> Timestamp {
    Timestamp { secs, nanos: 0 }
}

const DAY: i64 = 86400;

#[test]
fn roundtrip_recovers_plaintext() {
    let payload = b"{\"id\":\"abc\"}\n{\"id\":\"def\"}\n".to_vec();
    let key = [9u8; 32];
    let file = seal_audit_bytes(&payload, &key).unwrap();
    assert_eq!(&file[..8], b"THANEAUD");
    assert_eq!(file[8], VERSION);
    assert_eq!(file.len(), HEADER_LEN + payload.len() + 16);
    assert_eq!(open_audit_bytes(&file, &key).unwrap(), payload);
}

#[test]
fn empty_plaintext_roundtrips() {
    let key = [0xAA; 32];
    let file = seal_audit_bytes(b"", &key).unwrap();
    assert!(open_audit_bytes(&file, &key).unwrap().is_empty());
}

#[test]
fn wrong_key_returns_authentication_failed() {
    let file = seal_audit_bytes(b"secret data", &[1u8; 32]).unwrap();
    let err = open_audit_bytes(&file, &[2u8; 32]).unwrap_err();
    assert!(matches!(err, CryptoError::AuthenticationFailed), "got {err:?}");
}

#[test]
fn corrupted_ciphertext_returns_authentication_failed() {
    let key = [7u8; 32];
    let mut file = seal_audit_bytes(b"hello world payload", &key).unwrap();
    file[HEADER_LEN + 2] ^= 0x01;
    let err = open_audit_bytes(&file, &key).unwrap_err();
    assert!(matches!(err, CryptoError::AuthenticationFailed), "got {err:?}");
}

#[test]
fn truncated_file_returns_graceful_error() {
    let err = open_audit_bytes(b"short", &[0u8; 32]).unwrap_err();
    assert!(matches!(err, CryptoError::Truncated { len: 5 }), "got {err:?}");
}

#[test]
fn wrong_magic_returns_bad_magic() {
    let mut bytes = vec![0u8; HEADER_LEN + 32];
    bytes[..8].copy_from_slice(b"NOTTHANE");
    bytes[8] = VERSION;
    let err = open_audit_bytes(&bytes, &[0u8; 32]).unwrap_err();
    assert!(matches!(err, CryptoError::BadMagic { got } if &got == b"NOTTHANE"), "got {err:?}");
}

#[test]
fn wrong_version_returns_unsupported_version() {
    let mut bytes = vec![0u8; HEADER_LEN + 32];
    bytes[..8].copy_from_slice(&magic());
    bytes[8] = 99;
    let err = open_audit_bytes(&bytes, &[0u8; 32]).unwrap_err();
    assert!(matches!(err, CryptoError::UnsupportedVersion { got: 99, expected: 1 }), "got {err:?}");
}

#[test]
fn different_calls_produce_different_nonces() {
    let key = [3u8; 32];
    let a = seal_audit_bytes(b"same plaintext", &key).unwrap();
    let b = seal_audit_bytes(b"same plaintext", &key).unwrap();
    assert_ne!(&a[9..HEADER_LEN], &b[9..HEADER_LEN], "successive encrypts must use distinct nonces");
}

#[test]
fn crypto_error_messages() {
    assert_eq!(CryptoError::Truncated { len: 5 }.message(), "file is too short to be a thane-encrypted audit log (5 bytes)");
    assert_eq!(
        CryptoError::BadMagic { got: *b"NOTTHANE" }.message(),
        format!("bad magic: expected THANEAUD, got {:?}", *b"NOTTHANE")
    );
    assert_eq!(
        CryptoError::UnsupportedVersion { got: 99, expected: 1 }.message(),
        "unsupported file format version 99 (this build understands 1)"
    );
    assert_eq!(
        CryptoError::AuthenticationFailed.message(),
        "ciphertext authentication failed (wrong key or tampered file)"
    );
    assert_eq!(CryptoError::EncryptionFailed("x".to_string()).message(), "encryption failed: x");
    assert_eq!(CryptoError::Io("gone".to_string()).message(), "IO error: gone");
}

#[test]
fn store_file_names() {
    let store = AuditStore::new("/var/lib/thane/audit".to_string());
    assert_eq!(store.current_file(), "/var/lib/thane/audit/audit.jsonl");
    assert_eq!(store.plaintext_rotated_file(3), "/var/lib/thane/audit/audit.3.jsonl");
    assert_eq!(store.encrypted_rotated_file(3), "/var/lib/thane/audit/audit.3.jsonl.enc");
    let [enc, plain] = store.both_rotated_paths(2);
    assert_eq!(enc, "/var/lib/thane/audit/audit.2.jsonl.enc");
    assert_eq!(plain, "/var/lib/thane/audit/audit.2.jsonl");
}

#[test]
fn find_rotated_file_prefers_encrypted() {
    let store = AuditStore::new("/a".to_string());
    assert_eq!(store.find_rotated_file(1, BOTH), Some("/a/audit.1.jsonl.enc".to_string()));
    assert_eq!(store.find_rotated_file(1, PLAIN), Some("/a/audit.1.jsonl".to_string()));
    assert_eq!(store.find_rotated_file(1, NONE), None);
}

#[test]
fn encrypted_path_detection() {
    assert!(is_encrypted_path("/a/audit.1.jsonl.enc"));
    assert!(!is_encrypted_path("/a/audit.1.jsonl"));
    assert!(!is_encrypted_path("/a/.enc"));
    assert!(!is_encrypted_path("/a/enc"));
}

#[test]
fn encryption_enabled_reports_state() {
    let store = AuditStore::new("/a".to_string());
    assert!(!store.encryption_enabled());
    let store = store.with_encryption_key(Some([1u8; 32]));
    assert!(store.encryption_enabled());
    let store = store.with_encryption_key(None);
    assert!(!store.encryption_enabled());
}

#[test]
fn test_with_retention_days_changes_returned_value() {
    let store = AuditStore::new("/a".to_string());
    assert_eq!(store.retention_days(), 90);
    let store = store.with_retention_days(30);
    assert_eq!(store.retention_days(), 30);
}

#[test]
fn rotation_without_key_shifts_and_renames() {
    let store = AuditStore::new("/a".to_string());
    let slots = [PLAIN, ENC, NONE, NONE, PLAIN];
    let plan = store.rotation_plan(&slots, true);
    let expected = vec![
        "remove /a/audit.5.jsonl",
        "rename /a/audit.2.jsonl.enc -> /a/audit.3.jsonl.enc",
        "rename /a/audit.1.jsonl -> /a/audit.2.jsonl",
        "rename /a/audit.jsonl -> /a/audit.1.jsonl",
    ];
    assert_eq!(plan.iter().map(describe).collect::<Vec<_>>(), expected);
}

#[test]
fn rotation_with_key_encrypts_current() {
    let store = AuditStore::new("/a".to_string()).with_encryption_key(Some([5u8; 32]));
    let plan = store.rotation_plan(&[NONE; 5], true);
    assert_eq!(plan.iter().map(describe).collect::<Vec<_>>(), vec!["encrypt /a/audit.jsonl -> /a/audit.1.jsonl.enc"]);
    assert!(store.rotation_plan(&[NONE; 5], false).is_empty());
}

#[test]
fn rotation_removes_encrypted_oldest_first() {
    let store = AuditStore::new("/a".to_string());
    let plan = store.rotation_plan(&[NONE, NONE, NONE, ENC, BOTH], false);
    assert_eq!(
        plan.iter().map(describe).collect::<Vec<_>>(),
        vec!["remove /a/audit.5.jsonl.enc", "rename /a/audit.4.jsonl.enc -> /a/audit.5.jsonl.enc"]
    );
}

fn describe(a: &FileAction) -> String {
    match a {
        FileAction::Remove(p) => format!("remove {p}"),
        FileAction::Rename { from, to } => format!("rename {from} -> {to}"),
        FileAction::Encrypt { from, to } => format!("encrypt {from} -> {to}"),
    }
}

#[test]
fn test_load_all_ordering() {
    let store = AuditStore::new("/a".to_string());
    let order = store.load_order(&[PLAIN, NONE, ENC, NONE, NONE]);
    assert_eq!(order, vec!["/a/audit.3.jsonl.enc", "/a/audit.1.jsonl", "/a/audit.jsonl"]);
}

#[test]
fn clear_removes_both_kinds() {
    let store = AuditStore::new("/a".to_string());
    let targets = store.clear_targets(true, &[BOTH, NONE, NONE, NONE, PLAIN]);
    assert_eq!(
        targets,
        vec!["/a/audit.jsonl", "/a/audit.1.jsonl.enc", "/a/audit.1.jsonl", "/a/audit.5.jsonl"]
    );
}

#[test]
fn migration_plan_cases() {
    let store = AuditStore::new("/a".to_string());
    assert!(store.migration_plan(true, &[PLAIN; 5]).is_empty());
    let store = store.with_encryption_key(Some([1u8; 32]));
    assert!(store.migration_plan(false, &[PLAIN; 5]).is_empty());
    let plan = store.migration_plan(true, &[PLAIN, BOTH, ENC, NONE, NONE]);
    assert_eq!(
        plan.iter().map(describe).collect::<Vec<_>>(),
        vec!["encrypt /a/audit.1.jsonl -> /a/audit.1.jsonl.enc", "remove /a/audit.2.jsonl"]
    );
}

#[test]
fn test_retention_deletes_rotated_file_past_window() {
    let store = AuditStore::new("/a".to_string()).with_retention_days(30);
    let now = at(1_700_000_000);
    assert!(store.is_expired(now, Some(at(1_700_000_000 - 31 * DAY))));
    assert!(!store.is_expired(now, Some(at(1_700_000_000 - 29 * DAY))));
    assert!(!store.is_expired(now, Some(at(1_700_000_000 - 30 * DAY))));
}

#[test]
fn test_retention_zero_means_keep_forever() {
    let store = AuditStore::new("/a".to_string()).with_retention_days(0);
    assert!(!store.is_expired(at(1_700_000_000), Some(at(0))));
}

#[test]
fn test_retention_uses_newest_event_in_file() {
    let store = AuditStore::new("/a".to_string()).with_retention_days(30);
    let now = at(1_700_000_000);
    let events = [at(1_700_000_000 - 100 * DAY), at(1_700_000_000 - DAY), at(1_700_000_000 - 50 * DAY)];
    let newest = newest_timestamp(&events);
    assert_eq!(newest, Some(at(1_700_000_000 - DAY)));
    assert!(!store.is_expired(now, newest));
    assert!(!store.is_expired(now, newest_timestamp(&[])));
}

#[test]
fn leap_second_cutoff_follows_chrono() {
    let store = AuditStore::new("/a".to_string()).with_retention_days(1);
    let now = Timestamp { secs: 10 * DAY, nanos: 1_500_000_000 };
    // chrono moves a leap second to the next second before subtracting days.
    assert!(store.is_expired(now, Some(Timestamp { secs: 9 * DAY, nanos: 400_000_000 })));
    assert!(!store.is_expired(now, Some(Timestamp { secs: 9 * DAY + 1, nanos: 600_000_000 })));
}

#[test]
fn test_total_size_accounts_for_rotated_files() {
    let store = AuditStore::new("/a".to_string());
    assert_eq!(store.total_size(Some(100), &[Some(10), None, Some(5)]), 115);
    assert_eq!(store.total_size(None, &[]), 0);
}

#[test]
fn read_audit_file_errors_when_enc_file_has_no_key() {
    let err = audit_read_mode("/a/audit.1.jsonl.enc", None).unwrap_err();
    assert!(matches!(err, AuditStoreError::EncryptedFileButNoKey { ref path } if path == "/a/audit.1.jsonl.enc"));
    assert!(matches!(audit_read_mode("/a/audit.1.jsonl", None), Ok(AuditRead::Plain)));
    assert!(matches!(audit_read_mode("/a/audit.1.jsonl.enc", Some([4u8; 32])), Ok(AuditRead::Decrypt(k)) if k == [4u8; 32]));
}

#[test]
fn jsonl_records_skip_blank_lines() {
    assert_eq!(jsonl_records("{\"a\":1}\n\n  {\"b\":2}  \r\n   \n"), vec!["{\"a\":1}".to_string(), "{\"b\":2}".to_string()]);
    assert!(jsonl_records("").is_empty());
}

#[test]
fn sealed_file_layout() {
    let key = [3u8; 32];
    let nonce = [9u8; 12];
    let payload = b"{\"id\":1}\n".to_vec();
    let file = seal_audit_bytes_with_nonce(&payload, &key, &nonce).unwrap();
    assert_eq!(file.len(), HEADER_LEN + payload.len() + 16);
    assert_eq!(&file[..8], b"THANEAUD");
    assert_eq!(file[8], VERSION);
    assert_eq!(&file[9..21], &nonce);
    assert_eq!(seal_audit_bytes_with_nonce(&payload, &key, &nonce).unwrap(), file);
    assert_eq!(open_audit_bytes(&file, &key).unwrap(), payload);
    let fresh = seal_audit_bytes(&payload, &key).unwrap();
    assert_eq!(fresh.len(), file.len());
}

#[test]
fn second_migration_is_a_no_op() {
    let store = AuditStore::new("/a".to_string()).with_encryption_key(Some([1u8; 32]));
    let before = [PLAIN, BOTH, ENC, NONE, PLAIN];
    assert_eq!(store.migration_plan(true, &before).len(), 3);
    // After the plan: every plaintext slot holds the encrypted file only.
    let after = [ENC, ENC, ENC, NONE, ENC];
    assert!(store.migration_plan(true, &after).is_empty());
    let loaded_before = store.load_order(&before);
    let loaded_after = store.load_order(&after);
    assert_eq!(loaded_before.len(), loaded_after.len());
    assert_eq!(loaded_after[0], "/a/audit.5.jsonl.enc");
    assert_eq!(loaded_before[0], "/a/audit.5.jsonl");
}

#[test]
fn event_timestamps_read_rfc3339_fields() {
    let text = "{\"timestamp\":\"2024-01-02T03:04:05.5Z\",\"id\":1}\n\nnot json\n{\"id\":2}\n{\"timestamp\":\"soon\"}\n  {\"timestamp\":\"1970-01-01T00:01:00+00:01\"}  \n";
    let ts = event_timestamps(text);
    assert_eq!(ts, vec![Timestamp { secs: 1_704_164_645, nanos: 500_000_000 }, Timestamp { secs: 0, nanos: 0 }]);
    assert_eq!(newest_timestamp(&ts), Some(Timestamp { secs: 1_704_164_645, nanos: 500_000_000 }));
}

#[test]
fn migration_encrypts_each_plaintext_only_slot() {
    let store = AuditStore::new("/a".to_string()).with_encryption_key(Some([1u8; 32]));
    let plan = store.migration_plan(true, &[PLAIN, BOTH, ENC, NONE, PLAIN]);
    let encryptions = plan.iter().filter(|a| matches!(a, FileAction::Encrypt { .. })).count();
    assert_eq!(encryptions, 2);
}
