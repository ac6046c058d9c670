use thane::secrets::{
    attrs_for, default_secret_store_backend_name, derive_fallback_key, fallback_root_from, keyring_label,
    linux_delete_outcome, machine_id_from, open_fallback_blob, sanitize_key, seal_fallback_blob,
    seal_fallback_blob_with_nonce,
    secret_service_hit, LinuxSecretStore, MacosSecretStore, Platform, SecretError,
};

#[test]
fn sanitize_key_strips_separators() {
    assert_eq!(sanitize_key("foo/bar"), "foo_bar");
    // Each separator becomes one `_` and the dots stay: four dots in, four out.
    assert_eq!(sanitize_key("../../etc/passwd"), ".._.._etc_passwd");
    assert_eq!(sanitize_key("a-b.c_d"), "a-b.c_d");
}

#[test]
fn fallback_path_is_inside_root() {
    let store = LinuxSecretStore::with_fallback_root("/data/thane/secrets".to_string());
    assert_eq!(store.fallback_path("thane-audit-root-key-v1"), "/data/thane/secrets/thane-audit-root-key-v1");
    assert_eq!(store.fallback_path("../x"), "/data/thane/secrets/.._x");
}

#[test]
fn fallback_root_under_data_dir_or_var_tmp() {
    assert_eq!(fallback_root_from(Some("/home/u/.local/share".to_string())), "/home/u/.local/share/thane/secrets");
    assert_eq!(fallback_root_from(None), "/var/tmp/thane/secrets");
}

#[test]
fn keyring_attributes_and_label() {
    let attrs = attrs_for("k1");
    assert_eq!(attrs[0], ("application".to_string(), "com.thane.app".to_string()));
    assert_eq!(attrs[1], ("key".to_string(), "k1".to_string()));
    assert_eq!(keyring_label("k1"), "thane: k1");
}

#[test]
fn machine_id_first_non_blank_candidate() {
    let got = machine_id_from(&[Some("  \n".to_string()), Some("abc123\n".to_string())]).unwrap();
    assert_eq!(got, "abc123");
    let got = machine_id_from(&[Some("first\n".to_string()), Some("second".to_string())]).unwrap();
    assert_eq!(got, "first");
    let err = machine_id_from(&[None, Some(String::new())]).unwrap_err();
    assert!(matches!(err, SecretError::Unavailable(ref m)
        if m == "no machine-id available (tried /etc/machine-id and /var/lib/dbus/machine-id)"));
}

#[test]
fn file_fallback_roundtrip_in_memory() {
    let blob = seal_fallback_blob(b"the-quick-brown-fox", Ok("machine-a".to_string())).unwrap();
    assert_eq!(blob.len(), 12 + 19 + 16);
    let got = open_fallback_blob(&blob, Ok("machine-a".to_string())).unwrap();
    assert_eq!(got, b"the-quick-brown-fox");
}

#[test]
fn fallback_blob_from_other_machine_is_refused() {
    let blob = seal_fallback_blob(b"secret", Ok("machine-a".to_string())).unwrap();
    let err = open_fallback_blob(&blob, Ok("machine-b".to_string())).unwrap_err();
    assert!(matches!(err, SecretError::Crypto(ref m) if m == "decrypt: aead::Error"));
}

#[test]
fn fallback_blob_tamper_is_detected() {
    let mut blob = seal_fallback_blob(b"secret-payload", Ok("m".to_string())).unwrap();
    blob[12 + 4] ^= 0xff;
    let err = open_fallback_blob(&blob, Ok("m".to_string())).unwrap_err();
    assert!(matches!(err, SecretError::Crypto(_)));
}

#[test]
fn fallback_blob_too_small() {
    let err = open_fallback_blob(&[0u8; 27], Ok("m".to_string())).unwrap_err();
    assert!(matches!(err, SecretError::Crypto(ref m) if m == "fallback file too small to contain nonce + ciphertext"));
}

#[test]
fn fallback_blob_machine_id_error_passes_through() {
    let err = open_fallback_blob(&[0u8; 40], Err(SecretError::Unavailable("no id".to_string()))).unwrap_err();
    assert!(matches!(err, SecretError::Unavailable(ref m) if m == "no id"));
    let err = seal_fallback_blob(b"x", Err(SecretError::Unavailable("no id".to_string()))).unwrap_err();
    assert!(matches!(err, SecretError::Unavailable(_)));
}

#[test]
fn fallback_key_depends_on_machine_id() {
    let a = derive_fallback_key("machine-a").unwrap();
    let b = derive_fallback_key("machine-b").unwrap();
    assert_ne!(a, b);
    assert_eq!(a, derive_fallback_key("machine-a").unwrap());
}

#[test]
fn successive_seals_use_fresh_nonces() {
    let a = seal_fallback_blob(b"same", Ok("m".to_string())).unwrap();
    let b = seal_fallback_blob(b"same", Ok("m".to_string())).unwrap();
    assert_ne!(&a[..12], &b[..12]);
}

#[test]
fn linux_backend_decisions() {
    assert_eq!(secret_service_hit(Ok(Some(vec![1, 2]))), Some(vec![1, 2]));
    assert_eq!(secret_service_hit(Ok(None)), None);
    assert_eq!(secret_service_hit(Err(SecretError::Unavailable("dbus".to_string()))), None);
    assert!(linux_delete_outcome(None, Some(SecretError::Io("x".to_string()))).is_ok());
    let err = linux_delete_outcome(
        Some(SecretError::Unavailable("connect: no bus".to_string())),
        Some(SecretError::Io("denied".to_string())),
    )
    .unwrap_err();
    assert!(matches!(err, SecretError::Unavailable(ref m) if m == "secret-service: connect: no bus; file fallback: denied"));
}

#[test]
fn keychain_outcomes() {
    assert_eq!(MacosSecretStore::get_outcome(Ok(vec![7])).unwrap(), Some(vec![7]));
    assert_eq!(MacosSecretStore::get_outcome(Err((-25300, "not found".to_string()))).unwrap(), None);
    let err = MacosSecretStore::get_outcome(Err((-25308, "locked".to_string()))).unwrap_err();
    assert!(matches!(err, SecretError::Unavailable(ref m) if m == "Keychain read failed: locked"));
    assert!(MacosSecretStore::delete_outcome(Err((-25300, "gone".to_string()))).is_ok());
    let err = MacosSecretStore::delete_outcome(Err((-1, "x".to_string()))).unwrap_err();
    assert!(matches!(err, SecretError::Unavailable(ref m) if m == "Keychain delete failed: x"));
    let err = MacosSecretStore::set_outcome(Err("perm".to_string())).unwrap_err();
    assert!(matches!(err, SecretError::Unavailable(ref m) if m == "Keychain write failed: perm"));
    let _store = MacosSecretStore::new();
}

#[test]
fn backend_names() {
    assert_eq!(default_secret_store_backend_name(Platform::Linux), "Secret Service / local fallback");
    assert_eq!(default_secret_store_backend_name(Platform::MacOs), "Keychain");
    assert_eq!(default_secret_store_backend_name(Platform::Other), "in-memory (test) store");
}

#[test]
fn sealing_with_a_given_nonce_is_deterministic() {
    let nonce = [7u8; 12];
    let a = seal_fallback_blob_with_nonce(b"value", "machine-a", &nonce).unwrap();
    let b = seal_fallback_blob_with_nonce(b"value", "machine-a", &nonce).unwrap();
    assert_eq!(a, b);
    assert_eq!(a.len(), 12 + 5 + 16);
    assert_eq!(&a[..12], &nonce);
    assert_eq!(open_fallback_blob(&a, Ok("machine-a".to_string())).unwrap(), b"value".to_vec());
    let c = seal_fallback_blob_with_nonce(b"value", "machine-a", &[8u8; 12]).unwrap();
    assert_ne!(a, c);
}
