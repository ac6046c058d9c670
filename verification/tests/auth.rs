use thane::auth::{token_hex, verify_access, AccessMode, AncestryWalk, AuthError, WalkStep};

#[test]
fn test_open_mode_allows_all() {
    let mode = AccessMode::Open;
    assert!(verify_access(&mode, None, 1, None, false).is_ok());
    assert!(verify_access(&mode, Some(999), 1, None, false).is_ok());
}

#[test]
fn test_token_mode_valid() {
    let mode = AccessMode::Token("secret123".to_string());
    assert!(verify_access(&mode, None, 1, Some("secret123"), false).is_ok());
}

#[test]
fn test_token_mode_invalid() {
    let mode = AccessMode::Token("secret123".to_string());
    assert!(verify_access(&mode, None, 1, Some("wrong"), false).is_err());
    assert!(verify_access(&mode, None, 1, None, false).is_err());
}

#[test]
fn test_ancestry_no_peer_credentials() {
    let mode = AccessMode::Ancestry;
    let result = verify_access(&mode, None, 1, None, false);
    assert!(result.is_err());
    assert!(matches!(result.unwrap_err(), AuthError::NoPeerCredentials));
}

#[test]
fn test_default_access_mode_is_ancestry() {
    assert_eq!(AccessMode::default(), AccessMode::Ancestry);
}

#[test]
fn ancestry_refuses_non_descendant_with_its_pid() {
    let mode = AccessMode::Ancestry;
    assert_eq!(verify_access(&mode, Some(4242), 1, None, false), Err(AuthError::NotDescendant(4242)));
    assert_eq!(verify_access(&mode, Some(4242), 1, None, true), Ok(()));
}

#[test]
fn auth_error_messages() {
    assert_eq!(AuthError::NotDescendant(7).message(), "access denied: client PID 7 is not a descendant of thane");
    assert_eq!(AuthError::InvalidToken.message(), "access denied: invalid token");
    assert_eq!(AuthError::NoPeerCredentials.message(), "access denied: could not determine client PID");
}

/// Walks the tree 10 -> 5 -> 1, looking for 5.
#[test]
fn ancestry_walk_finds_ancestor() {
    let mut walk = AncestryWalk::new(10, 5);
    assert_eq!(walk.step(), WalkStep::ReadParent(10));
    walk.feed_parent(Some(5));
    assert_eq!(walk.step(), WalkStep::Done(true));
}

#[test]
fn ancestry_walk_self_is_descendant() {
    let walk = AncestryWalk::new(42, 42);
    assert_eq!(walk.step(), WalkStep::Done(true));
}

#[test]
fn ancestry_walk_stops_at_init_and_on_unknown_parent() {
    let mut walk = AncestryWalk::new(10, 99);
    walk.feed_parent(Some(1));
    assert_eq!(walk.step(), WalkStep::Done(false));
    let mut walk = AncestryWalk::new(10, 99);
    walk.feed_parent(None);
    assert_eq!(walk.step(), WalkStep::Done(false));
}

#[test]
fn token_is_thirty_two_hex_digits() {
    let t = token_hex(0x0123_4567_89ab_cdef, 0xfedc_ba98_7654_3210);
    assert_eq!(t, "0123456789abcdeffedcba9876543210");
    let z = token_hex(0, 1);
    assert_eq!(z, "00000000000000000000000000000001");
    assert_eq!(z.len(), 32);
    assert!(z.chars().all(|c| c.is_ascii_hexdigit()));
}
