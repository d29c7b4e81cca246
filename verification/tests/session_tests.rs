//! The session state machine: login, token reconciliation, authenticate,
//! scope narrowing and logout.

use podsync::auth::{pwhash, BasicAuth, SessionId};
use podsync::backend::Backend;
use podsync::podsync::{Error, PodSync, PodSyncAuthed};
use podsync::user::User;

fn seeded_sync(username: &str, password: &str) -> PodSync {
    let mut backend = Backend::new();
    let ok = backend.insert_user(User {
        username: username.to_owned(),
        pwhash: pwhash(password),
        session_id: None,
    });
    assert!(ok);
    PodSync::new(backend)
}

fn attempt(user: &str, pass: &str) -> podsync::auth::AuthAttempt {
    BasicAuth::new(user.to_owned(), pass.to_owned())
        .with_path_username(user)
        .unwrap_or_else(|_| panic!("usernames match"))
}

#[test]
fn login_session() {
    let mut sync = seeded_sync("bob", "abc");

    // Fresh login without a client token mints a token.
    let handle = sync.login(attempt("bob", "abc"), None).unwrap();
    let t1 = *handle.session_id();
    assert_eq!(handle.username(), "bob");

    // The minted token authenticates, and narrows to bob.
    let authed = sync.authenticate(t1).unwrap();
    let scoped = authed.with_user("bob").unwrap();
    assert_eq!(scoped.username(), "bob");
    assert!(scoped.session_id().equals(&t1));

    // Logging in again while presenting the same token keeps it.
    let again = sync.login(attempt("bob", "abc"), Some(t1)).unwrap();
    assert!(again.session_id().equals(&t1));

    // A login that forgot its token rejoins the stored session.
    let rejoined = sync.login(attempt("bob", "abc"), None).unwrap();
    assert!(rejoined.session_id().equals(&t1));

    // Logout clears the token; it no longer authenticates.
    scoped.logout(&mut sync).unwrap();
    assert!(matches!(sync.authenticate(t1), Err(Error::Unauthorized)));
}

#[test]
fn login_rejects_wrong_password() {
    let mut sync = seeded_sync("bob", "abc");
    let r = sync.login(attempt("bob", "wrong"), None);
    assert!(matches!(r, Err(Error::Unauthorized)));
}

#[test]
fn login_rejects_unknown_account() {
    let mut sync = seeded_sync("bob", "abc");
    let r = sync.login(attempt("eve", "abc"), None);
    assert!(matches!(r, Err(Error::Unauthorized)));
}

#[test]
fn login_client_token_without_stored_session_is_unauthorized() {
    let mut sync = seeded_sync("bob", "abc");
    let stray = SessionId::from_u128(7);
    let r = sync.login(attempt("bob", "abc"), Some(stray));
    assert!(matches!(r, Err(Error::Unauthorized)));
}

#[test]
fn login_mismatched_token_is_a_protocol_violation() {
    let mut sync = seeded_sync("bob", "abc");
    let handle = sync.login(attempt("bob", "abc"), None).unwrap();
    let minted = *handle.session_id();
    let other = SessionId::from_u128(minted.hex_string().len() as u128 + 12345);
    assert!(!other.equals(&minted));
    let r = sync.login(attempt("bob", "abc"), Some(other));
    assert!(matches!(r, Err(Error::Internal)));
}

#[test]
fn login_invalid_stored_token_is_internal() {
    let mut backend = Backend::new();
    backend.insert_user(User {
        username: "bob".to_owned(),
        pwhash: pwhash("abc"),
        session_id: Some("not-a-token".to_owned()),
    });
    let mut sync = PodSync::new(backend);
    let r = sync.login(attempt("bob", "abc"), None);
    assert!(matches!(r, Err(Error::Internal)));
}

#[test]
fn authenticate_unknown_token_is_unauthorized() {
    let sync = seeded_sync("bob", "abc");
    let r = sync.authenticate(SessionId::from_u128(42));
    assert!(matches!(r, Err(Error::Unauthorized)));
}

#[test]
fn authenticate_duplicated_token_is_an_integrity_fault() {
    let token = SessionId::from_u128(99);
    let hex = token.hex_string();
    let mut backend = Backend::new();
    backend.insert_user(User {
        username: "a".to_owned(),
        pwhash: pwhash("x"),
        session_id: Some(hex.clone()),
    });
    backend.insert_user(User {
        username: "b".to_owned(),
        pwhash: pwhash("y"),
        session_id: Some(hex),
    });
    let sync = PodSync::new(backend);
    assert!(matches!(sync.authenticate(token), Err(Error::Internal)));
}

#[test]
fn with_user_rejects_every_other_name() {
    let mut sync = seeded_sync("bob", "abc");
    let t1 = *sync.login(attempt("bob", "abc"), None).unwrap().session_id();

    let authed: PodSyncAuthed<false> = sync.authenticate(t1).unwrap();
    assert!(matches!(authed.with_user("alice"), Err(Error::Unauthorized)));

    let authed = sync.authenticate(t1).unwrap();
    assert!(matches!(authed.with_user("Bob"), Err(Error::Unauthorized)));

    let authed = sync.authenticate(t1).unwrap();
    assert!(authed.with_user("bob").is_ok());
}

#[test]
fn logout_is_idempotent() {
    let mut sync = seeded_sync("bob", "abc");
    let handle = sync.login(attempt("bob", "abc"), None).unwrap();
    handle.logout(&mut sync).unwrap();
    handle.logout(&mut sync).unwrap();
    let r = sync.authenticate(*handle.session_id());
    assert!(matches!(r, Err(Error::Unauthorized)));
}

#[test]
fn pwhash_is_the_sha256_hex_digest() {
    assert_eq!(
        pwhash("abc"),
        "ba7816bf8f01cfea414140de5dae2223b00361a396177a9cb410ff61f20015ad"
    );
    assert_eq!(pwhash("abc").len(), 64);
    assert_ne!(pwhash("abc"), pwhash("abd"));
}

#[test]
fn session_hex_round_trip() {
    let v: u128 = 0x550e8400e29b41d4a716446655440000;
    let id = SessionId::from_u128(v);
    let hex = id.hex_string();
    assert_eq!(hex, "550e8400e29b41d4a716446655440000");
    let back = SessionId::parse(&hex).unwrap();
    assert!(back.equals(&id));
}

#[test]
fn session_parse_accepts_either_case_and_rejects_garbage() {
    let upper = SessionId::parse("550E8400E29B41D4A716446655440000").unwrap();
    let lower = SessionId::parse("550e8400e29b41d4a716446655440000").unwrap();
    assert!(upper.equals(&lower));
    assert!(SessionId::parse("").is_err());
    assert!(SessionId::parse("550e8400").is_err());
    assert!(SessionId::parse("g50e8400e29b41d4a716446655440000").is_err());
}

#[test]
fn session_parse_accepts_the_hyphenated_grouping() {
    let hyphenated = SessionId::parse("550e8400-e29b-41d4-a716-446655440000").unwrap();
    let bare = SessionId::parse("550e8400e29b41d4a716446655440000").unwrap();
    assert!(hyphenated.equals(&bare));
    // Hyphens anywhere but the canonical positions are rejected.
    assert!(SessionId::parse("550e840-0e29b-41d4-a716-446655440000").is_err());
    assert!(SessionId::parse("550e8400-e29b-41d4-a716-44665544000g").is_err());
    assert!(SessionId::parse("550e8400-e29b-41d4-a716-4466554400000").is_err());
}

#[test]
fn fresh_tokens_render_as_32_hex_digits() {
    let id = SessionId::new();
    let hex = id.hex_string();
    assert_eq!(hex.len(), 32);
    assert!(hex.chars().all(|c| c.is_ascii_hexdigit()));
    let back = SessionId::parse(&hex).unwrap();
    assert!(back.equals(&id));
}
