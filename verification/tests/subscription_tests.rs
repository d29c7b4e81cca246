//! The subscription reconciler: tombstoned removal, insert-if-absent
//! addition, cursor-addressed change queries.

use podsync::auth::{pwhash, BasicAuth};
use podsync::backend::Backend;
use podsync::podsync::{PodSync, PodSyncAuthed};
use podsync::subscription::SubscriptionChangesFromClient;
use podsync::time::Timestamp;
use podsync::user::User;

fn scoped(sync: &mut PodSync, user: &str, pass: &str) -> PodSyncAuthed<true> {
    let auth = BasicAuth::new(user.to_owned(), pass.to_owned())
        .with_path_username(user)
        .unwrap_or_else(|_| panic!("usernames match"));
    sync.login(auth, None).unwrap()
}

fn seeded() -> (PodSync, PodSyncAuthed<true>) {
    let mut backend = Backend::new();
    backend.insert_user(User {
        username: "bob".to_owned(),
        pwhash: pwhash("abc"),
        session_id: None,
    });
    let mut sync = PodSync::new(backend);
    let handle = scoped(&mut sync, "bob", "abc");
    (sync, handle)
}

fn changes(add: &[&str], remove: &[&str]) -> SubscriptionChangesFromClient {
    SubscriptionChangesFromClient {
        add: add.iter().map(|s| s.to_string()).collect(),
        remove: remove.iter().map(|s| s.to_string()).collect(),
    }
}

#[test]
fn add_then_query_then_remove() {
    let (mut sync, handle) = seeded();

    let up = handle
        .update_subscriptions(&mut sync, "d1", changes(&["u1", "u2"], &[]), Timestamp::from_i64(100))
        .unwrap();
    assert_eq!(up.timestamp, Timestamp::from_i64(100));

    let got = handle
        .subscriptions(&sync, "d1", Timestamp::zero(), Timestamp::from_i64(101))
        .unwrap();
    assert_eq!(got.add, vec!["u1".to_string(), "u2".to_string()]);
    assert!(got.remove.is_empty());
    assert_eq!(got.timestamp, Timestamp::from_i64(100));

    handle
        .update_subscriptions(&mut sync, "d1", changes(&[], &["u1"]), Timestamp::from_i64(200))
        .unwrap();
    let got = handle
        .subscriptions(&sync, "d1", Timestamp::from_i64(150), Timestamp::from_i64(201))
        .unwrap();
    assert_eq!(got.remove, vec!["u1".to_string()]);
    assert!(got.add.is_empty());
}

#[test]
fn tombstone_is_not_resurrected_by_re_adding() {
    let (mut sync, handle) = seeded();

    handle
        .update_subscriptions(&mut sync, "d1", changes(&["u"], &[]), Timestamp::from_i64(100))
        .unwrap();
    handle
        .update_subscriptions(&mut sync, "d1", changes(&[], &["u"]), Timestamp::from_i64(200))
        .unwrap();
    handle
        .update_subscriptions(&mut sync, "d1", changes(&["u"], &[]), Timestamp::from_i64(300))
        .unwrap();

    // The re-add was a no-op against the tombstoned row: the URL is still
    // reported as removed, and the cursor still reflects the first
    // creation.
    let got = handle
        .subscriptions(&sync, "d1", Timestamp::zero(), Timestamp::from_i64(301))
        .unwrap();
    assert!(got.add.is_empty());
    assert_eq!(got.remove, vec!["u".to_string()]);
    assert_eq!(got.timestamp, Timestamp::from_i64(100));
}

#[test]
fn removing_an_absent_url_is_a_no_op() {
    let (mut sync, handle) = seeded();
    handle
        .update_subscriptions(&mut sync, "d1", changes(&[], &["ghost"]), Timestamp::from_i64(50))
        .unwrap();
    let got = handle
        .subscriptions(&sync, "d1", Timestamp::zero(), Timestamp::from_i64(51))
        .unwrap();
    assert!(got.add.is_empty());
    assert!(got.remove.is_empty());
    assert_eq!(got.timestamp, Timestamp::from_i64(51));
}

#[test]
fn re_adding_an_active_url_is_a_no_op() {
    let (mut sync, handle) = seeded();
    handle
        .update_subscriptions(&mut sync, "d1", changes(&["u"], &[]), Timestamp::from_i64(100))
        .unwrap();
    handle
        .update_subscriptions(&mut sync, "d1", changes(&["u"], &[]), Timestamp::from_i64(200))
        .unwrap();
    // The second add did not touch the row: created stays 100, so a query
    // from 150 sees nothing.
    let got = handle
        .subscriptions(&sync, "d1", Timestamp::from_i64(150), Timestamp::from_i64(201))
        .unwrap();
    assert!(got.add.is_empty());
    assert!(got.remove.is_empty());
    assert_eq!(got.timestamp, Timestamp::from_i64(201));
}

#[test]
fn empty_query_advances_cursor_to_now() {
    let (sync, handle) = seeded();
    let got = handle
        .subscriptions(&sync, "d1", Timestamp::zero(), Timestamp::from_i64(77))
        .unwrap();
    assert!(got.add.is_empty());
    assert!(got.remove.is_empty());
    assert_eq!(got.timestamp, Timestamp::from_i64(77));
}

#[test]
fn devices_are_isolated() {
    let (mut sync, handle) = seeded();
    handle
        .update_subscriptions(&mut sync, "d1", changes(&["u"], &[]), Timestamp::from_i64(10))
        .unwrap();
    let got = handle
        .subscriptions(&sync, "d2", Timestamp::zero(), Timestamp::from_i64(11))
        .unwrap();
    assert!(got.add.is_empty());
    assert!(got.remove.is_empty());
}

#[test]
fn upload_echoes_added_urls() {
    let (mut sync, handle) = seeded();
    let up = handle
        .update_subscriptions(
            &mut sync,
            "d1",
            changes(&["u1", "u2"], &["u3"]),
            Timestamp::from_i64(5),
        )
        .unwrap();
    assert_eq!(
        up.update_urls,
        vec![
            ("u1".to_string(), "u1".to_string()),
            ("u2".to_string(), "u2".to_string()),
        ]
    );
}
