//! Devices, path parsing, timestamps, startup options and the remaining
//! small pieces.

use podsync::args::Args;
use podsync::auth::{pwhash, BasicAuth};
use podsync::backend::Backend;
use podsync::device::{DeviceType, DeviceUpdate};
use podsync::episode::{EpisodeAction, EpisodeActionRaw, Time};
use podsync::path_format::{split_format_json, UsernameFormat};
use podsync::podsync::{now, Error, PodSync, PodSyncAuthed, UpdatedUrls};
use podsync::time::Timestamp;
use podsync::user::User;

fn seeded() -> (PodSync, PodSyncAuthed<true>) {
    let mut backend = Backend::new();
    backend.insert_user(User {
        username: "bob".to_owned(),
        pwhash: pwhash("abc"),
        session_id: None,
    });
    let mut sync = PodSync::new(backend);
    let auth = BasicAuth::new("bob".to_owned(), "abc".to_owned())
        .with_path_username("bob")
        .unwrap_or_else(|_| panic!("usernames match"));
    let handle = sync.login(auth, None).unwrap();
    (sync, handle)
}

#[test]
fn split_format_json_accepts_name_dot_json() {
    assert_eq!(split_format_json("device1.json").unwrap(), "device1");
    assert_eq!(split_format_json(".json").unwrap(), "");
    assert!(matches!(split_format_json("nodot"), Err(Error::BadRequest)));
    assert!(matches!(split_format_json("a.jsonx"), Err(Error::BadRequest)));
    assert!(matches!(split_format_json("a.b.json"), Err(Error::BadRequest)));
    assert!(matches!(split_format_json("x."), Err(Error::BadRequest)));
}

#[test]
fn username_format_convert() {
    assert_eq!(UsernameFormat::Name.convert("bob").unwrap(), "bob");
    assert_eq!(UsernameFormat::NameJson.convert("bob.json").unwrap(), "bob");
    assert!(matches!(
        UsernameFormat::NameJson.convert("bob"),
        Err(Error::BadRequest)
    ));
}

#[test]
fn device_type_strings() {
    assert_eq!(DeviceType::Desktop.as_str(), "Desktop");
    assert_eq!(DeviceType::Laptop.as_str(), "Laptop");
    assert_eq!(DeviceType::Mobile.as_str(), "Mobile");
    assert_eq!(DeviceType::Server.as_str(), "Server");
    assert_eq!(DeviceType::Other.as_str(), "Other");
    assert_eq!(DeviceType::default(), DeviceType::Other);
    assert_eq!(DeviceType::try_from_str("Mobile"), Ok(DeviceType::Mobile));
    assert_eq!(DeviceType::try_from_str("Desktop"), Err(()));
}

#[test]
fn update_device_creates_with_defaults_and_patches_partially() {
    let (mut sync, handle) = seeded();

    // First touch creates the row; absent fields take their defaults.
    handle
        .update_device(
            &mut sync,
            "d1",
            DeviceUpdate { caption: None, dtype: None },
        )
        .unwrap();
    let devs = handle.devices(&sync).unwrap();
    assert_eq!(devs.len(), 1);
    assert_eq!(devs[0].id, "d1");
    assert_eq!(devs[0].caption, "");
    assert_eq!(devs[0].dtype, DeviceType::Other);

    // A partial update overwrites only what it carries.
    handle
        .update_device(
            &mut sync,
            "d1",
            DeviceUpdate { caption: Some("tim".to_owned()), dtype: None },
        )
        .unwrap();
    let devs = handle.devices(&sync).unwrap();
    assert_eq!(devs[0].caption, "tim");
    assert_eq!(devs[0].dtype, DeviceType::Other);

    handle
        .update_device(
            &mut sync,
            "d1",
            DeviceUpdate { caption: None, dtype: Some(DeviceType::Mobile) },
        )
        .unwrap();
    let devs = handle.devices(&sync).unwrap();
    assert_eq!(devs[0].caption, "tim");
    assert_eq!(devs[0].dtype, DeviceType::Mobile);
}

#[test]
fn devices_carry_the_account_subscription_count() {
    let (mut sync, handle) = seeded();
    handle
        .update_device(&mut sync, "d1", DeviceUpdate { caption: None, dtype: None })
        .unwrap();
    handle
        .update_device(&mut sync, "d2", DeviceUpdate { caption: None, dtype: None })
        .unwrap();
    handle
        .update_subscriptions(
            &mut sync,
            "d1",
            podsync::subscription::SubscriptionChangesFromClient {
                add: vec!["u1".to_owned(), "u2".to_owned()],
                remove: vec![],
            },
            Timestamp::from_i64(10),
        )
        .unwrap();
    let devs = handle.devices(&sync).unwrap();
    assert_eq!(devs.len(), 2);
    // Every device of the account reports the account's row count.
    assert!(devs.iter().all(|d| d.subscriptions == 2));
}

#[test]
fn timestamps() {
    let t = Timestamp::from_i64(42);
    assert_eq!(t.as_i64(), 42);
    assert_eq!(Timestamp::zero(), Timestamp::from_i64(0));
    assert!(Timestamp::from_i64(1).le(&Timestamp::from_i64(2)));
    assert!(!Timestamp::from_i64(3).le(&Timestamp::from_i64(2)));
    assert!(now().is_ok());
}

#[test]
fn times() {
    assert_eq!(Time::epoch().as_i64(), 0);
    assert_eq!(Time::from_i64(59).as_i64(), 59);
    assert_eq!(Time::epoch(), Time::from_i64(0));
}

#[test]
fn action_raw_parts_round_trip() {
    let play = EpisodeAction::Play { started: 1, position: 2, total: 3 };
    let (tag, s, p, t) = play.to_raw_parts();
    assert!(matches!(tag, EpisodeActionRaw::Play));
    assert_eq!(
        EpisodeAction::try_from_raw_parts(tag, s, p, t).unwrap(),
        play
    );
    let (tag, s, p, t) = EpisodeAction::Delete.to_raw_parts();
    assert_eq!((s, p, t), (None, None, None));
    assert_eq!(
        EpisodeAction::try_from_raw_parts(tag, None, None, None).unwrap(),
        EpisodeAction::Delete
    );
    assert!(EpisodeAction::try_from_raw_parts(EpisodeActionRaw::Play, Some(1), None, Some(3))
        .is_err());
}

#[test]
fn auth_attempt_carries_user_and_hash() {
    let attempt = BasicAuth::new("bob".to_owned(), "abc".to_owned())
        .with_path_username("bob")
        .unwrap_or_else(|_| panic!("usernames match"));
    assert_eq!(attempt.user(), "bob");
    assert_eq!(attempt.calc_pwhash(), pwhash("abc"));
}

#[test]
fn mismatched_path_username_is_described() {
    let err = BasicAuth::new("bob".to_owned(), "abc".to_owned())
        .with_path_username("alice")
        .err()
        .unwrap();
    assert_eq!(err.path_user, "alice");
    assert_eq!(err.auth_user, "bob");
    assert!(err.describe().contains("mismatch"));
}

#[test]
fn args_getters() {
    let args = Args {
        secure: true,
        address: Some("0.0.0.0".to_owned()),
        data_dir: Some("/tmp/data".to_owned()),
        port: 8080,
        version: false,
    };
    assert!(args.secure());
    assert!(!args.show_version());
    assert_eq!(args.data_dir(), Some("/tmp/data"));
    let bare = Args { secure: false, address: None, data_dir: None, port: 80, version: true };
    assert!(bare.show_version());
    assert_eq!(bare.data_dir(), None);
}

#[test]
fn just_timestamp_carries_no_urls() {
    let up = UpdatedUrls::just_timestamp(Timestamp::from_i64(7));
    assert_eq!(up.timestamp, Timestamp::from_i64(7));
    assert!(up.update_urls.is_empty());
}

#[test]
fn find_user_distinguishes_absence() {
    let mut backend = Backend::new();
    backend.insert_user(User {
        username: "bob".to_owned(),
        pwhash: pwhash("abc"),
        session_id: None,
    });
    assert!(backend.find_user("bob").is_ok());
    assert!(matches!(
        backend.find_user("alice"),
        Err(podsync::backend::FindError::NotFound)
    ));
    // A second account under a taken name is refused.
    let dup = backend.insert_user(User {
        username: "bob".to_owned(),
        pwhash: pwhash("zzz"),
        session_id: None,
    });
    assert!(!dup);
}
