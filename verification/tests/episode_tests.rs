//! The episode reconciler: content-hash-deduplicated idempotent upserts
//! and cursor-addressed change queries.

use podsync::auth::{pwhash, BasicAuth};
use podsync::backend::Backend;
use podsync::episode::{Episode, EpisodeAction, Time};
use podsync::podsync::{PodSync, PodSyncAuthed, QueryEpisodes};
use podsync::time::Timestamp;
use podsync::user::User;

fn scoped(sync: &mut PodSync, user: &str, pass: &str) -> PodSyncAuthed<true> {
    let auth = BasicAuth::new(user.to_owned(), pass.to_owned())
        .with_path_username(user)
        .unwrap_or_else(|_| panic!("usernames match"));
    sync.login(auth, None).unwrap()
}

fn seeded(users: &[&str]) -> (PodSync, Vec<PodSyncAuthed<true>>) {
    let mut backend = Backend::new();
    for u in users {
        backend.insert_user(User {
            username: u.to_string(),
            pwhash: pwhash("pw"),
            session_id: None,
        });
    }
    let mut sync = PodSync::new(backend);
    let handles = users.iter().map(|u| scoped(&mut sync, u, "pw")).collect();
    (sync, handles)
}

fn episode(podcast: &str, ep: &str, action: EpisodeAction, device: Option<&str>) -> Episode {
    Episode {
        podcast: podcast.to_owned(),
        episode: ep.to_owned(),
        timestamp: None,
        guid: None,
        action,
        device: device.map(|d| d.to_owned()),
    }
}

fn all_since(since: i64) -> QueryEpisodes {
    QueryEpisodes {
        since: Some(Timestamp::from_i64(since)),
        aggregated: None,
        podcast: None,
        device: None,
    }
}

#[test]
fn idempotent_merge_keeps_modified() {
    let (mut sync, handles) = seeded(&["user1"]);
    let handle = &handles[0];
    let change = episode("p", "e", EpisodeAction::New, None);

    // First upsert at 10 inserts with modified = 10.
    handle
        .update_episodes(&mut sync, Timestamp::from_i64(10), vec![change.clone()])
        .unwrap();
    let got = handle.episodes(&sync, all_since(0), Timestamp::from_i64(11)).unwrap();
    assert_eq!(got.actions.len(), 1);
    assert_eq!(got.timestamp, Timestamp::from_i64(10));

    // The identical action at 20 is a semantic duplicate: modified stays
    // 10, and a cursor taken between the two applications sees nothing.
    handle
        .update_episodes(&mut sync, Timestamp::from_i64(20), vec![change.clone()])
        .unwrap();
    let got = handle.episodes(&sync, all_since(15), Timestamp::from_i64(21)).unwrap();
    assert!(got.actions.is_empty());
    assert_eq!(got.timestamp, Timestamp::from_i64(21));
    let got = handle.episodes(&sync, all_since(0), Timestamp::from_i64(21)).unwrap();
    assert_eq!(got.timestamp, Timestamp::from_i64(10));

    // A semantically different action advances modified.
    handle
        .update_episodes(
            &mut sync,
            Timestamp::from_i64(30),
            vec![episode("p", "e", EpisodeAction::Download, None)],
        )
        .unwrap();
    let got = handle.episodes(&sync, all_since(0), Timestamp::from_i64(31)).unwrap();
    assert_eq!(got.actions.len(), 1);
    assert!(matches!(got.actions[0].action, EpisodeAction::Download));
    assert_eq!(got.timestamp, Timestamp::from_i64(30));
}

#[test]
fn device_is_not_part_of_the_identity() {
    let (mut sync, handles) = seeded(&["user1"]);
    let handle = &handles[0];

    handle
        .update_episodes(
            &mut sync,
            Timestamp::from_i64(10),
            vec![episode("p", "e", EpisodeAction::New, Some("dev1"))],
        )
        .unwrap();
    // A different action for the same (podcast, episode) from another
    // device overwrites the same row; the stored device stays.
    handle
        .update_episodes(
            &mut sync,
            Timestamp::from_i64(20),
            vec![episode("p", "e", EpisodeAction::Delete, Some("dev2"))],
        )
        .unwrap();
    let got = handle.episodes(&sync, all_since(0), Timestamp::from_i64(21)).unwrap();
    assert_eq!(got.actions.len(), 1);
    assert!(matches!(got.actions[0].action, EpisodeAction::Delete));
    assert_eq!(got.actions[0].device.as_deref(), Some("dev1"));
    assert_eq!(got.timestamp, Timestamp::from_i64(20));
}

#[test]
fn other_accounts_are_unaffected() {
    let (mut sync, handles) = seeded(&["user1", "u2"]);

    handles[1]
        .update_episodes(
            &mut sync,
            Timestamp::from_i64(2),
            vec![episode("pod2", "ep2", EpisodeAction::New, Some("dev2"))],
        )
        .unwrap();
    let change = episode("pod1", "ep1", EpisodeAction::New, Some("dev1"));
    handles[0]
        .update_episodes(&mut sync, Timestamp::from_i64(25), vec![change.clone()])
        .unwrap();
    handles[0]
        .update_episodes(&mut sync, Timestamp::from_i64(40), vec![change])
        .unwrap();

    // The duplicate left user1's row at 25, and u2's row still sits at 2.
    let got = handles[0].episodes(&sync, all_since(0), Timestamp::from_i64(41)).unwrap();
    assert_eq!(got.timestamp, Timestamp::from_i64(25));
    let got = handles[1].episodes(&sync, all_since(0), Timestamp::from_i64(41)).unwrap();
    assert_eq!(got.actions.len(), 1);
    assert_eq!(got.timestamp, Timestamp::from_i64(2));
}

#[test]
fn missing_timestamp_is_backfilled_to_the_epoch() {
    let (mut sync, handles) = seeded(&["user1"]);
    let handle = &handles[0];
    handle
        .update_episodes(
            &mut sync,
            Timestamp::from_i64(5),
            vec![episode("p", "e", EpisodeAction::New, None)],
        )
        .unwrap();
    let got = handle.episodes(&sync, all_since(0), Timestamp::from_i64(6)).unwrap();
    assert_eq!(got.actions[0].timestamp, Some(Time::epoch()));
}

#[test]
fn play_positions_round_trip() {
    let (mut sync, handles) = seeded(&["user1"]);
    let handle = &handles[0];
    let play = EpisodeAction::Play { started: 5, position: 17, total: 300 };
    handle
        .update_episodes(
            &mut sync,
            Timestamp::from_i64(9),
            vec![episode("p", "e", play, None)],
        )
        .unwrap();
    let got = handle.episodes(&sync, all_since(0), Timestamp::from_i64(10)).unwrap();
    match got.actions[0].action {
        EpisodeAction::Play { started, position, total } => {
            assert_eq!((started, position, total), (5, 17, 300));
        },
        _ => panic!("expected a play action"),
    }
}

#[test]
fn queries_narrow_by_podcast_and_device() {
    let (mut sync, handles) = seeded(&["user1"]);
    let handle = &handles[0];
    handle
        .update_episodes(
            &mut sync,
            Timestamp::from_i64(10),
            vec![
                episode("pa", "e1", EpisodeAction::New, Some("d1")),
                episode("pb", "e2", EpisodeAction::New, Some("d2")),
            ],
        )
        .unwrap();

    let by_podcast = QueryEpisodes {
        since: Some(Timestamp::zero()),
        aggregated: None,
        podcast: Some("pa".to_owned()),
        device: None,
    };
    let got = handle.episodes(&sync, by_podcast, Timestamp::from_i64(11)).unwrap();
    assert_eq!(got.actions.len(), 1);
    assert_eq!(got.actions[0].podcast, "pa");

    let by_device = QueryEpisodes {
        since: Some(Timestamp::zero()),
        aggregated: None,
        podcast: None,
        device: Some("d2".to_owned()),
    };
    let got = handle.episodes(&sync, by_device, Timestamp::from_i64(11)).unwrap();
    assert_eq!(got.actions.len(), 1);
    assert_eq!(got.actions[0].episode, "e2");
}

#[test]
fn upload_reports_only_the_cursor() {
    let (mut sync, handles) = seeded(&["user1"]);
    let up = handles[0]
        .update_episodes(
            &mut sync,
            Timestamp::from_i64(12),
            vec![episode("p", "e", EpisodeAction::New, None)],
        )
        .unwrap();
    assert_eq!(up.timestamp, Timestamp::from_i64(12));
    assert!(up.update_urls.is_empty());
}

#[test]
fn content_hash_tracks_the_logical_fields_only() {
    let a = episode("p", "e", EpisodeAction::New, None);
    let b = episode("p", "e", EpisodeAction::New, Some("some-device"));
    // The device takes no part in the hash...
    assert_eq!(a.hash(), b.hash());
    // ...but every logical field does.
    assert_ne!(a.hash(), episode("p", "e", EpisodeAction::Download, None).hash());
    assert_ne!(a.hash(), episode("p", "e2", EpisodeAction::New, None).hash());
    assert_ne!(a.hash(), episode("p2", "e", EpisodeAction::New, None).hash());
    let mut with_time = episode("p", "e", EpisodeAction::New, None);
    with_time.timestamp = Some(Time::from_i64(30));
    assert_ne!(a.hash(), with_time.hash());
    let mut with_guid = episode("p", "e", EpisodeAction::New, None);
    with_guid.guid = Some("g".to_owned());
    assert_ne!(a.hash(), with_guid.hash());
    // And it is deterministic.
    assert_eq!(a.hash(), episode("p", "e", EpisodeAction::New, None).hash());
}

#[test]
fn episode_ids_compare_by_podcast_and_episode() {
    let a = episode("p", "e", EpisodeAction::New, Some("d1"));
    let b = episode("p", "e", EpisodeAction::Delete, Some("d2"));
    let c = episode("p", "e2", EpisodeAction::New, Some("d1"));
    assert!(a.id().same_key(&b.id()));
    assert!(!a.id().same_key(&c.id()));
}
