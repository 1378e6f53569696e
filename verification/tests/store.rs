use chrono::TimeZone;
use duralumin::episode::{Action, Episode, EpisodeState};
use duralumin::feed::Feed;
use duralumin::ids::{EpisodeId, FeedId};
use duralumin::time::UtcTime;
use duralumin::weburl::Url;

use duralumin::metadata::{sniff_image_mime, tag_plan, ImageMime, MetadataError};
use duralumin::storage::{
    attempt_to_row, episode_to_row, feed_to_row, from_column, list_dynamic_episodes,
    list_episodes, row_to_attempt, row_to_episode, row_to_feed, state_columns, to_column,
    upsert_episode, DownloadAttempt, EpisodeFilter, StorageError,
};

fn at(y: i32, m: u32, d: u32) -> UtcTime {
    let t = chrono::Utc.with_ymd_and_hms(y, m, d, 0, 0, 0).unwrap();
    UtcTime::from_timestamp(t.timestamp(), 0).unwrap()
}

fn feed(slug: &str) -> Feed {
    Feed {
        id: FeedId(1),
        url: Url::parse("https://example.com/rss").unwrap(),
        slug: slug.into(),
        title: Some("Test Podcast".into()),
        last_fetched_at: None,
        etag: None,
        last_modified: None,
        enabled: true,
        image_url: None,
    }
}

fn episode(title: &str, state: EpisodeState) -> Episode {
    Episode {
        id: EpisodeId::from_parts("https://example.com/rss", title),
        feed_id: FeedId(1),
        guid: title.into(),
        title: title.into(),
        description: None,
        pub_date: at(2024, 3, 15),
        duration_secs: None,
        enclosure_url: Url::parse("https://example.com/ep.mp3").unwrap(),
        enclosure_size: None,
        enclosure_mime: Some("audio/mpeg".into()),
        state,
        image_url: None,
        episode_no: 0,
    }
}

fn complete(path: &str) -> EpisodeState {
    EpisodeState::Complete {
        path: path.into(),
        downloaded_at: at(2024, 4, 1),
        sha256: "abc".into(),
    }
}


#[test]
fn stored_feeds_are_read_back() {
    let mut f = feed("a");
    f.image_url = Some(Url::parse("https://example.com/i.png").unwrap());
    f.last_fetched_at = Some(at(2024, 1, 1));
    let back = row_to_feed(feed_to_row(&f)).unwrap();
    assert_eq!(back.url.as_str(), f.url.as_str());
    assert_eq!(back.slug, "a");
    assert_eq!(back.title.as_deref(), Some("Test Podcast"));
    assert_eq!(back.last_fetched_at, f.last_fetched_at);
    assert!(back.enabled);
    assert_eq!(back.image_url.unwrap().as_str(), "https://example.com/i.png");
}

#[test]
fn bad_addresses_are_errors_but_bad_images_are_not() {
    let mut row = feed_to_row(&feed("a"));
    row.image_url = Some("no address".into());
    assert!(row_to_feed(row).unwrap().image_url.is_none());
    let mut row = feed_to_row(&feed("a"));
    row.url = "no address".into();
    let err = row_to_feed(row).unwrap_err();
    assert!(matches!(err, StorageError::Url(_)));
    assert_eq!(err.to_text(), "url parse error: relative URL without a base");
}

#[test]
fn stored_episodes_are_read_back() {
    let mut ep = episode("a", complete("/a.mp3"));
    ep.duration_secs = Some(3600);
    ep.enclosure_size = Some(u64::MAX);
    ep.episode_no = 4;
    let back = row_to_episode(episode_to_row(&ep)).unwrap();
    assert_eq!(back.id, ep.id);
    assert_eq!(back.duration_secs, Some(3600));
    assert_eq!(back.enclosure_size, Some(u64::MAX));
    assert_eq!(back.pub_date, ep.pub_date);
    assert_eq!(back.episode_no, 0);
    assert!(matches!(back.state, EpisodeState::Complete { .. }));
}

#[test]
fn large_numbers_survive_their_column() {
    assert_eq!(to_column(5), 5);
    assert_eq!(to_column(u64::MAX), -1);
    assert_eq!(from_column(-1), u64::MAX);
    assert_eq!(from_column(to_column(1 << 63)), 1 << 63);
}

#[test]
fn stored_attempts_are_read_back() {
    let attempt = DownloadAttempt {
        id: 3,
        episode_id: EpisodeId::from(String::from("0123456789")),
        attempt_number: 200,
        started_at: at(2024, 1, 1),
        ended_at: None,
        bytes_received: Some(17),
        http_status: Some(503),
        error_kind: Some("http".into()),
        error_detail: None,
    };
    let mut row = attempt_to_row(&attempt);
    assert_eq!(row.attempt_number, 200);
    row.attempt_number = 256 + 7;
    let back = row_to_attempt(row);
    assert_eq!(back.attempt_number, 7);
    assert_eq!(back.http_status, Some(503));
    assert_eq!(back.bytes_received, Some(17));
    assert_eq!(back.episode_id.as_str(), "0123456789");
}

#[test]
fn a_fetch_keeps_the_state() {
    let stored = episode("a", complete("/a.mp3"));
    let mut fetched = episode("a", EpisodeState::Discovered);
    fetched.title = "Updated Title".into();
    let (ep, is_new) = upsert_episode(Some(stored), fetched);
    assert!(!is_new);
    assert_eq!(ep.title, "Updated Title");
    assert!(matches!(ep.state, EpisodeState::Complete { .. }));
    let (ep, is_new) = upsert_episode(None, episode("b", EpisodeState::Discovered));
    assert!(is_new);
    assert_eq!(ep.title, "b");
}

#[test]
fn lists_are_filtered_and_cut() {
    let eps = vec![
        episode("a", EpisodeState::Discovered),
        episode("b", complete("/b.mp3")),
        episode("c", EpisodeState::Discovered),
    ];
    let mut filter = EpisodeFilter::default();
    assert_eq!(list_episodes(&eps, &filter).len(), 3);
    filter.state_kind = Some("discovered".into());
    let found = list_episodes(&eps, &filter);
    assert_eq!(found.len(), 2);
    assert_eq!(found[1].title, "c");
    filter.limit = Some(1);
    assert_eq!(list_episodes(&eps, &filter).len(), 1);
    assert_eq!(list_dynamic_episodes(&eps).len(), 0);
}

#[test]
fn files_are_stored_beside_the_state() {
    let (path, sha) = state_columns(&complete("/a.mp3"));
    assert_eq!(path.as_deref(), Some("/a.mp3"));
    assert_eq!(sha.as_deref(), Some("abc"));
    assert_eq!(state_columns(&EpisodeState::Discovered), (None, None));
}

#[test]
fn storage_errors_have_texts() {
    assert_eq!(StorageError::Db("x".into()).to_text(), "database error: x");
    assert_eq!(StorageError::Json("x".into()).to_text(), "serialisation error: x");
    assert_eq!(StorageError::Migrate("x".into()).to_text(), "migration error: x");
}

#[test]
fn states_have_names_and_texts() {
    assert_eq!(complete("/a.mp3").kind_name(), "complete");
    assert_eq!(complete("/a.mp3").to_text(), "complete → /a.mp3");
    assert!(complete("/a.mp3").is_terminal());
    let failed = EpisodeState::Failed { last_error: "x".into(), attempts: 2 };
    assert_eq!(failed.to_text(), "failed (2 attempt(s))");
    assert!(!failed.is_terminal());
    let matched = EpisodeState::Matched(Action::Skip);
    assert_eq!(matched.to_text(), "matched (skip)");
    let purged = EpisodeState::Purged { purged_at: at(2024, 1, 2) };
    assert_eq!(purged.to_text(), "purged (2024-01-02 00:00:00 UTC)");
}

#[test]
fn images_are_told_apart_by_their_first_bytes() {
    assert!(matches!(
        sniff_image_mime(&[0x89, b'P', b'N', b'G', 0x0d, 0x0a, 0x1a, 0x0a]),
        ImageMime::Png
    ));
    assert!(matches!(sniff_image_mime(&[0xff, 0xd8, 0xff]), ImageMime::Jpeg));
}

#[test]
fn tags_come_from_feed_and_episode() {
    let mut ep = episode("Title", EpisodeState::Discovered);
    ep.description = Some("x".repeat(9000));
    let plan = tag_plan(&ep, &feed("slug"), None);
    assert_eq!(plan.title, "Title");
    assert_eq!(plan.artist, "Test Podcast");
    assert_eq!(plan.album, "Test Podcast");
    assert_eq!(plan.recording_date, "2024-03-15");
    assert_eq!(plan.comment.unwrap().len(), 8192);
    assert!(plan.picture.is_none());
    let mut untitled = feed("slug");
    untitled.title = None;
    assert_eq!(tag_plan(&ep, &untitled, None).artist, "slug");
    assert!(MetadataError::Lofty("bad file".into()).to_text().contains("bad file"));
}
