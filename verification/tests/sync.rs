use chrono::TimeZone;
use duralumin::episode::{Action, Episode, EpisodeState};
use duralumin::feed::Feed;
use duralumin::ids::{EpisodeId, FeedId};
use duralumin::time::{Duration, UtcTime};
use duralumin::weburl::Url;

use duralumin::feed_parse::FeedMeta;
use duralumin::feed_sync::{
    fetched_feed, find_position, next_step, purge_cycle, purge_step, purged_state, queues,
    purge_one_feed, recheck_episode, recheck_feed, start_sync, sync_one_feed, NewEpisodeEvent,
    NewEpisodeStep, PurgeStep, SyncEvent, SyncStage,
};
use duralumin::rules::config::{
    DynamicRuleConfig, DynamicRuleKind, FeedConfig, RuleConfig, RuleKind,
};
use duralumin::rules::engine::RuleEngine;

fn at(y: i32, m: u32, d: u32) -> UtcTime {
    let t = chrono::Utc.with_ymd_and_hms(y, m, d, 0, 0, 0).unwrap();
    UtcTime::from_timestamp(t.timestamp(), 0).unwrap()
}

fn feed(slug: &str) -> Feed {
    Feed {
        id: FeedId(1),
        url: Url::parse("https://example.com/rss").unwrap(),
        slug: slug.into(),
        title: Some("Test Podcast".into()),
        last_fetched_at: None,
        etag: None,
        last_modified: None,
        enabled: true,
        image_url: None,
    }
}

fn episode(title: &str, state: EpisodeState) -> Episode {
    Episode {
        id: EpisodeId::from_parts("https://example.com/rss", title),
        feed_id: FeedId(1),
        guid: title.into(),
        title: title.into(),
        description: None,
        pub_date: at(2024, 3, 15),
        duration_secs: None,
        enclosure_url: Url::parse("https://example.com/ep.mp3").unwrap(),
        enclosure_size: None,
        enclosure_mime: Some("audio/mpeg".into()),
        state,
        image_url: None,
        episode_no: 0,
    }
}

fn complete(path: &str) -> EpisodeState {
    EpisodeState::Complete {
        path: path.into(),
        downloaded_at: at(2024, 4, 1),
        sha256: "abc".into(),
    }
}

fn dynamic_state(path: &str) -> EpisodeState {
    EpisodeState::Dynamic {
        path: path.into(),
        downloaded_at: at(2024, 4, 1),
        sha256: "abc".into(),
    }
}

fn always(action: Action) -> RuleEngine {
    let rules = vec![RuleConfig {
        name: "all".into(),
        priority: 0,
        match_: RuleKind::Always,
        action,
    }];
    RuleEngine::build(&[], &[], &rules, &[], Action::Skip).unwrap()
}

fn last_two() -> RuleEngine {
    let window = vec![DynamicRuleConfig {
        name: "window".into(),
        match_: DynamicRuleKind::LastNEpisodes { last_n_episodes: 2 },
        action: Action::Dynamic,
    }];
    RuleEngine::build(&[], &[], &[], &window, Action::Skip).unwrap()
}

#[test]
fn fetched_metadata_replaces_what_is_known() {
    let meta = FeedMeta {
        title: Some("New".into()),
        etag: Some("e".into()),
        last_modified: None,
        image_url: None,
    };
    let now = at(2024, 5, 1);
    let f = fetched_feed(feed("a"), meta, now);
    assert_eq!(f.title.as_deref(), Some("New"));
    assert_eq!(f.etag.as_deref(), Some("e"));
    assert_eq!(f.last_fetched_at, Some(now));
    assert_eq!(f.slug, "a");
}

#[test]
fn new_episodes_are_queued_before_they_are_matched() {
    assert!(queues(Action::Download));
    let stored = next_step(
        NewEpisodeStep::Store,
        NewEpisodeEvent::Stored { is_new: true },
        Action::Download,
    );
    assert!(matches!(stored, NewEpisodeStep::Enqueue(Action::Download)));
    let queued = next_step(stored, NewEpisodeEvent::Done, Action::Download);
    assert!(matches!(queued, NewEpisodeStep::SetMatched(Action::Download)));
    let done = next_step(queued, NewEpisodeEvent::Done, Action::Download);
    assert!(matches!(done, NewEpisodeStep::Finished));
}

#[test]
fn failed_queueing_leaves_the_state() {
    let next = next_step(
        NewEpisodeStep::Enqueue(Action::Download),
        NewEpisodeEvent::Failed,
        Action::Download,
    );
    assert!(matches!(next, NewEpisodeStep::Finished));
}

#[test]
fn known_episodes_are_left_alone() {
    let next = next_step(
        NewEpisodeStep::Store,
        NewEpisodeEvent::Stored { is_new: false },
        Action::Download,
    );
    assert!(matches!(next, NewEpisodeStep::Finished));
}

#[test]
fn positions_are_looked_up_in_the_feed() {
    let mut second = episode("b", EpisodeState::Discovered);
    second.episode_no = 1;
    let parsed = vec![episode("a", EpisodeState::Discovered), second];
    assert_eq!(find_position(&parsed, &parsed[1].id), 1);
    let absent = EpisodeId::from_parts("x", "y");
    assert_eq!(find_position(&parsed, &absent), usize::MAX);
}

#[test]
fn recheck_reassigns_pending_episodes() {
    let engine = always(Action::Download);
    let now = at(2024, 5, 1);
    let f = feed("a");
    let skipped = episode("a", EpisodeState::Matched(Action::Skip));
    assert_eq!(
        recheck_episode(&skipped, &[], &f, &engine, &now),
        Some(Action::Download)
    );
    let queued = episode("b", EpisodeState::Matched(Action::Download));
    assert_eq!(recheck_episode(&queued, &[], &f, &engine, &now), None);
    let done = episode("c", complete("/a.mp3"));
    assert_eq!(recheck_episode(&done, &[], &f, &engine, &now), None);
    let changed = recheck_feed(&[skipped, queued, done], &[], &f, &engine, &now);
    assert_eq!(changed.len(), 1);
    assert_eq!(changed[0].action, Action::Download);
}

#[test]
fn episodes_outside_the_window_are_purged() {
    let now = at(2024, 5, 1);
    let mut eps = Vec::new();
    for (i, name) in ["a", "b", "c"].iter().enumerate() {
        let mut ep = episode(name, dynamic_state("/file.mp3"));
        ep.episode_no = i;
        eps.push(ep);
    }
    let steps = purge_cycle(&eps, &eps, &feed("a"), &last_two(), &now);
    assert!(matches!(steps[0], PurgeStep::Keep));
    assert!(matches!(steps[1], PurgeStep::Keep));
    match &steps[2] {
        PurgeStep::Purge { file } => assert_eq!(file.as_deref(), Some("/file.mp3")),
        _ => panic!("the third episode is outside the window"),
    }
}

#[test]
fn episodes_that_a_rule_downloads_are_kept_for_good() {
    match purge_step(&dynamic_state("/f.mp3"), Action::Download) {
        PurgeStep::Promote(EpisodeState::Complete { path, sha256, .. }) => {
            assert_eq!(path, "/f.mp3");
            assert_eq!(sha256, "abc");
        }
        _ => panic!("the episode is promoted"),
    }
    assert!(matches!(
        purge_step(&dynamic_state("/f.mp3"), Action::Dynamic),
        PurgeStep::Keep
    ));
}

#[test]
fn purged_episodes_remember_when() {
    let now = at(2024, 5, 1);
    match purged_state(now) {
        EpisodeState::Purged { purged_at } => assert_eq!(purged_at, now),
        _ => panic!("the state is purged"),
    }
}

fn feed_config() -> FeedConfig {
    FeedConfig {
        url: Url::parse("https://example.com/rss").unwrap(),
        slug: "show".into(),
        display_name: None,
        aliases: Vec::new(),
        poll_interval: Duration::from_secs(3600),
        enabled: true,
        restream: false,
        restream_only_matched: true,
        rules: Vec::new(),
        dynamic: Vec::new(),
        default_action: None,
    }
}

fn fetched() -> SyncEvent {
    let meta = FeedMeta {
        title: Some("New title".into()),
        etag: Some("tag".into()),
        last_modified: None,
        image_url: None,
    };
    SyncEvent::Fetched(Some((meta, vec![episode("a", EpisodeState::Discovered)])))
}

#[test]
fn a_sync_runs_through_its_stages() {
    let now = at(2024, 5, 1);
    let run = start_sync(&feed_config());
    assert_eq!(run.stage, SyncStage::Identify);
    assert_eq!(run.feed.id, FeedId(0));
    let run = sync_one_feed(run, SyncEvent::FeedStored(Some(FeedId(7))), true, now);
    assert_eq!(run.stage, SyncStage::Fetch);
    assert_eq!(run.feed.id, FeedId(7));
    let run = sync_one_feed(run, fetched(), true, now);
    assert_eq!(run.stage, SyncStage::StoreMeta);
    assert_eq!(run.feed.title.as_deref(), Some("New title"));
    assert_eq!(run.feed.last_fetched_at, Some(now));
    assert_eq!(run.episodes.len(), 1);
    assert_eq!(run.episodes[0].feed_id, FeedId(7));
    let run = sync_one_feed(run, SyncEvent::FeedStored(None), true, now);
    assert_eq!(run.stage, SyncStage::TakeIn);
    let run = sync_one_feed(run, SyncEvent::Done, true, now);
    assert_eq!(run.stage, SyncStage::Purge);
    let run = sync_one_feed(run, SyncEvent::Done, true, now);
    assert_eq!(run.stage, SyncStage::Recheck);
    let run = sync_one_feed(run, SyncEvent::Done, true, now);
    assert_eq!(run.stage, SyncStage::Finished);
}

#[test]
fn a_sync_without_a_feed_ends() {
    let now = at(2024, 5, 1);
    let run = start_sync(&feed_config());
    let run = sync_one_feed(run, SyncEvent::FeedStored(None), true, now);
    assert_eq!(run.stage, SyncStage::Finished);

    let run = start_sync(&feed_config());
    let run = sync_one_feed(run, SyncEvent::FeedStored(Some(FeedId(1))), true, now);
    let run = sync_one_feed(run, SyncEvent::Fetched(None), true, now);
    assert_eq!(run.stage, SyncStage::Finished);
    assert!(run.episodes.is_empty());
}

#[test]
fn rechecks_are_made_on_request() {
    let now = at(2024, 5, 1);
    let run = start_sync(&feed_config());
    let run = sync_one_feed(run, SyncEvent::FeedStored(Some(FeedId(1))), false, now);
    let run = sync_one_feed(run, fetched(), false, now);
    let run = sync_one_feed(run, SyncEvent::FeedStored(Some(FeedId(1))), false, now);
    let run = sync_one_feed(run, SyncEvent::Done, false, now);
    let run = sync_one_feed(run, SyncEvent::Done, false, now);
    assert_eq!(run.stage, SyncStage::Finished);
}

#[test]
fn a_purge_takes_nothing_in() {
    let run = start_sync(&feed_config());
    let run = purge_one_feed(run, SyncEvent::FeedStored(Some(FeedId(7))));
    assert_eq!(run.stage, SyncStage::Fetch);
    let run = purge_one_feed(run, fetched());
    assert_eq!(run.stage, SyncStage::Purge);
    assert_eq!(run.feed.title, None);
    assert_eq!(run.episodes.len(), 1);
    let run = purge_one_feed(run, SyncEvent::Done);
    assert_eq!(run.stage, SyncStage::Finished);
}
