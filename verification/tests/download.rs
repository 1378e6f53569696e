use chrono::TimeZone;
use duralumin::episode::{Action, Episode, EpisodeState};
use duralumin::feed::Feed;
use duralumin::ids::{EpisodeId, FeedId};
use duralumin::time::UtcTime;
use duralumin::weburl::Url;

use duralumin::downloader::{
    attempt_step, backoff, body_plan, bytes_before, check_size, file_name, file_sha256, first_step,
    part_path_for, pause_millis, range_header, resume_offset, retry_download, AttemptAction,
    AttemptEvent, AttemptState, BodyPlan, DownloadError, DownloadResult, DownloadStep,
    DownloaderConfig,
};
use duralumin::downloads::{
    downloaded_state, keep_found, task_step, TaskAction, TaskEvent, TaskState,
};
use duralumin::http::HttpStatus;
use duralumin::time::Duration;

fn at(y: i32, m: u32, d: u32) -> UtcTime {
    let t = chrono::Utc.with_ymd_and_hms(y, m, d, 0, 0, 0).unwrap();
    UtcTime::from_timestamp(t.timestamp(), 0).unwrap()
}

fn feed(slug: &str) -> Feed {
    Feed {
        id: FeedId(1),
        url: Url::parse("https://example.com/rss").unwrap(),
        slug: slug.into(),
        title: Some("Test Podcast".into()),
        last_fetched_at: None,
        etag: None,
        last_modified: None,
        enabled: true,
        image_url: None,
    }
}

fn episode(title: &str, state: EpisodeState) -> Episode {
    Episode {
        id: EpisodeId::from_parts("https://example.com/rss", title),
        feed_id: FeedId(1),
        guid: title.into(),
        title: title.into(),
        description: None,
        pub_date: at(2024, 3, 15),
        duration_secs: None,
        enclosure_url: Url::parse("https://example.com/ep.mp3").unwrap(),
        enclosure_size: None,
        enclosure_mime: Some("audio/mpeg".into()),
        state,
        image_url: None,
        episode_no: 0,
    }
}


fn config(max_retries: u8) -> DownloaderConfig {
    DownloaderConfig {
        concurrent_downloads: 2,
        attempt_timeout: Duration::from_secs(60),
        max_retries,
        backoff_base: Duration::from_secs(2),
        user_agent: "test".into(),
        accept_invalid_certs: false,
        max_bytes_per_sec: 0,
    }
}

fn status(code: u16) -> HttpStatus {
    HttpStatus::from_u16(code).unwrap()
}

#[test]
fn errors_have_reasons_and_texts() {
    let cases: Vec<(DownloadError, &str, &str)> = vec![
        (
            DownloadError::Timeout(Duration::from_secs(3)),
            "timeout",
            "download timed out after 3s",
        ),
        (DownloadError::Http(status(404)), "http_404", "HTTP 404 Not Found"),
        (DownloadError::Http(status(500)), "http", "HTTP 500 Internal Server Error"),
        (DownloadError::Io("full".into()), "io", "I/O error: full"),
        (
            DownloadError::SizeMismatch { expected: 10, actual: 5 },
            "size_mismatch",
            "size mismatch: expected ~10 bytes, got 5",
        ),
        (DownloadError::ChecksumMismatch, "checksum_mismatch", "checksum mismatch"),
        (DownloadError::Network("reset".into()), "network", "network error: reset"),
    ];
    for (e, reason, text) in cases {
        assert_eq!(e.reason(), reason);
        assert_eq!(e.to_text(), text);
    }
}

#[test]
fn pauses_double_within_a_quarter() {
    let base = Duration::from_secs(4);
    for attempt in 1u8..6 {
        let whole = 4000u128 << (attempt - 1);
        let ms = backoff(&base, attempt).as_millis();
        assert!(4 * ms >= 3 * whole && 4 * ms <= 5 * whole);
    }
    let again = backoff(&base, 2);
    assert_eq!(again.as_millis(), backoff(&base, 2).as_millis());
}

#[test]
fn pauses_are_spread_by_the_attempt() {
    // 2000 ms for the first attempt, with a quarter either way.
    let range: u64 = 500;
    let jitter = 6_364_136_223_846_793_005u64 % (range * 2 + 1);
    let expected = 2000 - range + jitter;
    assert_eq!(backoff(&Duration::from_secs(2), 1).as_millis(), expected as u128);
}

#[test]
fn downloads_are_tried_again_and_then_given_up() {
    assert!(matches!(first_step(3), DownloadStep::Attempt { number: 1 }));
    match retry_download(&config(3), 1, DownloadError::Network("x".into())) {
        DownloadStep::Retry { failed, next, .. } => {
            assert_eq!(next, 2);
            assert!(matches!(failed, EpisodeState::Failed { attempts: 1, .. }));
        }
        _ => panic!("there are attempts left"),
    }
    match retry_download(&config(3), 3, DownloadError::ChecksumMismatch) {
        DownloadStep::GiveUp { quarantined, error } => {
            assert!(matches!(error, DownloadError::ChecksumMismatch));
            match quarantined {
                Some(EpisodeState::Quarantined { reason, last_error }) => {
                    assert_eq!(reason, "checksum_mismatch");
                    assert_eq!(last_error, "checksum mismatch");
                }
                _ => panic!("the episode is quarantined"),
            }
        }
        _ => panic!("no attempt is left"),
    }
}

#[test]
fn files_are_named_by_title_and_identifier() {
    let ep = episode("My Show: 1", EpisodeState::Discovered);
    assert_eq!(file_name(&ep, false), "my-show-1.mp3");
    let short = ep.id.short().to_string();
    assert_eq!(file_name(&ep, true), format!("my-show-1-{short}.mp3"));
    assert_eq!(part_path_for("my-show-1.mp3"), "my-show-1.mp3.part");
}

#[test]
fn downloads_resume_where_the_server_allows_it() {
    assert_eq!(resume_offset(100, &Some("bytes".into())), 100);
    assert_eq!(resume_offset(100, &Some("none".into())), 0);
    assert_eq!(resume_offset(100, &None), 0);
    assert_eq!(range_header(100).as_deref(), Some("bytes=100-"));
    assert_eq!(range_header(0), None);
    assert!(matches!(body_plan(100, status(206)), BodyPlan::Append));
    assert!(matches!(body_plan(100, status(200)), BodyPlan::Restart));
    assert!(matches!(body_plan(0, status(200)), BodyPlan::Create));
    assert!(matches!(body_plan(0, status(403)), BodyPlan::Refuse(DownloadError::Http(_))));
    assert_eq!(bytes_before(&BodyPlan::Append, 100), 100);
    assert_eq!(bytes_before(&BodyPlan::Restart, 100), 0);
}

#[test]
fn sizes_may_differ_by_the_tolerance() {
    assert!(check_size(Some(1000), 10, 990).is_ok());
    assert!(check_size(Some(1000), 10, 1010).is_ok());
    assert!(check_size(None, 0, 5).is_ok());
    match check_size(Some(1000), 10, 989) {
        Err(DownloadError::SizeMismatch { expected, actual }) => {
            assert_eq!((expected, actual), (1000, 989));
        }
        _ => panic!("the file is too short"),
    }
}

#[test]
fn contents_are_hashed() {
    assert_eq!(
        file_sha256(b"abc"),
        "ba7816bf8f01cfea414140de5dae2223b00361a396177a9cb410ff61f20015ad"
    );
}

#[test]
fn an_attempt_resumes_what_is_there() {
    let mut ep = episode("Show", EpisodeState::Discovered);
    ep.enclosure_size = Some(1000);
    let (s, a) = attempt_step(&ep, 10, AttemptState::Start, AttemptEvent::Begin);
    assert!(matches!(a, AttemptAction::LookFor { name } if name == "show.mp3"));
    let (s, a) = attempt_step(&ep, 10, s, AttemptEvent::Looked { taken: false });
    assert!(matches!(a, AttemptAction::MeasurePart { part } if part == "show.mp3.part"));
    let (s, a) = attempt_step(&ep, 10, s, AttemptEvent::Measured { size: Ok(400) });
    assert!(matches!(a, AttemptAction::AskRanges));
    let accept = Ok(Some("bytes".to_string()));
    let (s, a) = attempt_step(&ep, 10, s, AttemptEvent::RangesKnown { accept });
    assert!(matches!(a, AttemptAction::Request { range: Some(r) } if r == "bytes=400-"));
    let (s, a) = attempt_step(&ep, 10, s, AttemptEvent::Responded { status: Ok(status(206)) });
    assert!(matches!(a, AttemptAction::Append { part } if part == "show.mp3.part"));
    let (s, a) = attempt_step(&ep, 10, s, AttemptEvent::Opened { result: Ok(()) });
    assert!(matches!(a, AttemptAction::Receive));
    let got = Ok((595, "digest".to_string()));
    let (s, a) = attempt_step(&ep, 10, s, AttemptEvent::Received { result: got });
    match a {
        AttemptAction::Rename { part, name } => {
            assert_eq!((part.as_str(), name.as_str()), ("show.mp3.part", "show.mp3"));
        }
        _ => panic!("the file gets its name"),
    }
    let (s, a) = attempt_step(&ep, 10, s, AttemptEvent::Renamed { result: Ok(()) });
    assert!(matches!(s, AttemptState::Finished));
    match a {
        AttemptAction::Succeed { name, bytes, sha256 } => {
            assert_eq!((name.as_str(), bytes, sha256.as_str()), ("show.mp3", 995, "digest"));
        }
        _ => panic!("the episode is downloaded"),
    }
}

#[test]
fn an_attempt_with_the_wrong_size_leaves_no_file() {
    let mut ep = episode("Show", EpisodeState::Discovered);
    ep.enclosure_size = Some(1000);
    let s = AttemptState::AwaitBody { name: "show.mp3".into(), before: 0 };
    let got = Ok((989, "digest".to_string()));
    let (s, a) = attempt_step(&ep, 10, s, AttemptEvent::Received { result: got });
    assert!(matches!(a, AttemptAction::DeletePart { part } if part == "show.mp3.part"));
    let (s, a) = attempt_step(&ep, 10, s, AttemptEvent::Deleted);
    match a {
        AttemptAction::Fail { error: DownloadError::SizeMismatch { expected, actual } } => {
            assert_eq!((expected, actual), (1000, 989));
        }
        _ => panic!("the size is refused"),
    }
    let (s, a) = attempt_step(&ep, 10, s, AttemptEvent::Renamed { result: Ok(()) });
    assert!(matches!(s, AttemptState::Finished));
    assert!(matches!(a, AttemptAction::Stop));
}

#[test]
fn an_attempt_starts_anew_where_ranges_are_ignored() {
    let ep = episode("Show", EpisodeState::Discovered);
    let name = "show.mp3".to_string();
    let s = AttemptState::AwaitRanges { name: name.clone(), existing: 400 };
    let accept = Ok(Some("none".to_string()));
    let (_, a) = attempt_step(&ep, 0, s, AttemptEvent::RangesKnown { accept });
    assert!(matches!(a, AttemptAction::Request { range: None }));
    let s = AttemptState::AwaitResponse { name: name.clone(), resume_from: 400 };
    let (s, a) = attempt_step(&ep, 0, s, AttemptEvent::Responded { status: Ok(status(200)) });
    assert!(matches!(a, AttemptAction::Restart { part } if part == "show.mp3.part"));
    assert!(matches!(s, AttemptState::AwaitOpened { before: 0, .. }));
    let s = AttemptState::AwaitPart { name };
    let (_, a) = attempt_step(&ep, 0, s, AttemptEvent::Measured { size: Ok(0) });
    assert!(matches!(a, AttemptAction::Request { range: None }));
}

#[test]
fn an_attempt_ends_with_the_first_error() {
    let ep = episode("Show", EpisodeState::Discovered);
    let name = || "show.mp3".to_string();
    let no = || "no".to_string();
    let io: Vec<(AttemptState, AttemptEvent)> = vec![
        (AttemptState::AwaitPart { name: name() }, AttemptEvent::Measured { size: Err(no()) }),
        (
            AttemptState::AwaitOpened { name: name(), before: 0 },
            AttemptEvent::Opened { result: Err(no()) },
        ),
        (
            AttemptState::AwaitRenamed { name: name(), bytes: 1, sha256: "h".into() },
            AttemptEvent::Renamed { result: Err(no()) },
        ),
    ];
    for (s, e) in io {
        let (_, a) = attempt_step(&ep, 0, s, e);
        assert!(matches!(a, AttemptAction::Fail { error: DownloadError::Io(m) } if m == "no"));
    }
    let net: Vec<(AttemptState, AttemptEvent)> = vec![
        (
            AttemptState::AwaitRanges { name: name(), existing: 1 },
            AttemptEvent::RangesKnown { accept: Err(no()) },
        ),
        (
            AttemptState::AwaitResponse { name: name(), resume_from: 0 },
            AttemptEvent::Responded { status: Err(no()) },
        ),
        (
            AttemptState::AwaitBody { name: name(), before: 0 },
            AttemptEvent::Received { result: Err(DownloadError::Network(no())) },
        ),
    ];
    for (s, e) in net {
        let (_, a) = attempt_step(&ep, 0, s, e);
        assert!(matches!(a, AttemptAction::Fail { error: DownloadError::Network(m) } if m == "no"));
    }
    let s = AttemptState::AwaitResponse { name: name(), resume_from: 0 };
    let (_, a) = attempt_step(&ep, 0, s, AttemptEvent::Responded { status: Ok(status(404)) });
    assert!(matches!(a, AttemptAction::Fail { error: DownloadError::Http(_) }));
}

#[test]
fn rates_are_capped() {
    assert_eq!(pause_millis(1_000_000, 0, 0), 0);
    assert_eq!(pause_millis(1000, 0, 1000), 1000);
    assert_eq!(pause_millis(1000, 400, 1000), 600);
    assert_eq!(pause_millis(1000, 5000, 1000), 0);
}

#[test]
fn a_download_runs_its_course() {
    let ep = episode("Show", EpisodeState::Matched(Action::Download));
    let now = at(2024, 5, 1);
    let (s, a) = task_step(&ep, TaskState::Start, TaskEvent::Begin, now);
    assert!(matches!(a, TaskAction::LoadFeed { id: FeedId(1) }));
    let (s, a) = task_step(&ep, s, TaskEvent::FeedLoaded { feed: Some(feed("slug")) }, now);
    assert!(matches!(a, TaskAction::MakeDir { slug } if slug == "slug"));
    let (s, a) = task_step(&ep, s, TaskEvent::DirMade { ok: true }, now);
    assert!(matches!(a, TaskAction::FindFile { name } if name == "show.mp3"));
    let (s, a) = task_step(&ep, s, TaskEvent::FileMissing, now);
    assert!(matches!(a, TaskAction::Download));
    let result = DownloadResult { path: "/l/show.mp3".into(), sha256: "h".into(), bytes: 1 };
    let (s, a) = task_step(&ep, s, TaskEvent::Downloaded { result: Ok(result) }, now);
    match a {
        TaskAction::SetState { state: EpisodeState::Complete { path, downloaded_at, sha256 } } => {
            assert_eq!(path, "/l/show.mp3");
            assert_eq!(downloaded_at, now);
            assert_eq!(sha256, "h");
        }
        _ => panic!("the state is set"),
    }
    let (s, a) = task_step(&ep, s, TaskEvent::StateSet { ok: true }, now);
    assert!(matches!(a, TaskAction::Dequeue));
    let (s, a) = task_step(&ep, s, TaskEvent::Dequeued, now);
    assert!(matches!(a, TaskAction::WriteTags { path } if path == "/l/show.mp3"));
    let (s, a) = task_step(&ep, s, TaskEvent::Tagged, now);
    assert!(matches!(s, TaskState::Finished));
    assert!(matches!(a, TaskAction::Finish));
}

#[test]
fn a_file_that_is_there_is_not_downloaded() {
    let ep = episode("Show", EpisodeState::Matched(Action::Dynamic));
    let now = at(2024, 5, 1);
    let changed = at(2024, 4, 1);
    let event = TaskEvent::FileFound { path: "/l/show.mp3".into(), modified: Some(changed) };
    let (_, a) = task_step(&ep, TaskState::AwaitFile, event, now);
    match a {
        TaskAction::SetState { state: EpisodeState::Dynamic { downloaded_at, sha256, .. } } => {
            assert_eq!(downloaded_at, changed);
            assert_eq!(sha256, "");
        }
        _ => panic!("the state is set"),
    }
}

#[test]
fn a_failed_download_is_quarantined_and_dequeued() {
    let ep = episode("Show", EpisodeState::Matched(Action::Download));
    let now = at(2024, 5, 1);
    let event = TaskEvent::Downloaded { result: Err(DownloadError::Http(status(404))) };
    let (s, a) = task_step(&ep, TaskState::AwaitDownload, event, now);
    match a {
        TaskAction::SetState { state: EpisodeState::Quarantined { reason, .. } } => {
            assert_eq!(reason, "http_404");
        }
        _ => panic!("the episode is quarantined"),
    }
    let (_, a) = task_step(&ep, s, TaskEvent::StateSet { ok: false }, now);
    assert!(matches!(a, TaskAction::Dequeue));
}

#[test]
fn only_dynamic_episodes_become_dynamic() {
    let now = at(2024, 5, 1);
    let ep = episode("a", EpisodeState::Matched(Action::Dynamic));
    assert!(matches!(
        downloaded_state(&ep, "p".into(), now, "h".into()),
        EpisodeState::Dynamic { .. }
    ));
    let ep = episode("a", EpisodeState::Discovered);
    assert!(matches!(
        downloaded_state(&ep, "p".into(), now, "h".into()),
        EpisodeState::Complete { .. }
    ));
}

#[test]
fn unknown_episodes_are_left_out() {
    let found = vec![None, Some(episode("a", EpisodeState::Discovered)), None];
    let kept = keep_found(&found);
    assert_eq!(kept.len(), 1);
    assert_eq!(kept[0].title, "a");
}
