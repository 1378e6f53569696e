use chrono::TimeZone;
use duralumin::episode::{Episode, EpisodeState};
use duralumin::feed::Feed;
use duralumin::ids::{EpisodeId, FeedId};
use duralumin::time::UtcTime;
use duralumin::weburl::Url;
use duralumin::rss_gen::{
    build_cover_url, cache_cover_image, cover_extension, cover_file_name, generate_rss_for_feed,
    is_fresh, restream_episodes, CoverOutcome, RssContext,
};
use duralumin::rules::config::FeedConfig;
use duralumin::server::auth::AuthGuard;
use duralumin::server::config::ServerConfig;
use duralumin::server::handlers::{
    audio_handler, images_handler, local_file, proxy_headers, rss_file_name, rss_handler, Answer,
    Lookup,
};
use duralumin::server::rss::{audio_url, build_rss, esc, feed_url, format_duration};
use duralumin::time::Duration;

fn at(y: i32, m: u32, d: u32) -> UtcTime {
    let t = chrono::Utc.with_ymd_and_hms(y, m, d, 0, 0, 0).unwrap();
    UtcTime::from_timestamp(t.timestamp(), 0).unwrap()
}

fn feed(slug: &str) -> Feed {
    Feed {
        id: FeedId(1),
        url: Url::parse("https://example.com/rss").unwrap(),
        slug: slug.into(),
        title: Some("Test Podcast".into()),
        last_fetched_at: None,
        etag: None,
        last_modified: None,
        enabled: true,
        image_url: None,
    }
}

fn episode(title: &str, state: EpisodeState) -> Episode {
    Episode {
        id: EpisodeId::from_parts("https://example.com/rss", title),
        feed_id: FeedId(1),
        guid: title.into(),
        title: title.into(),
        description: None,
        pub_date: at(2024, 3, 15),
        duration_secs: None,
        enclosure_url: Url::parse("https://example.com/ep.mp3").unwrap(),
        enclosure_size: None,
        enclosure_mime: Some("audio/mpeg".into()),
        state,
        image_url: None,
        episode_no: 0,
    }
}

fn complete(path: &str) -> EpisodeState {
    EpisodeState::Complete {
        path: path.into(),
        downloaded_at: at(2024, 4, 1),
        sha256: "abc".into(),
    }
}

fn feed_config(slug: &str) -> FeedConfig {
    FeedConfig {
        url: Url::parse("https://example.com/rss").unwrap(),
        slug: slug.into(),
        display_name: None,
        aliases: Vec::new(),
        poll_interval: Duration::from_secs(3600),
        enabled: true,
        restream: false,
        restream_only_matched: true,
        rules: Vec::new(),
        dynamic: Vec::new(),
        default_action: None,
    }
}

fn server() -> ServerConfig {
    ServerConfig {
        bind: "127.0.0.1:8080".into(),
        base_url: Url::parse("https://pods.example.com").unwrap(),
        auth_token: Some("t0".into()),
    }
}

fn context() -> RssContext {
    RssContext {
        server_cfg: server(),
        rss_dir: "/data/rss".into(),
        images_dir: "/data/images".into(),
    }
}

#[test]
fn markup_is_escaped() {
    assert_eq!(esc("a < b & \"c\" > 'd'"), "a &lt; b &amp; &quot;c&quot; &gt; 'd'");
}

#[test]
fn durations_are_clock_times() {
    assert_eq!(format_duration(59), "0:59");
    assert_eq!(format_duration(3723), "1:02:03");
    assert_eq!(format_duration(605), "10:05");
}

#[test]
fn addresses_carry_the_token() {
    assert_eq!(feed_url(&server(), "show"), "https://pods.example.com/rss/show?key=t0");
    assert_eq!(
        audio_url(&server(), "show", "id1"),
        "https://pods.example.com/rss/show/id1?key=t0"
    );
    let mut open = server();
    open.auth_token = None;
    assert_eq!(feed_url(&open, "show"), "https://pods.example.com/rss/show");
}

#[test]
fn sub_paths_are_kept() {
    let mut cfg = server();
    cfg.base_url = Url::parse("https://example.com/pods").unwrap();
    cfg.auth_token = None;
    assert_eq!(feed_url(&cfg, "show"), "https://example.com/pods/rss/show");
}

#[test]
fn documents_hold_all_episodes() {
    let mut ep = episode("One & Two", complete("/a.mp3"));
    ep.duration_secs = Some(61);
    ep.enclosure_size = Some(1234);
    let text = build_rss(&feed("show"), &[ep.clone()], &server(), "show");
    assert!(text.starts_with("<?xml version=\"1.0\" encoding=\"UTF-8\"?>\n<rss version=\"2.0\""));
    assert!(text.contains("<title>One &amp; Two</title>"));
    assert!(text.contains("<title>Test Podcast</title>"));
    assert!(text.contains(&format!("/rss/show/{}?key=t0", ep.id.as_str())));
    assert!(text.contains("<pubDate>Fri, 15 Mar 2024 00:00:00 +0000</pubDate>"));
    assert!(text.contains("length=\"1234\""));
    assert!(text.contains("<itunes:duration>1:01</itunes:duration>"));
    assert!(text.ends_with("</channel>\n</rss>\n"));
}

#[test]
fn only_matched_episodes_are_restreamed() {
    let eps = vec![
        episode("a", complete("/a.mp3")),
        episode("b", EpisodeState::Discovered),
    ];
    assert_eq!(restream_episodes(&eps, true).len(), 1);
    assert_eq!(restream_episodes(&eps, false).len(), 2);
    let text = generate_rss_for_feed(&feed_config("show"), &feed("show"), &eps, &None, &context());
    assert!(text.contains("<title>a</title>"));
    assert!(!text.contains("<title>b</title>"));
}

#[test]
fn covers_are_served_from_the_cache() {
    assert_eq!(cover_extension("/img/cover.png"), "png");
    assert_eq!(cover_file_name("png"), "cover.png");
    assert_eq!(
        build_cover_url(&context(), "show", "png"),
        "https://pods.example.com/images/show/cover.png?key=t0"
    );
    let mut f = feed("show");
    assert_eq!(cache_cover_image("show", &f, &context(), CoverOutcome::Fresh), None);
    f.image_url = Some(Url::parse("https://example.com/x/logo.png").unwrap());
    assert_eq!(
        cache_cover_image("show", &f, &context(), CoverOutcome::Written).as_deref(),
        Some("https://pods.example.com/images/show/cover.png?key=t0")
    );
    assert_eq!(
        cache_cover_image("show", &f, &context(), CoverOutcome::Fresh).as_deref(),
        Some("https://pods.example.com/images/show/cover.png?key=t0")
    );
    assert_eq!(cache_cover_image("show", &f, &context(), CoverOutcome::FetchFailed), None);
    assert_eq!(cache_cover_image("show", &f, &context(), CoverOutcome::Unusable), None);
}

#[test]
fn old_covers_are_not_fresh() {
    assert!(is_fresh(Some(10), 20));
    assert!(!is_fresh(Some(20), 20));
    assert!(!is_fresh(None, 20));
}

#[test]
fn requests_show_the_token() {
    let token = Some(String::from("t0"));
    assert!(AuthGuard::from_request(&None, &None, &None).is_ok());
    assert!(AuthGuard::from_request(&token, &Some("Bearer t0".into()), &None).is_ok());
    assert!(AuthGuard::from_request(&token, &None, &Some("t0".into())).is_ok());
    assert!(matches!(AuthGuard::from_request(&token, &None, &None), Err(401)));
    assert!(matches!(
        AuthGuard::from_request(&token, &Some("Bearer no".into()), &Some("no".into())),
        Err(401)
    ));
}

#[test]
fn documents_are_files() {
    assert_eq!(rss_file_name("show"), "show.xml");
    match rss_handler("/data/rss/show.xml", true) {
        Answer::File { path, content_type } => {
            assert_eq!(path, "/data/rss/show.xml");
            assert_eq!(content_type.as_deref(), Some("text/xml; charset=utf-8"));
        }
        _ => panic!("the document is there"),
    }
    assert!(matches!(rss_handler("/x", false), Answer::Status { code: 404, .. }));
    assert!(matches!(images_handler("/x", false), Answer::Status { code: 404, .. }));
    assert!(matches!(images_handler("/x", true), Answer::File { content_type: None, .. }));
}

#[test]
fn audio_comes_from_disk_or_from_the_origin() {
    let found = Lookup::Found(episode("a", complete("/a.mp3")));
    assert!(matches!(audio_handler(&found, true), Answer::File { path, .. } if path == "/a.mp3"));
    assert!(matches!(
        audio_handler(&found, false),
        Answer::Proxy { url } if url == "https://example.com/ep.mp3"
    ));
    let pending = Lookup::Found(episode("a", EpisodeState::Discovered));
    assert!(matches!(audio_handler(&pending, true), Answer::Proxy { .. }));
    assert!(matches!(audio_handler(&Lookup::Missing, false), Answer::Status { code: 404, .. }));
    assert!(matches!(audio_handler(&Lookup::Failed, false), Answer::Status { code: 500, .. }));
    assert_eq!(local_file(&complete("/a.mp3")).as_deref(), Some("/a.mp3"));
    assert_eq!(proxy_headers().len(), 4);
}
