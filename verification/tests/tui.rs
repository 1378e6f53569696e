use chrono::TimeZone;
use duralumin::episode::{Action, Episode, EpisodeState};
use duralumin::feed::Feed;
use duralumin::ids::{EpisodeId, FeedId};
use duralumin::time::{Duration, UtcTime};
use duralumin::weburl::Url;
use duralumin::rules::config::FeedConfig;
use duralumin::server::config::ServerConfig;
use duralumin::server::rss::{audio_url, feed_url};
use duralumin::tui::episode_browser;
use duralumin::tui::episode_browser::{Effect, Popup};
use duralumin::tui::feed_browser;
use duralumin::tui::feed_browser::KeyAction;
use duralumin::tui::shared::{
    b64, centered_rect, copy_to_clipboard, episode_restream_url, feed_restream_url, format_bytes,
    format_dur, osc52, time_ago, trunc, Color, Key, Rect,
};

fn at(y: i32, m: u32, d: u32) -> UtcTime {
    let t = chrono::Utc.with_ymd_and_hms(y, m, d, 0, 0, 0).unwrap();
    UtcTime::from_timestamp(t.timestamp(), 0).unwrap()
}

fn feed(slug: &str) -> Feed {
    Feed {
        id: FeedId(1),
        url: Url::parse("https://example.com/rss").unwrap(),
        slug: slug.into(),
        title: Some("Test Podcast".into()),
        last_fetched_at: None,
        etag: None,
        last_modified: None,
        enabled: true,
        image_url: None,
    }
}

fn episode(title: &str, state: EpisodeState) -> Episode {
    Episode {
        id: EpisodeId::from_parts("https://example.com/rss", title),
        feed_id: FeedId(1),
        guid: title.into(),
        title: title.into(),
        description: None,
        pub_date: at(2024, 3, 15),
        duration_secs: None,
        enclosure_url: Url::parse("https://example.com/ep.mp3").unwrap(),
        enclosure_size: None,
        enclosure_mime: Some("audio/mpeg".into()),
        state,
        image_url: None,
        episode_no: 0,
    }
}

fn complete(path: &str) -> EpisodeState {
    EpisodeState::Complete {
        path: path.into(),
        downloaded_at: at(2024, 4, 1),
        sha256: "abc".into(),
    }
}

fn feed_config(slug: &str) -> FeedConfig {
    FeedConfig {
        url: Url::parse("https://example.com/rss").unwrap(),
        slug: slug.into(),
        display_name: None,
        aliases: Vec::new(),
        poll_interval: Duration::from_secs(3600),
        enabled: true,
        restream: false,
        restream_only_matched: true,
        rules: Vec::new(),
        dynamic: Vec::new(),
        default_action: None,
    }
}

fn server() -> ServerConfig {
    ServerConfig {
        bind: "127.0.0.1:8080".into(),
        base_url: Url::parse("https://pods.example.com").unwrap(),
        auth_token: Some("t0".into()),
    }
}

#[test]
fn times_are_told_in_words() {
    let now = UtcTime::from_timestamp(1_000_000, 0).unwrap();
    let ago = |secs: i64| time_ago(&UtcTime::from_timestamp(1_000_000 - secs, 0), &now);
    assert_eq!(time_ago(&None, &now), "never");
    assert_eq!(ago(-50), "just now");
    assert_eq!(ago(119), "just now");
    assert_eq!(ago(120), "2m ago");
    assert_eq!(ago(3599), "59m ago");
    assert_eq!(ago(3600), "1h ago");
    assert_eq!(ago(86_400), "1d ago");
}

#[test]
fn sizes_and_lengths_have_units() {
    assert_eq!(format_bytes(None, ""), "—");
    assert_eq!(format_bytes(Some(999_999), ""), "999 KB");
    assert_eq!(format_bytes(Some(82_000_000), ""), "82 MB");
    assert_eq!(format_bytes(Some(1_200_000_000), "1.2"), "1.2 GB");
    assert_eq!(format_dur(None), "—");
    assert_eq!(format_dur(Some(4980)), "1h 23m");
    assert_eq!(format_dur(Some(3660)), "1h 01m");
    assert_eq!(format_dur(Some(2700)), "45m");
}

#[test]
fn long_texts_end_in_an_ellipsis() {
    assert_eq!(trunc("hello", 5), "hello");
    assert_eq!(trunc("hello", 4), "hel…");
    assert_eq!(trunc("hello", 1), "…");
    assert_eq!(trunc("hello", 0), "");
}

#[test]
fn shown_addresses_are_served() {
    let mut f = feed_config("show");
    assert_eq!(feed_restream_url(&f, &server()), None);
    f.restream = true;
    assert_eq!(feed_restream_url(&f, &server()), Some(feed_url(&server(), "show")));
    let (some_f, some_s) = (Some(f), Some(server()));
    assert_eq!(
        episode_restream_url(&some_f, &some_s, "show", "id"),
        Some(audio_url(&server(), "show", "id"))
    );
    assert_eq!(episode_restream_url(&None, &some_s, "show", "id"), None);
    assert_eq!(episode_restream_url(&some_f, &None, "show", "id"), None);
}

#[test]
fn popups_stand_in_the_middle() {
    let outer = Rect { x: 2, y: 1, width: 100, height: 20 };
    assert_eq!(
        centered_rect(50, 6, outer),
        Rect { x: 27, y: 8, width: 50, height: 6 }
    );
    let small = Rect { x: 0, y: 0, width: 10, height: 3 };
    assert_eq!(centered_rect(50, 6, small), small);
}

#[test]
fn base64_follows_the_standard() {
    let cases = [
        ("", ""),
        ("f", "Zg=="),
        ("fo", "Zm8="),
        ("foo", "Zm9v"),
        ("foob", "Zm9vYg=="),
        ("fooba", "Zm9vYmE="),
        ("foobar", "Zm9vYmFy"),
    ];
    for (plain, coded) in cases {
        assert_eq!(b64(plain.as_bytes()), coded);
    }
    assert_eq!(b64(&[0xfb, 0xff, 0xbf]), "+/+/");
    assert_eq!(osc52("foo"), "\x1b]52;c;Zm9v\x07");
}

#[test]
fn the_clipboard_is_reported() {
    assert_eq!(copy_to_clipboard(true, false), "Copied to clipboard");
    assert_eq!(
        copy_to_clipboard(false, true),
        "Copied via terminal (OSC 52 — requires compatible terminal)"
    );
    assert_eq!(
        copy_to_clipboard(false, false),
        "No clipboard available — URL printed to stderr"
    );
}

// ---- Feeds -----------------------------------------------------------------------------------

fn feeds_state() -> feed_browser::State {
    let mut a = feed_config("a");
    a.restream = true;
    a.display_name = Some("First".into());
    feed_browser::State::new(vec![feed("a"), feed("b")], vec![a], Some(server()))
}

#[test]
fn keys_move_through_the_feeds() {
    let mut s = feeds_state();
    for (key, at) in [
        (Key::Down, 1),
        (Key::Char('j'), 1),
        (Key::Up, 0),
        (Key::Char('k'), 0),
        (Key::End, 1),
        (Key::Char('g'), 0),
        (Key::Char('G'), 1),
        (Key::Home, 0),
    ] {
        assert!(matches!(feed_browser::handle_key(&mut s, key, false), KeyAction::Continue));
        assert_eq!(s.selected, at);
    }
    let mut empty = feed_browser::State::new(Vec::new(), Vec::new(), None);
    feed_browser::handle_key(&mut empty, Key::Down, false);
    assert_eq!(empty.selected, 0);
    assert!(empty.selected_feed().is_none());
}

#[test]
fn keys_act_on_the_selected_feed() {
    let mut s = feeds_state();
    assert!(matches!(
        feed_browser::handle_key(&mut s, Key::Enter, false),
        KeyAction::OpenEpisodes(slug) if slug == "a"
    ));
    assert!(matches!(
        feed_browser::handle_key(&mut s, Key::Char('r'), false),
        KeyAction::Sync(slug) if slug == "a"
    ));
    assert!(matches!(
        feed_browser::handle_key(&mut s, Key::Char('c'), false),
        KeyAction::Copy(url) if url == "https://pods.example.com/rss/a?key=t0"
    ));
    assert!(matches!(
        feed_browser::handle_key(&mut s, Key::Char('i'), false),
        KeyAction::Count { id: FeedId(1), .. }
    ));
    assert!(matches!(
        feed_browser::handle_key(&mut s, Key::Char('c'), true),
        KeyAction::Quit
    ));
    assert!(matches!(feed_browser::handle_key(&mut s, Key::Esc, false), KeyAction::Quit));
    s.select(1);
    feed_browser::handle_key(&mut s, Key::Char('c'), false);
    assert_eq!(s.status, "Feed has no restream URL configured");
    feed_browser::handle_key(&mut s, Key::Up, false);
    assert_eq!(s.status, "");
    assert_eq!(feed_browser::count_status("a", 3), "a: 3 episodes");
}

#[test]
fn feeds_are_shown_in_columns() {
    let mut s = feeds_state();
    let now = at(2024, 5, 1);
    let screen = feed_browser::render(&s, 40, &now);
    assert_eq!(screen.title, " Feeds (2) ");
    assert_eq!(screen.lines[0].marker, "◉ ");
    assert_eq!(screen.lines[0].last, "never");
    assert_eq!(screen.lines[0].name, format!("{:<27}", "First"));
    assert_eq!(screen.lines[1].marker, "  ");
    assert_eq!(screen.lines[1].name, format!("{:<29}", "Test Podcast"));
    assert!(screen.hint.contains("navigate"));
    s.status = "done".into();
    assert_eq!(feed_browser::render(&s, 40, &now).hint, " done");
    s.reloaded(Vec::new());
    assert_eq!(feed_browser::render(&s, 40, &now).lines.len(), 0);
}

// ---- Episodes --------------------------------------------------------------------------------

fn episodes_state() -> episode_browser::State {
    let mut cfg = feed_config("a");
    cfg.restream = true;
    episode_browser::State::new(
        FeedId(1),
        "a",
        &None,
        Some(cfg),
        vec![
            episode("Rome", complete("/rome.mp3")),
            episode("Paris", EpisodeState::Matched(Action::Skip)),
            episode("Prague", EpisodeState::Discovered),
        ],
        Some(server()),
    )
}

#[test]
fn typing_filters_the_episodes() {
    let mut s = episodes_state();
    assert_eq!(s.visible, vec![0, 1, 2]);
    s.select(2);
    episode_browser::handle_key(&mut s, Key::Char('/'), false);
    assert!(s.filter_mode);
    episode_browser::handle_key(&mut s, Key::Char('P'), false);
    assert_eq!(s.visible, vec![1, 2]);
    assert_eq!(s.selected, 1);
    episode_browser::handle_key(&mut s, Key::Char('A'), false);
    assert_eq!(s.visible, vec![1]);
    assert_eq!(s.selected, 0);
    assert_eq!(s.selected_ep().unwrap().title, "Paris");
    episode_browser::handle_key(&mut s, Key::Backspace, false);
    assert_eq!(s.filter, "P");
    episode_browser::handle_key(&mut s, Key::Enter, false);
    assert!(!s.filter_mode);
    assert_eq!(s.visible, vec![1, 2]);
    assert_eq!(episode_browser::filter_text(&s), " / Filter: P (esc to clear)");
    episode_browser::handle_key(&mut s, Key::Char('/'), false);
    assert_eq!(episode_browser::filter_text(&s), " / Filter: P█");
    episode_browser::handle_key(&mut s, Key::Esc, false);
    assert_eq!(s.filter, "");
    assert_eq!(s.visible, vec![0, 1, 2]);
    assert_eq!(episode_browser::filter_text(&s), " / to filter");
}

#[test]
fn keys_act_on_the_selected_episode() {
    let mut s = episodes_state();
    let rome = s.all[0].id.clone();
    match episode_browser::handle_key(&mut s, Key::Char('d'), false) {
        Effect::Download { id } => assert_eq!(id, rome),
        _ => panic!("the episode is queued"),
    }
    let skip = episode_browser::handle_key(&mut s, Key::Char('s'), false);
    let (state, message) = episode_browser::effect_state(&skip).unwrap();
    assert!(matches!(state, EpisodeState::Matched(Action::Skip)));
    assert_eq!(message, "Marked as skipped");
    assert!(matches!(episode_browser::handle_key(&mut s, Key::Char('q'), false), Effect::Back));
    assert!(matches!(episode_browser::handle_key(&mut s, Key::Char('c'), true), Effect::Back));
    assert!(matches!(
        episode_browser::handle_key(&mut s, Key::Char('c'), false),
        Effect::Continue
    ));
    episode_browser::handle_key(&mut s, Key::PageDown, false);
    assert_eq!(s.selected, 2);
    episode_browser::handle_key(&mut s, Key::PageUp, false);
    assert_eq!(s.selected, 0);
}

#[test]
fn files_are_deleted_after_a_question() {
    let mut s = episodes_state();
    episode_browser::handle_key(&mut s, Key::Char('x'), false);
    assert_eq!(s.popup, Some(Popup::ConfirmDelete { ep_idx: 0 }));
    episode_browser::handle_key(&mut s, Key::Char('n'), false);
    assert_eq!(s.popup, None);
    episode_browser::handle_key(&mut s, Key::Char('x'), false);
    match episode_browser::handle_key(&mut s, Key::Char('y'), false) {
        Effect::Delete { file, skipped } => {
            assert_eq!(file.as_deref(), Some("/rome.mp3"));
            assert_eq!(skipped, Some(s.all[0].id.clone()));
        }
        _ => panic!("the file is deleted"),
    }
    s.reloaded(Vec::new(), "gone");
    assert_eq!(s.visible.len(), 0);
    assert_eq!(episode_browser::hint_text(&s), " gone");
}

#[test]
fn addresses_are_copied_from_their_popup() {
    let mut s = episodes_state();
    episode_browser::handle_key(&mut s, Key::Char('u'), false);
    assert_eq!(s.popup, Some(Popup::Url { ep_idx: 0 }));
    assert!(matches!(
        episode_browser::handle_key(&mut s, Key::Char('c'), false),
        Effect::Copy(t) if t == "https://example.com/ep.mp3"
    ));
    assert_eq!(s.popup, None);
    episode_browser::handle_key(&mut s, Key::Enter, false);
    let expected = audio_url(&server(), "a", s.all[0].id.as_str());
    assert!(matches!(
        episode_browser::handle_key(&mut s, Key::Char('r'), false),
        Effect::Copy(t) if t == expected
    ));
    s.server_cfg = None;
    episode_browser::handle_key(&mut s, Key::Enter, false);
    episode_browser::handle_key(&mut s, Key::Char('r'), false);
    assert_eq!(s.status, "Restreaming not configured");
}

#[test]
fn episodes_are_shown_in_columns() {
    let mut s = episodes_state();
    s.all[0].enclosure_size = Some(2_500_000_000);
    s.all[0].duration_secs = Some(60);
    let gb = vec![String::from("2.5"), String::new(), String::new()];
    let lines = episode_browser::episode_lines(&s, 47, &gb);
    assert_eq!(lines.len(), 3);
    assert_eq!(lines[0].symbol, "✓  ");
    assert_eq!(lines[0].color, Color::Green);
    assert_eq!(lines[0].title, "Rome      ");
    assert_eq!(lines[0].date, "  2024-03-15");
    assert_eq!(lines[0].size, "    2.5 GB");
    assert_eq!(lines[0].duration, "        1m");
    assert_eq!(lines[1].color, Color::DarkGray);
    assert_eq!(lines[2].symbol, "?  ");
    assert_eq!(episode_browser::header_text(&s), " a — 3 episodes (✓ 1/3)");
    assert_eq!(s.count_complete(), 1);
}

#[test]
fn popups_show_shortened_texts() {
    let s = episodes_state();
    let area = Rect { x: 0, y: 0, width: 30, height: 10 };
    let popup = episode_browser::url_popup(&s, &s.all[0], area);
    assert_eq!(popup.area.width, 30);
    assert_eq!(popup.title, " URLs — Rome ");
    assert_eq!(popup.original, "https://example…");
    let wide = Rect { x: 0, y: 0, width: 200, height: 50 };
    let question = episode_browser::confirm_popup(&s.all[0], wide);
    assert_eq!(question.title, "  Rome");
    assert_eq!(question.area, Rect { x: 75, y: 22, width: 50, height: 6 });
    let mut plain = episodes_state();
    plain.server_cfg = None;
    let popup = episode_browser::url_popup(&plain, &plain.all[0], wide);
    assert_eq!(popup.restream, "(restreaming not configured)");
}
