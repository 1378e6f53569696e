use chrono::TimeZone;
use duralumin::episode::{Action, Episode, EpisodeState};
use duralumin::feed::Feed;
use duralumin::ids::{EpisodeId, FeedId};
use duralumin::time::{Duration, UtcTime};
use duralumin::weburl::Url;
use duralumin::cli::args::{
    is_interactive, run, CheckArgs, Command, DownloadArgs, EpisodeArgs, EpisodeSub, FeedArgs,
    FeedSub, QuarantineArgs, QuarantineSub, RulesArgs, RulesSub, SyncArgs, Task,
};
use duralumin::cli::commands::{
    cmd_check, cmd_download, cmd_episode_delete, cmd_episode_list, cmd_feed_list, cmd_purge,
    cmd_quarantine_list, cmd_rebuild_rss, cmd_requeue, cmd_rules_check, cmd_status, cmd_sync,
    episode_filter, quarantine_filter, rebuilt_line,
};
use duralumin::cli::daemon::{
    acquire_run_lock, other_holder, parse_u32, restream_plan, startup_documents, writes_document,
    RestreamPlan,
};
use duralumin::cli::feed_info::cmd_feed_info;
use duralumin::cli::helpers::{
    build_engine, cover_source, feed_from_config, feed_rules, EpisodeCounts,
};
use duralumin::cli::output::{Output, Span, Style};
use duralumin::cli::reimport::{
    cmd_feed_reimport, reimport_step, reimport_targets, reimported_state, Outcome, ReimportStep,
};
use duralumin::cli::rules_list::{cmd_rules_list, fmt_dynamic_kind, fmt_kind};
use duralumin::config::{
    Config, DefaultsConfig, DownloaderConfig, LoggingConfig, StorageConfig,
};
use duralumin::rules::config::{
    DynamicRuleConfig, DynamicRuleKind, FeedConfig, RuleConfig, RuleKind,
};
use duralumin::server::config::ServerConfig;
use duralumin::time::parse_time_delta;

fn at(y: i32, m: u32, d: u32) -> UtcTime {
    let t = chrono::Utc.with_ymd_and_hms(y, m, d, 0, 0, 0).unwrap();
    UtcTime::from_timestamp(t.timestamp(), 0).unwrap()
}

fn feed(slug: &str) -> Feed {
    Feed {
        id: FeedId(1),
        url: Url::parse("https://example.com/rss").unwrap(),
        slug: slug.into(),
        title: Some("Test Podcast".into()),
        last_fetched_at: None,
        etag: None,
        last_modified: None,
        enabled: true,
        image_url: None,
    }
}

fn episode(title: &str, state: EpisodeState) -> Episode {
    Episode {
        id: EpisodeId::from_parts("https://example.com/rss", title),
        feed_id: FeedId(1),
        guid: title.into(),
        title: title.into(),
        description: None,
        pub_date: at(2024, 3, 15),
        duration_secs: None,
        enclosure_url: Url::parse("https://example.com/ep.mp3").unwrap(),
        enclosure_size: None,
        enclosure_mime: Some("audio/mpeg".into()),
        state,
        image_url: None,
        episode_no: 0,
    }
}

fn complete(path: &str) -> EpisodeState {
    EpisodeState::Complete {
        path: path.into(),
        downloaded_at: at(2024, 4, 1),
        sha256: "abc".into(),
    }
}

fn feed_config(slug: &str) -> FeedConfig {
    FeedConfig {
        url: Url::parse("https://example.com/rss").unwrap(),
        slug: slug.into(),
        display_name: None,
        aliases: Vec::new(),
        poll_interval: Duration::from_secs(3600),
        enabled: true,
        restream: false,
        restream_only_matched: true,
        rules: Vec::new(),
        dynamic: Vec::new(),
        default_action: None,
    }
}

fn config(feeds: Vec<FeedConfig>) -> Config {
    Config {
        storage: StorageConfig { dir: "/data".into(), library_path: None, state_db: None },
        downloader: DownloaderConfig::default(),
        defaults: DefaultsConfig::default(),
        logging: LoggingConfig::default(),
        feeds,
        global_rules: Vec::new(),
        global_dynamics: Vec::new(),
        server: None,
    }
}

fn server() -> ServerConfig {
    ServerConfig {
        bind: "127.0.0.1:8080".into(),
        base_url: Url::parse("https://pods.example.com").unwrap(),
        auth_token: Some("t0".into()),
    }
}

fn text(spans: &[Span]) -> String {
    spans.iter().map(|s| s.text.as_str()).collect()
}

/// The text of each line; a table gives its header and its rows, with a bar between cells.
fn lines(outs: &[Output]) -> Vec<String> {
    let mut out = Vec::new();
    for o in outs {
        match o {
            Output::Line(spans) => out.push(text(spans)),
            Output::Table(header, rows) => {
                out.push(header.join("|"));
                for row in rows {
                    let cells: Vec<String> = row.iter().map(|c| text(c)).collect();
                    out.push(cells.join("|"));
                }
            }
        }
    }
    out
}

fn always(action: Action) -> RuleConfig {
    RuleConfig { name: "all".into(), priority: 10, match_: RuleKind::Always, action }
}

#[test]
fn status_counts_episodes() {
    let cfg = config(vec![feed_config("a")]);
    let feeds = vec![feed("a")];
    let eps = vec![vec![
        episode("1", complete("/1.mp3")),
        episode("2", EpisodeState::Matched(Action::Download)),
        episode("3", EpisodeState::Matched(Action::Skip)),
        episode("4", EpisodeState::Quarantined { reason: "x".into(), last_error: "y".into() }),
    ]];
    let exist = vec![vec![true, false, false, false]];
    let outs = cmd_status(&cfg, &feeds, &eps, &exist);
    assert_eq!(
        lines(&outs),
        vec!["FEED|TOTAL|DL(DYN)|QUEUED|SKIP|QUAR", "Test Podcast|4|1(0)|1|1|1"]
    );
    let none = cmd_status(&cfg, &Vec::new(), &Vec::new(), &Vec::new());
    assert_eq!(lines(&none), vec!["No feeds in database. Run `dura feed sync` first."]);
}

#[test]
fn dynamic_files_count_twice() {
    let state = EpisodeState::Dynamic {
        path: "/d.mp3".into(),
        downloaded_at: at(2024, 1, 1),
        sha256: "h".into(),
    };
    let eps = vec![episode("1", state), episode("2", complete("/2.mp3"))];
    let c = EpisodeCounts::tally(&eps, &[true, false]);
    assert_eq!((c.dl, c.dynamic, c.missing), (1, 1, 1));
}

#[test]
fn feeds_are_listed_with_their_names() {
    let mut named = feed_config("a");
    named.display_name = Some("Shown".into());
    let cfg = config(vec![named]);
    let mut unknown = feed("b");
    unknown.title = None;
    let outs = cmd_feed_list(
        &cfg,
        &vec![feed("a"), unknown],
        &vec![Some("2024-01-01 10:00".into()), None],
    );
    assert_eq!(
        lines(&outs),
        vec!["SLUG|NAME|LAST FETCHED", "a|Shown|2024-01-01 10:00", "b|—|never"]
    );
    let none = cmd_feed_list(&cfg, &Vec::new(), &Vec::new());
    assert_eq!(lines(&none), vec!["No feeds in database."]);
}

#[test]
fn a_feed_is_shown_in_detail() {
    let mut c = feed_config("a");
    c.aliases = vec!["x".into(), "y".into()];
    let cfg = config(vec![c]);
    let eps = vec![episode("1", complete("/1.mp3"))];
    let outs = cmd_feed_info(
        &cfg,
        "a",
        &Some(feed("a")),
        &eps,
        &vec![true],
        &None,
        &vec!["2024-03-15".into()],
    )
    .unwrap();
    let shown = lines(&outs);
    assert_eq!(shown[0], "Test Podcast (a)");
    assert_eq!(shown[1], "  URL: https://example.com/rss");
    assert_eq!(shown[2], "  Last fetched: never");
    assert_eq!(shown[3], "  Aliases: x, y");
    assert_eq!(shown[4], "");
    assert_eq!(shown[5], "TOTAL|DL|QUEUED|SKIP|QUAR|MISSING");
    assert_eq!(shown[6], "1|1|0|0|0|0");
    assert_eq!(shown[7], "");
    assert_eq!(shown[8], "Recent episodes:");
    assert_eq!(shown[9], "ID|DATE|STATE|TITLE");
    assert_eq!(shown[10], format!("{}|2024-03-15|complete|1", eps[0].id.short()));
    let missing =
        cmd_feed_info(&cfg, "b", &None, &Vec::new(), &Vec::new(), &None, &Vec::new());
    assert_eq!(
        missing.unwrap_err(),
        "feed \"b\" not found — run `dura feed sync` first"
    );
}

#[test]
fn at_most_twenty_episodes_are_shown() {
    let cfg = config(Vec::new());
    let mut eps: Vec<Episode> =
        (0..25).map(|i| episode(&format!("e{i}"), EpisodeState::Discovered)).collect();
    eps[20].id = EpisodeId::from("x".to_string());
    let dates: Vec<String> = (0..25).map(|_| String::from("d")).collect();
    let outs =
        cmd_feed_info(&cfg, "a", &Some(feed("a")), &eps, &vec![false; 25], &None, &dates).unwrap();
    match outs.last() {
        Some(Output::Table(_, rows)) => assert_eq!(rows.len(), 20),
        _ => panic!("the episodes come last"),
    }
}

#[test]
fn rules_are_listed() {
    let mut f = feed_config("a");
    f.display_name = Some("Shown".into());
    f.rules.push(always(Action::Download));
    f.default_action = Some(Action::Skip);
    let mut cfg = config(vec![f, feed_config("b")]);
    cfg.global_dynamics.push(DynamicRuleConfig {
        name: "week".into(),
        match_: DynamicRuleKind::DurationAgo { duration: parse_time_delta("7d").unwrap() },
        action: Action::Dynamic,
    });
    let outs = cmd_rules_list(&cfg);
    assert_eq!(
        lines(&outs),
        vec![
            "Global Dynamic Rules",
            "NAME|MATCH",
            "week|published within the last 7days",
            "Global rules:",
            "\t(none)",
            "",
            "Feed: Shown (a)",
            "PRI|NAME|MATCH|ACTION",
            "10|all|always|download",
            "Dynamic rules:",
            "\t(none)",
            "  catch-all: skip",
            "",
            "Feed: b",
            "\t(none — global rules apply)",
            "Dynamic rules:",
            "\t(none)",
            "",
            "Default (no match): skip",
        ]
    );
}

#[test]
fn rule_kinds_have_words() {
    assert_eq!(fmt_kind(&RuleKind::TitleRegex { pattern: "^a".into() }), "title ~ /^a/");
    assert_eq!(
        fmt_kind(&RuleKind::DescriptionRegex { pattern: "b".into() }),
        "description ~ /b/"
    );
    assert_eq!(
        fmt_kind(&RuleKind::DurationMin { value: Duration::from_secs(90) }),
        "duration >= 1m 30s"
    );
    assert_eq!(
        fmt_kind(&RuleKind::DurationMax { value: Duration::from_secs(3600) }),
        "duration <= 1h"
    );
    assert_eq!(
        fmt_kind(&RuleKind::PublishedAfter { date: at(2024, 1, 2) }),
        "published after 2024-01-02"
    );
    assert_eq!(
        fmt_kind(&RuleKind::PublishedBefore { date: at(2024, 1, 2) }),
        "published before 2024-01-02"
    );
    let size = bytesize::ByteSize(1024).to_string();
    assert_eq!(
        fmt_kind(&RuleKind::EpisodeSizeMax { value: 1024 }),
        format!("size <= {size}")
    );
    assert_eq!(
        fmt_dynamic_kind(&DynamicRuleKind::LastNEpisodes { last_n_episodes: 3 }),
        "among the 3 most recent episodes"
    );
}

#[test]
fn rules_are_tried_on_episodes() {
    let mut cfg = config(vec![feed_config("a")]);
    cfg.global_rules.push(always(Action::Archive));
    let engine = build_engine(&cfg, &vec![FeedId(1)]).unwrap();
    let eps = vec![episode("one", EpisodeState::Discovered)];
    let outs = cmd_rules_check(&engine, "a", &Some(feed("a")), &eps, at(2024, 5, 1)).unwrap();
    let short = eps[0].id.short();
    assert_eq!(lines(&outs), vec!["ID|TITLE|ACTION".to_string(), format!("{short}|one|archive")]);
    assert_eq!(
        cmd_rules_check(&engine, "z", &None, &Vec::new(), at(2024, 5, 1)).unwrap_err(),
        "feed \"z\" not found in database — run `feed sync` first"
    );
}

#[test]
fn a_feed_default_comes_before_global_rules() {
    let mut f = feed_config("a");
    f.default_action = Some(Action::Skip);
    assert_eq!(feed_rules(&f)[0].name, "__feed_default_a");
    assert_eq!(feed_rules(&f)[0].priority, i32::MAX);
    let mut cfg = config(vec![f]);
    cfg.global_rules.push(always(Action::Download));
    let engine = build_engine(&cfg, &vec![FeedId(1)]).unwrap();
    let ep = episode("one", EpisodeState::Discovered);
    assert_eq!(engine.evaluate(&ep, &feed("a")), Action::Skip);
}

#[test]
fn episodes_are_listed() {
    let eps = vec![episode("one", complete("/1.mp3"))];
    let short = eps[0].id.short();
    assert_eq!(
        lines(&cmd_episode_list(&eps, false)),
        vec!["ID|TITLE|STATE".to_string(), format!("{short}|one|complete")]
    );
    assert_eq!(lines(&cmd_episode_list(&eps, true)), vec![format!("{short}\tone")]);
    let filter = episode_filter(&Some("a".into()), Some(FeedId(3)), &None, 50).unwrap();
    assert_eq!(filter.feed_id, Some(FeedId(3)));
    assert_eq!(filter.limit, Some(50));
    assert_eq!(
        episode_filter(&Some("a".into()), None, &None, 50).unwrap_err(),
        "feed \"a\" not found"
    );
    assert_eq!(episode_filter(&None, None, &None, 50).unwrap().feed_id, None);
}

#[test]
fn episodes_are_queued_again() {
    let ep = episode("one", complete("/1.mp3"));
    let short = ep.id.short().to_string();
    let plan = cmd_requeue("x", &Some(ep)).unwrap();
    assert!(matches!(plan.state, EpisodeState::Matched(Action::Download)));
    assert_eq!(lines(&plan.outputs), vec![format!("Re-queued episode {short}")]);
    assert_eq!(cmd_requeue("x", &None).unwrap_err(), "episode \"x\" not found");
}

#[test]
fn episodes_are_removed_with_their_file() {
    let ep = episode("one", complete("/1.mp3"));
    let short = ep.id.short().to_string();
    let found = Some(ep);
    let plan = cmd_episode_delete("x", &found, true, true).unwrap();
    assert_eq!(plan.file.as_deref(), Some("/1.mp3"));
    assert_eq!(lines(&plan.file_outputs), vec!["  Deleted file: /1.mp3"]);
    assert_eq!(lines(&plan.outputs), vec![format!("Removed {short} — one")]);
    let gone = cmd_episode_delete("x", &found, true, false).unwrap();
    assert_eq!(gone.file, None);
    assert_eq!(lines(&gone.file_outputs), vec!["  File already missing from disk."]);
    let kept = cmd_episode_delete("x", &found, false, true).unwrap();
    assert_eq!(kept.file, None);
    assert_eq!(kept.file_outputs.len(), 0);
    assert!(cmd_episode_delete("x", &None, true, true).is_err());
}

#[test]
fn quarantined_episodes_are_listed() {
    assert_eq!(quarantine_filter().state_kind.as_deref(), Some("quarantined"));
    assert_eq!(lines(&cmd_quarantine_list(&Vec::new())), vec!["No quarantined episodes."]);
    let state = EpisodeState::Quarantined { reason: "http_404".into(), last_error: "x".into() };
    let eps = vec![episode("one", state)];
    let short = eps[0].id.short();
    let outs = cmd_quarantine_list(&eps);
    assert_eq!(
        lines(&outs),
        vec!["ID|TITLE|REASON".to_string(), format!("{short}|one|http_404")]
    );
    match &outs[0] {
        Output::Table(_, rows) => assert_eq!(rows[0][2][0].style, Style::Red),
        _ => panic!("the episodes are in a table"),
    }
}

#[test]
fn missing_files_are_found_and_queued() {
    let eps = vec![episode("one", complete("/1.mp3")), episode("two", complete("/2.mp3"))];
    let report = cmd_check(&eps, &vec![true, false], true);
    assert_eq!(report.requeued, vec![1]);
    let short = eps[1].id.short();
    assert_eq!(
        lines(&report.outputs),
        vec![
            "Checking 2 complete episode(s) for missing files...".to_string(),
            "ID|TITLE|PATH".to_string(),
            format!("{short}|two|/2.mp3"),
            "1 missing file(s).".to_string(),
        ]
    );
    assert_eq!(
        lines(&report.closing),
        vec!["Re-queued 1 episode(s) — run `dura download` to fetch."]
    );
    let look = cmd_check(&eps, &vec![true, false], false);
    assert_eq!(look.requeued.len(), 0);
    assert_eq!(lines(&look.closing), vec!["Run with --fix to re-queue them for download."]);
    let fine = cmd_check(&eps, &vec![true, true], true);
    assert_eq!(lines(&fine.outputs)[1], "All files present.");
    let mut brief = episode("three", complete("/3.mp3"));
    brief.id = EpisodeId::from("x".to_string());
    let kept = cmd_check(&vec![brief], &vec![true], true);
    assert_eq!(lines(&kept.outputs)[1], "All files present.");
}

#[test]
fn files_are_found_again() {
    let feeds = vec![feed("a"), feed("b")];
    assert_eq!(reimport_targets(&feeds, &None).unwrap(), vec![0, 1]);
    assert_eq!(reimport_targets(&feeds, &Some("b".into())).unwrap(), vec![1]);
    assert_eq!(
        reimport_targets(&feeds, &Some("c".into())).unwrap_err(),
        "feed \"c\" not found — run `dura sync` first"
    );
    let ep = episode("My Show", EpisodeState::Discovered);
    assert!(matches!(
        reimport_step(&ep, false, true, true),
        ReimportStep::Mark { name } if name == "my-show.mp3"
    ));
    let short = ep.id.short();
    assert!(matches!(
        reimport_step(&ep, false, false, true),
        ReimportStep::Mark { name } if name == format!("my-show-{short}.mp3")
    ));
    assert!(matches!(reimport_step(&ep, false, false, false), ReimportStep::NotFound));
    let mut done = episode("Done", complete("/d.mp3"));
    assert!(matches!(reimport_step(&done, true, true, true), ReimportStep::Already));
    done.id = EpisodeId::from("x".to_string());
    assert!(matches!(reimport_step(&done, true, false, false), ReimportStep::Already));
    match reimported_state("/f.mp3".into(), at(2024, 1, 1)) {
        EpisodeState::Complete { path, sha256, .. } => {
            assert_eq!(path, "/f.mp3");
            assert_eq!(sha256, "");
        }
        _ => panic!("the episode is complete"),
    }
}

#[test]
fn what_was_found_is_summed_up() {
    let feeds = vec![feed("a"), feed("b")];
    let outcomes =
        vec![Some(vec![Outcome::Marked, Outcome::Already, Outcome::NotFound]), None];
    assert_eq!(
        lines(&cmd_feed_reimport(&feeds, &vec![0, 1], &outcomes)),
        vec![
            "Test Podcast: 1 matched, 1 already complete, 1 not found",
            "b — directory not found, skipping",
            "",
            "Marked 1 episode(s) as complete.",
        ]
    );
    let none = vec![Some(vec![Outcome::NotFound])];
    assert_eq!(
        lines(&cmd_feed_reimport(&feeds, &vec![0], &none)),
        vec![
            "Test Podcast: 0 matched, 0 already complete, 1 not found",
            "No matching files found.",
        ]
    );
    let already = vec![Some(vec![Outcome::Already])];
    assert_eq!(cmd_feed_reimport(&feeds, &vec![0], &already).len(), 1);
}

#[test]
fn named_feeds_are_worked_on() {
    let mut off = feed_config("b");
    off.enabled = false;
    let mut third = feed_config("c");
    third.aliases = vec!["see".into()];
    third.restream = true;
    let mut cfg = config(vec![feed_config("a"), off, third]);
    assert_eq!(cmd_purge(&cfg, &Vec::new()), vec![0, 2]);
    assert_eq!(cmd_purge(&cfg, &vec!["b".into()]), vec![1]);
    let sync = SyncArgs { slugs: vec!["see".into()], feeds_only: true, recheck: true };
    let plan = cmd_sync(&cfg, &sync);
    assert_eq!(plan.feeds, vec![2]);
    assert!(plan.recheck && !plan.download);
    assert_eq!(
        cmd_rebuild_rss(&cfg, &Vec::new()).unwrap_err(),
        "no [server] block in config — RSS restreaming not configured"
    );
    cfg.server = Some(server());
    assert_eq!(cmd_rebuild_rss(&cfg, &Vec::new()).unwrap().feeds, vec![2]);
    let none = cmd_rebuild_rss(&cfg, &vec!["zzz".into()]).unwrap();
    assert_eq!(lines(&none.outputs), vec!["No restream-enabled feeds to rebuild."]);
    assert_eq!(text(&rebuilt_line(&cfg.feeds[2])), "Rebuilt c");
}

#[test]
fn downloads_come_from_the_queue_or_by_name() {
    let queue = vec![episode("q", EpisodeState::Discovered)];
    let plan = cmd_download(&Vec::new(), queue, &Vec::new());
    assert_eq!(plan.episodes[0].title, "q");
    assert_eq!(plan.outputs.len(), 0);
    let queue = vec![episode("q", EpisodeState::Discovered)];
    let none = cmd_download(&vec!["x".into()], queue, &vec![None]);
    assert_eq!(none.episodes.len(), 0);
    assert_eq!(lines(&none.outputs), vec!["Nothing to download."]);
}

#[test]
fn commands_resolve_aliases() {
    let mut f = feed_config("a");
    f.aliases = vec!["x".into()];
    let cfg = config(vec![f]);
    let info = Command::Feed(FeedArgs { sub: FeedSub::Info { slug: "x".into() } });
    assert!(matches!(
        run(info, &cfg, true),
        Task::FeedInfo { slug, interactive: true } if slug == "a"
    ));
    let list = Command::Episode(EpisodeArgs {
        sub: EpisodeSub::List {
            feed: Some("x".into()),
            state: None,
            limit: 50,
            completions: false,
        },
    });
    assert!(matches!(
        run(list, &cfg, false),
        Task::EpisodeList { feed: Some(f), limit: 50, .. } if f == "a"
    ));
    let purge = Command::Purge { slugs: vec!["x".into(), "other".into()] };
    assert!(matches!(
        run(purge, &cfg, false),
        Task::Purge { slugs } if slugs == vec!["a", "other"]
    ));
    let retry = Command::Quarantine(QuarantineArgs { sub: QuarantineSub::Retry { id: "i".into() } });
    assert!(matches!(run(retry, &cfg, false), Task::Requeue { id } if id == "i"));
    let check = Command::Rules(RulesArgs { sub: RulesSub::Check { slug: "x".into() } });
    assert!(matches!(run(check, &cfg, false), Task::RulesCheck { slug } if slug == "a"));
    let fix = Command::Check(CheckArgs { fix: true });
    assert!(matches!(run(fix, &cfg, false), Task::Check { fix: true }));
    let dl = Command::Download(DownloadArgs { ids: Vec::new() });
    assert!(matches!(run(dl, &cfg, false), Task::Download { .. }));
    assert!(matches!(run(Command::Status, &cfg, false), Task::Status));
}

#[test]
fn terminals_are_interactive_unless_ruled_out() {
    assert!(is_interactive(true, false, false));
    assert!(is_interactive(false, false, true));
    assert!(!is_interactive(true, true, true));
    assert!(!is_interactive(false, false, false));
}

#[test]
fn one_daemon_runs_at_a_time() {
    assert_eq!(parse_u32("42"), Some(42));
    assert_eq!(parse_u32("+42"), Some(42));
    assert_eq!(parse_u32("4294967295"), Some(u32::MAX));
    assert_eq!(parse_u32("4294967296"), None);
    assert_eq!(parse_u32("+"), None);
    assert_eq!(parse_u32(""), None);
    assert_eq!(parse_u32("-1"), None);
    assert_eq!(other_holder(&Some(" 7\n".into()), 3), Some(7));
    assert_eq!(other_holder(&Some("3".into()), 3), None);
    assert_eq!(other_holder(&Some("x".into()), 3), None);
    assert_eq!(other_holder(&None, 3), None);
    assert_eq!(
        acquire_run_lock("/d/dura.pid", &Some("7".into()), 3, true).unwrap_err(),
        "`dura start` is already running (PID 7).\n  Stop it first, or remove \"/d/dura.pid\" if the file is stale."
    );
    assert!(acquire_run_lock("/d/dura.pid", &Some("7".into()), 3, false).is_ok());
    assert_eq!(acquire_run_lock("/d/dura.pid", &None, 3, true).unwrap().path, "/d/dura.pid");
}

#[test]
fn restreaming_needs_a_server() {
    let mut f = feed_config("a");
    let mut cfg = config(vec![feed_config("z")]);
    assert_eq!(restream_plan(&cfg), RestreamPlan::Off);
    f.restream = true;
    cfg.feeds.push(f);
    assert_eq!(restream_plan(&cfg), RestreamPlan::NoServer);
    cfg.server = Some(server());
    assert_eq!(restream_plan(&cfg), RestreamPlan::Serve);
    assert_eq!(startup_documents(&cfg), vec![1]);
    assert!(writes_document(&cfg.feeds[1], true));
    assert!(!writes_document(&cfg.feeds[0], true));
}

#[test]
fn episodes_show_their_own_cover_first() {
    let mut ep = episode("one", EpisodeState::Discovered);
    let mut f = feed("a");
    assert!(cover_source(&ep, &f).is_none());
    f.image_url = Some(Url::parse("https://example.com/f.png").unwrap());
    assert_eq!(cover_source(&ep, &f).unwrap().as_str(), "https://example.com/f.png");
    ep.image_url = Some(Url::parse("https://example.com/e.png").unwrap());
    assert_eq!(cover_source(&ep, &f).unwrap().as_str(), "https://example.com/e.png");
    assert_eq!(feed_from_config(&feed_config("s")).slug, "s");
}
