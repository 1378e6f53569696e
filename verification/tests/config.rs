use duralumin::config::{
    bootstrap_path, config_home, log_format, log_level, resolve_path, resolve_slug, validate,
    Candidates, Config, ConfigError, DefaultsConfig, Directories, DownloaderConfig, LogFormat,
    LoggingConfig, StorageConfig,
};
use duralumin::episode::Action;
use duralumin::rules::config::{FeedConfig, RuleConfig, RuleKind};
use duralumin::time::{parse_duration, parse_time_delta, Duration, TimeDelta, UtcTime};
use duralumin::weburl::Url;

fn feed_config(slug: &str) -> FeedConfig {
    FeedConfig {
        url: Url::parse("https://example.com/rss").unwrap(),
        slug: slug.into(),
        display_name: None,
        aliases: Vec::new(),
        poll_interval: Duration::from_secs(3600),
        enabled: true,
        restream: false,
        restream_only_matched: true,
        rules: Vec::new(),
        dynamic: Vec::new(),
        default_action: None,
    }
}

fn config(feeds: Vec<FeedConfig>) -> Config {
    Config {
        storage: StorageConfig { dir: "/data".into(), library_path: None, state_db: None },
        downloader: DownloaderConfig::default(),
        defaults: DefaultsConfig::default(),
        logging: LoggingConfig::default(),
        feeds,
        global_rules: Vec::new(),
        global_dynamics: Vec::new(),
        server: None,
    }
}

fn with_aliases(slug: &str, aliases: &[&str]) -> FeedConfig {
    let mut f = feed_config(slug);
    f.aliases = aliases.iter().map(|a| a.to_string()).collect();
    f
}

fn messages(cfg: &Config) -> Vec<String> {
    match validate(cfg) {
        Ok(()) => Vec::new(),
        Err(ConfigError::Validation(m)) => m,
        Err(_) => panic!("the configuration is only validated"),
    }
}

#[test]
fn names_have_to_be_unique() {
    assert!(validate(&config(vec![with_aliases("a", &["x"]), with_aliases("b", &["y"])])).is_ok());
    let twice = config(vec![feed_config("a"), feed_config("a")]);
    assert_eq!(
        messages(&twice),
        vec!["feed slug \"a\" conflicts with slug of feed \"a\""]
    );
    let alias = config(vec![feed_config("a"), with_aliases("b", &["a"])]);
    assert_eq!(messages(&alias).len(), 1);
    let empty = config(vec![feed_config("")]);
    assert_eq!(messages(&empty), vec!["feed has an empty slug"]);
}

#[test]
fn rules_of_feeds_are_checked() {
    let mut f = feed_config("a");
    f.rules.push(RuleConfig {
        name: "bad".into(),
        priority: 0,
        match_: RuleKind::TitleRegex { pattern: "[".into() },
        action: Action::Skip,
    });
    let found = messages(&config(vec![f]));
    assert_eq!(found.len(), 1);
    assert!(found[0].starts_with("[feed a] "));
}

#[test]
fn aliases_stand_for_their_feed() {
    let cfg = config(vec![with_aliases("a", &["x", "y"]), feed_config("b")]);
    assert_eq!(resolve_slug(&cfg, "y"), "a");
    assert_eq!(resolve_slug(&cfg, "b"), "b");
    assert_eq!(resolve_slug(&cfg, "nobody"), "nobody");
}

#[test]
fn errors_have_texts() {
    assert_eq!(
        ConfigError::NotFound.to_text(),
        "config file not found — use --config <PATH> or set $DURALUMIN_CONFIG"
    );
    assert_eq!(
        ConfigError::Io("/c".into(), "denied".into()).to_text(),
        "cannot read /c: denied"
    );
    assert_eq!(ConfigError::Toml("line 1".into()).to_text(), "TOML parse error: line 1");
    assert_eq!(
        ConfigError::Validation(vec!["a".into(), "b".into()]).to_text(),
        "validation failed:\n  a\n  b"
    );
    assert_eq!(
        ConfigError::Generated("/c".into()).to_text(),
        "generated default config at /c"
    );
}

#[test]
fn paths_stand_below_the_base_directory() {
    let mut storage = StorageConfig { dir: "/data".into(), library_path: None, state_db: None };
    let library = storage.library();
    assert_eq!(library.base, "/data");
    assert_eq!(library.parts, vec!["podcasts"]);
    let db = storage.db();
    assert_eq!(db.parts, vec!["db", "duralumin.db"]);
    storage.library_path = Some("/music".into());
    assert_eq!(storage.library().base, "/music");
    assert_eq!(storage.library().parts.len(), 0);
}

fn directories() -> Directories {
    Directories {
        windows: false,
        appdata: None,
        xdg_config_home: None,
        home: Some("/home/me".into()),
    }
}

#[test]
fn the_configuration_is_looked_for_in_order() {
    let none = Candidates { in_home: false, in_etc: false, local: false };
    let all = Candidates { in_home: true, in_etc: true, local: true };
    let dirs = directories();
    let given = resolve_path(&Some("/x.toml".into()), &Some("/y.toml".into()), &dirs, true, &all);
    assert_eq!(given.unwrap().base, "/x.toml");
    let env = resolve_path(&None, &Some("/y.toml".into()), &dirs, true, &all);
    assert_eq!(env.unwrap().base, "/y.toml");
    let home = resolve_path(&None, &None, &dirs, true, &all).unwrap();
    assert_eq!(home.base, "/home/me");
    assert_eq!(home.parts, vec![".config", "duralumin/config.toml"]);
    assert!(matches!(
        resolve_path(&None, &None, &dirs, true, &none),
        Err(ConfigError::NotFound)
    ));
    let local = Candidates { in_home: false, in_etc: true, local: true };
    assert_eq!(
        resolve_path(&None, &None, &dirs, false, &local).unwrap().base,
        "duralumin.toml"
    );
    assert_eq!(
        resolve_path(&None, &None, &dirs, true, &local).unwrap().base,
        "/etc/duralumin/config.toml"
    );
    assert_eq!(config_home(&dirs).parts, vec![".config"]);
    assert_eq!(bootstrap_path(&dirs).base, "/home/me");
}

#[test]
fn daemons_log_more_than_commands() {
    let logging = LoggingConfig { level: "debug".into(), format: "json".into() };
    assert_eq!(log_level(&None, true, &logging), "debug");
    assert_eq!(log_level(&None, false, &logging), "warn");
    assert_eq!(log_level(&Some("trace".into()), false, &logging), "trace");
    assert!(matches!(log_format(None, &logging), LogFormat::Json));
    assert!(matches!(log_format(Some(LogFormat::Pretty), &logging), LogFormat::Pretty));
}

#[test]
fn downloader_settings_are_handed_on() {
    let c = DownloaderConfig::default().for_downloader();
    assert_eq!(c.max_retries, DownloaderConfig::default().max_retries);
    assert_eq!(c.user_agent, DownloaderConfig::default().user_agent);
}

// ---- Times -----------------------------------------------------------------------------------

#[test]
fn durations_are_read_as_humantime_reads_them() {
    let texts = vec![
        "0", "", " ", "1", "5 s", "1 0 s", "1h30m", "1h 30m", " 2 d ", "1.5h", "1.5ns", "0.1s 0.2s",
        "1. 5 min", "1.s", "1..5s", "5x", "5s!", "5s 6", "1y 2M 3w 4d 5h 6m 7s 8ms 9us 10ns",
        "7\u{b5}s", "1s 99999999999ns", "18446744073709551615s", "18446744073709551615s 999999999ns",
        "18446744073709551615s 999ms 999us", "18446744073709551615s 2000000000ns",
        "18446744073709551615s 1s", "18446744073709551616s", "99999999999999999999", "999999999999y",
        "584942417355y", "584942417356y", "9223372036854775808s 9223372036854775808s",
        "9223372036854775808s 9223372036854775807s 1ns", "18446744073709551615s 1000000000nsx",
        "1.12345678901234567890s", "1.1234567890123456789s", "0.00000000000000000001h",
        "18446744073709551615s 1000000000n", "18446744073709551615s 1000000000ns!",
        "307445734561825860m 15s", "307445734561825860m 16s", "1s soon", "soon 1s", "1\u{3000}s",
    ];
    for text in texts {
        match (parse_duration(text), humantime::parse_duration(text)) {
            (Ok(d), Ok(e)) => {
                assert_eq!((d.as_secs(), d.as_millis()), (e.as_secs(), e.as_millis()), "{text}");
            }
            (Err(m), Err(e)) => assert_eq!(m, e.to_string(), "{text}"),
            _ => panic!("{text}"),
        }
    }
}

#[test]
fn durations_that_come_to_too_much_are_errors() {
    let texts = vec![
        "18446744073709551615s 1000000000ns",
        "18446744073709551615s 1000ms",
        "18446744073709551615s 1000.5ms",
        "18446744073709551615s 500ms 0.5s",
        "18446744073709551615s 999999999ns 1ns",
        "18446744073709551614s 1s 1000000us 5min",
    ];
    for text in texts {
        assert_eq!(
            parse_duration(text).unwrap_err(),
            "number is too large or cannot be represented without a lack of precision (values below 1ns are not supported)"
        );
    }
}

#[test]
fn durations_are_parsed_and_shown() {
    assert_eq!(parse_duration("1h 30m").unwrap().as_secs(), 5400);
    assert!(parse_duration("soon").is_err());
    assert_eq!(parse_duration("18446744073709551615s").unwrap().as_secs(), u64::MAX);
    assert_eq!(parse_duration("3600000000000ns").unwrap().as_secs(), 3600);
    assert_eq!(parse_duration("1s 99999999999ns").unwrap().as_secs(), 100);
    assert_eq!(Duration::from_secs(5400).to_text(), "1h 30m");
    assert_eq!(Duration::from_millis(1500).to_debug_text(), "1.5s");
    assert_eq!(parse_time_delta("2d").unwrap().num_hours(), 48);
    assert_eq!(parse_time_delta("2d").unwrap().num_days(), 2);
    assert!(parse_time_delta("ever").is_err());
}

#[test]
fn differences_round_towards_zero() {
    let d = TimeDelta::from_nanos(-1_500_000_000).unwrap();
    assert_eq!(d.num_seconds(), -1);
    assert_eq!(d.num_hours(), 0);
    let later = UtcTime::from_timestamp(100, 5).unwrap();
    let earlier = UtcTime::from_timestamp(90, 10).unwrap();
    assert_eq!(later.signed_duration_since(&earlier).num_seconds(), 9);
    assert_eq!(earlier.signed_duration_since(&later).num_seconds(), -9);
    assert!(earlier.is_before(&later));
    assert!(!later.is_before(&earlier));
}

#[test]
fn times_have_texts() {
    let t = UtcTime::from_timestamp(0, 0).unwrap();
    assert_eq!(t.date(), "1970-01-01");
    assert_eq!(t.to_rfc2822(), "Thu, 1 Jan 1970 00:00:00 +0000");
    assert_eq!(t.to_text(), "1970-01-01 00:00:00 UTC");
    assert_eq!(t.timestamp_subsec_nanos(), 0);
    assert!(UtcTime::from_timestamp(i64::MAX, 0).is_none());
    assert!(UtcTime::now().timestamp() > 1_600_000_000);
}
