use std::time::Duration as StdDuration;

use chrono::TimeZone;
use duralumin::episode::{Action, Episode, EpisodeState};
use duralumin::feed::Feed;
use duralumin::ids::{EpisodeId, FeedId};
use duralumin::rules::config::{
    parse_bytesize, validate_dynamic_rules, validate_rules, DynamicRuleConfig, DynamicRuleKind,
    RuleConfig, RuleKind,
};
use duralumin::rules::engine::{
    AlwaysRule, DurationMaxRule, Rule, RuleEngine, RuleError, TitleRegexRule,
};
use duralumin::time::{parse_time_delta, Duration, UtcTime};
use duralumin::weburl::Url;
use regex::Regex;

fn at(y: i32, m: u32, d: u32) -> UtcTime {
    let t = chrono::Utc.with_ymd_and_hms(y, m, d, 0, 0, 0).unwrap();
    UtcTime::from_timestamp(t.timestamp(), 0).unwrap()
}

fn make_feed(id: i64) -> Feed {
    Feed {
        id: FeedId(id),
        url: Url::parse("https://example.com/rss").unwrap(),
        slug: "test".into(),
        title: None,
        last_fetched_at: None,
        etag: None,
        last_modified: None,
        enabled: true,
        image_url: None,
    }
}

fn make_episode(title: &str, duration_secs: Option<u64>, size: Option<u64>) -> Episode {
    Episode {
        id: EpisodeId::from_parts("https://example.com/rss", title),
        feed_id: FeedId(1),
        guid: title.into(),
        title: title.into(),
        description: None,
        pub_date: at(2024, 3, 15),
        duration_secs,
        enclosure_url: Url::parse("https://example.com/ep.mp3").unwrap(),
        enclosure_size: size,
        enclosure_mime: Some("audio/mpeg".into()),
        state: EpisodeState::Discovered,
        image_url: None,
        episode_no: 0,
    }
}

#[test]
fn title_regex_matches() {
    let rule = TitleRegexRule {
        regex: Regex::new("^Episode \\d+").unwrap(),
        action: Action::Download,
        name: "test".into(),
    };
    let feed = make_feed(1);
    let ep = make_episode("Episode 42: Rome", None, None);
    assert_eq!(rule.evaluate(&ep, &feed), Some(Action::Download));
}

#[test]
fn title_regex_no_match() {
    let rule = TitleRegexRule {
        regex: Regex::new("^Episode \\d+").unwrap(),
        action: Action::Download,
        name: "test".into(),
    };
    let feed = make_feed(1);
    let ep = make_episode("Bonus: Q&A", None, None);
    assert_eq!(rule.evaluate(&ep, &feed), None);
}

#[test]
fn duration_max_skips_none() {
    let rule = DurationMaxRule {
        max: Duration::from_secs(300),
        action: Action::Skip,
        name: "test".into(),
    };
    let feed = make_feed(1);
    let ep = make_episode("No Duration", None, None);
    assert_eq!(rule.evaluate(&ep, &feed), None); // None → no match
}

#[test]
fn duration_max_matches_short() {
    let rule = DurationMaxRule {
        max: Duration::from_secs(300),
        action: Action::Skip,
        name: "test".into(),
    };
    let feed = make_feed(1);
    let ep = make_episode("Short", Some(120), None);
    assert_eq!(rule.evaluate(&ep, &feed), Some(Action::Skip));
}

#[test]
fn always_rule_matches() {
    let rule = AlwaysRule {
        action: Action::Download,
        name: "catch-all".into(),
    };
    let feed = make_feed(1);
    let ep = make_episode("Anything", None, None);
    assert_eq!(rule.evaluate(&ep, &feed), Some(Action::Download));
}

#[test]
fn engine_per_feed_before_global() {
    let per_feed_rules = vec![RuleConfig {
        name: "feed-skip".into(),
        priority: 0,
        match_: RuleKind::Always,
        action: Action::Skip,
    }];
    let global_rules = vec![RuleConfig {
        name: "global-download".into(),
        priority: 0,
        match_: RuleKind::Always,
        action: Action::Download,
    }];

    let engine = RuleEngine::build(
        &[(FeedId(1), &per_feed_rules)],
        &[],
        &global_rules,
        &[],
        Action::Skip,
    )
    .unwrap();

    let feed = make_feed(1);
    let ep = make_episode("Anything", None, None);
    // Per-feed rule fires first and returns Skip
    assert_eq!(engine.evaluate(&ep, &feed), Action::Skip);
}

#[test]
fn engine_falls_back_to_default() {
    let engine = RuleEngine::build(&[], &[], &[], &[], Action::Download).unwrap();
    let feed = make_feed(99);
    let ep = make_episode("Anything", None, None);
    assert_eq!(engine.evaluate(&ep, &feed), Action::Download);
}

// ---- Windows ---------------------------------------------------------------------------------

fn window(kind: DynamicRuleKind) -> DynamicRuleConfig {
    DynamicRuleConfig {
        name: "window".into(),
        match_: kind,
        action: Action::Dynamic,
    }
}

#[test]
fn last_n_episodes_keeps_the_first_ones() {
    let dynamic = vec![window(DynamicRuleKind::LastNEpisodes { last_n_episodes: 2 })];
    let engine =
        RuleEngine::build(&[], &[(FeedId(1), &dynamic)], &[], &[], Action::Skip).unwrap();
    let feed = make_feed(1);
    let mut ep = make_episode("Any", None, None);
    ep.episode_no = 1;
    assert_eq!(engine.evaluate(&ep, &feed), Action::Dynamic);
    ep.episode_no = 2;
    assert_ne!(engine.evaluate(&ep, &feed), Action::Dynamic);
}

#[test]
fn duration_ago_keeps_recent_episodes() {
    let dynamic = vec![window(DynamicRuleKind::DurationAgo {
        duration: parse_time_delta("7d").unwrap(),
    })];
    let engine = RuleEngine::build(&[], &[], &[], &dynamic, Action::Skip).unwrap();
    let feed = make_feed(1);
    let ep = make_episode("Any", None, None);
    assert_eq!(engine.evaluate_at(&ep, &feed, &at(2024, 3, 20)), Action::Dynamic);
    assert_ne!(engine.evaluate_at(&ep, &feed, &at(2024, 3, 30)), Action::Dynamic);
}

#[test]
fn a_download_rule_keeps_what_a_window_holds() {
    let rules = vec![RuleConfig {
        name: "all".into(),
        priority: 0,
        match_: RuleKind::Always,
        action: Action::Download,
    }];
    let dynamic = vec![window(DynamicRuleKind::LastNEpisodes { last_n_episodes: 5 })];
    let engine = RuleEngine::build(
        &[(FeedId(1), &rules)],
        &[(FeedId(1), &dynamic)],
        &[],
        &[],
        Action::Skip,
    )
    .unwrap();
    let ep = make_episode("Any", None, None);
    assert_eq!(engine.evaluate(&ep, &make_feed(1)), Action::Download);
}

// ---- Configuration ---------------------------------------------------------------------------

#[test]
fn sizes_are_parsed() {
    assert_eq!(parse_bytesize("1 MB"), Ok(1_000_000));
    assert_eq!(parse_bytesize("1 KiB"), Ok(1024));
    assert!(parse_bytesize("much").is_err());
}

#[test]
fn size_rule_compares_bytes() {
    let rules = vec![RuleConfig {
        name: "small".into(),
        priority: 0,
        match_: RuleKind::EpisodeSizeMax { value: 1000 },
        action: Action::Skip,
    }];
    let engine = RuleEngine::build(&[], &[], &rules, &[], Action::Download).unwrap();
    let feed = make_feed(1);
    assert_eq!(
        engine.evaluate(&make_episode("a", None, Some(1000)), &feed),
        Action::Skip
    );
    assert_eq!(
        engine.evaluate(&make_episode("b", None, Some(1001)), &feed),
        Action::Download
    );
    assert_eq!(
        engine.evaluate(&make_episode("c", None, None), &feed),
        Action::Download
    );
}

#[test]
fn description_rule_needs_a_description() {
    let rules = vec![RuleConfig {
        name: "about".into(),
        priority: 0,
        match_: RuleKind::DescriptionRegex { pattern: "rust".into() },
        action: Action::Skip,
    }];
    let engine = RuleEngine::build(&[], &[], &rules, &[], Action::Download).unwrap();
    let feed = make_feed(1);
    let mut ep = make_episode("a", None, None);
    assert_eq!(engine.evaluate(&ep, &feed), Action::Download);
    ep.description = Some("all about rust".into());
    assert_eq!(engine.evaluate(&ep, &feed), Action::Skip);
}

#[test]
fn published_before_is_strict() {
    let rules = vec![RuleConfig {
        name: "old".into(),
        priority: 0,
        match_: RuleKind::PublishedBefore { date: at(2024, 3, 15) },
        action: Action::Skip,
    }];
    let engine = RuleEngine::build(&[], &[], &rules, &[], Action::Download).unwrap();
    let feed = make_feed(1);
    let mut ep = make_episode("a", None, None);
    assert_eq!(engine.evaluate(&ep, &feed), Action::Download);
    ep.pub_date = at(2024, 3, 14);
    assert_eq!(engine.evaluate(&ep, &feed), Action::Skip);
}

#[test]
fn bad_patterns_are_reported() {
    let rules = vec![RuleConfig {
        name: "bad".into(),
        priority: 0,
        match_: RuleKind::TitleRegex { pattern: "[".into() },
        action: Action::Skip,
    }];
    let messages = validate_rules(&rules);
    assert_eq!(messages.len(), 1);
    assert!(messages[0].contains("bad"));
    let source = Regex::new("[").unwrap_err().to_string();
    assert!(messages[0].contains(&source));
    match RuleEngine::build(&[], &[], &rules, &[], Action::Skip) {
        Err(e) => {
            assert!(e.to_text().contains("bad"));
            assert!(matches!(e, RuleError::Regex { .. }));
        }
        Ok(_) => panic!("the pattern compiled"),
    }
}

#[test]
fn short_windows_are_reported() {
    let short = vec![window(DynamicRuleKind::DurationAgo {
        duration: parse_time_delta("6h").unwrap(),
    })];
    assert_eq!(validate_dynamic_rules(&short).len(), 1);
    let none = vec![window(DynamicRuleKind::LastNEpisodes { last_n_episodes: 0 })];
    assert_eq!(validate_dynamic_rules(&none).len(), 1);
    let fine = vec![window(DynamicRuleKind::LastNEpisodes { last_n_episodes: 3 })];
    assert_eq!(validate_dynamic_rules(&fine).len(), 0);
}

#[test]
fn lengths_are_exact() {
    assert_eq!(Duration::from_secs(90).as_secs(), StdDuration::from_secs(90).as_secs());
    let rule = DurationMaxRule {
        max: Duration::from_secs(300),
        action: Action::Skip,
        name: "test".into(),
    };
    assert_eq!(
        rule.evaluate(&make_episode("x", Some(300), None), &make_feed(1)),
        Some(Action::Skip)
    );
    assert_eq!(rule.evaluate(&make_episode("x", Some(301), None), &make_feed(1)), None);
    assert_eq!(rule.name(), "test");
}
