//! Rules and feeds as they stand in the configuration.
use crate::episode::Action;
use crate::rules::pattern;
use crate::text;
use crate::time;
use crate::time::{Duration, TimeDelta, UtcTime};
use crate::weburl::Url;
use vstd::prelude::*;
use vstd::string::*;

verus! {

// ---- Sizes --------------------------------------------------------------------------

/// What parsing a `bytesize::ByteSize` gives for a text: a number of bytes, or the error.
pub uninterp spec fn bytesize_parse(s: Seq<char>) -> Result<nat, Seq<char>>;

/// `bytesize::ByteSize` is parsed from a text such as `500 MB`, a function of the text alone.
#[verifier::external_body]
fn read_bytesize(s: &str) -> (res: Result<u64, String>)
    ensures
        match res {
            Ok(n) => bytesize_parse(s@) == Ok::<nat, Seq<char>>(n as nat),
            Err(message) => bytesize_parse(s@) == Err::<nat, Seq<char>>(message@),
        },
{
    match s.parse::<bytesize::ByteSize>() {
        Ok(b) => Ok(b.0),
        Err(e) => Err(e.to_string()),
    }
}

/// Reads a number of bytes such as `500 MB`; an error is given as its message.
pub fn parse_bytesize(s: &str) -> (res: Result<u64, String>)
    ensures
        match res {
            Ok(n) => bytesize_parse(s@) == Ok::<nat, Seq<char>>(n as nat),
            Err(message) => bytesize_parse(s@) == Err::<nat, Seq<char>>(message@),
        },
{
    read_bytesize(s)
}

/// The text that the `Display` form of a `bytesize::ByteSize` shows.
pub uninterp spec fn bytesize_text(n: nat) -> Seq<char>;

/// `bytesize::ByteSize` shows itself as a function of the number of bytes.
#[verifier::external_body]
pub(crate) fn show_bytesize(n: u64) -> (res: String)
    ensures
        res@ == bytesize_text(n as nat),
{
    bytesize::ByteSize(n).to_string()
}

// ---- Defaults -------------------------------------------------------------------------

/// How often a feed is polled where nothing else is said: every hour.
pub fn default_poll_interval() -> (res: Duration)
    ensures
        res.whole_secs() == 3600,
        res.subsec() == 0,
{
    Duration::from_secs(3600)
}

/// A feed is enabled where nothing else is said.
pub fn default_enabled() -> (res: bool)
    ensures
        res,
{
    true
}

/// A restreamed feed shows only matched episodes where nothing else is said.
pub fn default_restream_only_matched() -> (res: bool)
    ensures
        res,
{
    true
}

// ---- Types ------------------------------------------------------------------------------

/// A feed in the configuration.
#[derive(Debug)]
pub struct FeedConfig {
    pub url: Url,
    pub slug: String,
    /// Name shown in place of the feed's own title.
    pub display_name: Option<String>,
    /// Other names by which the feed can be called; unique over all slugs and aliases.
    pub aliases: Vec<String>,
    pub poll_interval: Duration,
    pub enabled: bool,
    /// Whether the feed is served again by the restream server.
    pub restream: bool,
    /// Whether the restreamed feed shows only episodes that are there or queued, and not
    /// all of them.
    pub restream_only_matched: bool,
    pub rules: Vec<RuleConfig>,
    pub dynamic: Vec<DynamicRuleConfig>,
    /// A catch-all at the end of the feed's own rules, which keeps the global rules from
    /// firing: the same as an `always` rule of the last priority.
    pub default_action: Option<Action>,
}

/// A rule in the configuration.
#[derive(Debug, PartialEq, Eq)]
pub struct RuleConfig {
    pub name: String,
    /// Rules with a lower number are tried first.
    pub priority: i32,
    pub match_: RuleKind,
    pub action: Action,
}

/// A dynamic rule in the configuration: it keeps a moving set of episodes.
#[derive(Debug)]
pub struct DynamicRuleConfig {
    pub name: String,
    pub match_: DynamicRuleKind,
    pub action: Action,
}

/// What a rule looks at.
#[allow(inconsistent_fields)]
#[derive(Debug, PartialEq, Eq)]
pub enum RuleKind {
    TitleRegex { pattern: String },
    DescriptionRegex { pattern: String },
    DurationMin { value: Duration },
    DurationMax { value: Duration },
    PublishedAfter { date: UtcTime },
    PublishedBefore { date: UtcTime },
    /// The value is a number of bytes.
    EpisodeSizeMax { value: u64 },
    Always,
}

/// What a dynamic rule looks at.
#[derive(Debug)]
pub enum DynamicRuleKind {
    LastNEpisodes { last_n_episodes: usize },
    DurationAgo { duration: TimeDelta },
}

impl Clone for FeedConfig {
    fn clone(&self) -> (res: FeedConfig)
        ensures
            res.aliases@ == self.aliases@,
            res.rules@ == self.rules@,
            res.dynamic@ == self.dynamic@,
            res == (FeedConfig {
                aliases: res.aliases,
                rules: res.rules,
                dynamic: res.dynamic,
                ..*self
            }),
    {
        let mut aliases: Vec<String> = Vec::new();
        for i in 0..self.aliases.len()
            invariant
                aliases@ == self.aliases@.take(i as int),
        {
            aliases.push(self.aliases[i].clone());
            assert(self.aliases@.take(i + 1) =~= self.aliases@.take(i as int).push(
                self.aliases@[i as int],
            ));
        }
        assert(self.aliases@.take(self.aliases@.len() as int) =~= self.aliases@);
        let mut rules: Vec<RuleConfig> = Vec::new();
        for i in 0..self.rules.len()
            invariant
                rules@ == self.rules@.take(i as int),
        {
            rules.push(self.rules[i].clone());
            assert(self.rules@.take(i + 1) =~= self.rules@.take(i as int).push(
                self.rules@[i as int],
            ));
        }
        assert(self.rules@.take(self.rules@.len() as int) =~= self.rules@);
        let mut dynamic: Vec<DynamicRuleConfig> = Vec::new();
        for i in 0..self.dynamic.len()
            invariant
                dynamic@ == self.dynamic@.take(i as int),
        {
            dynamic.push(self.dynamic[i].clone());
            assert(self.dynamic@.take(i + 1) =~= self.dynamic@.take(i as int).push(
                self.dynamic@[i as int],
            ));
        }
        assert(self.dynamic@.take(self.dynamic@.len() as int) =~= self.dynamic@);
        FeedConfig {
            url: self.url.clone(),
            slug: self.slug.clone(),
            display_name: text::copy_opt(&self.display_name),
            aliases,
            poll_interval: self.poll_interval,
            enabled: self.enabled,
            restream: self.restream,
            restream_only_matched: self.restream_only_matched,
            rules,
            dynamic,
            default_action: self.default_action,
        }
    }
}

impl Clone for RuleKind {
    fn clone(&self) -> (res: RuleKind)
        ensures
            res == *self,
    {
        match self {
            RuleKind::TitleRegex { pattern } => RuleKind::TitleRegex { pattern: pattern.clone() },
            RuleKind::DescriptionRegex { pattern } => RuleKind::DescriptionRegex {
                pattern: pattern.clone(),
            },
            RuleKind::DurationMin { value } => RuleKind::DurationMin { value: *value },
            RuleKind::DurationMax { value } => RuleKind::DurationMax { value: *value },
            RuleKind::PublishedAfter { date } => RuleKind::PublishedAfter { date: *date },
            RuleKind::PublishedBefore { date } => RuleKind::PublishedBefore { date: *date },
            RuleKind::EpisodeSizeMax { value } => RuleKind::EpisodeSizeMax { value: *value },
            RuleKind::Always => RuleKind::Always,
        }
    }
}

impl Clone for RuleConfig {
    fn clone(&self) -> (res: RuleConfig)
        ensures
            res == *self,
    {
        RuleConfig {
            name: self.name.clone(),
            priority: self.priority,
            match_: self.match_.clone(),
            action: self.action,
        }
    }
}

impl Clone for DynamicRuleKind {
    fn clone(&self) -> (res: DynamicRuleKind)
        ensures
            res == *self,
    {
        match self {
            DynamicRuleKind::LastNEpisodes { last_n_episodes } => DynamicRuleKind::LastNEpisodes {
                last_n_episodes: *last_n_episodes,
            },
            DynamicRuleKind::DurationAgo { duration } => DynamicRuleKind::DurationAgo {
                duration: *duration,
            },
        }
    }
}

impl Clone for DynamicRuleConfig {
    fn clone(&self) -> (res: DynamicRuleConfig)
        ensures
            res == *self,
    {
        DynamicRuleConfig {
            name: self.name.clone(),
            match_: self.match_.clone(),
            action: self.action,
        }
    }
}

/// The sentence that describes a dynamic rule.
pub open spec fn dynamic_kind_text(kind: DynamicRuleKind) -> Seq<char> {
    match kind {
        DynamicRuleKind::LastNEpisodes { last_n_episodes } => "Download the last "@ + text::decimal(
            last_n_episodes as nat,
        ) + " episodes"@,
        DynamicRuleKind::DurationAgo { duration } => "Download episodes released over the last "@
            + text::signed_decimal(time::quotient(duration.total_nanos(), time::DAY_NANOS as int))
            + " days"@,
    }
}

impl DynamicRuleKind {
    /// The sentence that describes the rule.
    pub fn to_text(&self) -> (res: String)
        ensures
            res@ == dynamic_kind_text(*self),
    {
        match self {
            DynamicRuleKind::LastNEpisodes { last_n_episodes } => {
                let mut s = "Download the last ".to_string();
                s.append(text::decimal_text(*last_n_episodes as u64).as_str());
                s.append(" episodes");
                s
            },
            DynamicRuleKind::DurationAgo { duration } => {
                let mut s = "Download episodes released over the last ".to_string();
                s.append(text::signed_decimal_text(duration.num_days()).as_str());
                s.append(" days");
                s
            },
        }
    }
}

// ---- Validation -----------------------------------------------------------------------------

/// The pattern that a rule needs compiled.
pub open spec fn pattern_of(kind: RuleKind) -> Option<Seq<char>> {
    match kind {
        RuleKind::TitleRegex { pattern } => Some(pattern@),
        RuleKind::DescriptionRegex { pattern } => Some(pattern@),
        _ => None,
    }
}

/// The message about a rule whose pattern does not compile.
pub open spec fn regex_error_text(name: Seq<char>, pattern: Seq<char>, source: Seq<char>) -> Seq<
    char,
> {
    "rule "@ + text::debug_text(name) + ": invalid regex "@ + text::debug_text(pattern) + ": "@
        + source
}

/// What is wrong with a rule, where anything is.
pub open spec fn rule_error(rule: RuleConfig) -> Option<Seq<char>> {
    match pattern_of(rule.match_) {
        Some(p) => match pattern::regex_compile(p) {
            Ok(_) => None,
            Err(source) => Some(regex_error_text(rule.name@, p, source)),
        },
        None => None,
    }
}

/// What is wrong with each of some rules, in their order.
pub open spec fn rule_errors(rules: Seq<RuleConfig>) -> Seq<Seq<char>>
    decreases rules.len(),
{
    if rules.len() == 0 {
        Seq::empty()
    } else {
        let earlier = rule_errors(rules.drop_last());
        match rule_error(rules.last()) {
            Some(e) => earlier.push(e),
            None => earlier,
        }
    }
}

pub(crate) fn regex_error_message(name: &str, pattern: &str, source: &str) -> (res: String)
    ensures
        res@ == regex_error_text(name@, pattern@, source@),
{
    let mut s = "rule ".to_string();
    s.append(text::debug_quote(name).as_str());
    s.append(": invalid regex ");
    s.append(text::debug_quote(pattern).as_str());
    s.append(": ");
    s.append(source);
    s
}

fn rule_error_message(rule: &RuleConfig) -> (res: Option<String>)
    ensures
        text::opt_text(res) == rule_error(*rule),
{
    match &rule.match_ {
        RuleKind::TitleRegex { pattern } => match pattern::compile(pattern.as_str()) {
            Ok(_) => None,
            Err(e) => Some(
                regex_error_message(rule.name.as_str(), pattern.as_str(), e.as_str()),
            ),
        },
        RuleKind::DescriptionRegex { pattern } => match pattern::compile(pattern.as_str()) {
            Ok(_) => None,
            Err(e) => Some(
                regex_error_message(rule.name.as_str(), pattern.as_str(), e.as_str()),
            ),
        },
        _ => None,
    }
}

/// Checks rules as they stand in the configuration; the result holds one message for each
/// pattern that does not compile.
pub fn validate_rules(rules: &[RuleConfig]) -> (res: Vec<String>)
    ensures
        text::texts(res@) == rule_errors(rules@),
{
    let mut errors: Vec<String> = Vec::new();
    for i in 0..rules.len()
        invariant
            text::texts(errors@) == rule_errors(rules@.take(i as int)),
    {
        let ghost before = errors@;
        assert(rules@.take(i + 1).drop_last() =~= rules@.take(i as int));
        if let Some(e) = rule_error_message(&rules[i]) {
            errors.push(e);
            assert(text::texts(errors@) =~= text::texts(before).push(e@));
        }
    }
    assert(rules@.take(rules@.len() as int) =~= rules@);
    errors
}

/// What is doubtful about a dynamic rule, where anything is.
pub open spec fn dynamic_error(rule: DynamicRuleConfig) -> Option<Seq<char>> {
    match rule.match_ {
        DynamicRuleKind::LastNEpisodes { last_n_episodes } => if last_n_episodes == 0 {
            Some(
                "Set to find the last 0 episodes in dynamic rule, this is probably a mistake.\nRemove the rule or increase the number of episodes threshold"@,
            )
        } else {
            None
        },
        DynamicRuleKind::DurationAgo { duration } => if time::quotient(
            duration.total_nanos(),
            time::HOUR_NANOS as int,
        ) < 12 {
            Some(
                "Dynamic rule set to keep releases within the last 12 hours, this is probably a mistake\nRemove the rule or add a duration greater than 12 hours.\n\tNote that episodes older than what is specified will be purged if not matched by a separate download rule"@,
            )
        } else {
            None
        },
    }
}

/// What is doubtful about each of some dynamic rules, in their order.
pub open spec fn dynamic_errors(rules: Seq<DynamicRuleConfig>) -> Seq<Seq<char>>
    decreases rules.len(),
{
    if rules.len() == 0 {
        Seq::empty()
    } else {
        let earlier = dynamic_errors(rules.drop_last());
        match dynamic_error(rules.last()) {
            Some(e) => earlier.push(e),
            None => earlier,
        }
    }
}

/// Checks dynamic rules; the result holds one message for each window that is empty or
/// shorter than twelve hours.
pub fn validate_dynamic_rules(dyn_rules: &[DynamicRuleConfig]) -> (res: Vec<String>)
    ensures
        text::texts(res@) == dynamic_errors(dyn_rules@),
{
    let mut errors: Vec<String> = Vec::new();
    for i in 0..dyn_rules.len()
        invariant
            text::texts(errors@) == dynamic_errors(dyn_rules@.take(i as int)),
    {
        let ghost before = errors@;
        assert(dyn_rules@.take(i + 1).drop_last() =~= dyn_rules@.take(i as int));
        match &dyn_rules[i].match_ {
            DynamicRuleKind::LastNEpisodes { last_n_episodes } => {
                if *last_n_episodes == 0 {
                    let e =
                        "Set to find the last 0 episodes in dynamic rule, this is probably a mistake.\nRemove the rule or increase the number of episodes threshold".to_string();
                    errors.push(e);
                    assert(text::texts(errors@) =~= text::texts(before).push(e@));
                }
            },
            DynamicRuleKind::DurationAgo { duration } => {
                if duration.num_hours() < 12 {
                    let e =
                        "Dynamic rule set to keep releases within the last 12 hours, this is probably a mistake\nRemove the rule or add a duration greater than 12 hours.\n\tNote that episodes older than what is specified will be purged if not matched by a separate download rule".to_string();
                    errors.push(e);
                    assert(text::texts(errors@) =~= text::texts(before).push(e@));
                }
            },
        }
    }
    assert(dyn_rules@.take(dyn_rules@.len() as int) =~= dyn_rules@);
    errors
}

// ---- Laws -----------------------------------------------------------------------------------

/// Each rule whose pattern does not compile is reported once, in order, with its name, its
/// pattern and the reason; a rule on anything but a text is never reported.
pub proof fn law_each_bad_pattern_is_reported(rules: Seq<RuleConfig>, i: int)
    requires
        0 <= i < rules.len(),
    ensures
        rule_errors(rules.take(0)).len() == 0,
        ({
            let pattern = match rules[i].match_ {
                RuleKind::TitleRegex { pattern } => Some(pattern@),
                RuleKind::DescriptionRegex { pattern } => Some(pattern@),
                _ => None,
            };
            rule_errors(rules.take(i + 1)) == match pattern {
                Some(p) => match pattern::regex_compile(p) {
                    Ok(_) => rule_errors(rules.take(i)),
                    Err(source) => rule_errors(rules.take(i)).push(
                        "rule "@ + text::debug_text(rules[i].name@) + ": invalid regex "@
                            + text::debug_text(p) + ": "@ + source,
                    ),
                },
                None => rule_errors(rules.take(i)),
            }
        }),
{
    assert(rules.take(i + 1).drop_last() =~= rules.take(i));
}

/// Rules are in order exactly where every pattern compiles.
pub proof fn law_rules_in_order_where_patterns_compile(rules: Seq<RuleConfig>)
    ensures
        rule_errors(rules).len() == 0 <==> forall|i: int|
            0 <= i < rules.len() ==> match (#[trigger] rules[i]).match_ {
                RuleKind::TitleRegex { pattern } => pattern::regex_compile(pattern@) is Ok,
                RuleKind::DescriptionRegex { pattern } => pattern::regex_compile(pattern@) is Ok,
                _ => true,
            },
    decreases rules.len(),
{
    if rules.len() > 0 {
        let rest = rules.drop_last();
        law_rules_in_order_where_patterns_compile(rest);
        assert(rules.last() == rules[rules.len() - 1]);
        if rule_errors(rules).len() == 0 {
            assert forall|i: int| 0 <= i < rules.len() implies match (#[trigger] rules[i]).match_ {
                RuleKind::TitleRegex { pattern } => pattern::regex_compile(pattern@) is Ok,
                RuleKind::DescriptionRegex { pattern } => pattern::regex_compile(pattern@) is Ok,
                _ => true,
            } by {
                if i < rest.len() {
                    assert(rest[i] == rules[i]);
                }
            }
        } else if rule_errors(rest).len() > 0 {
            let i = choose|i: int|
                0 <= i < rest.len() && !match (#[trigger] rest[i]).match_ {
                    RuleKind::TitleRegex { pattern } => pattern::regex_compile(pattern@) is Ok,
                    RuleKind::DescriptionRegex { pattern } => pattern::regex_compile(pattern@) is Ok,
                    _ => true,
                };
            assert(rules[i] == rest[i]);
        }
    }
}

/// A dynamic rule is reported exactly where its window holds no episode at all or reaches back
/// less than twelve hours, each once and in order.
pub proof fn law_each_doubtful_window_is_reported(rules: Seq<DynamicRuleConfig>, i: int)
    requires
        0 <= i < rules.len(),
    ensures
        dynamic_errors(rules.take(0)).len() == 0,
        rules[i].match_ matches DynamicRuleKind::LastNEpisodes { last_n_episodes } ==> {
            &&& last_n_episodes > 0 ==> dynamic_errors(rules.take(i + 1)) == dynamic_errors(
                rules.take(i),
            )
            &&& last_n_episodes == 0 ==> dynamic_errors(rules.take(i + 1)) == dynamic_errors(
                rules.take(i),
            ).push(
                "Set to find the last 0 episodes in dynamic rule, this is probably a mistake.\nRemove the rule or increase the number of episodes threshold"@,
            )
        },
        rules[i].match_ matches DynamicRuleKind::DurationAgo { duration } ==> {
            &&& duration.total_nanos() >= 43_200_000_000_000 ==> dynamic_errors(rules.take(i + 1))
                == dynamic_errors(rules.take(i))
            &&& duration.total_nanos() < 43_200_000_000_000 ==> dynamic_errors(rules.take(i + 1))
                == dynamic_errors(rules.take(i)).push(
                "Dynamic rule set to keep releases within the last 12 hours, this is probably a mistake\nRemove the rule or add a duration greater than 12 hours.\n\tNote that episodes older than what is specified will be purged if not matched by a separate download rule"@,
            )
        },
{
    assert(rules.take(i + 1).drop_last() =~= rules.take(i));
}

/// A dynamic rule is described by the episodes or the whole days that it reaches back.
pub proof fn law_descriptions_of_windows(n: usize, kind: DynamicRuleKind)
    ensures
        dynamic_kind_text(DynamicRuleKind::LastNEpisodes { last_n_episodes: n })
            == "Download the last "@ + text::decimal(n as nat) + " episodes"@,
        kind matches DynamicRuleKind::DurationAgo { duration } ==> (duration.total_nanos() >= 0
            ==> dynamic_kind_text(kind) == "Download episodes released over the last "@
            + text::decimal((duration.total_nanos() / 86_400_000_000_000) as nat) + " days"@),
{
}

} // verus!
