//! The rule engine: which action an episode gets.
use crate::episode::{Action, Episode};
use crate::feed::Feed;
use crate::ids::FeedId;
use crate::rules::config;
use crate::rules::config::{DynamicRuleConfig, DynamicRuleKind, RuleConfig, RuleKind};
use crate::rules::pattern;
use crate::time::{Duration, TimeDelta, UtcTime};
use std::collections::HashMap;
use vstd::prelude::*;

verus! {

broadcast use vstd::std_specs::hash::group_hash_axioms;

// ---- What the configuration means -------------------------------------------------

/// Whether a rule applies to an episode. A rule on a property that the episode lacks does not
/// apply.
pub open spec fn kind_applies(kind: RuleKind, ep: Episode) -> bool {
    match kind {
        RuleKind::TitleRegex { pattern } => pattern::regex_compile(pattern@) matches Ok(language)
            && language.contains(ep.title@),
        RuleKind::DescriptionRegex { pattern } => pattern::regex_compile(pattern@) matches Ok(
            language,
        ) && ep.description matches Some(d) && language.contains(d@),
        RuleKind::DurationMin { value } => ep.duration_secs matches Some(secs) && value.total_nanos()
            <= secs * 1_000_000_000,
        RuleKind::DurationMax { value } => ep.duration_secs matches Some(secs) && secs
            * 1_000_000_000 <= value.total_nanos(),
        RuleKind::PublishedAfter { date } => date.before(ep.pub_date),
        RuleKind::PublishedBefore { date } => ep.pub_date.before(date),
        RuleKind::EpisodeSizeMax { value } => ep.enclosure_size matches Some(size) && size <= value,
        RuleKind::Always => true,
    }
}

/// The action that a rule gives an episode, where it applies.
pub open spec fn rule_verdict(rule: RuleConfig, ep: Episode) -> Option<Action> {
    if kind_applies(rule.match_, ep) {
        Some(rule.action)
    } else {
        None
    }
}

/// The action that the first applicable rule gives an episode.
pub open spec fn static_verdict(rules: Seq<RuleConfig>, ep: Episode) -> Option<Action>
    decreases rules.len(),
{
    if rules.len() == 0 {
        None
    } else {
        match rule_verdict(rules[0], ep) {
            Some(a) => Some(a),
            None => static_verdict(rules.drop_first(), ep),
        }
    }
}

/// `sorted` with `rule` put before the first rule of a higher priority number.
pub open spec fn insert_by_priority(sorted: Seq<RuleConfig>, rule: RuleConfig) -> Seq<RuleConfig>
    decreases sorted.len(),
{
    if sorted.len() == 0 || rule.priority < sorted[0].priority {
        seq![rule] + sorted
    } else {
        seq![sorted[0]] + insert_by_priority(sorted.drop_first(), rule)
    }
}

/// The rules in the order in which they are tried: by ascending priority number, and rules of
/// the same number in the order in which they were written.
pub open spec fn by_priority(rules: Seq<RuleConfig>) -> Seq<RuleConfig>
    decreases rules.len(),
{
    if rules.len() == 0 {
        rules
    } else {
        insert_by_priority(by_priority(rules.drop_last()), rules.last())
    }
}

/// Whether an episode lies in the window of a dynamic rule at a moment.
pub open spec fn dynamic_applies(kind: DynamicRuleKind, ep: Episode, now: UtcTime) -> bool {
    match kind {
        DynamicRuleKind::LastNEpisodes { last_n_episodes } => last_n_episodes > ep.episode_no,
        DynamicRuleKind::DurationAgo { duration } => now.since(ep.pub_date) < duration.total_nanos(),
    }
}

/// Whether an episode lies in the window of one of some dynamic rules at a moment.
pub open spec fn in_window(rules: Seq<DynamicRuleConfig>, ep: Episode, now: UtcTime) -> bool {
    exists|i: int| 0 <= i < rules.len() && #[trigger] dynamic_applies(rules[i].match_, ep, now)
}

/// The action that rules give an episode at a moment, where one applies: the feed's own rules
/// come before the global ones.
pub open spec fn static_decision(
    feed_rules: Seq<RuleConfig>,
    global: Seq<RuleConfig>,
    ep: Episode,
) -> Option<Action> {
    match static_verdict(by_priority(feed_rules), ep) {
        Some(a) => Some(a),
        None => static_verdict(by_priority(global), ep),
    }
}

/// What happens to an episode. One in the window of a dynamic rule is kept dynamically, unless
/// a rule says to download it for good. Any other gets the action of the first rule that
/// applies, and the default where none does.
pub open spec fn combine(in_window: bool, verdict: Option<Action>, default: Action) -> Action {
    if in_window {
        if verdict == Some(Action::Download) {
            Action::Download
        } else {
            Action::Dynamic
        }
    } else {
        match verdict {
            Some(a) => a,
            None => default,
        }
    }
}

/// The action that the rules of a configuration give an episode of a feed at a moment.
pub open spec fn decision(
    feed_rules: Seq<RuleConfig>,
    feed_dynamic: Seq<DynamicRuleConfig>,
    global: Seq<RuleConfig>,
    global_dynamic: Seq<DynamicRuleConfig>,
    default: Action,
    ep: Episode,
    now: UtcTime,
) -> Action {
    combine(
        in_window(feed_dynamic, ep, now) || in_window(global_dynamic, ep, now),
        static_decision(feed_rules, global, ep),
        default,
    )
}

/// The rules that a list gives for a feed: those of its last entry for it.
pub open spec fn rules_of(list: Seq<(FeedId, &[RuleConfig])>, id: FeedId) -> Seq<RuleConfig>
    decreases list.len(),
{
    if list.len() == 0 {
        Seq::empty()
    } else if list.last().0 == id {
        list.last().1@
    } else {
        rules_of(list.drop_last(), id)
    }
}

/// The dynamic rules that a list gives for a feed: those of its last entry for it.
pub open spec fn dynamic_of(list: Seq<(FeedId, &[DynamicRuleConfig])>, id: FeedId) -> Seq<
    DynamicRuleConfig,
>
    decreases list.len(),
{
    if list.len() == 0 {
        Seq::empty()
    } else if list.last().0 == id {
        list.last().1@
    } else {
        dynamic_of(list.drop_last(), id)
    }
}

// ---- Errors ------------------------------------------------------------------------

/// Why an engine could not be built.
#[derive(Debug)]
pub enum RuleError {
    Regex { name: String, pattern: String, source: String },
}

/// The message of an error.
pub open spec fn rule_error_text(e: RuleError) -> Seq<char> {
    match e {
        RuleError::Regex { name, pattern, source } => config::regex_error_text(
            name@,
            pattern@,
            source@,
        ),
    }
}

impl RuleError {
    /// The message of the error.
    pub fn to_text(&self) -> (res: String)
        ensures
            res@ == rule_error_text(*self),
    {
        match self {
            RuleError::Regex { name, pattern, source } => config::regex_error_message(
                name.as_str(),
                pattern.as_str(),
                source.as_str(),
            ),
        }
    }
}

/// Whether `e` is the error that a rule's pattern gives.
pub open spec fn is_error_of(rule: RuleConfig, e: RuleError) -> bool {
    match e {
        RuleError::Regex { name, pattern, source } => {
            &&& config::pattern_of(rule.match_) == Some(pattern@)
            &&& pattern::regex_compile(pattern@) == Err::<Set<Seq<char>>, Seq<char>>(source@)
            &&& name@ == rule.name@
        },
    }
}

/// Whether a rule can be built: its pattern, where it has one, compiles.
pub open spec fn buildable(rule: RuleConfig) -> bool {
    config::rule_error(rule) is None
}

/// Whether `e` is the error of the first rule that cannot be built.
pub open spec fn is_first_error(rules: Seq<RuleConfig>, e: RuleError) -> bool {
    exists|i: int|
        0 <= i < rules.len() && #[trigger] is_error_of(rules[i], e) && forall|j: int|
            0 <= j < i ==> buildable(#[trigger] rules[j])
}

/// Whether all rules can be built.
pub open spec fn all_buildable(rules: Seq<RuleConfig>) -> bool {
    forall|i: int| 0 <= i < rules.len() ==> buildable(#[trigger] rules[i])
}

/// Whether the rules of all feeds can be built.
pub open spec fn feeds_buildable(list: Seq<(FeedId, &[RuleConfig])>) -> bool {
    forall|i: int| 0 <= i < list.len() ==> all_buildable(by_priority(#[trigger] list[i].1@))
}

/// Whether `e` is the error of the first rule that cannot be built, feed by feed.
pub open spec fn is_first_feed_error(list: Seq<(FeedId, &[RuleConfig])>, e: RuleError) -> bool {
    exists|i: int|
        0 <= i < list.len() && is_first_error(by_priority(#[trigger] list[i].1@), e)
            && feeds_buildable(list.take(i))
}

// ---- Rules ---------------------------------------------------------------------------

/// A rule that can be tried on an episode.
pub trait Rule: Sized {
    /// The action that the rule gives an episode at a moment; none where it does not apply.
    spec fn verdict(&self, episode: Episode, feed: Feed, now: UtcTime) -> Option<Action>;

    /// The name of the rule.
    spec fn name_text(&self) -> Seq<char>;

    /// `None` where the rule does not apply at the moment `now`, else its action.
    fn evaluate_at(&self, episode: &Episode, feed: &Feed, now: &UtcTime) -> (res: Option<Action>)
        ensures
            res == self.verdict(*episode, *feed, *now),
    ;

    /// `None` where the rule does not apply, else its action. A rule that looks at the clock
    /// goes by the present moment.
    fn evaluate(&self, episode: &Episode, feed: &Feed) -> (res: Option<Action>)
        ensures
            exists|now: UtcTime| res == #[trigger] self.verdict(*episode, *feed, now),
    {
        let now = UtcTime::now();
        self.evaluate_at(episode, feed, &now)
    }

    /// The name of the rule.
    fn name(&self) -> (res: &str)
        ensures
            res@ == self.name_text(),
    ;
}

/// A rule on the title.
pub struct TitleRegexRule {
    pub regex: regex::Regex,
    pub action: Action,
    pub name: String,
}

impl Rule for TitleRegexRule {
    open spec fn verdict(&self, episode: Episode, feed: Feed, now: UtcTime) -> Option<Action> {
        if pattern::regex_language(self.regex).contains(episode.title@) {
            Some(self.action)
        } else {
            None
        }
    }

    open spec fn name_text(&self) -> Seq<char> {
        self.name@
    }

    fn evaluate_at(&self, episode: &Episode, feed: &Feed, now: &UtcTime) -> Option<Action> {
        if pattern::finds(&self.regex, episode.title.as_str()) {
            Some(self.action)
        } else {
            None
        }
    }

    fn name(&self) -> &str {
        self.name.as_str()
    }
}

/// A rule on the description.
pub struct DescriptionRegexRule {
    pub regex: regex::Regex,
    pub action: Action,
    pub name: String,
}

impl Rule for DescriptionRegexRule {
    open spec fn verdict(&self, episode: Episode, feed: Feed, now: UtcTime) -> Option<Action> {
        match episode.description {
            Some(d) => if pattern::regex_language(self.regex).contains(d@) {
                Some(self.action)
            } else {
                None
            },
            None => None,
        }
    }

    open spec fn name_text(&self) -> Seq<char> {
        self.name@
    }

    fn evaluate_at(&self, episode: &Episode, feed: &Feed, now: &UtcTime) -> Option<Action> {
        match &episode.description {
            Some(d) => if pattern::finds(&self.regex, d.as_str()) {
                Some(self.action)
            } else {
                None
            },
            None => None,
        }
    }

    fn name(&self) -> &str {
        self.name.as_str()
    }
}

/// A rule on episodes that last at least some time.
pub struct DurationMinRule {
    pub min: Duration,
    pub action: Action,
    pub name: String,
}

impl Rule for DurationMinRule {
    open spec fn verdict(&self, episode: Episode, feed: Feed, now: UtcTime) -> Option<Action> {
        match episode.duration_secs {
            Some(secs) => if self.min.total_nanos() <= secs * 1_000_000_000 {
                Some(self.action)
            } else {
                None
            },
            None => None,
        }
    }

    open spec fn name_text(&self) -> Seq<char> {
        self.name@
    }

    fn evaluate_at(&self, episode: &Episode, feed: &Feed, now: &UtcTime) -> Option<Action> {
        match episode.duration() {
            Some(d) => if self.min.at_most(&d) {
                Some(self.action)
            } else {
                None
            },
            None => None,
        }
    }

    fn name(&self) -> &str {
        self.name.as_str()
    }
}

/// A rule on episodes that last at most some time.
pub struct DurationMaxRule {
    pub max: Duration,
    pub action: Action,
    pub name: String,
}

impl Rule for DurationMaxRule {
    open spec fn verdict(&self, episode: Episode, feed: Feed, now: UtcTime) -> Option<Action> {
        match episode.duration_secs {
            Some(secs) => if secs * 1_000_000_000 <= self.max.total_nanos() {
                Some(self.action)
            } else {
                None
            },
            None => None,
        }
    }

    open spec fn name_text(&self) -> Seq<char> {
        self.name@
    }

    fn evaluate_at(&self, episode: &Episode, feed: &Feed, now: &UtcTime) -> Option<Action> {
        match episode.duration() {
            Some(d) => if d.at_most(&self.max) {
                Some(self.action)
            } else {
                None
            },
            None => None,
        }
    }

    fn name(&self) -> &str {
        self.name.as_str()
    }
}

/// A rule on episodes that were published after a moment.
pub struct PublishedAfterRule {
    pub after: UtcTime,
    pub action: Action,
    pub name: String,
}

impl Rule for PublishedAfterRule {
    open spec fn verdict(&self, episode: Episode, feed: Feed, now: UtcTime) -> Option<Action> {
        if self.after.before(episode.pub_date) {
            Some(self.action)
        } else {
            None
        }
    }

    open spec fn name_text(&self) -> Seq<char> {
        self.name@
    }

    fn evaluate_at(&self, episode: &Episode, feed: &Feed, now: &UtcTime) -> Option<Action> {
        if self.after.is_before(&episode.pub_date) {
            Some(self.action)
        } else {
            None
        }
    }

    fn name(&self) -> &str {
        self.name.as_str()
    }
}

/// A rule on episodes that were published before a moment.
pub struct PublishedBeforeRule {
    pub before: UtcTime,
    pub action: Action,
    pub name: String,
}

impl Rule for PublishedBeforeRule {
    open spec fn verdict(&self, episode: Episode, feed: Feed, now: UtcTime) -> Option<Action> {
        if episode.pub_date.before(self.before) {
            Some(self.action)
        } else {
            None
        }
    }

    open spec fn name_text(&self) -> Seq<char> {
        self.name@
    }

    fn evaluate_at(&self, episode: &Episode, feed: &Feed, now: &UtcTime) -> Option<Action> {
        if episode.pub_date.is_before(&self.before) {
            Some(self.action)
        } else {
            None
        }
    }

    fn name(&self) -> &str {
        self.name.as_str()
    }
}

/// A rule on episodes whose file has at most some size.
pub struct EpisodeSizeMaxRule {
    pub max_bytes: u64,
    pub action: Action,
    pub name: String,
}

impl Rule for EpisodeSizeMaxRule {
    open spec fn verdict(&self, episode: Episode, feed: Feed, now: UtcTime) -> Option<Action> {
        match episode.enclosure_size {
            Some(size) => if size <= self.max_bytes {
                Some(self.action)
            } else {
                None
            },
            None => None,
        }
    }

    open spec fn name_text(&self) -> Seq<char> {
        self.name@
    }

    fn evaluate_at(&self, episode: &Episode, feed: &Feed, now: &UtcTime) -> Option<Action> {
        match episode.enclosure_size {
            Some(size) => if size <= self.max_bytes {
                Some(self.action)
            } else {
                None
            },
            None => None,
        }
    }

    fn name(&self) -> &str {
        self.name.as_str()
    }
}

/// A dynamic rule on the first episodes of the feed.
pub struct LastNEpisodesRule {
    pub last_n_episodes: usize,
    pub name: String,
}

impl Rule for LastNEpisodesRule {
    open spec fn verdict(&self, episode: Episode, feed: Feed, now: UtcTime) -> Option<Action> {
        if self.last_n_episodes > episode.episode_no {
            Some(Action::Dynamic)
        } else {
            None
        }
    }

    open spec fn name_text(&self) -> Seq<char> {
        self.name@
    }

    fn evaluate_at(&self, episode: &Episode, feed: &Feed, now: &UtcTime) -> Option<Action> {
        if self.last_n_episodes > episode.episode_no {
            Some(Action::Dynamic)
        } else {
            None
        }
    }

    fn name(&self) -> &str {
        self.name.as_str()
    }
}

/// A dynamic rule on episodes that were published less than some time ago.
pub struct DurationAgoRule {
    pub duration: TimeDelta,
    pub name: String,
}

impl Rule for DurationAgoRule {
    open spec fn verdict(&self, episode: Episode, feed: Feed, now: UtcTime) -> Option<Action> {
        if now.since(episode.pub_date) < self.duration.total_nanos() {
            Some(Action::Dynamic)
        } else {
            None
        }
    }

    open spec fn name_text(&self) -> Seq<char> {
        self.name@
    }

    fn evaluate_at(&self, episode: &Episode, feed: &Feed, now: &UtcTime) -> Option<Action> {
        let time_since_episode = now.signed_duration_since(&episode.pub_date);
        if time_since_episode.is_less(&self.duration) {
            Some(Action::Dynamic)
        } else {
            None
        }
    }

    fn name(&self) -> &str {
        self.name.as_str()
    }
}

/// A rule on every episode.
pub struct AlwaysRule {
    pub action: Action,
    pub name: String,
}

impl Rule for AlwaysRule {
    open spec fn verdict(&self, episode: Episode, feed: Feed, now: UtcTime) -> Option<Action> {
        Some(self.action)
    }

    open spec fn name_text(&self) -> Seq<char> {
        self.name@
    }

    fn evaluate_at(&self, episode: &Episode, feed: &Feed, now: &UtcTime) -> Option<Action> {
        Some(self.action)
    }

    fn name(&self) -> &str {
        self.name.as_str()
    }
}

/// A rule of any kind.
pub enum AnyRule {
    TitleRegex(TitleRegexRule),
    DescriptionRegex(DescriptionRegexRule),
    DurationMin(DurationMinRule),
    DurationMax(DurationMaxRule),
    PublishedAfter(PublishedAfterRule),
    PublishedBefore(PublishedBeforeRule),
    EpisodeSizeMax(EpisodeSizeMaxRule),
    LastNEpisodes(LastNEpisodesRule),
    DurationAgo(DurationAgoRule),
    Always(AlwaysRule),
}

impl Rule for AnyRule {
    open spec fn verdict(&self, episode: Episode, feed: Feed, now: UtcTime) -> Option<Action> {
        match self {
            AnyRule::TitleRegex(r) => r.verdict(episode, feed, now),
            AnyRule::DescriptionRegex(r) => r.verdict(episode, feed, now),
            AnyRule::DurationMin(r) => r.verdict(episode, feed, now),
            AnyRule::DurationMax(r) => r.verdict(episode, feed, now),
            AnyRule::PublishedAfter(r) => r.verdict(episode, feed, now),
            AnyRule::PublishedBefore(r) => r.verdict(episode, feed, now),
            AnyRule::EpisodeSizeMax(r) => r.verdict(episode, feed, now),
            AnyRule::LastNEpisodes(r) => r.verdict(episode, feed, now),
            AnyRule::DurationAgo(r) => r.verdict(episode, feed, now),
            AnyRule::Always(r) => r.verdict(episode, feed, now),
        }
    }

    open spec fn name_text(&self) -> Seq<char> {
        match self {
            AnyRule::TitleRegex(r) => r.name_text(),
            AnyRule::DescriptionRegex(r) => r.name_text(),
            AnyRule::DurationMin(r) => r.name_text(),
            AnyRule::DurationMax(r) => r.name_text(),
            AnyRule::PublishedAfter(r) => r.name_text(),
            AnyRule::PublishedBefore(r) => r.name_text(),
            AnyRule::EpisodeSizeMax(r) => r.name_text(),
            AnyRule::LastNEpisodes(r) => r.name_text(),
            AnyRule::DurationAgo(r) => r.name_text(),
            AnyRule::Always(r) => r.name_text(),
        }
    }

    fn evaluate_at(&self, episode: &Episode, feed: &Feed, now: &UtcTime) -> Option<Action> {
        match self {
            AnyRule::TitleRegex(r) => r.evaluate_at(episode, feed, now),
            AnyRule::DescriptionRegex(r) => r.evaluate_at(episode, feed, now),
            AnyRule::DurationMin(r) => r.evaluate_at(episode, feed, now),
            AnyRule::DurationMax(r) => r.evaluate_at(episode, feed, now),
            AnyRule::PublishedAfter(r) => r.evaluate_at(episode, feed, now),
            AnyRule::PublishedBefore(r) => r.evaluate_at(episode, feed, now),
            AnyRule::EpisodeSizeMax(r) => r.evaluate_at(episode, feed, now),
            AnyRule::LastNEpisodes(r) => r.evaluate_at(episode, feed, now),
            AnyRule::DurationAgo(r) => r.evaluate_at(episode, feed, now),
            AnyRule::Always(r) => r.evaluate_at(episode, feed, now),
        }
    }

    fn name(&self) -> &str {
        match self {
            AnyRule::TitleRegex(r) => r.name(),
            AnyRule::DescriptionRegex(r) => r.name(),
            AnyRule::DurationMin(r) => r.name(),
            AnyRule::DurationMax(r) => r.name(),
            AnyRule::PublishedAfter(r) => r.name(),
            AnyRule::PublishedBefore(r) => r.name(),
            AnyRule::EpisodeSizeMax(r) => r.name(),
            AnyRule::LastNEpisodes(r) => r.name(),
            AnyRule::DurationAgo(r) => r.name(),
            AnyRule::Always(r) => r.name(),
        }
    }
}

// ---- Building rules --------------------------------------------------------------------

/// Whether a rule does what its configuration says, whatever the episode and the moment.
pub open spec fn does(rule: AnyRule, cfg: RuleConfig) -> bool {
    &&& rule.name_text() == cfg.name@
    &&& forall|ep: Episode, feed: Feed, now: UtcTime|
        #![trigger rule.verdict(ep, feed, now)]
        rule.verdict(ep, feed, now) == rule_verdict(cfg, ep)
}

/// Whether a dynamic rule does what its configuration says.
pub open spec fn does_dynamic(rule: AnyRule, cfg: DynamicRuleConfig) -> bool {
    &&& rule.name_text() == cfg.name@
    &&& forall|ep: Episode, feed: Feed, now: UtcTime|
        #![trigger rule.verdict(ep, feed, now)]
        rule.verdict(ep, feed, now) == if dynamic_applies(cfg.match_, ep, now) {
            Some(Action::Dynamic)
        } else {
            None
        }
}

/// Builds the rule that a configuration describes.
pub fn build_rule(cfg: &RuleConfig) -> (res: Result<AnyRule, RuleError>)
    ensures
        res is Ok <==> buildable(*cfg),
        match res {
            Ok(rule) => does(rule, *cfg),
            Err(e) => is_error_of(*cfg, e),
        },
{
    let name = cfg.name.clone();
    let action = cfg.action;
    match &cfg.match_ {
        RuleKind::TitleRegex { pattern } => match pattern::compile(pattern.as_str()) {
            Ok(regex) => Ok(AnyRule::TitleRegex(TitleRegexRule { regex, action, name })),
            Err(source) => Err(RuleError::Regex { name, pattern: pattern.clone(), source }),
        },
        RuleKind::DescriptionRegex { pattern } => match pattern::compile(pattern.as_str()) {
            Ok(regex) => Ok(AnyRule::DescriptionRegex(DescriptionRegexRule { regex, action, name })),
            Err(source) => Err(RuleError::Regex { name, pattern: pattern.clone(), source }),
        },
        RuleKind::DurationMin { value } => Ok(
            AnyRule::DurationMin(DurationMinRule { min: *value, action, name }),
        ),
        RuleKind::DurationMax { value } => Ok(
            AnyRule::DurationMax(DurationMaxRule { max: *value, action, name }),
        ),
        RuleKind::PublishedAfter { date } => Ok(
            AnyRule::PublishedAfter(PublishedAfterRule { after: *date, action, name }),
        ),
        RuleKind::PublishedBefore { date } => Ok(
            AnyRule::PublishedBefore(PublishedBeforeRule { before: *date, action, name }),
        ),
        RuleKind::EpisodeSizeMax { value } => Ok(
            AnyRule::EpisodeSizeMax(EpisodeSizeMaxRule { max_bytes: *value, action, name }),
        ),
        RuleKind::Always => Ok(AnyRule::Always(AlwaysRule { action, name })),
    }
}

/// Builds the dynamic rule that a configuration describes.
pub fn build_dyn_rule(cfg: &DynamicRuleConfig) -> (res: AnyRule)
    ensures
        does_dynamic(res, *cfg),
{
    match &cfg.match_ {
        DynamicRuleKind::LastNEpisodes { last_n_episodes } => AnyRule::LastNEpisodes(
            LastNEpisodesRule { last_n_episodes: *last_n_episodes, name: cfg.name.clone() },
        ),
        DynamicRuleKind::DurationAgo { duration } => AnyRule::DurationAgo(
            DurationAgoRule { duration: *duration, name: cfg.name.clone() },
        ),
    }
}

proof fn lemma_insert_at(sorted: Seq<RuleConfig>, rule: RuleConfig, k: int)
    requires
        0 <= k <= sorted.len(),
        forall|i: int| 0 <= i < k ==> (#[trigger] sorted[i]).priority <= rule.priority,
        k < sorted.len() ==> rule.priority < sorted[k].priority,
    ensures
        insert_by_priority(sorted, rule) == sorted.insert(k, rule),
    decreases sorted.len(),
{
    if sorted.len() == 0 || rule.priority < sorted[0].priority {
        assert(k == 0);
        assert(seq![rule] + sorted =~= sorted.insert(0, rule));
    } else {
        let rest = sorted.drop_first();
        assert forall|i: int| 0 <= i < k - 1 implies (#[trigger] rest[i]).priority
            <= rule.priority by {
            assert(rest[i] == sorted[i + 1]);
        }
        lemma_insert_at(rest, rule, k - 1);
        assert(seq![sorted[0]] + rest.insert(k - 1, rule) =~= sorted.insert(k, rule));
    }
}

/// The rules in the order in which they are tried.
pub fn sort_rules(rules: &[RuleConfig]) -> (res: Vec<RuleConfig>)
    ensures
        res@ == by_priority(rules@),
{
    let mut sorted: Vec<RuleConfig> = Vec::new();
    assert(rules@.take(0) =~= Seq::empty());
    for i in 0..rules.len()
        invariant
            sorted@ == by_priority(rules@.take(i as int)),
    {
        let rule = rules[i].clone();
        let mut k: usize = 0;
        while k < sorted.len() && sorted[k].priority <= rule.priority
            invariant
                k <= sorted.len(),
                forall|j: int| 0 <= j < k ==> (#[trigger] sorted@[j]).priority <= rule.priority,
            decreases sorted.len() - k,
        {
            k = k + 1;
        }
        proof {
            lemma_insert_at(sorted@, rule, k as int);
            assert(rules@.take(i + 1).drop_last() =~= rules@.take(i as int));
        }
        sorted.insert(k, rule);
    }
    assert(rules@.take(rules@.len() as int) =~= rules@);
    sorted
}

/// The action that the first applicable rule gives an episode at a moment.
pub open spec fn first_verdict(
    rules: Seq<AnyRule>,
    ep: Episode,
    feed: Feed,
    now: UtcTime,
) -> Option<Action>
    decreases rules.len(),
{
    if rules.len() == 0 {
        None
    } else {
        match rules[0].verdict(ep, feed, now) {
            Some(a) => Some(a),
            None => first_verdict(rules.drop_first(), ep, feed, now),
        }
    }
}

/// Whether rules do one by one what their configurations say.
pub open spec fn all_do(rules: Seq<AnyRule>, cfgs: Seq<RuleConfig>) -> bool {
    &&& rules.len() == cfgs.len()
    &&& forall|i: int| 0 <= i < rules.len() ==> does(#[trigger] rules[i], cfgs[i])
}

/// Whether dynamic rules do one by one what their configurations say.
pub open spec fn all_do_dynamic(rules: Seq<AnyRule>, cfgs: Seq<DynamicRuleConfig>) -> bool {
    &&& rules.len() == cfgs.len()
    &&& forall|i: int| 0 <= i < rules.len() ==> does_dynamic(#[trigger] rules[i], cfgs[i])
}

proof fn lemma_first_verdict(
    rules: Seq<AnyRule>,
    cfgs: Seq<RuleConfig>,
    ep: Episode,
    feed: Feed,
    now: UtcTime,
)
    requires
        all_do(rules, cfgs),
    ensures
        first_verdict(rules, ep, feed, now) == static_verdict(cfgs, ep),
    decreases rules.len(),
{
    if rules.len() > 0 {
        assert(does(rules[0], cfgs[0]));
        assert forall|i: int| 0 <= i < rules.drop_first().len() implies does(
            #[trigger] rules.drop_first()[i],
            cfgs.drop_first()[i],
        ) by {
            assert(does(rules[i + 1], cfgs[i + 1]));
        }
        lemma_first_verdict(rules.drop_first(), cfgs.drop_first(), ep, feed, now);
    }
}

proof fn lemma_first_dynamic(
    rules: Seq<AnyRule>,
    cfgs: Seq<DynamicRuleConfig>,
    ep: Episode,
    feed: Feed,
    now: UtcTime,
)
    requires
        all_do_dynamic(rules, cfgs),
    ensures
        first_verdict(rules, ep, feed, now) is Some <==> in_window(cfgs, ep, now),
    decreases rules.len(),
{
    if rules.len() > 0 {
        assert(does_dynamic(rules[0], cfgs[0]));
        let rest = rules.drop_first();
        let cfg_rest = cfgs.drop_first();
        assert forall|i: int| 0 <= i < rest.len() implies does_dynamic(
            #[trigger] rest[i],
            cfg_rest[i],
        ) by {
            assert(does_dynamic(rules[i + 1], cfgs[i + 1]));
        }
        lemma_first_dynamic(rest, cfg_rest, ep, feed, now);
        assert(rules[0].verdict(ep, feed, now) is Some <==> dynamic_applies(
            cfgs[0].match_,
            ep,
            now,
        ));
        if in_window(cfg_rest, ep, now) {
            let i = choose|i: int|
                0 <= i < cfg_rest.len() && #[trigger] dynamic_applies(cfg_rest[i].match_, ep, now);
            assert(dynamic_applies(cfgs[i + 1].match_, ep, now));
        }
        if in_window(cfgs, ep, now) && !dynamic_applies(cfgs[0].match_, ep, now) {
            let i = choose|i: int|
                0 <= i < cfgs.len() && #[trigger] dynamic_applies(cfgs[i].match_, ep, now);
            assert(dynamic_applies(cfg_rest[i - 1].match_, ep, now));
        }
    }
}

fn build_all(cfgs: &Vec<RuleConfig>) -> (res: Result<Vec<AnyRule>, RuleError>)
    ensures
        res is Ok <==> all_buildable(cfgs@),
        match res {
            Ok(rules) => all_do(rules@, cfgs@),
            Err(e) => is_first_error(cfgs@, e),
        },
{
    let mut rules: Vec<AnyRule> = Vec::new();
    for i in 0..cfgs.len()
        invariant
            all_do(rules@, cfgs@.take(i as int)),
            forall|j: int| 0 <= j < i ==> buildable(#[trigger] cfgs@[j]),
    {
        match build_rule(&cfgs[i]) {
            Ok(rule) => {
                let ghost before = rules@;
                rules.push(rule);
                assert forall|j: int| 0 <= j < rules@.len() implies does(
                    #[trigger] rules@[j],
                    cfgs@.take(i + 1)[j],
                ) by {
                    if j < i {
                        assert(does(before[j], cfgs@.take(i as int)[j]));
                    }
                }
            },
            Err(e) => {
                assert(is_error_of(cfgs@[i as int], e));
                return Err(e);
            },
        }
    }
    assert(cfgs@.take(cfgs@.len() as int) =~= cfgs@);
    Ok(rules)
}

fn build_all_dynamic(cfgs: &[DynamicRuleConfig]) -> (res: Vec<AnyRule>)
    ensures
        all_do_dynamic(res@, cfgs@),
{
    let mut rules: Vec<AnyRule> = Vec::new();
    for i in 0..cfgs.len()
        invariant
            all_do_dynamic(rules@, cfgs@.take(i as int)),
    {
        let ghost before = rules@;
        let rule = build_dyn_rule(&cfgs[i]);
        rules.push(rule);
        assert forall|j: int| 0 <= j < rules@.len() implies does_dynamic(
            #[trigger] rules@[j],
            cfgs@.take(i + 1)[j],
        ) by {
            if j < i {
                assert(does_dynamic(before[j], cfgs@.take(i as int)[j]));
            }
        }
    }
    assert(cfgs@.take(cfgs@.len() as int) =~= cfgs@);
    rules
}

fn first_match(rules: &Vec<AnyRule>, ep: &Episode, feed: &Feed, now: &UtcTime) -> (res: Option<
    Action,
>)
    ensures
        res == first_verdict(rules@, *ep, *feed, *now),
{
    let mut i: usize = 0;
    assert(rules@.skip(0) =~= rules@);
    while i < rules.len()
        invariant
            i <= rules.len(),
            first_verdict(rules@, *ep, *feed, *now) == first_verdict(
                rules@.skip(i as int),
                *ep,
                *feed,
                *now,
            ),
        decreases rules.len() - i,
    {
        assert(rules@.skip(i as int).drop_first() =~= rules@.skip(i + 1));
        if let Some(a) = rules[i].evaluate_at(ep, feed, now) {
            return Some(a);
        }
        i = i + 1;
    }
    None
}

// ---- The engine -----------------------------------------------------------------------

/// Built rules of all feeds, ready to be tried.
pub struct RuleEngine {
    /// The feeds' own rules, in the order in which they are tried.
    per_feed: HashMap<i64, Vec<AnyRule>>,
    dyn_per_feed: HashMap<i64, Vec<AnyRule>>,
    /// Rules for all feeds, tried after the feed's own.
    global: Vec<AnyRule>,
    /// Dynamic rules for all feeds.
    dynamic: Vec<AnyRule>,
    /// The action where no rule applies.
    default: Action,
}

spec fn rules_at(m: Map<i64, Vec<AnyRule>>, id: FeedId) -> Seq<AnyRule> {
    if m.contains_key(id.0) {
        m[id.0]@
    } else {
        Seq::empty()
    }
}

impl RuleEngine {
    /// The action that the engine gives an episode at a moment.
    pub closed spec fn action_at(&self, ep: Episode, feed: Feed, now: UtcTime) -> Action {
        let in_window = first_verdict(rules_at(self.dyn_per_feed@, feed.id), ep, feed, now) is Some
            || first_verdict(self.dynamic@, ep, feed, now) is Some;
        let verdict = match first_verdict(rules_at(self.per_feed@, feed.id), ep, feed, now) {
            Some(a) => Some(a),
            None => first_verdict(self.global@, ep, feed, now),
        };
        combine(in_window, verdict, self.default)
    }

    /// Builds the engine from a configuration.
    ///
    /// `per_feed` pairs a feed with its rules and `dyn_feed` with its dynamic rules; of two
    /// entries for one feed the last counts. It fails on the first pattern that does not
    /// compile, taken feed by feed, in the order in which the rules are tried.
    pub fn build(
        per_feed: &[(FeedId, &[RuleConfig])],
        dyn_feed: &[(FeedId, &[DynamicRuleConfig])],
        global: &[RuleConfig],
        dyn_global: &[DynamicRuleConfig],
        default: Action,
    ) -> (res: Result<RuleEngine, RuleError>)
        ensures
            res is Ok <==> feeds_buildable(per_feed@) && all_buildable(by_priority(global@)),
            match res {
                Ok(engine) => forall|ep: Episode, feed: Feed, now: UtcTime|
                    #![trigger engine.action_at(ep, feed, now)]
                    engine.action_at(ep, feed, now) == decision(
                        rules_of(per_feed@, feed.id),
                        dynamic_of(dyn_feed@, feed.id),
                        global@,
                        dyn_global@,
                        default,
                        ep,
                        now,
                    ),
                Err(e) => is_first_feed_error(per_feed@, e) || (feeds_buildable(per_feed@)
                    && is_first_error(by_priority(global@), e)),
            },
    {
        let mut per_feed_built: HashMap<i64, Vec<AnyRule>> = HashMap::new();
        for i in 0..per_feed.len()
            invariant
                feeds_buildable(per_feed@.take(i as int)),
                forall|id: FeedId|
                    all_do(
                        #[trigger] rules_at(per_feed_built@, id),
                        by_priority(rules_of(per_feed@.take(i as int), id)),
                    ),
        {
            let entry = &per_feed[i];
            let sorted = sort_rules(entry.1);
            match build_all(&sorted) {
                Ok(rules) => {
                    let ghost before = per_feed_built@;
                    let ghost built = rules@;
                    per_feed_built.insert(entry.0.0, rules);
                    proof {
                        let part = per_feed@.take(i + 1);
                        assert(part.drop_last() =~= per_feed@.take(i as int));
                        assert forall|id: FeedId| all_do(
                            #[trigger] rules_at(per_feed_built@, id),
                            by_priority(rules_of(part, id)),
                        ) by {
                            if id == entry.0 {
                                assert(rules_at(per_feed_built@, id) == built);
                            } else {
                                assert(id.0 != entry.0.0);
                                assert(rules_at(per_feed_built@, id) == rules_at(before, id));
                            }
                        }
                        assert forall|j: int| 0 <= j < part.len() implies all_buildable(
                            by_priority(#[trigger] part[j].1@),
                        ) by {
                            if j < i {
                                assert(part[j] == per_feed@.take(i as int)[j]);
                            }
                        }
                    }
                },
                Err(e) => {
                    proof {
                        assert(is_first_error(by_priority(per_feed@[i as int].1@), e));
                        assert(!all_buildable(by_priority(per_feed@[i as int].1@)));
                    }
                    return Err(e);
                },
            }
        }
        proof {
            assert(per_feed@.take(per_feed@.len() as int) =~= per_feed@);
        }
        let mut dyn_built: HashMap<i64, Vec<AnyRule>> = HashMap::new();
        for i in 0..dyn_feed.len()
            invariant
                forall|id: FeedId|
                    all_do_dynamic(
                        #[trigger] rules_at(dyn_built@, id),
                        dynamic_of(dyn_feed@.take(i as int), id),
                    ),
        {
            let entry = &dyn_feed[i];
            let rules = build_all_dynamic(entry.1);
            let ghost before = dyn_built@;
            let ghost built = rules@;
            dyn_built.insert(entry.0.0, rules);
            proof {
                let part = dyn_feed@.take(i + 1);
                assert(part.drop_last() =~= dyn_feed@.take(i as int));
                assert forall|id: FeedId| all_do_dynamic(
                    #[trigger] rules_at(dyn_built@, id),
                    dynamic_of(part, id),
                ) by {
                    if id == entry.0 {
                        assert(rules_at(dyn_built@, id) == built);
                    } else {
                        assert(id.0 != entry.0.0);
                        assert(rules_at(dyn_built@, id) == rules_at(before, id));
                    }
                }
            }
        }
        proof {
            assert(dyn_feed@.take(dyn_feed@.len() as int) =~= dyn_feed@);
        }
        let sorted = sort_rules(global);
        let global_built = match build_all(&sorted) {
            Ok(rules) => rules,
            Err(e) => {
                return Err(e);
            },
        };
        let dynamic_built = build_all_dynamic(dyn_global);
        let engine = RuleEngine {
            per_feed: per_feed_built,
            dyn_per_feed: dyn_built,
            global: global_built,
            dynamic: dynamic_built,
            default,
        };
        proof {
            assert forall|ep: Episode, feed: Feed, now: UtcTime|
                #![trigger engine.action_at(ep, feed, now)]
                engine.action_at(ep, feed, now) == decision(
                    rules_of(per_feed@, feed.id),
                    dynamic_of(dyn_feed@, feed.id),
                    global@,
                    dyn_global@,
                    default,
                    ep,
                    now,
                ) by {
                lemma_first_verdict(
                    rules_at(engine.per_feed@, feed.id),
                    by_priority(rules_of(per_feed@, feed.id)),
                    ep,
                    feed,
                    now,
                );
                lemma_first_verdict(engine.global@, by_priority(global@), ep, feed, now);
                lemma_first_dynamic(
                    rules_at(engine.dyn_per_feed@, feed.id),
                    dynamic_of(dyn_feed@, feed.id),
                    ep,
                    feed,
                    now,
                );
                lemma_first_dynamic(engine.dynamic@, dyn_global@, ep, feed, now);
            }
        }
        Ok(engine)
    }

    /// The action for an episode at the moment `now`.
    pub fn evaluate_at(&self, episode: &Episode, feed: &Feed, now: &UtcTime) -> (res: Action)
        ensures
            res == self.action_at(*episode, *feed, *now),
    {
        let mut in_window = false;
        if let Some(rules) = self.dyn_per_feed.get(&feed.id.0) {
            in_window = first_match(rules, episode, feed, now).is_some();
        }
        if !in_window {
            in_window = first_match(&self.dynamic, episode, feed, now).is_some();
        }
        let mut verdict: Option<Action> = None;
        if let Some(rules) = self.per_feed.get(&feed.id.0) {
            verdict = first_match(rules, episode, feed, now);
        }
        if verdict.is_none() {
            verdict = first_match(&self.global, episode, feed, now);
        }
        if in_window {
            match verdict {
                Some(Action::Download) => Action::Download,
                _ => Action::Dynamic,
            }
        } else {
            match verdict {
                Some(action) => action,
                None => self.default,
            }
        }
    }

    /// The action for an episode at the present moment.
    pub fn evaluate(&self, episode: &Episode, feed: &Feed) -> (res: Action)
        ensures
            exists|now: UtcTime| res == #[trigger] self.action_at(*episode, *feed, now),
    {
        let now = UtcTime::now();
        self.evaluate_at(episode, feed, &now)
    }
}

// ---- Laws ---------------------------------------------------------------------------------

/// The index of the applicable rule that wins: of those with the lowest priority number, the
/// one that was written first.
pub open spec fn winner(rules: Seq<RuleConfig>, ep: Episode) -> Option<int>
    decreases rules.len(),
{
    if rules.len() == 0 {
        None
    } else {
        let earlier = winner(rules.drop_last(), ep);
        if kind_applies(rules.last().match_, ep) && (earlier is None || rules.last().priority
            < rules[earlier->0].priority) {
            Some(rules.len() - 1)
        } else {
            earlier
        }
    }
}

spec fn sorted_rules(rules: Seq<RuleConfig>) -> bool {
    forall|i: int, j: int|
        0 <= i <= j < rules.len() ==> (#[trigger] rules[i]).priority <= (
        #[trigger] rules[j]).priority
}

spec fn first_applicable(rules: Seq<RuleConfig>, ep: Episode) -> Option<RuleConfig>
    decreases rules.len(),
{
    if rules.len() == 0 {
        None
    } else if kind_applies(rules[0].match_, ep) {
        Some(rules[0])
    } else {
        first_applicable(rules.drop_first(), ep)
    }
}

proof fn lemma_first_applicable(rules: Seq<RuleConfig>, ep: Episode)
    ensures
        static_verdict(rules, ep) == match first_applicable(rules, ep) {
            Some(r) => Some(r.action),
            None => None,
        },
        first_applicable(rules, ep) is Some ==> exists|i: int|
            0 <= i < rules.len() && #[trigger] rules[i] == first_applicable(rules, ep)->0,
    decreases rules.len(),
{
    if rules.len() > 0 {
        if !kind_applies(rules[0].match_, ep) {
            lemma_first_applicable(rules.drop_first(), ep);
            if first_applicable(rules.drop_first(), ep) is Some {
                let i = choose|i: int|
                    0 <= i < rules.drop_first().len() && #[trigger] rules.drop_first()[i]
                        == first_applicable(rules.drop_first(), ep)->0;
                assert(rules[i + 1] == first_applicable(rules, ep)->0);
            }
        } else {
            assert(rules[0] == first_applicable(rules, ep)->0);
        }
    }
}

proof fn lemma_insert_first(sorted: Seq<RuleConfig>, rule: RuleConfig, ep: Episode)
    requires
        sorted_rules(sorted),
    ensures
        sorted_rules(insert_by_priority(sorted, rule)),
        forall|i: int|
            0 <= i < insert_by_priority(sorted, rule).len() ==> (#[trigger] insert_by_priority(
                sorted,
                rule,
            )[i]).priority >= if sorted.len() > 0 && sorted[0].priority <= rule.priority {
                sorted[0].priority
            } else {
                rule.priority
            },
        first_applicable(insert_by_priority(sorted, rule), ep) == {
            let first = first_applicable(sorted, ep);
            if kind_applies(rule.match_, ep) && (first is None || rule.priority
                < first->0.priority) {
                Some(rule)
            } else {
                first
            }
        },
    decreases sorted.len(),
{
    let all = insert_by_priority(sorted, rule);
    lemma_first_applicable(sorted, ep);
    if sorted.len() == 0 || rule.priority < sorted[0].priority {
        assert(all.drop_first() =~= sorted);
        assert(all[0] == rule);
        assert forall|i: int, j: int| 0 <= i <= j < all.len() implies (#[trigger] all[i]).priority
            <= (#[trigger] all[j]).priority by {
            if i > 0 {
                assert(all[i] == sorted[i - 1]);
            }
            if j > 0 {
                assert(all[j] == sorted[j - 1]);
            }
        }
    } else {
        let rest = sorted.drop_first();
        assert(sorted_rules(rest)) by {
            assert forall|i: int, j: int| 0 <= i <= j < rest.len() implies (
            #[trigger] rest[i]).priority <= (#[trigger] rest[j]).priority by {
                assert(rest[i] == sorted[i + 1]);
                assert(rest[j] == sorted[j + 1]);
            }
        }
        lemma_insert_first(rest, rule, ep);
        lemma_first_applicable(rest, ep);
        let tail = insert_by_priority(rest, rule);
        assert(all.drop_first() =~= tail);
        assert(all[0] == sorted[0]);
        if rest.len() > 0 {
            assert(rest[0] == sorted[1]);
        }
        assert forall|i: int| 0 <= i < tail.len() implies (#[trigger] tail[i]).priority
            >= sorted[0].priority by {}
        assert forall|i: int, j: int| 0 <= i <= j < all.len() implies (#[trigger] all[i]).priority
            <= (#[trigger] all[j]).priority by {
            if i > 0 {
                assert(all[i] == tail[i - 1]);
            }
            if j > 0 {
                assert(all[j] == tail[j - 1]);
            }
        }
    }
}

proof fn lemma_winner(rules: Seq<RuleConfig>, ep: Episode)
    ensures
        sorted_rules(by_priority(rules)),
        winner(rules, ep) is Some ==> 0 <= winner(rules, ep)->0 < rules.len(),
        first_applicable(by_priority(rules), ep) == match winner(rules, ep) {
            Some(i) => Some(rules[i]),
            None => None,
        },
    decreases rules.len(),
{
    if rules.len() > 0 {
        lemma_winner(rules.drop_last(), ep);
        lemma_insert_first(by_priority(rules.drop_last()), rules.last(), ep);
    }
}

proof fn lemma_winner_is_least(rules: Seq<RuleConfig>, ep: Episode)
    ensures
        winner(rules, ep) is None ==> forall|j: int|
            0 <= j < rules.len() ==> !kind_applies((#[trigger] rules[j]).match_, ep),
        winner(rules, ep) matches Some(i) ==> {
            &&& 0 <= i < rules.len()
            &&& kind_applies(rules[i].match_, ep)
            &&& forall|j: int|
                0 <= j < rules.len() && kind_applies((#[trigger] rules[j]).match_, ep) ==> (
                rules[i].priority < rules[j].priority || (rules[i].priority == rules[j].priority
                    && i <= j))
        },
    decreases rules.len(),
{
    if rules.len() > 0 {
        let rest = rules.drop_last();
        lemma_winner_is_least(rest, ep);
        assert forall|j: int| 0 <= j < rest.len() implies rest[j] == #[trigger] rules[j] by {}
    }
}

/// Of the rules of one list, the first that applies decides: the one with the lowest priority
/// number, and of several with that number the one written first. Where none applies, the list
/// decides nothing.
pub proof fn law_lowest_priority_wins(rules: Seq<RuleConfig>, ep: Episode)
    ensures
        static_verdict(by_priority(rules), ep) == match winner(rules, ep) {
            Some(i) => Some(rules[i].action),
            None => None,
        },
        winner(rules, ep) is None ==> forall|j: int|
            0 <= j < rules.len() ==> !kind_applies((#[trigger] rules[j]).match_, ep),
        winner(rules, ep) matches Some(i) ==> {
            &&& 0 <= i < rules.len()
            &&& kind_applies(rules[i].match_, ep)
            &&& forall|j: int|
                0 <= j < rules.len() && kind_applies((#[trigger] rules[j]).match_, ep) ==> (
                rules[i].priority < rules[j].priority || (rules[i].priority == rules[j].priority
                    && i <= j))
        },
{
    lemma_winner(rules, ep);
    lemma_winner_is_least(rules, ep);
    lemma_first_applicable(by_priority(rules), ep);
}

/// Where one of a feed's own rules applies, the global rules have no say.
pub proof fn law_feed_rules_before_global(
    feed_rules: Seq<RuleConfig>,
    feed_dynamic: Seq<DynamicRuleConfig>,
    global: Seq<RuleConfig>,
    other_global: Seq<RuleConfig>,
    global_dynamic: Seq<DynamicRuleConfig>,
    default: Action,
    ep: Episode,
    now: UtcTime,
)
    requires
        exists|i: int|
            0 <= i < feed_rules.len() && kind_applies((#[trigger] feed_rules[i]).match_, ep),
    ensures
        decision(feed_rules, feed_dynamic, global, global_dynamic, default, ep, now) == decision(
            feed_rules,
            feed_dynamic,
            other_global,
            global_dynamic,
            default,
            ep,
            now,
        ),
{
    law_lowest_priority_wins(feed_rules, ep);
}

/// Where no rule applies at all, the default does.
pub proof fn law_default_without_rules(
    feed_rules: Seq<RuleConfig>,
    feed_dynamic: Seq<DynamicRuleConfig>,
    global: Seq<RuleConfig>,
    global_dynamic: Seq<DynamicRuleConfig>,
    default: Action,
    ep: Episode,
    now: UtcTime,
)
    requires
        forall|i: int|
            0 <= i < feed_rules.len() ==> !kind_applies((#[trigger] feed_rules[i]).match_, ep),
        forall|i: int| 0 <= i < global.len() ==> !kind_applies((#[trigger] global[i]).match_, ep),
        !in_window(feed_dynamic, ep, now),
        !in_window(global_dynamic, ep, now),
    ensures
        decision(feed_rules, feed_dynamic, global, global_dynamic, default, ep, now) == default,
{
    law_lowest_priority_wins(feed_rules, ep);
    law_lowest_priority_wins(global, ep);
}

/// An episode in the window of a dynamic rule is kept, either dynamically or, where a rule
/// says to download it, for good.
pub proof fn law_window_keeps_episode(
    feed_rules: Seq<RuleConfig>,
    feed_dynamic: Seq<DynamicRuleConfig>,
    global: Seq<RuleConfig>,
    global_dynamic: Seq<DynamicRuleConfig>,
    default: Action,
    ep: Episode,
    now: UtcTime,
)
    requires
        in_window(feed_dynamic, ep, now) || in_window(global_dynamic, ep, now),
    ensures
        decision(feed_rules, feed_dynamic, global, global_dynamic, default, ep, now) == if static_decision(
            feed_rules,
            global,
            ep,
        ) == Some(Action::Download) {
            Action::Download
        } else {
            Action::Dynamic
        },
{
}

/// Rules that pass validation can be built, whatever their order.
pub proof fn law_valid_rules_build(rules: Seq<RuleConfig>)
    ensures
        config::rule_errors(rules).len() == 0 <==> all_buildable(rules),
        all_buildable(rules) <==> all_buildable(by_priority(rules)),
    decreases rules.len(),
{
    if rules.len() > 0 {
        law_valid_rules_build(rules.drop_last());
        let rest = rules.drop_last();
        lemma_insert_buildable(by_priority(rest), rules.last());
        if all_buildable(rules) {
            assert forall|i: int| 0 <= i < rest.len() implies buildable(#[trigger] rest[i]) by {
                assert(rest[i] == rules[i]);
            }
            assert(buildable(rules[rules.len() - 1]));
        }
        if all_buildable(rest) && buildable(rules.last()) {
            assert forall|i: int| 0 <= i < rules.len() implies buildable(#[trigger] rules[i]) by {
                if i < rest.len() {
                    assert(rest[i] == rules[i]);
                }
            }
        }
    }
}

/// Sorting rules adds none.
pub proof fn lemma_sorted_rule_is_there(rules: Seq<RuleConfig>, rule: RuleConfig)
    requires
        by_priority(rules).contains(rule),
    ensures
        rules.contains(rule),
    decreases rules.len(),
{
    if rules.len() > 0 {
        let rest = rules.drop_last();
        lemma_inserted_rule(by_priority(rest), rules.last(), rule);
        if rule == rules.last() {
            assert(rules[rules.len() - 1] == rule);
        } else {
            lemma_sorted_rule_is_there(rest, rule);
            let i = choose|i: int| 0 <= i < rest.len() && rest[i] == rule;
            assert(rules[i] == rule);
        }
    }
}

proof fn lemma_inserted_rule(sorted: Seq<RuleConfig>, new: RuleConfig, rule: RuleConfig)
    requires
        insert_by_priority(sorted, new).contains(rule),
    ensures
        rule == new || sorted.contains(rule),
    decreases sorted.len(),
{
    let all = insert_by_priority(sorted, new);
    let i = choose|i: int| 0 <= i < all.len() && all[i] == rule;
    if sorted.len() == 0 || new.priority < sorted[0].priority {
        if i > 0 {
            assert(sorted[i - 1] == rule);
        }
    } else {
        let rest = sorted.drop_first();
        if i == 0 {
            assert(sorted[0] == rule);
        } else {
            assert(insert_by_priority(rest, new)[i - 1] == rule);
            lemma_inserted_rule(rest, new, rule);
            if rest.contains(rule) {
                let k = choose|k: int| 0 <= k < rest.len() && rest[k] == rule;
                assert(sorted[k + 1] == rule);
            }
        }
    }
}

proof fn lemma_insert_buildable(sorted: Seq<RuleConfig>, rule: RuleConfig)
    ensures
        all_buildable(insert_by_priority(sorted, rule)) <==> all_buildable(sorted) && buildable(
            rule,
        ),
    decreases sorted.len(),
{
    let all = insert_by_priority(sorted, rule);
    if sorted.len() == 0 || rule.priority < sorted[0].priority {
        assert(all =~= seq![rule] + sorted);
        if all_buildable(all) {
            assert(buildable(all[0]));
            assert forall|i: int| 0 <= i < sorted.len() implies buildable(#[trigger] sorted[i]) by {
                assert(all[i + 1] == sorted[i]);
            }
        }
    } else {
        let rest = sorted.drop_first();
        lemma_insert_buildable(rest, rule);
        let tail = insert_by_priority(rest, rule);
        assert(all =~= seq![sorted[0]] + tail);
        if all_buildable(all) {
            assert(buildable(all[0]));
            assert forall|i: int| 0 <= i < tail.len() implies buildable(#[trigger] tail[i]) by {
                assert(all[i + 1] == tail[i]);
            }
            assert forall|i: int| 0 <= i < sorted.len() implies buildable(#[trigger] sorted[i]) by {
                if i > 0 {
                    assert(rest[i - 1] == sorted[i]);
                }
            }
        }
        if all_buildable(sorted) {
            assert(buildable(sorted[0]));
            assert forall|i: int| 0 <= i < rest.len() implies buildable(#[trigger] rest[i]) by {
                assert(rest[i] == sorted[i + 1]);
            }
        }
    }
}

/// Outside every window the decision is the action of the one of the feed's own rules that
/// applies and has the lowest priority number, the first written of equal ones. Only where no
/// rule of its own applies, however many it has, it is that of the global rule chosen in the
/// same way, and only where no rule applies at all the default.
pub proof fn law_decision_outside_windows(
    feed_rules: Seq<RuleConfig>,
    feed_dynamic: Seq<DynamicRuleConfig>,
    global: Seq<RuleConfig>,
    global_dynamic: Seq<DynamicRuleConfig>,
    default: Action,
    ep: Episode,
    now: UtcTime,
)
    requires
        forall|i: int|
            0 <= i < feed_dynamic.len() ==> !dynamic_applies(
                (#[trigger] feed_dynamic[i]).match_,
                ep,
                now,
            ),
        forall|i: int|
            0 <= i < global_dynamic.len() ==> !dynamic_applies(
                (#[trigger] global_dynamic[i]).match_,
                ep,
                now,
            ),
    ensures
        forall|i: int|
            0 <= i < feed_rules.len() && kind_applies((#[trigger] feed_rules[i]).match_, ep) && (
            forall|j: int|
                0 <= j < feed_rules.len() && kind_applies((#[trigger] feed_rules[j]).match_, ep)
                    ==> feed_rules[i].priority < feed_rules[j].priority || (feed_rules[i].priority
                    == feed_rules[j].priority && i <= j)) ==> decision(
                feed_rules,
                feed_dynamic,
                global,
                global_dynamic,
                default,
                ep,
                now,
            ) == feed_rules[i].action,
        (forall|i: int|
            0 <= i < feed_rules.len() ==> !kind_applies((#[trigger] feed_rules[i]).match_, ep)) ==> {
            &&& forall|i: int|
                0 <= i < global.len() && kind_applies((#[trigger] global[i]).match_, ep) && (forall|
                    j: int,
                |
                    0 <= j < global.len() && kind_applies((#[trigger] global[j]).match_, ep)
                        ==> global[i].priority < global[j].priority || (global[i].priority
                        == global[j].priority && i <= j)) ==> decision(
                    feed_rules,
                    feed_dynamic,
                    global,
                    global_dynamic,
                    default,
                    ep,
                    now,
                ) == global[i].action
            &&& (forall|i: int|
                0 <= i < global.len() ==> !kind_applies((#[trigger] global[i]).match_, ep))
                ==> decision(
                feed_rules,
                feed_dynamic,
                global,
                global_dynamic,
                default,
                ep,
                now,
            ) == default
        },
{
    law_lowest_priority_wins(feed_rules, ep);
    law_lowest_priority_wins(global, ep);
    assert(!in_window(feed_dynamic, ep, now));
    assert(!in_window(global_dynamic, ep, now));
}

/// An episode in the window of a dynamic rule, be it one of the feed or a global one, is
/// downloaded for good where the rule that decides outside the windows says so, and kept
/// dynamically where that rule says anything else or no rule applies, whatever the default is.
pub proof fn law_decision_in_a_window(
    feed_rules: Seq<RuleConfig>,
    feed_dynamic: Seq<DynamicRuleConfig>,
    global: Seq<RuleConfig>,
    global_dynamic: Seq<DynamicRuleConfig>,
    default: Action,
    ep: Episode,
    now: UtcTime,
    w: int,
)
    requires
        (0 <= w < feed_dynamic.len() && dynamic_applies(feed_dynamic[w].match_, ep, now)) || (0 <= w
            < global_dynamic.len() && dynamic_applies(global_dynamic[w].match_, ep, now)),
    ensures
        ({
            let kept = decision(
                feed_rules,
                feed_dynamic,
                global,
                global_dynamic,
                default,
                ep,
                now,
            );
            let outside = decision(
                feed_rules,
                Seq::empty(),
                global,
                Seq::empty(),
                Action::Dynamic,
                ep,
                now,
            );
            kept == if outside == Action::Download {
                Action::Download
            } else {
                Action::Dynamic
            }
        }),
{
    assert(in_window(feed_dynamic, ep, now) || in_window(global_dynamic, ep, now));
    assert(!in_window(Seq::empty(), ep, now));
}

/// When a rule applies: each kind looks at one thing that is known of the episode, and one that
/// is not known never matches. The bounds of a duration and of a size are themselves allowed,
/// those of a date are not.
pub proof fn law_when_a_rule_applies(ep: Episode, kind: RuleKind)
    ensures
        kind is Always ==> kind_applies(kind, ep),
        kind matches RuleKind::TitleRegex { pattern } ==> match pattern::regex_compile(pattern@) {
            Ok(language) => kind_applies(kind, ep) == language.contains(ep.title@),
            Err(_) => !kind_applies(kind, ep),
        },
        kind matches RuleKind::DescriptionRegex { pattern } ==> match (
            pattern::regex_compile(pattern@),
            ep.description,
        ) {
            (Ok(language), Some(d)) => kind_applies(kind, ep) == language.contains(d@),
            _ => !kind_applies(kind, ep),
        },
        kind matches RuleKind::DurationMin { value } ==> match ep.duration_secs {
            Some(secs) => value.subsec() < 1_000_000_000 ==> kind_applies(kind, ep) == (
            value.whole_secs() < secs || (value.whole_secs() == secs && value.subsec() == 0)),
            None => !kind_applies(kind, ep),
        },
        kind matches RuleKind::DurationMax { value } ==> match ep.duration_secs {
            Some(secs) => value.subsec() < 1_000_000_000 ==> kind_applies(kind, ep) == (secs
                <= value.whole_secs()),
            None => !kind_applies(kind, ep),
        },
        kind matches RuleKind::PublishedAfter { date } ==> kind_applies(kind, ep) == (
        ep.pub_date.epoch_secs() > date.epoch_secs() || (ep.pub_date.epoch_secs()
            == date.epoch_secs() && ep.pub_date.subsec() > date.subsec())),
        kind matches RuleKind::PublishedBefore { date } ==> kind_applies(kind, ep) == (
        ep.pub_date.epoch_secs() < date.epoch_secs() || (ep.pub_date.epoch_secs()
            == date.epoch_secs() && ep.pub_date.subsec() < date.subsec())),
        kind matches RuleKind::EpisodeSizeMax { value } ==> match ep.enclosure_size {
            Some(size) => kind_applies(kind, ep) == (size <= value),
            None => !kind_applies(kind, ep),
        },
{
}

/// When an episode lies in the window of a dynamic rule: with the last `n` episodes exactly at
/// the positions 0 to `n - 1`, and with a time exactly while less than that has passed since it
/// was published.
pub proof fn law_when_a_window_holds_an_episode(ep: Episode, now: UtcTime, kind: DynamicRuleKind)
    ensures
        kind matches DynamicRuleKind::LastNEpisodes { last_n_episodes } ==> dynamic_applies(
            kind,
            ep,
            now,
        ) == (ep.episode_no < last_n_episodes),
        kind matches DynamicRuleKind::DurationAgo { duration } ==> (now.subsec() < 1_000_000_000
            && ep.pub_date.subsec() < 1_000_000_000 ==> dynamic_applies(kind, ep, now) == (
        now.epoch_secs() * 1_000_000_000 + now.subsec() < ep.pub_date.epoch_secs() * 1_000_000_000
            + ep.pub_date.subsec() + duration.total_nanos())),
{
}

/// A feed's own rules are those of the last entry for it.
pub proof fn law_last_entry_of_a_feed_counts(
    rules: Seq<(FeedId, &[RuleConfig])>,
    dynamic: Seq<(FeedId, &[DynamicRuleConfig])>,
    id: FeedId,
    i: int,
)
    ensures
        0 <= i < rules.len() && rules[i].0 == id && (forall|j: int|
            i < j < rules.len() ==> (#[trigger] rules[j]).0 != id) ==> rules_of(rules, id)
            == rules[i].1@,
        0 <= i < dynamic.len() && dynamic[i].0 == id && (forall|j: int|
            i < j < dynamic.len() ==> (#[trigger] dynamic[j]).0 != id) ==> dynamic_of(dynamic, id)
            == dynamic[i].1@,
    decreases rules.len() + dynamic.len(),
{
    if 0 <= i < rules.len() - 1 {
        assert(rules.last() == rules[rules.len() - 1]);
        law_last_entry_of_a_feed_counts(rules.drop_last(), dynamic, id, i);
    } else if 0 <= i < dynamic.len() - 1 {
        assert(dynamic.last() == dynamic[dynamic.len() - 1]);
        law_last_entry_of_a_feed_counts(rules, dynamic.drop_last(), id, i);
    }
}

/// A feed without an entry has no rules of its own.
pub proof fn law_feed_without_entry_has_no_rules(
    rules: Seq<(FeedId, &[RuleConfig])>,
    dynamic: Seq<(FeedId, &[DynamicRuleConfig])>,
    id: FeedId,
)
    ensures
        (forall|j: int| 0 <= j < rules.len() ==> (#[trigger] rules[j]).0 != id) ==> rules_of(
            rules,
            id,
        ).len() == 0,
        (forall|j: int| 0 <= j < dynamic.len() ==> (#[trigger] dynamic[j]).0 != id) ==> dynamic_of(
            dynamic,
            id,
        ).len() == 0,
    decreases rules.len() + dynamic.len(),
{
    if rules.len() > 0 {
        assert(rules.last() == rules[rules.len() - 1]);
        law_feed_without_entry_has_no_rules(rules.drop_last(), dynamic, id);
    } else if dynamic.len() > 0 {
        assert(dynamic.last() == dynamic[dynamic.len() - 1]);
        law_feed_without_entry_has_no_rules(rules, dynamic.drop_last(), id);
    }
}

/// An engine is built exactly where every pattern of every rule compiles.
pub proof fn law_engine_built_where_patterns_compile(
    list: Seq<(FeedId, &[RuleConfig])>,
    rules: Seq<RuleConfig>,
)
    ensures
        all_buildable(by_priority(rules)) <==> forall|i: int|
            0 <= i < rules.len() ==> match (#[trigger] rules[i]).match_ {
                RuleKind::TitleRegex { pattern } => pattern::regex_compile(pattern@) is Ok,
                RuleKind::DescriptionRegex { pattern } => pattern::regex_compile(pattern@) is Ok,
                _ => true,
            },
        feeds_buildable(list) <==> forall|f: int, i: int|
            0 <= f < list.len() && 0 <= i < list[f].1@.len() ==> match (
            #[trigger] list[f].1@[i]).match_ {
                RuleKind::TitleRegex { pattern } => pattern::regex_compile(pattern@) is Ok,
                RuleKind::DescriptionRegex { pattern } => pattern::regex_compile(pattern@) is Ok,
                _ => true,
            },
{
    law_valid_rules_build(rules);
    assert forall|r: RuleConfig| #[trigger] buildable(r) <==> match r.match_ {
        RuleKind::TitleRegex { pattern } => pattern::regex_compile(pattern@) is Ok,
        RuleKind::DescriptionRegex { pattern } => pattern::regex_compile(pattern@) is Ok,
        _ => true,
    } by {}
    assert forall|f: int| 0 <= f < list.len() implies all_buildable(
        by_priority(#[trigger] list[f].1@),
    ) == all_buildable(list[f].1@) by {
        law_valid_rules_build(list[f].1@);
    }
    if feeds_buildable(list) {
        assert forall|f: int, i: int|
            0 <= f < list.len() && 0 <= i < list[f].1@.len() implies match (
        #[trigger] list[f].1@[i]).match_ {
            RuleKind::TitleRegex { pattern } => pattern::regex_compile(pattern@) is Ok,
            RuleKind::DescriptionRegex { pattern } => pattern::regex_compile(pattern@) is Ok,
            _ => true,
        } by {
            assert(all_buildable(list[f].1@));
            assert(buildable(list[f].1@[i]));
        }
    } else {
        let f = choose|f: int|
            0 <= f < list.len() && !all_buildable(by_priority(#[trigger] list[f].1@));
        let i = choose|i: int| 0 <= i < list[f].1@.len() && !buildable(#[trigger] list[f].1@[i]);
        assert(!buildable(list[f].1@[i]));
    }
}

/// Sorting rules loses none.
proof fn lemma_rule_stays_there(rules: Seq<RuleConfig>, i: int) -> (k: int)
    requires
        0 <= i < rules.len(),
    ensures
        0 <= k < by_priority(rules).len(),
        by_priority(rules)[k] == rules[i],
    decreases rules.len(),
{
    let rest = rules.drop_last();
    let sorted = by_priority(rest);
    if i == rules.len() - 1 {
        lemma_inserted_is_there(sorted, rules.last(), -1)
    } else {
        let k = lemma_rule_stays_there(rest, i);
        lemma_inserted_is_there(sorted, rules.last(), k)
    }
}

/// The place of the inserted rule, or of the one that was at `k` before.
proof fn lemma_inserted_is_there(sorted: Seq<RuleConfig>, rule: RuleConfig, k: int) -> (m: int)
    requires
        k < sorted.len(),
    ensures
        0 <= m < insert_by_priority(sorted, rule).len(),
        insert_by_priority(sorted, rule)[m] == if k < 0 {
            rule
        } else {
            sorted[k]
        },
    decreases sorted.len(),
{
    if sorted.len() == 0 || rule.priority < sorted[0].priority {
        if k < 0 {
            0
        } else {
            k + 1
        }
    } else if k == 0 {
        0
    } else {
        let m = lemma_inserted_is_there(
            sorted.drop_first(),
            rule,
            if k < 0 {
                k
            } else {
                k - 1
            },
        );
        m + 1
    }
}

/// The error of a list of rules is that of a rule whose pattern does not compile, with its name,
/// its pattern and the reason, and no such rule has a lower priority number.
pub proof fn law_error_is_of_the_first_bad_rule(rules: Seq<RuleConfig>, e: RuleError)
    requires
        is_first_error(by_priority(rules), e),
    ensures
        exists|k: int|
            0 <= k < rules.len() && (#[trigger] rules[k]).name@ == e->name@ && (
            match rules[k].match_ {
                RuleKind::TitleRegex { pattern } => pattern@ == e->pattern@,
                RuleKind::DescriptionRegex { pattern } => pattern@ == e->pattern@,
                _ => false,
            }) && pattern::regex_compile(e->pattern@) == Err::<
                Set<Seq<char>>,
                Seq<char>,
            >(e->source@) && forall|j: int|
                0 <= j < rules.len() && (#[trigger] rules[j]).priority < rules[k].priority
                    ==> match rules[j].match_ {
                    RuleKind::TitleRegex { pattern } => pattern::regex_compile(pattern@) is Ok,
                    RuleKind::DescriptionRegex { pattern } => pattern::regex_compile(pattern@) is Ok,
                    _ => true,
                },
{
    let sorted = by_priority(rules);
    let i = choose|i: int|
        0 <= i < sorted.len() && #[trigger] is_error_of(sorted[i], e) && forall|j: int|
            0 <= j < i ==> buildable(#[trigger] sorted[j]);
    assert(sorted.contains(sorted[i]));
    lemma_sorted_rule_is_there(rules, sorted[i]);
    let k = choose|k: int| 0 <= k < rules.len() && rules[k] == sorted[i];
    let ep = arbitrary::<Episode>();
    lemma_winner(rules, ep);
    assert forall|j: int|
        0 <= j < rules.len() && (#[trigger] rules[j]).priority < rules[k].priority implies match rules[j].match_ {
        RuleKind::TitleRegex { pattern } => pattern::regex_compile(pattern@) is Ok,
        RuleKind::DescriptionRegex { pattern } => pattern::regex_compile(pattern@) is Ok,
        _ => true,
    } by {
        let m = lemma_rule_stays_there(rules, j);
        if m >= i {
            assert(sorted[i].priority <= sorted[m].priority);
        }
        assert(buildable(sorted[m]));
    }
    assert(rules[k].name@ == e->name@);
}

/// The error of the rules of feeds is that of the first feed, in their order, one of whose
/// patterns does not compile.
pub proof fn law_error_is_of_the_first_bad_feed(
    list: Seq<(FeedId, &[RuleConfig])>,
    e: RuleError,
)
    requires
        is_first_feed_error(list, e),
    ensures
        exists|f: int|
            0 <= f < list.len() && is_first_error(by_priority(#[trigger] list[f].1@), e)
                && forall|g: int, i: int|
                0 <= g < f && 0 <= i < list[g].1@.len() ==> match (
                #[trigger] list[g].1@[i]).match_ {
                    RuleKind::TitleRegex { pattern } => pattern::regex_compile(pattern@) is Ok,
                    RuleKind::DescriptionRegex { pattern } => pattern::regex_compile(pattern@) is Ok,
                    _ => true,
                },
{
    let f = choose|f: int|
        0 <= f < list.len() && is_first_error(by_priority(#[trigger] list[f].1@), e)
            && feeds_buildable(list.take(f));
    law_engine_built_where_patterns_compile(list.take(f), Seq::empty());
    assert forall|g: int, i: int| 0 <= g < f && 0 <= i < list[g].1@.len() implies match (
    #[trigger] list[g].1@[i]).match_ {
        RuleKind::TitleRegex { pattern } => pattern::regex_compile(pattern@) is Ok,
        RuleKind::DescriptionRegex { pattern } => pattern::regex_compile(pattern@) is Ok,
        _ => true,
    } by {
        assert(list.take(f)[g].1@[i] == list[g].1@[i]);
    }
    assert(is_first_error(by_priority(list[f].1@), e));
}

} // verus!
