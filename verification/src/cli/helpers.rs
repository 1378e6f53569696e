//! What several commands need.
use crate::cli::output::Style;
use crate::config::Config;
use crate::episode::{Action, Episode, EpisodeState};
use crate::feed::Feed;
use crate::ids::FeedId;
use crate::rules::config::{DynamicRuleConfig, FeedConfig, RuleConfig, RuleKind};
use crate::rules::engine;
use crate::rules::engine::{RuleEngine, RuleError};
use crate::text;
use crate::time::UtcTime;
use crate::weburl::Url;
use vstd::prelude::*;
use vstd::string::*;

verus! {

// ---- Feeds --------------------------------------------------------------------------

/// A feed as the configuration knows it: without a number and without anything fetched.
pub open spec fn config_feed(fc: FeedConfig) -> Feed {
    Feed {
        id: FeedId(0),
        url: fc.url,
        slug: fc.slug,
        title: None,
        last_fetched_at: None,
        etag: None,
        last_modified: None,
        enabled: fc.enabled,
        image_url: None,
    }
}

/// A feed as the configuration knows it.
pub fn feed_from_config(fc: &FeedConfig) -> (res: Feed)
    ensures
        res == config_feed(*fc),
{
    Feed {
        id: FeedId(0),
        url: fc.url.clone(),
        slug: fc.slug.clone(),
        title: None,
        last_fetched_at: None,
        etag: None,
        last_modified: None,
        enabled: fc.enabled,
        image_url: None,
    }
}

/// The first feed of the configuration with a slug.
pub open spec fn config_of(feeds: Seq<FeedConfig>, slug: Seq<char>) -> Option<FeedConfig>
    decreases feeds.len(),
{
    if feeds.len() == 0 {
        None
    } else if feeds[0].slug@ == slug {
        Some(feeds[0])
    } else {
        config_of(feeds.drop_first(), slug)
    }
}

/// The index of the first feed of the configuration with the slug `slug`.
pub fn find_config(feeds: &Vec<FeedConfig>, slug: &str) -> (res: Option<usize>)
    ensures
        match res {
            Some(i) => i < feeds@.len() && config_of(feeds@, slug@) == Some(feeds@[i as int]),
            None => config_of(feeds@, slug@) is None,
        },
{
    let mut i: usize = 0;
    assert(feeds@.skip(0) =~= feeds@);
    while i < feeds.len()
        invariant
            i <= feeds@.len(),
            config_of(feeds@, slug@) == config_of(feeds@.skip(i as int), slug@),
        decreases feeds.len() - i,
    {
        assert(feeds@.skip(i as int).drop_first() =~= feeds@.skip(i + 1));
        if text::same_text(feeds[i].slug.as_str(), slug) {
            return Some(i);
        }
        i = i + 1;
    }
    None
}

/// The name that a feed is shown by: the one in its configuration, else its title, else
/// `fallback`.
pub open spec fn name_by(config: Option<FeedConfig>, feed: Feed, fallback: Seq<char>) -> Seq<char> {
    let title = match feed.title {
        Some(t) => t@,
        None => fallback,
    };
    match config {
        Some(c) => match c.display_name {
            Some(n) => n@,
            None => title,
        },
        None => title,
    }
}

/// The name that a feed is shown by, with the configuration of its slug.
pub open spec fn shown_name(feeds: Seq<FeedConfig>, feed: Feed, fallback: Seq<char>) -> Seq<char> {
    name_by(config_of(feeds, feed.slug@), feed, fallback)
}

/// The name that a feed is shown by, with the configuration of `slug`.
pub fn name_with(feeds: &Vec<FeedConfig>, slug: &str, feed: &Feed, fallback: &str) -> (res: String)
    ensures
        res@ == name_by(config_of(feeds@, slug@), *feed, fallback@),
{
    if let Some(i) = find_config(feeds, slug) {
        if let Some(n) = &feeds[i].display_name {
            return n.clone();
        }
    }
    match &feed.title {
        Some(t) => t.clone(),
        None => fallback.to_string(),
    }
}

/// The name that a feed is shown by.
pub fn display_name(feeds: &Vec<FeedConfig>, feed: &Feed, fallback: &str) -> (res: String)
    ensures
        res@ == shown_name(feeds@, *feed, fallback@),
{
    name_with(feeds, feed.slug.as_str(), feed, fallback)
}

/// Which feeds of the configuration a command works on: those that were named, or all that
/// are enabled where none was.
pub open spec fn is_chosen(feed: FeedConfig, slugs: Seq<String>) -> bool {
    if slugs.len() == 0 {
        feed.enabled
    } else {
        text::lists_text(slugs, feed.slug@)
    }
}

/// The indices of the feeds that satisfy a condition, in their order.
pub open spec fn indices_where(n: int, p: spec_fn(int) -> bool) -> Seq<usize>
    decreases n,
{
    if n <= 0 {
        Seq::empty()
    } else if p(n - 1) {
        indices_where(n - 1, p).push((n - 1) as usize)
    } else {
        indices_where(n - 1, p)
    }
}

/// The indices of the feeds that a command works on.
pub fn choose_feeds(feeds: &Vec<FeedConfig>, slugs: &Vec<String>) -> (res: Vec<usize>)
    ensures
        res@ == indices_where(feeds@.len() as int, |i: int| is_chosen(feeds@[i], slugs@)),
{
    let mut out: Vec<usize> = Vec::new();
    let ghost p = |i: int| is_chosen(feeds@[i], slugs@);
    for i in 0..feeds.len()
        invariant
            p == (|i: int| is_chosen(feeds@[i], slugs@)),
            out@ == indices_where(i as int, p),
    {
        let chosen = if slugs.len() == 0 {
            feeds[i].enabled
        } else {
            text::list_contains(slugs, feeds[i].slug.as_str())
        };
        assert(p(i as int) == chosen);
        if chosen {
            out.push(i);
        }
    }
    out
}

/// Which feeds of the configuration have their document rebuilt: those that were named, or all
/// that are restreamed where none was.
pub open spec fn is_rebuilt(feed: FeedConfig, slugs: Seq<String>) -> bool {
    if slugs.len() == 0 {
        feed.restream
    } else {
        text::lists_text(slugs, feed.slug@)
    }
}

/// The indices of the feeds whose document is rebuilt.
pub fn choose_rebuilt(feeds: &Vec<FeedConfig>, slugs: &Vec<String>) -> (res: Vec<usize>)
    ensures
        res@ == indices_where(feeds@.len() as int, |i: int| is_rebuilt(feeds@[i], slugs@)),
{
    let mut out: Vec<usize> = Vec::new();
    let ghost p = |i: int| is_rebuilt(feeds@[i], slugs@);
    for i in 0..feeds.len()
        invariant
            p == (|i: int| is_rebuilt(feeds@[i], slugs@)),
            out@ == indices_where(i as int, p),
    {
        let chosen = if slugs.len() == 0 {
            feeds[i].restream
        } else {
            text::list_contains(slugs, feeds[i].slug.as_str())
        };
        assert(p(i as int) == chosen);
        if chosen {
            out.push(i);
        }
    }
    out
}

// ---- The rule engine --------------------------------------------------------------------

/// The name of the rule that stands for a feed's catch-all.
pub open spec fn default_rule_name(slug: Seq<char>) -> Seq<char> {
    "__feed_default_"@ + slug
}

/// Whether `rules` are the rules of a feed: its own, and behind them its catch-all, where it
/// has one.
pub open spec fn are_feed_rules(fc: FeedConfig, rules: Seq<RuleConfig>) -> bool {
    match fc.default_action {
        Some(a) => {
            &&& rules.len() == fc.rules@.len() + 1
            &&& rules.drop_last() == fc.rules@
            &&& rules.last().name@ == default_rule_name(fc.slug@)
            &&& rules.last().priority == i32::MAX
            &&& rules.last().match_ is Always
            &&& rules.last().action == a
        },
        None => rules == fc.rules@,
    }
}

/// The rules of a feed with its catch-all.
pub fn feed_rules(fc: &FeedConfig) -> (res: Vec<RuleConfig>)
    ensures
        are_feed_rules(*fc, res@),
{
    let mut rules: Vec<RuleConfig> = Vec::new();
    for i in 0..fc.rules.len()
        invariant
            rules@ == fc.rules@.take(i as int),
    {
        rules.push(fc.rules[i].clone());
        assert(fc.rules@.take(i + 1) =~= fc.rules@.take(i as int).push(fc.rules@[i as int]));
    }
    assert(fc.rules@.take(fc.rules@.len() as int) =~= fc.rules@);
    if let Some(action) = fc.default_action {
        let mut name = "__feed_default_".to_string();
        name.append(fc.slug.as_str());
        rules.push(RuleConfig { name, priority: i32::MAX, match_: RuleKind::Always, action });
        assert(rules@.drop_last() =~= fc.rules@);
    }
    rules
}

/// The index of the last feed with a number.
pub open spec fn last_with_id(ids: Seq<FeedId>, id: FeedId) -> Option<int>
    decreases ids.len(),
{
    if ids.len() == 0 {
        None
    } else if ids.last() == id {
        Some(ids.len() - 1)
    } else {
        last_with_id(ids.drop_last(), id)
    }
}

proof fn lemma_rules_of(
    list: Seq<(FeedId, &[RuleConfig])>,
    dyn_list: Seq<(FeedId, &[DynamicRuleConfig])>,
    ids: Seq<FeedId>,
    id: FeedId,
)
    requires
        list.len() == ids.len(),
        dyn_list.len() == ids.len(),
        forall|i: int| 0 <= i < ids.len() ==> (#[trigger] list[i]).0 == ids[i],
        forall|i: int| 0 <= i < ids.len() ==> (#[trigger] dyn_list[i]).0 == ids[i],
    ensures
        match last_with_id(ids, id) {
            Some(k) => 0 <= k < ids.len() && engine::rules_of(list, id) == list[k].1@
                && engine::dynamic_of(dyn_list, id) == dyn_list[k].1@,
            None => engine::rules_of(list, id) == Seq::<RuleConfig>::empty() && engine::dynamic_of(
                dyn_list,
                id,
            ) == Seq::<DynamicRuleConfig>::empty(),
        },
    decreases ids.len(),
{
    if ids.len() > 0 {
        assert(list.last().0 == ids.last());
        assert(dyn_list.last().0 == ids.last());
        if ids.last() != id {
            assert forall|i: int| 0 <= i < ids.drop_last().len() implies (
            #[trigger] list.drop_last()[i]).0 == ids.drop_last()[i] by {
                assert(list[i].0 == ids[i]);
            }
            assert forall|i: int| 0 <= i < ids.drop_last().len() implies (
            #[trigger] dyn_list.drop_last()[i]).0 == ids.drop_last()[i] by {
                assert(dyn_list[i].0 == ids[i]);
            }
            lemma_rules_of(list.drop_last(), dyn_list.drop_last(), ids.drop_last(), id);
        }
    }
}

/// Whether `engine` decides by the rules of the configuration, for feeds with the numbers
/// `ids`.
pub open spec fn decides_by(cfg: Config, ids: Seq<FeedId>, engine: RuleEngine) -> bool {
    forall|ep: Episode, feed: Feed, now: UtcTime|
        #![trigger engine.action_at(ep, feed, now)]
        match last_with_id(ids, feed.id) {
            Some(k) => exists|rules: Seq<RuleConfig>|
                #![trigger are_feed_rules(cfg.feeds@[k], rules)]
                are_feed_rules(cfg.feeds@[k], rules) && engine.action_at(ep, feed, now)
                    == engine::decision(
                    rules,
                    cfg.feeds@[k].dynamic@,
                    cfg.global_rules@,
                    cfg.global_dynamics@,
                    cfg.defaults.action_on_no_match,
                    ep,
                    now,
                ),
            None => engine.action_at(ep, feed, now) == engine::decision(
                Seq::empty(),
                Seq::empty(),
                cfg.global_rules@,
                cfg.global_dynamics@,
                cfg.defaults.action_on_no_match,
                ep,
                now,
            ),
        }
}

/// Whether `e` is the error of one of the rules of a configuration.
pub open spec fn is_error_in(cfg: Config, e: RuleError) -> bool {
    ||| exists|i: int, k: int|
        #![trigger cfg.feeds@[i].rules@[k]]
        0 <= i < cfg.feeds@.len() && 0 <= k < cfg.feeds@[i].rules@.len() && engine::is_error_of(
            cfg.feeds@[i].rules@[k],
            e,
        )
    ||| exists|k: int|
        0 <= k < cfg.global_rules@.len() && engine::is_error_of(
            #[trigger] cfg.global_rules@[k],
            e,
        )
}

proof fn lemma_first_error_is_there(rules: Seq<RuleConfig>, e: RuleError) -> (k: int)
    requires
        engine::is_first_error(engine::by_priority(rules), e),
    ensures
        0 <= k < rules.len(),
        engine::is_error_of(rules[k], e),
{
    let sorted = engine::by_priority(rules);
    let i = choose|i: int| 0 <= i < sorted.len() && #[trigger] engine::is_error_of(sorted[i], e);
    assert(sorted.contains(sorted[i]));
    engine::lemma_sorted_rule_is_there(rules, sorted[i]);
    choose|k: int| 0 <= k < rules.len() && rules[k] == sorted[i]
}

/// Builds the engine of a configuration. `ids` holds the numbers of its feeds in the store, in
/// their order.
pub fn build_engine(cfg: &Config, ids: &Vec<FeedId>) -> (res: Result<RuleEngine, RuleError>)
    requires
        ids@.len() == cfg.feeds@.len(),
    ensures
        res matches Ok(engine) ==> decides_by(*cfg, ids@, engine),
        res is Err ==> (exists|i: int|
            0 <= i < cfg.feeds@.len() && !engine::all_buildable((#[trigger] cfg.feeds@[i]).rules@))
            || !engine::all_buildable(cfg.global_rules@),
        res is Ok ==> forall|i: int|
            0 <= i < cfg.feeds@.len() ==> engine::all_buildable((#[trigger] cfg.feeds@[i]).rules@),
        res is Ok ==> engine::all_buildable(cfg.global_rules@),
        res matches Err(e) ==> is_error_in(*cfg, e),
{
    let mut all_rules: Vec<Vec<RuleConfig>> = Vec::new();
    for i in 0..cfg.feeds.len()
        invariant
            all_rules@.len() == i,
            forall|k: int|
                0 <= k < i ==> are_feed_rules(cfg.feeds@[k], (#[trigger] all_rules@[k])@),
    {
        all_rules.push(feed_rules(&cfg.feeds[i]));
    }
    let mut pairs: Vec<(FeedId, &[RuleConfig])> = Vec::new();
    let mut dyn_pairs: Vec<(FeedId, &[DynamicRuleConfig])> = Vec::new();
    for i in 0..cfg.feeds.len()
        invariant
            ids@.len() == cfg.feeds@.len(),
            all_rules@.len() == cfg.feeds@.len(),
            pairs@.len() == i,
            dyn_pairs@.len() == i,
            forall|k: int|
                0 <= k < i ==> (#[trigger] pairs@[k]).0 == ids@[k] && pairs@[k].1@
                    == all_rules@[k]@,
            forall|k: int|
                0 <= k < i ==> (#[trigger] dyn_pairs@[k]).0 == ids@[k] && dyn_pairs@[k].1@
                    == cfg.feeds@[k].dynamic@,
    {
        pairs.push((ids[i], all_rules[i].as_slice()));
        dyn_pairs.push((ids[i], cfg.feeds[i].dynamic.as_slice()));
    }
    let res = RuleEngine::build(
        pairs.as_slice(),
        dyn_pairs.as_slice(),
        cfg.global_rules.as_slice(),
        cfg.global_dynamics.as_slice(),
        cfg.defaults.action_on_no_match,
    );
    proof {
        engine::law_valid_rules_build(cfg.global_rules@);
        assert forall|i: int| 0 <= i < cfg.feeds@.len() implies engine::all_buildable(
            (#[trigger] cfg.feeds@[i]).rules@,
        ) == engine::all_buildable(engine::by_priority(pairs@[i].1@)) by {
            engine::law_valid_rules_build(pairs@[i].1@);
            lemma_feed_rules_buildable(cfg.feeds@[i], all_rules@[i]@);
        }
        if res is Ok {
            assert forall|i: int| 0 <= i < cfg.feeds@.len() implies engine::all_buildable(
                (#[trigger] cfg.feeds@[i]).rules@,
            ) by {
                assert(engine::all_buildable(engine::by_priority(pairs@[i].1@)));
            }
        } else if engine::all_buildable(cfg.global_rules@) {
            assert(!engine::feeds_buildable(pairs@));
            let i = choose|i: int|
                0 <= i < pairs@.len() && !engine::all_buildable(
                    engine::by_priority(#[trigger] pairs@[i].1@),
                );
            assert(!engine::all_buildable(cfg.feeds@[i].rules@));
        }
        if res is Err {
            let e = res->Err_0;
            if engine::is_first_feed_error(pairs@, e) {
                let i = choose|i: int|
                    0 <= i < pairs@.len() && engine::is_first_error(
                        engine::by_priority(#[trigger] pairs@[i].1@),
                        e,
                    );
                let k = lemma_first_error_is_there(pairs@[i].1@, e);
                let rules = all_rules@[i]@;
                assert(are_feed_rules(cfg.feeds@[i], rules));
                if k < cfg.feeds@[i].rules@.len() {
                    assert(rules.drop_last()[k] == rules[k] || rules == cfg.feeds@[i].rules@);
                    assert(cfg.feeds@[i].rules@[k] == rules[k]);
                }
            } else {
                let k = lemma_first_error_is_there(cfg.global_rules@, e);
                assert(engine::is_error_of(cfg.global_rules@[k], e));
            }
        }
        if res is Ok {
            let built = res->Ok_0;
            assert forall|ep: Episode, feed: Feed, now: UtcTime|
                #![trigger built.action_at(ep, feed, now)]
                match last_with_id(ids@, feed.id) {
                    Some(k) => exists|rules: Seq<RuleConfig>|
                        #![trigger are_feed_rules(cfg.feeds@[k], rules)]
                        are_feed_rules(cfg.feeds@[k], rules) && built.action_at(ep, feed, now)
                            == engine::decision(
                            rules,
                            cfg.feeds@[k].dynamic@,
                            cfg.global_rules@,
                            cfg.global_dynamics@,
                            cfg.defaults.action_on_no_match,
                            ep,
                            now,
                        ),
                    None => built.action_at(ep, feed, now) == engine::decision(
                        Seq::empty(),
                        Seq::empty(),
                        cfg.global_rules@,
                        cfg.global_dynamics@,
                        cfg.defaults.action_on_no_match,
                        ep,
                        now,
                    ),
                } by {
                lemma_rules_of(pairs@, dyn_pairs@, ids@, feed.id);
                if let Some(k) = last_with_id(ids@, feed.id) {
                    assert(are_feed_rules(cfg.feeds@[k], all_rules@[k]@));
                }
            }
        }
    }
    res
}

proof fn lemma_feed_rules_buildable(fc: FeedConfig, rules: Seq<RuleConfig>)
    requires
        are_feed_rules(fc, rules),
    ensures
        engine::all_buildable(rules) <==> engine::all_buildable(fc.rules@),
{
    if fc.default_action is Some {
        if engine::all_buildable(rules) {
            assert forall|i: int| 0 <= i < fc.rules@.len() implies engine::buildable(
                #[trigger] fc.rules@[i],
            ) by {
                assert(rules.drop_last()[i] == rules[i]);
            }
        }
        if engine::all_buildable(fc.rules@) {
            assert forall|i: int| 0 <= i < rules.len() implies engine::buildable(
                #[trigger] rules[i],
            ) by {
                if i < fc.rules@.len() {
                    assert(rules.drop_last()[i] == rules[i]);
                }
            }
        }
    }
}

// ---- Styles ------------------------------------------------------------------------------

/// The style of the name of a kind of state.
pub open spec fn kind_style(label: Seq<char>) -> Style {
    if label == "complete"@ {
        Style::Green
    } else if label == "quarantined"@ || label == "failed"@ {
        Style::Red
    } else if label == "matched"@ {
        Style::Yellow
    } else if label == "downloading"@ {
        Style::Cyan
    } else {
        Style::Plain
    }
}

/// The style of the cell that shows the name of a kind of state.
pub fn state_cell(label: &str) -> (res: Style)
    ensures
        res == kind_style(label@),
{
    if text::same_text(label, "complete") {
        Style::Green
    } else if text::same_text(label, "quarantined") || text::same_text(label, "failed") {
        Style::Red
    } else if text::same_text(label, "matched") {
        Style::Yellow
    } else if text::same_text(label, "downloading") {
        Style::Cyan
    } else {
        Style::Plain
    }
}

/// The style of an action.
pub open spec fn action_style(a: Action) -> Style {
    match a {
        Action::Download => Style::Green,
        Action::Skip => Style::DarkGrey,
        _ => Style::Plain,
    }
}

/// The style of the cell that shows an action.
pub fn action_cell(a: Action) -> (res: Style)
    ensures
        res == action_style(a),
{
    match a {
        Action::Download => Style::Green,
        Action::Skip => Style::DarkGrey,
        _ => Style::Plain,
    }
}

// ---- Counts ----------------------------------------------------------------------------------

/// How many episodes are where.
#[derive(Clone, Copy, Debug, PartialEq, Eq, Structural)]
pub struct EpisodeCounts {
    pub dl: usize,
    pub dynamic: usize,
    pub queued: usize,
    pub skipped: usize,
    pub quarantined: usize,
    pub missing: usize,
}

impl Default for EpisodeCounts {
    fn default() -> (res: EpisodeCounts)
        ensures
            res == (EpisodeCounts {
                dl: 0,
                dynamic: 0,
                queued: 0,
                skipped: 0,
                quarantined: 0,
                missing: 0,
            }),
    {
        EpisodeCounts { dl: 0, dynamic: 0, queued: 0, skipped: 0, quarantined: 0, missing: 0 }
    }
}

/// Whether an episode has its file on disk.
pub open spec fn counts_dl(state: EpisodeState, exists_: bool) -> bool {
    (state is Complete || state is Dynamic) && exists_
}

/// Whether an episode has its file on disk and is kept only while it is in a window.
pub open spec fn counts_dynamic(state: EpisodeState, exists_: bool) -> bool {
    state is Dynamic && exists_
}

/// Whether an episode should have its file on disk and has not.
pub open spec fn counts_missing(state: EpisodeState, exists_: bool) -> bool {
    (state is Complete || state is Dynamic) && !exists_
}

/// Whether an episode is still to be downloaded.
pub open spec fn counts_queued(state: EpisodeState) -> bool {
    state is Failed || (state matches EpisodeState::Matched(a) && (a == Action::Download || a
        == Action::Dynamic))
}

/// Whether an episode is not downloaded.
pub open spec fn counts_skipped(state: EpisodeState) -> bool {
    state is Purged || (state matches EpisodeState::Matched(a) && (a == Action::Skip || a
        == Action::Purge))
}

/// How many of some episodes satisfy a condition on their state and on whether their file
/// exists.
pub open spec fn count_where(
    eps: Seq<Episode>,
    exist: Seq<bool>,
    p: spec_fn(EpisodeState, bool) -> bool,
) -> nat
    decreases eps.len(),
{
    if eps.len() == 0 {
        0
    } else {
        let earlier = count_where(eps.drop_last(), exist, p);
        if p(eps.last().state, exist[eps.len() - 1]) {
            earlier + 1
        } else {
            earlier
        }
    }
}

/// Whether counts are those of some episodes.
pub open spec fn are_counts(c: EpisodeCounts, eps: Seq<Episode>, exist: Seq<bool>) -> bool {
    &&& c.dl == count_where(eps, exist, |s: EpisodeState, e: bool| counts_dl(s, e))
    &&& c.dynamic == count_where(eps, exist, |s: EpisodeState, e: bool| counts_dynamic(s, e))
    &&& c.queued == count_where(eps, exist, |s: EpisodeState, e: bool| counts_queued(s))
    &&& c.skipped == count_where(eps, exist, |s: EpisodeState, e: bool| counts_skipped(s))
    &&& c.quarantined == count_where(eps, exist, |s: EpisodeState, e: bool| s is Quarantined)
    &&& c.missing == count_where(eps, exist, |s: EpisodeState, e: bool| counts_missing(s, e))
}

impl EpisodeCounts {
    /// Counts episodes. `exist` tells for each of them whether its file is on disk.
    pub fn tally(episodes: &[Episode], exist: &[bool]) -> (res: EpisodeCounts)
        requires
            exist@.len() == episodes@.len(),
        ensures
            are_counts(res, episodes@, exist@),
    {
        let mut c = EpisodeCounts::default();
        let n = episodes.len();
        for i in 0..n
            invariant
                n == episodes@.len(),
                exist@.len() == episodes@.len(),
                are_counts(c, episodes@.take(i as int), exist@),
                c.dl <= i,
                c.dynamic <= i,
                c.queued <= i,
                c.skipped <= i,
                c.quarantined <= i,
                c.missing <= i,
        {
            assert(episodes@.take(i + 1).drop_last() =~= episodes@.take(i as int));
            assert(episodes@.take(i + 1).last() == episodes@[i as int]);
            match &episodes[i].state {
                EpisodeState::Complete { .. } => {
                    if exist[i] {
                        c.dl = c.dl + 1;
                    } else {
                        c.missing = c.missing + 1;
                    }
                },
                EpisodeState::Dynamic { .. } => {
                    if exist[i] {
                        c.dl = c.dl + 1;
                        c.dynamic = c.dynamic + 1;
                    } else {
                        c.missing = c.missing + 1;
                    }
                },
                EpisodeState::Matched(a) => match a {
                    Action::Download => {
                        c.queued = c.queued + 1;
                    },
                    Action::Dynamic => {
                        c.queued = c.queued + 1;
                    },
                    Action::Skip => {
                        c.skipped = c.skipped + 1;
                    },
                    Action::Purge => {
                        c.skipped = c.skipped + 1;
                    },
                    _ => {},
                },
                EpisodeState::Failed { .. } => {
                    c.queued = c.queued + 1;
                },
                EpisodeState::Purged { .. } => {
                    c.skipped = c.skipped + 1;
                },
                EpisodeState::Quarantined { .. } => {
                    c.quarantined = c.quarantined + 1;
                },
                _ => {},
            }
        }
        assert(episodes@.take(episodes@.len() as int) =~= episodes@);
        c
    }
}

/// No episode is counted twice, but a dynamic one that is on disk is also counted among all
/// that are.
pub proof fn law_no_episode_is_counted_twice(c: EpisodeCounts, eps: Seq<Episode>, exist: Seq<bool>)
    requires
        are_counts(c, eps, exist),
    ensures
        c.dl + c.queued + c.skipped + c.quarantined + c.missing <= eps.len(),
        c.dynamic <= c.dl,
{
    lemma_counts(eps, exist);
}

proof fn lemma_counts(eps: Seq<Episode>, exist: Seq<bool>)
    ensures
        count_where(eps, exist, |s: EpisodeState, e: bool| counts_dl(s, e)) + count_where(
            eps,
            exist,
            |s: EpisodeState, e: bool| counts_queued(s),
        ) + count_where(eps, exist, |s: EpisodeState, e: bool| counts_skipped(s)) + count_where(
            eps,
            exist,
            |s: EpisodeState, e: bool| s is Quarantined,
        ) + count_where(eps, exist, |s: EpisodeState, e: bool| counts_missing(s, e)) <= eps.len(),
        count_where(eps, exist, |s: EpisodeState, e: bool| counts_dynamic(s, e)) <= count_where(
            eps,
            exist,
            |s: EpisodeState, e: bool| counts_dl(s, e),
        ),
    decreases eps.len(),
{
    if eps.len() > 0 {
        lemma_counts(eps.drop_last(), exist);
    }
}

// ---- Missing files ----------------------------------------------------------------------------

/// Whether an episode is complete and its file is gone.
pub open spec fn is_missing(ep: Episode, exists_: bool) -> bool {
    ep.state is Complete && !exists_
}

/// The indices of the complete episodes whose file is gone.
pub fn missing_files(episodes: &[Episode], exist: &[bool]) -> (res: Vec<usize>)
    requires
        exist@.len() == episodes@.len(),
    ensures
        res@ == indices_where(
            episodes@.len() as int,
            |i: int| is_missing(episodes@[i], exist@[i]),
        ),
        forall|k: int| 0 <= k < res@.len() ==> (#[trigger] res@[k]) < episodes@.len() && is_missing(
            episodes@[res@[k] as int],
            exist@[res@[k] as int],
        ),
{
    let mut out: Vec<usize> = Vec::new();
    let ghost p = |i: int| is_missing(episodes@[i], exist@[i]);
    for i in 0..episodes.len()
        invariant
            exist@.len() == episodes@.len(),
            p == (|i: int| is_missing(episodes@[i], exist@[i])),
            out@ == indices_where(i as int, p),
            forall|k: int| 0 <= k < out@.len() ==> (#[trigger] out@[k]) < episodes@.len()
                && is_missing(episodes@[out@[k] as int], exist@[out@[k] as int]),
    {
        let gone = match &episodes[i].state {
            EpisodeState::Complete { .. } => !exist[i],
            _ => false,
        };
        assert(p(i as int) == gone);
        if gone {
            out.push(i);
        }
    }
    out
}

// ---- Cover art --------------------------------------------------------------------------------

/// The address of the cover art of an episode: its own, else the feed's.
pub fn cover_source(episode: &Episode, feed: &Feed) -> (res: Option<Url>)
    ensures
        res == if episode.image_url is Some {
            episode.image_url
        } else {
            feed.image_url
        },
{
    match &episode.image_url {
        Some(u) => Some(u.clone()),
        None => crate::weburl::copy_opt_url(&feed.image_url),
    }
}

// ---- Laws -------------------------------------------------------------------------------------

/// A feed's catch-all decides outside every window exactly where none of the feed's own rules
/// applies, and then before the global rules and the default. Where an own rule applies, the
/// catch-all changes nothing.
pub proof fn law_catch_all_comes_behind_own_rules(
    fc: FeedConfig,
    rules: Seq<RuleConfig>,
    action: Action,
    global: Seq<RuleConfig>,
    default: Action,
    ep: Episode,
    now: UtcTime,
)
    requires
        are_feed_rules(fc, rules),
        fc.default_action == Some(action),
    ensures
        (forall|i: int|
            0 <= i < fc.rules@.len() ==> !engine::kind_applies((#[trigger] fc.rules@[i]).match_, ep))
            ==> engine::decision(rules, Seq::empty(), global, Seq::empty(), default, ep, now)
            == action,
        forall|i: int|
            0 <= i < fc.rules@.len() && engine::kind_applies((#[trigger] fc.rules@[i]).match_, ep)
                && (forall|j: int|
                0 <= j < fc.rules@.len() && engine::kind_applies(
                    (#[trigger] fc.rules@[j]).match_,
                    ep,
                ) ==> fc.rules@[i].priority < fc.rules@[j].priority || (fc.rules@[i].priority
                    == fc.rules@[j].priority && i <= j)) ==> engine::decision(
                rules,
                Seq::empty(),
                global,
                Seq::empty(),
                default,
                ep,
                now,
            ) == fc.rules@[i].action,
{
    let n = fc.rules@.len() as int;
    engine::law_decision_outside_windows(
        rules,
        Seq::empty(),
        global,
        Seq::empty(),
        default,
        ep,
        now,
    );
    assert(rules[n] == rules.last());
    assert forall|i: int| 0 <= i < n implies #[trigger] rules[i] == fc.rules@[i] by {
        assert(rules.drop_last()[i] == rules[i]);
    }
    assert(engine::kind_applies(rules[n].match_, ep));
    assert forall|i: int|
        0 <= i < fc.rules@.len() && engine::kind_applies((#[trigger] fc.rules@[i]).match_, ep) && (
        forall|j: int|
            0 <= j < fc.rules@.len() && engine::kind_applies((#[trigger] fc.rules@[j]).match_, ep)
                ==> fc.rules@[i].priority < fc.rules@[j].priority || (fc.rules@[i].priority
                == fc.rules@[j].priority && i <= j)) implies engine::decision(
        rules,
        Seq::empty(),
        global,
        Seq::empty(),
        default,
        ep,
        now,
    ) == fc.rules@[i].action by {
        assert(rules[i] == fc.rules@[i]);
        assert forall|j: int|
            0 <= j < rules.len() && engine::kind_applies((#[trigger] rules[j]).match_, ep) implies rules[i].priority
            < rules[j].priority || (rules[i].priority == rules[j].priority && i <= j) by {
            if j < n {
                assert(rules[j] == fc.rules@[j]);
            }
        }
    }
}

/// A feed without a catch-all has its own rules as they are written, and one with a catch-all
/// has them in the same order.
pub proof fn law_own_rules_stay_as_written(fc: FeedConfig, rules: Seq<RuleConfig>, i: int)
    requires
        are_feed_rules(fc, rules),
    ensures
        fc.default_action is None ==> rules == fc.rules@,
        0 <= i < fc.rules@.len() ==> rules[i] == fc.rules@[i],
        fc.default_action is Some ==> rules.len() == fc.rules@.len() + 1 && rules.last().name@
            == "__feed_default_"@ + fc.slug@ && rules.last().match_ is Always
            && rules.last().priority == 0x7FFF_FFFF && rules.last().action == fc.default_action->0,
{
    if fc.default_action is Some && 0 <= i < fc.rules@.len() {
        assert(rules.drop_last()[i] == rules[i]);
    }
}

/// A feed is the last one that has its number in the store.
pub proof fn law_last_feed_with_a_number_counts(ids: Seq<FeedId>, id: FeedId, k: int)
    ensures
        0 <= k < ids.len() && ids[k] == id && (forall|j: int|
            k < j < ids.len() ==> #[trigger] ids[j] != id) ==> last_with_id(ids, id) == Some(k),
        (forall|j: int| 0 <= j < ids.len() ==> #[trigger] ids[j] != id) ==> last_with_id(ids, id)
            is None,
    decreases ids.len(),
{
    if ids.len() > 0 {
        assert(ids.last() == ids[ids.len() - 1]);
        law_last_feed_with_a_number_counts(ids.drop_last(), id, k);
    }
}

/// Indices that satisfy a condition: every one of them is listed once, in ascending order, and
/// no other.
pub proof fn law_indices_in_ascending_order(n: int, p: spec_fn(int) -> bool)
    requires
        0 <= n <= usize::MAX,
    ensures
        forall|k: int|
            0 <= k < indices_where(n, p).len() ==> 0 <= #[trigger] indices_where(n, p)[k] < n && p(
                indices_where(n, p)[k] as int,
            ),
        forall|k: int, m: int|
            0 <= k < m < indices_where(n, p).len() ==> #[trigger] indices_where(n, p)[k]
                < #[trigger] indices_where(n, p)[m],
        forall|i: int| 0 <= i < n && #[trigger] p(i) ==> indices_where(n, p).contains(i as usize),
    decreases n,
{
    if n > 0 {
        law_indices_in_ascending_order(n - 1, p);
        let earlier = indices_where(n - 1, p);
        let all = indices_where(n, p);
        assert forall|k: int| 0 <= k < all.len() implies 0 <= #[trigger] all[k] < n && p(
            all[k] as int,
        ) by {
            if k < earlier.len() {
                assert(all[k] == earlier[k]);
            }
        }
        assert forall|k: int, m: int| 0 <= k < m < all.len() implies #[trigger] all[k]
            < #[trigger] all[m] by {
            assert(all[k] == earlier[k]);
            if m < earlier.len() {
                assert(all[m] == earlier[m]);
            }
        }
        assert forall|i: int| 0 <= i < n && #[trigger] p(i) implies all.contains(i as usize) by {
            if i < n - 1 {
                assert(earlier.contains(i as usize));
                let k = choose|k: int| 0 <= k < earlier.len() && earlier[k] == i as usize;
                assert(all[k] == i as usize);
            } else {
                assert(all[all.len() - 1] == i as usize);
            }
        }
    }
}

/// Which feeds a command works on: without names all that are enabled, and with names exactly
/// the named ones, enabled or not. A document is rebuilt without names for all feeds that are
/// restreamed.
pub proof fn law_which_feeds_are_chosen(feed: FeedConfig, slugs: Seq<String>)
    ensures
        slugs.len() == 0 ==> is_chosen(feed, slugs) == feed.enabled && is_rebuilt(feed, slugs)
            == feed.restream,
        slugs.len() > 0 ==> {
            &&& is_chosen(feed, slugs) <==> exists|i: int|
                0 <= i < slugs.len() && (#[trigger] slugs[i])@ == feed.slug@
            &&& is_rebuilt(feed, slugs) <==> exists|i: int|
                0 <= i < slugs.len() && (#[trigger] slugs[i])@ == feed.slug@
        },
{
    if text::lists_text(slugs, feed.slug@) {
        let i = choose|i: int| 0 <= i < slugs.len() && #[trigger] slugs[i]@ == feed.slug@;
        assert(slugs[i]@ == feed.slug@);
    }
    if exists|i: int| 0 <= i < slugs.len() && (#[trigger] slugs[i])@ == feed.slug@ {
        let i = choose|i: int| 0 <= i < slugs.len() && (#[trigger] slugs[i])@ == feed.slug@;
        assert(slugs[i]@ == feed.slug@);
    }
}

/// A feed is shown by the name in its configuration, else by its title, else by what stands in
/// for it; its configuration is the first one with its slug.
pub proof fn law_name_of_a_feed(
    feeds: Seq<FeedConfig>,
    slug: Seq<char>,
    config: Option<FeedConfig>,
    feed: Feed,
    fallback: Seq<char>,
    i: int,
)
    ensures
        (config is Some && config->0.display_name is Some) ==> name_by(config, feed, fallback)
            == config->0.display_name->0@,
        config is None || config->0.display_name is None ==> (feed.title matches Some(t) ==> name_by(
            config,
            feed,
            fallback,
        ) == t@) && (feed.title is None ==> name_by(config, feed, fallback) == fallback),
        0 <= i < feeds.len() && feeds[i].slug@ == slug && (forall|j: int|
            0 <= j < i ==> (#[trigger] feeds[j]).slug@ != slug) ==> config_of(feeds, slug) == Some(
            feeds[i],
        ),
        (forall|j: int| 0 <= j < feeds.len() ==> (#[trigger] feeds[j]).slug@ != slug) ==> config_of(
            feeds,
            slug,
        ) is None,
    decreases feeds.len(),
{
    if feeds.len() > 0 {
        let rest = feeds.drop_first();
        law_name_of_a_feed(rest, slug, config, feed, fallback, i - 1);
        assert forall|j: int| 0 <= j < rest.len() implies #[trigger] rest[j] == feeds[j + 1] by {}
        assert(feeds[0] == feeds[0]);
        if 0 < i < feeds.len() {
            assert(rest[i - 1] == feeds[i]);
        }
    }
}

/// A feed as the configuration knows it has no number yet and was never fetched.
pub proof fn law_feed_before_its_first_fetch(fc: FeedConfig)
    ensures
        ({
            let feed = config_feed(fc);
            &&& feed.id.0 == 0
            &&& feed.url == fc.url
            &&& feed.slug == fc.slug
            &&& feed.enabled == fc.enabled
            &&& feed.title is None
            &&& feed.last_fetched_at is None
            &&& feed.etag is None
            &&& feed.last_modified is None
            &&& feed.image_url is None
        }),
{
}

/// Where an episode is counted, by its state and by whether its file is there.
pub proof fn law_where_an_episode_is_counted(state: EpisodeState, there: bool)
    ensures
        counts_dl(state, there) <==> there && match state {
            EpisodeState::Complete { .. } => true,
            EpisodeState::Dynamic { .. } => true,
            _ => false,
        },
        counts_dynamic(state, there) <==> there && match state {
            EpisodeState::Dynamic { .. } => true,
            _ => false,
        },
        counts_missing(state, there) <==> !there && match state {
            EpisodeState::Complete { .. } => true,
            EpisodeState::Dynamic { .. } => true,
            _ => false,
        },
        counts_queued(state) <==> match state {
            EpisodeState::Failed { .. } => true,
            EpisodeState::Matched(Action::Download) => true,
            EpisodeState::Matched(Action::Dynamic) => true,
            _ => false,
        },
        counts_skipped(state) <==> match state {
            EpisodeState::Purged { .. } => true,
            EpisodeState::Matched(Action::Skip) => true,
            EpisodeState::Matched(Action::Purge) => true,
            _ => false,
        },
{
}

/// A count grows by one with each episode that satisfies its condition, and by nothing else.
pub proof fn law_counts_grow_by_one(
    eps: Seq<Episode>,
    exist: Seq<bool>,
    p: spec_fn(EpisodeState, bool) -> bool,
    i: int,
)
    requires
        0 <= i < eps.len(),
    ensures
        count_where(eps.take(0), exist, p) == 0,
        count_where(eps.take(i + 1), exist, p) == count_where(eps.take(i), exist, p) + (if p(
            eps[i].state,
            exist[i],
        ) {
            1int
        } else {
            0int
        }),
{
    assert(eps.take(i + 1).drop_last() =~= eps.take(i));
}

/// What each count counts.
pub proof fn law_what_the_counts_count(c: EpisodeCounts, eps: Seq<Episode>, exist: Seq<bool>)
    requires
        are_counts(c, eps, exist),
    ensures
        c.dl == count_where(
            eps,
            exist,
            |s: EpisodeState, e: bool| e && (s is Complete || s is Dynamic),
        ),
        c.dynamic == count_where(eps, exist, |s: EpisodeState, e: bool| e && s is Dynamic),
        c.missing == count_where(
            eps,
            exist,
            |s: EpisodeState, e: bool| !e && (s is Complete || s is Dynamic),
        ),
        c.quarantined == count_where(eps, exist, |s: EpisodeState, e: bool| s is Quarantined),
        c.queued == count_where(
            eps,
            exist,
            |s: EpisodeState, e: bool|
                s is Failed || s == EpisodeState::Matched(Action::Download) || s
                    == EpisodeState::Matched(Action::Dynamic),
        ),
        c.skipped == count_where(
            eps,
            exist,
            |s: EpisodeState, e: bool|
                s is Purged || s == EpisodeState::Matched(Action::Skip) || s
                    == EpisodeState::Matched(Action::Purge),
        ),
{
    lemma_same_counts(
        eps,
        exist,
        |s: EpisodeState, e: bool| counts_dl(s, e),
        |s: EpisodeState, e: bool| e && (s is Complete || s is Dynamic),
    );
    lemma_same_counts(
        eps,
        exist,
        |s: EpisodeState, e: bool| counts_dynamic(s, e),
        |s: EpisodeState, e: bool| e && s is Dynamic,
    );
    lemma_same_counts(
        eps,
        exist,
        |s: EpisodeState, e: bool| counts_missing(s, e),
        |s: EpisodeState, e: bool| !e && (s is Complete || s is Dynamic),
    );
    lemma_same_counts(
        eps,
        exist,
        |s: EpisodeState, e: bool| counts_queued(s),
        |s: EpisodeState, e: bool|
            s is Failed || s == EpisodeState::Matched(Action::Download) || s
                == EpisodeState::Matched(Action::Dynamic),
    );
    lemma_same_counts(
        eps,
        exist,
        |s: EpisodeState, e: bool| counts_skipped(s),
        |s: EpisodeState, e: bool|
            s is Purged || s == EpisodeState::Matched(Action::Skip) || s == EpisodeState::Matched(
                Action::Purge,
            ),
    );
}

proof fn lemma_same_counts(
    eps: Seq<Episode>,
    exist: Seq<bool>,
    p: spec_fn(EpisodeState, bool) -> bool,
    q: spec_fn(EpisodeState, bool) -> bool,
)
    requires
        forall|s: EpisodeState, e: bool| #[trigger] p(s, e) == q(s, e),
    ensures
        count_where(eps, exist, p) == count_where(eps, exist, q),
    decreases eps.len(),
{
    if eps.len() > 0 {
        lemma_same_counts(eps.drop_last(), exist, p, q);
    }
}

/// Only a complete episode is told to miss its file, not one that is kept dynamically.
pub proof fn law_which_episodes_miss_their_file(ep: Episode, there: bool)
    ensures
        is_missing(ep, there) <==> !there && match ep.state {
            EpisodeState::Complete { .. } => true,
            _ => false,
        },
{
}

/// The styles of the kinds of states and of the actions.
pub proof fn law_styles(label: Seq<char>)
    ensures
        kind_style("complete"@) == Style::Green,
        kind_style("quarantined"@) == Style::Red,
        kind_style("failed"@) == Style::Red,
        kind_style("matched"@) == Style::Yellow,
        kind_style("downloading"@) == Style::Cyan,
        label != "complete"@ && label != "quarantined"@ && label != "failed"@ && label != "matched"@
            && label != "downloading"@ ==> kind_style(label) == Style::Plain,
        action_style(Action::Download) == Style::Green,
        action_style(Action::Skip) == Style::DarkGrey,
        action_style(Action::Dynamic) == Style::Plain,
        action_style(Action::Purge) == Style::Plain,
        action_style(Action::Archive) == Style::Plain,
        action_style(Action::Quarantine) == Style::Plain,
{
    reveal_strlit("complete");
    reveal_strlit("quarantined");
    reveal_strlit("failed");
    reveal_strlit("matched");
    reveal_strlit("downloading");
    assert("complete"@[0] == 'c' && "quarantined"@[0] == 'q' && "failed"@[0] == 'f');
    assert("matched"@[0] == 'm' && "downloading"@[0] == 'd');
}

/// The engine of a configuration decides on an episode of one of its feeds, outside every window,
/// by the first of these that applies: the feed's own rule with the lowest priority number, the
/// feed's catch-all, the global rule with the lowest priority number, the default.
pub proof fn law_engine_decides_by_the_configuration(
    cfg: Config,
    ids: Seq<FeedId>,
    engine: RuleEngine,
    k: int,
    ep: Episode,
    feed: Feed,
    now: UtcTime,
    i: int,
)
    requires
        decides_by(cfg, ids, engine),
        ids.len() == cfg.feeds@.len(),
        0 <= k < ids.len(),
        ids[k] == feed.id,
        forall|j: int| k < j < ids.len() ==> #[trigger] ids[j] != feed.id,
        forall|w: int|
            0 <= w < cfg.feeds@[k].dynamic@.len() ==> !engine::dynamic_applies(
                (#[trigger] cfg.feeds@[k].dynamic@[w]).match_,
                ep,
                now,
            ),
        forall|w: int|
            0 <= w < cfg.global_dynamics@.len() ==> !engine::dynamic_applies(
                (#[trigger] cfg.global_dynamics@[w]).match_,
                ep,
                now,
            ),
    ensures
        ({
            let own = cfg.feeds@[k].rules@;
            0 <= i < own.len() && engine::kind_applies(own[i].match_, ep) && (forall|j: int|
                0 <= j < own.len() && engine::kind_applies((#[trigger] own[j]).match_, ep)
                    ==> own[i].priority < own[j].priority || (own[i].priority == own[j].priority && i
                    <= j)) ==> engine.action_at(ep, feed, now) == own[i].action
        }),
        (forall|j: int|
            0 <= j < cfg.feeds@[k].rules@.len() ==> !engine::kind_applies(
                (#[trigger] cfg.feeds@[k].rules@[j]).match_,
                ep,
            )) ==> {
            let global = cfg.global_rules@;
            &&& cfg.feeds@[k].default_action matches Some(a) ==> engine.action_at(ep, feed, now) == a
            &&& cfg.feeds@[k].default_action is None && 0 <= i < global.len()
                && engine::kind_applies(global[i].match_, ep) && (forall|j: int|
                0 <= j < global.len() && engine::kind_applies((#[trigger] global[j]).match_, ep)
                    ==> global[i].priority < global[j].priority || (global[i].priority
                    == global[j].priority && i <= j)) ==> engine.action_at(ep, feed, now)
                == global[i].action
            &&& cfg.feeds@[k].default_action is None && (forall|j: int|
                0 <= j < global.len() ==> !engine::kind_applies((#[trigger] global[j]).match_, ep))
                ==> engine.action_at(ep, feed, now) == cfg.defaults.action_on_no_match
        },
{
    law_last_feed_with_a_number_counts(ids, feed.id, k);
    let fc = cfg.feeds@[k];
    let default = cfg.defaults.action_on_no_match;
    let action = engine.action_at(ep, feed, now);
    let rules = choose|rules: Seq<RuleConfig>|
        #![trigger are_feed_rules(cfg.feeds@[k], rules)]
        are_feed_rules(cfg.feeds@[k], rules) && action == engine::decision(
            rules,
            fc.dynamic@,
            cfg.global_rules@,
            cfg.global_dynamics@,
            default,
            ep,
            now,
        );
    engine::law_decision_outside_windows(
        rules,
        fc.dynamic@,
        cfg.global_rules@,
        cfg.global_dynamics@,
        default,
        ep,
        now,
    );
    if let Some(a) = fc.default_action {
        law_catch_all_comes_behind_own_rules(fc, rules, a, cfg.global_rules@, default, ep, now);
        assert(!engine::in_window(fc.dynamic@, ep, now));
        assert(!engine::in_window(cfg.global_dynamics@, ep, now));
        assert(!engine::in_window(Seq::empty(), ep, now));
        assert(action == engine::decision(
            rules,
            Seq::empty(),
            cfg.global_rules@,
            Seq::empty(),
            default,
            ep,
            now,
        ));
    }
}

/// An episode of a feed that the configuration does not have is decided on by the global rules
/// and the default.
pub proof fn law_engine_on_an_unknown_feed(
    cfg: Config,
    ids: Seq<FeedId>,
    engine: RuleEngine,
    ep: Episode,
    feed: Feed,
    now: UtcTime,
)
    requires
        decides_by(cfg, ids, engine),
        forall|j: int| 0 <= j < ids.len() ==> #[trigger] ids[j] != feed.id,
    ensures
        engine.action_at(ep, feed, now) == engine::decision(
            Seq::empty(),
            Seq::empty(),
            cfg.global_rules@,
            cfg.global_dynamics@,
            cfg.defaults.action_on_no_match,
            ep,
            now,
        ),
{
    law_last_feed_with_a_number_counts(ids, feed.id, 0);
}

/// An episode in a window of its feed or in a global one is kept: the engine of the configuration
/// has it downloaded, for good or as long as it is in the window.
pub proof fn law_engine_keeps_what_is_in_a_window(
    cfg: Config,
    ids: Seq<FeedId>,
    engine: RuleEngine,
    k: int,
    ep: Episode,
    feed: Feed,
    now: UtcTime,
    w: int,
)
    requires
        decides_by(cfg, ids, engine),
        0 <= k < ids.len(),
        ids[k] == feed.id,
        forall|j: int| k < j < ids.len() ==> #[trigger] ids[j] != feed.id,
        (0 <= w < cfg.feeds@[k].dynamic@.len() && engine::dynamic_applies(
            cfg.feeds@[k].dynamic@[w].match_,
            ep,
            now,
        )) || (0 <= w < cfg.global_dynamics@.len() && engine::dynamic_applies(
            cfg.global_dynamics@[w].match_,
            ep,
            now,
        )),
    ensures
        engine.action_at(ep, feed, now) == Action::Dynamic || engine.action_at(ep, feed, now)
            == Action::Download,
{
    law_last_feed_with_a_number_counts(ids, feed.id, k);
    let fc = cfg.feeds@[k];
    let default = cfg.defaults.action_on_no_match;
    let action = engine.action_at(ep, feed, now);
    let rules = choose|rules: Seq<RuleConfig>|
        #![trigger are_feed_rules(cfg.feeds@[k], rules)]
        are_feed_rules(cfg.feeds@[k], rules) && action == engine::decision(
            rules,
            fc.dynamic@,
            cfg.global_rules@,
            cfg.global_dynamics@,
            default,
            ep,
            now,
        );
    engine::law_decision_in_a_window(
        rules,
        fc.dynamic@,
        cfg.global_rules@,
        cfg.global_dynamics@,
        default,
        ep,
        now,
        w,
    );
}

} // verus!
