//! What a sync of a feed does to its episodes.
use crate::cli::helpers;
use crate::episode::{Action, Episode, EpisodeState};
use crate::feed::Feed;
use crate::feed_parse::FeedMeta;
use crate::ids::{EpisodeId, FeedId};
use crate::rules::config::{DynamicRuleConfig, DynamicRuleKind, FeedConfig};
use crate::rules::engine;
use crate::rules::engine::RuleEngine;
use crate::text;
use crate::time::UtcTime;
use vstd::prelude::*;
use vstd::string::*;

verus! {

// ---- The feed ------------------------------------------------------------------------

/// The feed after a fetch at the moment `now`. A fetch without a title leaves the old one.
pub open spec fn feed_after_fetch(feed: Feed, meta: FeedMeta, now: UtcTime) -> Feed {
    Feed {
        title: if meta.title is Some {
            meta.title
        } else {
            feed.title
        },
        etag: meta.etag,
        last_modified: meta.last_modified,
        image_url: meta.image_url,
        last_fetched_at: Some(now),
        ..feed
    }
}

/// The feed after a fetch.
pub fn fetched_feed(feed: Feed, meta: FeedMeta, now: UtcTime) -> (res: Feed)
    ensures
        res == feed_after_fetch(feed, meta, now),
{
    let mut feed = feed;
    if meta.title.is_some() {
        feed.title = meta.title;
    }
    feed.etag = meta.etag;
    feed.last_modified = meta.last_modified;
    feed.image_url = meta.image_url;
    feed.last_fetched_at = Some(now);
    feed
}

// ---- New episodes ----------------------------------------------------------------------

/// Whether an episode with this action is put in the download queue.
pub open spec fn is_queued_action(a: Action) -> bool {
    a == Action::Download || a == Action::Dynamic
}

/// Whether an episode with this action is put in the download queue.
pub fn queues(a: Action) -> (res: bool)
    ensures
        res == is_queued_action(a),
{
    a == Action::Download || a == Action::Dynamic
}

/// What is done next with an episode of a fetched feed.
#[derive(Clone, Copy, Debug, PartialEq, Eq, Structural)]
pub enum NewEpisodeStep {
    /// The episode is stored.
    Store,
    /// The episode is put in the download queue.
    Enqueue(Action),
    /// The state of the episode is set to matched with this action.
    SetMatched(Action),
    Finished,
}

/// How a step ended.
#[derive(Clone, Copy, Debug, PartialEq, Eq, Structural)]
pub enum NewEpisodeEvent {
    /// The episode was stored; it may have been there before.
    Stored { is_new: bool },
    Done,
    Failed,
}

/// The step that follows. An episode that was known before is left alone. A new one is queued
/// where its action asks for that, and only then marked as matched.
pub open spec fn step_after(
    step: NewEpisodeStep,
    event: NewEpisodeEvent,
    action: Action,
) -> NewEpisodeStep {
    match step {
        NewEpisodeStep::Store => match event {
            NewEpisodeEvent::Stored { is_new } => if !is_new {
                NewEpisodeStep::Finished
            } else if is_queued_action(action) {
                NewEpisodeStep::Enqueue(action)
            } else {
                NewEpisodeStep::SetMatched(action)
            },
            _ => NewEpisodeStep::Finished,
        },
        NewEpisodeStep::Enqueue(a) => match event {
            NewEpisodeEvent::Failed => NewEpisodeStep::Finished,
            _ => NewEpisodeStep::SetMatched(a),
        },
        NewEpisodeStep::SetMatched(_) => NewEpisodeStep::Finished,
        NewEpisodeStep::Finished => NewEpisodeStep::Finished,
    }
}

/// The step that follows `step` for an episode to which the rules give `action`.
pub fn next_step(step: NewEpisodeStep, event: NewEpisodeEvent, action: Action) -> (res:
    NewEpisodeStep)
    ensures
        res == step_after(step, event, action),
{
    match step {
        NewEpisodeStep::Store => match event {
            NewEpisodeEvent::Stored { is_new } => {
                if !is_new {
                    NewEpisodeStep::Finished
                } else if queues(action) {
                    NewEpisodeStep::Enqueue(action)
                } else {
                    NewEpisodeStep::SetMatched(action)
                }
            },
            _ => NewEpisodeStep::Finished,
        },
        NewEpisodeStep::Enqueue(a) => match event {
            NewEpisodeEvent::Failed => NewEpisodeStep::Finished,
            _ => NewEpisodeStep::SetMatched(a),
        },
        NewEpisodeStep::SetMatched(_) => NewEpisodeStep::Finished,
        NewEpisodeStep::Finished => NewEpisodeStep::Finished,
    }
}

/// The steps that are taken for an episode: the first, and one for each event.
pub open spec fn steps_taken(events: Seq<NewEpisodeEvent>, action: Action) -> Seq<NewEpisodeStep>
    decreases events.len(),
{
    if events.len() == 0 {
        seq![NewEpisodeStep::Store]
    } else {
        let earlier = steps_taken(events.drop_last(), action);
        earlier.push(step_after(earlier.last(), events.last(), action))
    }
}

/// Whether a step deals with the given action.
pub open spec fn deals_with(step: NewEpisodeStep, action: Action) -> bool {
    match step {
        NewEpisodeStep::SetMatched(a) => a == action,
        NewEpisodeStep::Enqueue(a) => a == action,
        _ => true,
    }
}

proof fn lemma_steps_taken(events: Seq<NewEpisodeEvent>, action: Action)
    ensures
        steps_taken(events, action).len() == events.len() + 1,
        forall|i: int|
            0 <= i < events.len() ==> steps_taken(events, action)[i + 1] == step_after(
                steps_taken(events, action)[i],
                #[trigger] events[i],
                action,
            ),
        forall|i: int|
            0 <= i <= events.len() ==> deals_with(#[trigger] steps_taken(events, action)[i], action),
    decreases events.len(),
{
    if events.len() > 0 {
        let rest = events.drop_last();
        lemma_steps_taken(rest, action);
        let earlier = steps_taken(rest, action);
        let all = steps_taken(events, action);
        assert(all == earlier.push(step_after(earlier.last(), events.last(), action)));
        assert(deals_with(earlier[earlier.len() - 1], action));
        assert forall|i: int| 0 <= i < events.len() implies all[i + 1] == step_after(
            all[i],
            #[trigger] events[i],
            action,
        ) by {
            if i < rest.len() {
                assert(rest[i] == events[i]);
                assert(all[i] == earlier[i]);
                assert(all[i + 1] == earlier[i + 1]);
            }
        }
        assert forall|i: int| 0 <= i <= events.len() implies deals_with(
            #[trigger] all[i],
            action,
        ) by {
            if i < earlier.len() {
                assert(all[i] == earlier[i]);
            }
        }
    }
}

/// An episode whose action asks for a download is marked as matched only after it was put in
/// the queue: a crash between the two leaves it discovered, never matched but not queued.
pub proof fn law_queued_before_matched(events: Seq<NewEpisodeEvent>, action: Action)
    requires
        is_queued_action(action),
    ensures
        forall|i: int|
            #![trigger events[i]]
            0 <= i < events.len() && steps_taken(events, action)[i + 1] is SetMatched
                ==> steps_taken(events, action)[i] == NewEpisodeStep::Enqueue(action) && events[i]
                != NewEpisodeEvent::Failed,
        steps_taken(events, action)[0] == NewEpisodeStep::Store,
    decreases events.len(),
{
    lemma_steps_taken(events, action);
    assert forall|i: int|
        #![trigger events[i]]
        0 <= i < events.len() && steps_taken(events, action)[i + 1] is SetMatched implies steps_taken(
        events,
        action,
    )[i] == NewEpisodeStep::Enqueue(action) && events[i] != NewEpisodeEvent::Failed by {
        assert(deals_with(steps_taken(events, action)[i], action));
    }
    if events.len() > 0 {
        law_queued_before_matched(events.drop_last(), action);
        lemma_steps_taken(events.drop_last(), action);
    }
}

// ---- Positions ---------------------------------------------------------------------------

/// The position of an episode among those of a fetched feed. One that is not there any more
/// has the last possible position, which is outside of every window.
pub open spec fn position_in(parsed: Seq<Episode>, id: Seq<char>) -> usize
    decreases parsed.len(),
{
    if parsed.len() == 0 {
        usize::MAX
    } else if parsed.last().id@ == id {
        parsed.last().episode_no
    } else {
        position_in(parsed.drop_last(), id)
    }
}

/// The position of the episode `id` among `parsed`.
pub fn find_position(parsed: &[Episode], id: &EpisodeId) -> (res: usize)
    ensures
        res == position_in(parsed@, id@),
{
    let mut i: usize = parsed.len();
    assert(parsed@.take(parsed@.len() as int) =~= parsed@);
    while i > 0
        invariant
            i <= parsed@.len(),
            position_in(parsed@, id@) == position_in(parsed@.take(i as int), id@),
        decreases i,
    {
        assert(parsed@.take(i as int).drop_last() =~= parsed@.take(i - 1));
        if text::same_text(parsed[i - 1].id.as_str(), id.as_str()) {
            return parsed[i - 1].episode_no;
        }
        i = i - 1;
    }
    usize::MAX
}

// ---- Pending episodes ----------------------------------------------------------------------

/// The action that was last given to a pending episode; `None` for an episode that is not
/// pending.
pub open spec fn pending_action(state: EpisodeState) -> Option<Option<Action>> {
    match state {
        EpisodeState::Discovered => Some(None),
        EpisodeState::Matched(a) => Some(Some(a)),
        _ => None,
    }
}

/// The action that a recheck gives an episode, where it is pending and gets another one than
/// before.
pub open spec fn recheck_action(
    ep: Episode,
    parsed: Seq<Episode>,
    feed: Feed,
    engine: RuleEngine,
    now: UtcTime,
) -> Option<Action> {
    let action = engine.action_at(ep.with_no(position_in(parsed, ep.id@)), feed, now);
    match pending_action(ep.state) {
        None => None,
        Some(old_action) => if old_action == Some(action) {
            None
        } else {
            Some(action)
        },
    }
}

/// The action that a recheck gives an episode: nothing where the episode is not pending or
/// keeps its action.
pub fn recheck_episode(
    ep: &Episode,
    parsed: &[Episode],
    feed: &Feed,
    engine: &RuleEngine,
    now: &UtcTime,
) -> (res: Option<Action>)
    ensures
        res == recheck_action(*ep, parsed@, *feed, *engine, *now),
{
    let old_action: Option<Action> = match &ep.state {
        EpisodeState::Discovered => None,
        EpisodeState::Matched(a) => Some(*a),
        _ => {
            return None;
        },
    };
    let mut placed = ep.clone();
    placed.episode_no = find_position(parsed, &ep.id);
    let new_action = engine.evaluate_at(&placed, feed, now);
    match old_action {
        Some(a) => {
            if a == new_action {
                return None;
            }
        },
        None => {},
    }
    Some(new_action)
}

/// A new action for an episode.
pub struct Reassigned {
    pub id: EpisodeId,
    pub action: Action,
}

/// The new actions that a recheck gives, in the order of the episodes.
pub open spec fn reassigned(
    eps: Seq<Episode>,
    parsed: Seq<Episode>,
    feed: Feed,
    engine: RuleEngine,
    now: UtcTime,
) -> Seq<Reassigned>
    decreases eps.len(),
{
    if eps.len() == 0 {
        Seq::empty()
    } else {
        let earlier = reassigned(eps.drop_last(), parsed, feed, engine, now);
        match recheck_action(eps.last(), parsed, feed, engine, now) {
            Some(action) => earlier.push(Reassigned { id: eps.last().id, action }),
            None => earlier,
        }
    }
}

/// Rechecks all episodes of a feed against the rules, with the positions in the feed as it was
/// just fetched. The result holds the new actions.
pub fn recheck_feed(
    eps: &[Episode],
    parsed: &[Episode],
    feed: &Feed,
    engine: &RuleEngine,
    now: &UtcTime,
) -> (res: Vec<Reassigned>)
    ensures
        res@ == reassigned(eps@, parsed@, *feed, *engine, *now),
{
    let mut out: Vec<Reassigned> = Vec::new();
    assert(eps@.take(0) =~= Seq::empty());
    for i in 0..eps.len()
        invariant
            out@ == reassigned(eps@.take(i as int), parsed@, *feed, *engine, *now),
    {
        assert(eps@.take(i + 1).drop_last() =~= eps@.take(i as int));
        if let Some(action) = recheck_episode(&eps[i], parsed, feed, engine, now) {
            out.push(Reassigned { id: eps[i].id.clone(), action });
        }
    }
    assert(eps@.take(eps@.len() as int) =~= eps@);
    out
}

/// A recheck touches only pending episodes: every new action is for one that was discovered or
/// matched with another action. Downloaded, quarantined, failed and purged ones keep their
/// state.
pub proof fn law_recheck_touches_only_pending(
    eps: Seq<Episode>,
    parsed: Seq<Episode>,
    feed: Feed,
    engine: RuleEngine,
    now: UtcTime,
)
    ensures
        forall|k: int|
            0 <= k < reassigned(eps, parsed, feed, engine, now).len() ==> exists|i: int|
                0 <= i < eps.len() && (#[trigger] eps[i]).id == (#[trigger] reassigned(
                    eps,
                    parsed,
                    feed,
                    engine,
                    now,
                )[k]).id && (eps[i].state is Discovered || (eps[i].state matches EpisodeState::Matched(
                    a,
                ) && a != reassigned(eps, parsed, feed, engine, now)[k].action)),
    decreases eps.len(),
{
    let all = reassigned(eps, parsed, feed, engine, now);
    if eps.len() > 0 {
        let rest = eps.drop_last();
        law_recheck_touches_only_pending(rest, parsed, feed, engine, now);
        let earlier = reassigned(rest, parsed, feed, engine, now);
        assert forall|k: int| 0 <= k < all.len() implies exists|i: int|
            0 <= i < eps.len() && (#[trigger] eps[i]).id == (#[trigger] all[k]).id && (
            eps[i].state is Discovered || (eps[i].state matches EpisodeState::Matched(a) && a
                != all[k].action)) by {
            if k < earlier.len() {
                assert(earlier[k] == all[k]);
                let i = choose|i: int|
                    0 <= i < rest.len() && (#[trigger] rest[i]).id == earlier[k].id && (
                    rest[i].state is Discovered || (rest[i].state matches EpisodeState::Matched(a)
                        && a != earlier[k].action));
                assert(eps[i] == rest[i]);
            } else {
                assert(eps[eps.len() - 1].id == all[k].id);
            }
        }
    }
}

// ---- The purge cycle ------------------------------------------------------------------------

/// What a purge cycle does with a dynamic episode.
pub enum PurgeStep {
    /// The episode stays as it is.
    Keep,
    /// The episode is kept for good, in this state.
    Promote(EpisodeState),
    /// The file, where there is one, is deleted, and the episode marked as purged.
    Purge { file: Option<String> },
}

/// Whether `step` is what a purge cycle does with an episode to which the rules give `action`.
pub open spec fn is_purge_step(state: EpisodeState, action: Action, step: PurgeStep) -> bool {
    match action {
        Action::Dynamic => step is Keep,
        Action::Download => match state {
            EpisodeState::Dynamic { path, downloaded_at, sha256 } => step == PurgeStep::Promote(
                EpisodeState::Complete { path, downloaded_at, sha256 },
            ),
            _ => step is Keep,
        },
        _ => match state {
            EpisodeState::Dynamic { path, .. } => step == (PurgeStep::Purge { file: Some(path) }),
            _ => step == (PurgeStep::Purge { file: None }),
        },
    }
}

/// What a purge cycle does with an episode in the given state to which the rules give
/// `action`: it stays while it is in the window, is kept for good where a rule says to
/// download it, and is purged otherwise.
pub fn purge_step(state: &EpisodeState, action: Action) -> (res: PurgeStep)
    ensures
        is_purge_step(*state, action, res),
{
    match action {
        Action::Dynamic => PurgeStep::Keep,
        Action::Download => match state {
            EpisodeState::Dynamic { path, downloaded_at, sha256 } => PurgeStep::Promote(
                EpisodeState::Complete {
                    path: path.clone(),
                    downloaded_at: *downloaded_at,
                    sha256: sha256.clone(),
                },
            ),
            _ => PurgeStep::Keep,
        },
        _ => match state {
            EpisodeState::Dynamic { path, .. } => PurgeStep::Purge { file: Some(path.clone()) },
            _ => PurgeStep::Purge { file: None },
        },
    }
}

/// Runs the purge cycle over the dynamic episodes of a feed, with the positions in the feed as
/// it was just fetched. The result holds one step for each episode.
pub fn purge_cycle(
    dynamic_eps: &[Episode],
    parsed: &[Episode],
    feed: &Feed,
    engine: &RuleEngine,
    now: &UtcTime,
) -> (res: Vec<PurgeStep>)
    ensures
        res@.len() == dynamic_eps@.len(),
        forall|i: int|
            0 <= i < res@.len() ==> {
                let ep = dynamic_eps@[i];
                is_purge_step(
                    ep.state,
                    engine.action_at(ep.with_no(position_in(parsed@, ep.id@)), *feed, *now),
                    #[trigger] res@[i],
                )
            },
{
    let mut steps: Vec<PurgeStep> = Vec::new();
    for i in 0..dynamic_eps.len()
        invariant
            steps@.len() == i,
            forall|k: int|
                0 <= k < i ==> {
                    let ep = dynamic_eps@[k];
                    is_purge_step(
                        ep.state,
                        engine.action_at(ep.with_no(position_in(parsed@, ep.id@)), *feed, *now),
                        #[trigger] steps@[k],
                    )
                },
    {
        let mut placed = dynamic_eps[i].clone();
        placed.episode_no = find_position(parsed, &dynamic_eps[i].id);
        let action = engine.evaluate_at(&placed, feed, now);
        steps.push(purge_step(&dynamic_eps[i].state, action));
    }
    steps
}

/// A dynamic episode is purged exactly where the rules neither keep it in a window nor
/// download it, and one that is promoted keeps its file.
pub proof fn law_purge_only_outside_the_window(state: EpisodeState, action: Action, step: PurgeStep)
    requires
        is_purge_step(state, action, step),
    ensures
        step is Purge <==> action != Action::Dynamic && action != Action::Download,
        step matches PurgeStep::Promote(new_state) ==> (state matches EpisodeState::Dynamic {
            path,
            downloaded_at,
            sha256,
        } && new_state == (EpisodeState::Complete { path, downloaded_at, sha256 })),
{
}

/// The state of an episode that was purged at the moment `now`.
pub fn purged_state(now: UtcTime) -> (res: EpisodeState)
    ensures
        res == (EpisodeState::Purged { purged_at: now }),
{
    EpisodeState::Purged { purged_at: now }
}

// ---- The course of a sync ---------------------------------------------------------------------

/// What is being done for a feed.
#[derive(Clone, Copy, Debug, PartialEq, Eq, Structural)]
pub enum SyncStage {
    /// The feed is stored and gets its number.
    Identify,
    Fetch,
    /// What the fetch said of the feed is stored.
    StoreMeta,
    /// The fetched episodes are stored, and new ones get their action.
    TakeIn,
    /// The purge cycle runs.
    Purge,
    /// The rules are tried again on all pending episodes.
    Recheck,
    Finished,
}

/// A sync of a feed: the feed and its episodes as far as they are known, and what is being
/// done.
pub struct SyncRun {
    pub feed: Feed,
    pub episodes: Vec<Episode>,
    pub stage: SyncStage,
}

/// How what was being done ended.
pub enum SyncEvent {
    /// The feed was stored under this number; none where that failed.
    FeedStored(Option<FeedId>),
    /// The feed was fetched; none where that failed.
    Fetched(Option<(FeedMeta, Vec<Episode>)>),
    Done,
}

/// The start of a sync of a configured feed.
pub fn start_sync(fc: &FeedConfig) -> (res: SyncRun)
    ensures
        res.feed == helpers::config_feed(*fc),
        res.episodes@ == Seq::<Episode>::empty(),
        res.stage == SyncStage::Identify,
{
    SyncRun {
        feed: helpers::feed_from_config(fc),
        episodes: Vec::new(),
        stage: SyncStage::Identify,
    }
}

/// Whether `owned` are the episodes `eps` as those of the feed `id`.
pub open spec fn are_owned(eps: Seq<Episode>, id: FeedId, owned: Seq<Episode>) -> bool {
    &&& owned.len() == eps.len()
    &&& forall|i: int|
        #![trigger owned[i]]
        0 <= i < eps.len() ==> owned[i] == (Episode { feed_id: id, ..eps[i] })
}

fn own_episodes(eps: &Vec<Episode>, id: FeedId) -> (res: Vec<Episode>)
    ensures
        are_owned(eps@, id, res@),
{
    let mut owned: Vec<Episode> = Vec::new();
    for i in 0..eps.len()
        invariant
            owned@.len() == i,
            forall|k: int|
                #![trigger owned@[k]]
                0 <= k < i ==> owned@[k] == (Episode { feed_id: id, ..eps@[k] }),
    {
        let mut ep = eps[i].clone();
        ep.feed_id = id;
        owned.push(ep);
    }
    owned
}

/// Whether a run goes on from `run` to `next` without anything learnt.
pub open spec fn moves_to(run: SyncRun, stage: SyncStage, next: SyncRun) -> bool {
    next.feed == run.feed && next.episodes == run.episodes && next.stage == stage
}

/// Whether `next` follows `run` once the feed was stored to get its number.
pub open spec fn is_identified(run: SyncRun, event: SyncEvent, next: SyncRun) -> bool {
    match event {
        SyncEvent::FeedStored(Some(id)) => next.feed == (Feed { id, ..run.feed }) && next.episodes
            == run.episodes && next.stage == SyncStage::Fetch,
        _ => moves_to(run, SyncStage::Finished, next),
    }
}

/// Whether `next` follows where a sync stands at `run` and `event` has happened at the moment
/// `now`. A feed that cannot be stored or fetched ends the sync; what the fetch said of the
/// feed need not be stored for the episodes to be taken in.
pub open spec fn is_sync_step(
    run: SyncRun,
    event: SyncEvent,
    recheck: bool,
    now: UtcTime,
    next: SyncRun,
) -> bool {
    match run.stage {
        SyncStage::Identify => is_identified(run, event, next),
        SyncStage::Fetch => match event {
            SyncEvent::Fetched(Some(got)) => {
                &&& next.feed == feed_after_fetch(run.feed, got.0, now)
                &&& are_owned(got.1@, run.feed.id, next.episodes@)
                &&& next.stage == SyncStage::StoreMeta
            },
            _ => moves_to(run, SyncStage::Finished, next),
        },
        SyncStage::StoreMeta => moves_to(run, SyncStage::TakeIn, next),
        SyncStage::TakeIn => moves_to(run, SyncStage::Purge, next),
        SyncStage::Purge => moves_to(
            run,
            if recheck {
                SyncStage::Recheck
            } else {
                SyncStage::Finished
            },
            next,
        ),
        _ => moves_to(run, SyncStage::Finished, next),
    }
}

fn move_to(run: SyncRun, stage: SyncStage) -> (res: SyncRun)
    ensures
        moves_to(run, stage, res),
{
    SyncRun { feed: run.feed, episodes: run.episodes, stage }
}

fn identify(run: SyncRun, event: SyncEvent) -> (res: SyncRun)
    ensures
        is_identified(run, event, res),
{
    match event {
        SyncEvent::FeedStored(Some(id)) => {
            let mut feed = run.feed;
            feed.id = id;
            SyncRun { feed, episodes: run.episodes, stage: SyncStage::Fetch }
        },
        _ => move_to(run, SyncStage::Finished),
    }
}

/// Where a sync of a feed stands after `event`. With `recheck` the rules are tried again on
/// all pending episodes at the end.
pub fn sync_one_feed(run: SyncRun, event: SyncEvent, recheck: bool, now: UtcTime) -> (res: SyncRun)
    ensures
        is_sync_step(run, event, recheck, now, res),
{
    match run.stage {
        SyncStage::Identify => identify(run, event),
        SyncStage::Fetch => match event {
            SyncEvent::Fetched(Some((meta, episodes))) => {
                let episodes = own_episodes(&episodes, run.feed.id);
                SyncRun {
                    feed: fetched_feed(run.feed, meta, now),
                    episodes,
                    stage: SyncStage::StoreMeta,
                }
            },
            _ => move_to(run, SyncStage::Finished),
        },
        SyncStage::StoreMeta => move_to(run, SyncStage::TakeIn),
        SyncStage::TakeIn => move_to(run, SyncStage::Purge),
        SyncStage::Purge => move_to(
            run,
            if recheck {
                SyncStage::Recheck
            } else {
                SyncStage::Finished
            },
        ),
        _ => move_to(run, SyncStage::Finished),
    }
}

/// Whether `next` follows where a purge of a feed stands at `run` and `event` has happened.
pub open spec fn is_purge_run_step(run: SyncRun, event: SyncEvent, next: SyncRun) -> bool {
    match run.stage {
        SyncStage::Identify => is_identified(run, event, next),
        SyncStage::Fetch => match event {
            SyncEvent::Fetched(Some(got)) => {
                &&& next.feed == run.feed
                &&& next.episodes == got.1
                &&& next.stage == SyncStage::Purge
            },
            _ => moves_to(run, SyncStage::Finished, next),
        },
        _ => moves_to(run, SyncStage::Finished, next),
    }
}

/// Where a purge of a feed stands after `event`: the feed is fetched, and the purge cycle runs
/// alone.
pub fn purge_one_feed(run: SyncRun, event: SyncEvent) -> (res: SyncRun)
    ensures
        is_purge_run_step(run, event, res),
{
    match run.stage {
        SyncStage::Identify => identify(run, event),
        SyncStage::Fetch => match event {
            SyncEvent::Fetched(Some((_, episodes))) => SyncRun {
                feed: run.feed,
                episodes,
                stage: SyncStage::Purge,
            },
            _ => move_to(run, SyncStage::Finished),
        },
        _ => move_to(run, SyncStage::Finished),
    }
}

/// A step of a sync.
pub struct SyncStep {
    pub event: SyncEvent,
    pub now: UtcTime,
    pub next: SyncRun,
}

/// Whether step `i` of a sync that begins with `start` is one that can be taken.
pub open spec fn can_take(start: SyncRun, steps: Seq<SyncStep>, recheck: bool, i: int) -> bool {
    let before = if i == 0 {
        start
    } else {
        steps[i - 1].next
    };
    is_sync_step(before, steps[i].event, recheck, steps[i].now, steps[i].next)
}

/// Whether steps are a possible course of a sync that begins with `start`.
pub open spec fn is_sync_course(start: SyncRun, steps: Seq<SyncStep>, recheck: bool) -> bool {
    &&& start.stage == SyncStage::Identify
    &&& forall|i: int| 0 <= i < steps.len() ==> #[trigger] can_take(start, steps, recheck, i)
}

/// Whether a step brought the episodes of a feed.
pub open spec fn brings_episodes(step: SyncStep) -> bool {
    step.event matches SyncEvent::Fetched(Some(_))
}

/// Whether episodes are taken in, purged or rechecked in a stage.
pub open spec fn touches_episodes(stage: SyncStage) -> bool {
    stage == SyncStage::TakeIn || stage == SyncStage::Purge || stage == SyncStage::Recheck
}

/// A sync takes in, purges and rechecks episodes only after the feed was fetched: a fetch that
/// fails leaves every episode as it is.
pub proof fn law_failed_fetch_touches_no_episode(
    start: SyncRun,
    steps: Seq<SyncStep>,
    recheck: bool,
    i: int,
)
    requires
        is_sync_course(start, steps, recheck),
        0 <= i < steps.len(),
        touches_episodes(steps[i].next.stage) || steps[i].next.stage == SyncStage::StoreMeta,
    ensures
        exists|j: int| 0 <= j <= i && brings_episodes(#[trigger] steps[j]),
    decreases i,
{
    assert(can_take(start, steps, recheck, i));
    if steps[i].next.stage == SyncStage::StoreMeta {
        assert(brings_episodes(steps[i]));
    } else {
        assert(i > 0);
        law_failed_fetch_touches_no_episode(start, steps, recheck, i - 1);
    }
}

/// Pending episodes are rechecked only where that was asked for, and after the purge cycle.
pub proof fn law_recheck_comes_last(
    start: SyncRun,
    steps: Seq<SyncStep>,
    recheck: bool,
    i: int,
)
    requires
        is_sync_course(start, steps, recheck),
        0 <= i < steps.len(),
        steps[i].next.stage == SyncStage::Recheck,
    ensures
        recheck,
        0 < i,
        steps[i - 1].next.stage == SyncStage::Purge,
        i + 1 < steps.len() ==> steps[i + 1].next.stage == SyncStage::Finished,
{
    assert(can_take(start, steps, recheck, i));
    if i + 1 < steps.len() {
        assert(can_take(start, steps, recheck, i + 1));
    }
}

// ---- Laws -------------------------------------------------------------------------------------

/// The position of an episode is the one of the entry with its identifier in the fetched feed,
/// of the last one where there are several, and the last possible one where there is none.
pub proof fn law_position_is_that_of_the_fetched_entry(
    parsed: Seq<Episode>,
    id: Seq<char>,
    i: int,
)
    ensures
        0 <= i < parsed.len() && parsed[i].id@ == id && (forall|j: int|
            i < j < parsed.len() ==> (#[trigger] parsed[j]).id@ != id) ==> position_in(parsed, id)
            == parsed[i].episode_no,
        (forall|j: int| 0 <= j < parsed.len() ==> (#[trigger] parsed[j]).id@ != id) ==> position_in(
            parsed,
            id,
        ) == usize::MAX,
    decreases parsed.len(),
{
    if parsed.len() > 0 {
        assert(parsed.last() == parsed[parsed.len() - 1]);
        law_position_is_that_of_the_fetched_entry(parsed.drop_last(), id, i);
    }
}

/// What a recheck gives an episode does not depend on the position that was stored with it.
pub proof fn law_recheck_ignores_the_stored_position(
    ep: Episode,
    stored: usize,
    parsed: Seq<Episode>,
    feed: Feed,
    engine: RuleEngine,
    now: UtcTime,
)
    ensures
        recheck_action(Episode { episode_no: stored, ..ep }, parsed, feed, engine, now)
            == recheck_action(ep, parsed, feed, engine, now),
{
}

/// A recheck gives a pending episode the action that the engine gives it at the position of the
/// entry with its identifier in the fetched feed, or at the last possible position where the
/// feed has no such entry. A discovered episode always gets it, a matched one only where it is
/// another than before, and an episode that is not pending gets none.
pub proof fn law_recheck_goes_by_the_fetched_position(
    ep: Episode,
    parsed: Seq<Episode>,
    feed: Feed,
    engine: RuleEngine,
    now: UtcTime,
    no: usize,
)
    requires
        (exists|i: int|
            0 <= i < parsed.len() && (#[trigger] parsed[i]).id@ == ep.id@ && parsed[i].episode_no
                == no && forall|j: int|
                i < j < parsed.len() ==> (#[trigger] parsed[j]).id@ != ep.id@) || (no == usize::MAX
            && forall|j: int| 0 <= j < parsed.len() ==> (#[trigger] parsed[j]).id@ != ep.id@),
    ensures
        ({
            let action = engine.action_at(Episode { episode_no: no, ..ep }, feed, now);
            recheck_action(ep, parsed, feed, engine, now) == match ep.state {
                EpisodeState::Discovered => Some(action),
                EpisodeState::Matched(a) => if a == action {
                    None
                } else {
                    Some(action)
                },
                EpisodeState::Downloading { .. } => None,
                EpisodeState::Complete { .. } => None,
                EpisodeState::Dynamic { .. } => None,
                EpisodeState::Failed { .. } => None,
                EpisodeState::Quarantined { .. } => None,
                EpisodeState::Purged { .. } => None,
            }
        }),
{
    if forall|j: int| 0 <= j < parsed.len() ==> (#[trigger] parsed[j]).id@ != ep.id@ {
        law_position_is_that_of_the_fetched_entry(parsed, ep.id@, 0);
    } else {
        let i = choose|i: int|
            0 <= i < parsed.len() && (#[trigger] parsed[i]).id@ == ep.id@ && parsed[i].episode_no
                == no && forall|j: int|
                i < j < parsed.len() ==> (#[trigger] parsed[j]).id@ != ep.id@;
        law_position_is_that_of_the_fetched_entry(parsed, ep.id@, i);
    }
}

/// With a window over the last `n` episodes and no other rule, a recheck makes a discovered
/// episode dynamic exactly where it is among the first `n` of the fetched feed.
pub proof fn law_recheck_fills_the_window_of_the_fetched_feed(
    ep: Episode,
    parsed: Seq<Episode>,
    feed: Feed,
    engine: RuleEngine,
    now: UtcTime,
    window: DynamicRuleConfig,
    n: usize,
    default: Action,
)
    requires
        window.match_ == (DynamicRuleKind::LastNEpisodes { last_n_episodes: n }),
        forall|e: Episode|
            #![trigger engine.action_at(e, feed, now)]
            engine.action_at(e, feed, now) == engine::decision(
                Seq::empty(),
                Seq::empty().push(window),
                Seq::empty(),
                Seq::empty(),
                default,
                e,
                now,
            ),
        default != Action::Dynamic,
        ep.state is Discovered,
        forall|i: int| 0 <= i < parsed.len() ==> (#[trigger] parsed[i]).episode_no == i,
        forall|i: int, j: int|
            0 <= i < j < parsed.len() ==> (#[trigger] parsed[i]).id@ != (#[trigger] parsed[j]).id@,
    ensures
        recheck_action(ep, parsed, feed, engine, now) == if exists|i: int|
            0 <= i < n && i < parsed.len() && (#[trigger] parsed[i]).id@ == ep.id@ {
            Some(Action::Dynamic)
        } else {
            Some(default)
        },
{
    let dynamic = Seq::<DynamicRuleConfig>::empty().push(window);
    let i = if exists|i: int| 0 <= i < parsed.len() && (#[trigger] parsed[i]).id@ == ep.id@ {
        choose|i: int| 0 <= i < parsed.len() && (#[trigger] parsed[i]).id@ == ep.id@
    } else {
        0
    };
    law_position_is_that_of_the_fetched_entry(parsed, ep.id@, i);
    let no = position_in(parsed, ep.id@);
    let placed = ep.with_no(no);
    assert(dynamic[0] == window);
    assert(engine::in_window(dynamic, placed, now) == engine::dynamic_applies(
        dynamic[0].match_,
        placed,
        now,
    ));
    assert(!engine::in_window(Seq::empty(), placed, now));
    assert(engine.action_at(placed, feed, now) == if no < n {
        Action::Dynamic
    } else {
        default
    });
}

/// A recheck gives each pending episode whose action changes exactly one new action, in the
/// order of the episodes, and nothing to any other.
pub proof fn law_recheck_reassigns_each_changed_episode(
    eps: Seq<Episode>,
    parsed: Seq<Episode>,
    feed: Feed,
    engine: RuleEngine,
    now: UtcTime,
    i: int,
)
    requires
        0 <= i < eps.len(),
    ensures
        reassigned(eps.take(i + 1), parsed, feed, engine, now) == match recheck_action(
            eps[i],
            parsed,
            feed,
            engine,
            now,
        ) {
            Some(action) => reassigned(eps.take(i), parsed, feed, engine, now).push(
                Reassigned { id: eps[i].id, action },
            ),
            None => reassigned(eps.take(i), parsed, feed, engine, now),
        },
        reassigned(Seq::empty(), parsed, feed, engine, now).len() == 0,
{
    assert(eps.take(i + 1).drop_last() =~= eps.take(i));
}

/// What becomes of an episode of a fetched feed. One that was known before is left alone,
/// whatever its action. A new one is put in the queue first where its action is to download it
/// or to keep it dynamically, and is marked with its action at once where it is another one.
/// One that cannot be queued stays unmarked, and one that cannot be stored is dropped.
pub proof fn law_what_becomes_of_a_fetched_episode(action: Action, other: Action)
    ensures
        step_after(NewEpisodeStep::Store, NewEpisodeEvent::Stored { is_new: false }, action)
            == NewEpisodeStep::Finished,
        step_after(NewEpisodeStep::Store, NewEpisodeEvent::Failed, action)
            == NewEpisodeStep::Finished,
        step_after(NewEpisodeStep::Store, NewEpisodeEvent::Stored { is_new: true }, action)
            == match action {
            Action::Download => NewEpisodeStep::Enqueue(Action::Download),
            Action::Dynamic => NewEpisodeStep::Enqueue(Action::Dynamic),
            _ => NewEpisodeStep::SetMatched(action),
        },
        step_after(NewEpisodeStep::Enqueue(action), NewEpisodeEvent::Done, other)
            == NewEpisodeStep::SetMatched(action),
        step_after(NewEpisodeStep::Enqueue(action), NewEpisodeEvent::Failed, other)
            == NewEpisodeStep::Finished,
        forall|event: NewEpisodeEvent|
            #[trigger] step_after(NewEpisodeStep::SetMatched(action), event, other)
                == NewEpisodeStep::Finished,
        forall|event: NewEpisodeEvent|
            #[trigger] step_after(NewEpisodeStep::Finished, event, other)
                == NewEpisodeStep::Finished,
{
}

/// A fetch changes only what it says of the feed: the address, the slug, the number and whether
/// the feed is enabled stay, and so does the title where the fetch brings none. The entity tag,
/// the date and the image are those of this fetch, also where it brings none.
pub proof fn law_what_a_fetch_changes(feed: Feed, meta: FeedMeta, now: UtcTime)
    ensures
        ({
            let after = feed_after_fetch(feed, meta, now);
            &&& after.id == feed.id
            &&& after.url == feed.url
            &&& after.slug == feed.slug
            &&& after.enabled == feed.enabled
            &&& after.last_fetched_at == Some(now)
            &&& meta.title is Some ==> after.title == meta.title
            &&& meta.title is None ==> after.title == feed.title
            &&& after.etag == meta.etag
            &&& after.last_modified == meta.last_modified
            &&& after.image_url == meta.image_url
        }),
{
}

/// What a purge cycle does with an episode for each action that the rules give it: in a window
/// it stays, a download is kept for good with its file, moment and digest, and after any other
/// action it is purged together with the file that it has.
pub proof fn law_what_a_purge_cycle_does(state: EpisodeState, action: Action, step: PurgeStep)
    requires
        is_purge_step(state, action, step),
    ensures
        action == Action::Dynamic ==> step is Keep,
        action == Action::Download ==> match state {
            EpisodeState::Dynamic { path, downloaded_at, sha256 } => step == PurgeStep::Promote(
                EpisodeState::Complete { path, downloaded_at, sha256 },
            ),
            _ => step is Keep,
        },
        action == Action::Skip || action == Action::Purge || action == Action::Archive || action
            == Action::Quarantine ==> match state {
            EpisodeState::Dynamic { path, .. } => step == (PurgeStep::Purge { file: Some(path) }),
            _ => step == (PurgeStep::Purge { file: None }),
        },
{
}

/// The stages of a sync follow one another in one order: a feed is identified, fetched, stored,
/// its episodes taken in, then the purge cycle runs, and at the end pending episodes are
/// rechecked where that was asked for. Every fetched episode is taken in as one of this feed.
pub proof fn law_stages_of_a_sync(
    run: SyncRun,
    event: SyncEvent,
    recheck: bool,
    now: UtcTime,
    next: SyncRun,
)
    requires
        is_sync_step(run, event, recheck, now, next),
    ensures
        run.stage == SyncStage::Identify ==> match event {
            SyncEvent::FeedStored(Some(id)) => next.stage == SyncStage::Fetch && next.feed == (Feed {
                id,
                ..run.feed
            }),
            _ => next.stage == SyncStage::Finished && next.feed == run.feed,
        },
        run.stage == SyncStage::Fetch ==> match event {
            SyncEvent::Fetched(Some(got)) => {
                &&& next.stage == SyncStage::StoreMeta
                &&& next.feed == feed_after_fetch(run.feed, got.0, now)
                &&& next.episodes@.len() == got.1@.len()
                &&& forall|i: int|
                    0 <= i < got.1@.len() ==> #[trigger] next.episodes@[i] == (Episode {
                        feed_id: run.feed.id,
                        ..got.1@[i]
                    })
            },
            _ => next.stage == SyncStage::Finished && next.episodes == run.episodes,
        },
        run.stage == SyncStage::StoreMeta ==> next.stage == SyncStage::TakeIn,
        run.stage == SyncStage::TakeIn ==> next.stage == SyncStage::Purge,
        run.stage == SyncStage::Purge && recheck ==> next.stage == SyncStage::Recheck,
        run.stage == SyncStage::Purge && !recheck ==> next.stage == SyncStage::Finished,
        run.stage == SyncStage::Recheck || run.stage == SyncStage::Finished ==> next.stage
            == SyncStage::Finished,
        run.stage != SyncStage::Identify && run.stage != SyncStage::Fetch ==> next.feed == run.feed
            && next.episodes == run.episodes,
{
}

/// A purge alone takes in nothing and rechecks nothing: after the fetch only the purge cycle
/// runs, over the episodes as they were fetched.
pub proof fn law_stages_of_a_purge(run: SyncRun, event: SyncEvent, next: SyncRun)
    requires
        is_purge_run_step(run, event, next),
    ensures
        run.stage == SyncStage::Identify ==> match event {
            SyncEvent::FeedStored(Some(id)) => next.stage == SyncStage::Fetch && next.feed == (Feed {
                id,
                ..run.feed
            }),
            _ => next.stage == SyncStage::Finished,
        },
        run.stage == SyncStage::Fetch ==> match event {
            SyncEvent::Fetched(Some(got)) => next.stage == SyncStage::Purge && next.feed == run.feed
                && next.episodes == got.1,
            _ => next.stage == SyncStage::Finished,
        },
        run.stage != SyncStage::Identify && run.stage != SyncStage::Fetch ==> next.stage
            == SyncStage::Finished,
{
}

} // verus!
