//! The browser of the episodes of a feed.
use crate::episode::{Action, Episode, EpisodeState};
use crate::ids::{EpisodeId, FeedId};
use crate::rules::config::FeedConfig;
use crate::server::config::ServerConfig;
use crate::text;
use crate::time;
use crate::tui::shared;
use crate::tui::shared::{Color, Key, Rect};
use vstd::prelude::*;
use vstd::string::*;

verus! {

// ---- States of episodes ----------------------------------------------------------------------

/// How the state of an episode is shown.
#[derive(Clone, Copy, Debug)]
pub struct EpStyle {
    pub symbol: &'static str,
    pub color: Color,
}

/// The symbol and the colour of a state.
pub open spec fn style_of(state: EpisodeState) -> (Seq<char>, Color) {
    match state {
        EpisodeState::Complete { .. } => ("✓"@, Color::Green),
        EpisodeState::Dynamic { .. } => ("✓"@, Color::Green),
        EpisodeState::Matched(a) => match a {
            Action::Download => ("↓"@, Color::Cyan),
            Action::Dynamic => ("↓"@, Color::Cyan),
            Action::Skip => ("–"@, Color::DarkGray),
            Action::Purge => ("–"@, Color::DarkGray),
            _ => (" "@, Color::Reset),
        },
        EpisodeState::Discovered => ("?"@, Color::Yellow),
        EpisodeState::Quarantined { .. } => ("!"@, Color::Red),
        EpisodeState::Purged { .. } => ("–"@, Color::DarkGray),
        EpisodeState::Failed { .. } => ("↓"@, Color::Blue),
        EpisodeState::Downloading { .. } => ("↓"@, Color::Blue),
    }
}

/// How the state of an episode is shown.
pub fn ep_style(state: &EpisodeState) -> (res: EpStyle)
    ensures
        (res.symbol@, res.color) == style_of(*state),
{
    match state {
        EpisodeState::Complete { .. } => EpStyle { symbol: "✓", color: Color::Green },
        EpisodeState::Dynamic { .. } => EpStyle { symbol: "✓", color: Color::Green },
        EpisodeState::Matched(a) => match a {
            Action::Download => EpStyle { symbol: "↓", color: Color::Cyan },
            Action::Dynamic => EpStyle { symbol: "↓", color: Color::Cyan },
            Action::Skip => EpStyle { symbol: "–", color: Color::DarkGray },
            Action::Purge => EpStyle { symbol: "–", color: Color::DarkGray },
            _ => EpStyle { symbol: " ", color: Color::Reset },
        },
        EpisodeState::Discovered => EpStyle { symbol: "?", color: Color::Yellow },
        EpisodeState::Quarantined { .. } => EpStyle { symbol: "!", color: Color::Red },
        EpisodeState::Purged { .. } => EpStyle { symbol: "–", color: Color::DarkGray },
        EpisodeState::Failed { .. } => EpStyle { symbol: "↓", color: Color::Blue },
        EpisodeState::Downloading { .. } => EpStyle { symbol: "↓", color: Color::Blue },
    }
}

// ---- State -----------------------------------------------------------------------------------

/// A question or a note over the list, about the episode at a place among all episodes.
#[derive(Clone, Copy, Debug, PartialEq, Eq, Structural)]
pub enum Popup {
    Url { ep_idx: usize },
    ConfirmDelete { ep_idx: usize },
}

/// The state of the browser of episodes.
#[derive(Debug)]
pub struct State {
    pub feed_id: FeedId,
    pub feed_slug: String,
    pub feed_title: String,
    pub feed_cfg: Option<FeedConfig>,
    /// All episodes of the feed, the newest first.
    pub all: Vec<Episode>,
    /// The places in `all` of the episodes that pass the filter.
    pub visible: Vec<usize>,
    pub filter: String,
    pub filter_mode: bool,
    pub selected: usize,
    pub popup: Option<Popup>,
    pub server_cfg: Option<ServerConfig>,
    /// A message that stands until the next key.
    pub status: String,
}

/// Whether an episode passes a filter: its title holds the filter, in whatever case.
pub open spec fn passes(ep: Episode, filter: Seq<char>) -> bool {
    text::contains_text(text::lowercase(ep.title@), text::lowercase(filter))
}

/// The places of the episodes that pass a filter.
pub open spec fn passing(all: Seq<Episode>, filter: Seq<char>) -> Seq<usize>
    decreases all.len(),
{
    if all.len() == 0 {
        Seq::empty()
    } else {
        let earlier = passing(all.drop_last(), filter);
        if passes(all.last(), filter) {
            earlier.push((all.len() - 1) as usize)
        } else {
            earlier
        }
    }
}

/// How many episodes have a file.
pub open spec fn complete_count(all: Seq<Episode>) -> nat
    decreases all.len(),
{
    if all.len() == 0 {
        0
    } else {
        complete_count(all.drop_last()) + if all.last().state is Complete || all.last().state is Dynamic {
            1nat
        } else {
            0nat
        }
    }
}

proof fn lemma_passing_places(all: Seq<Episode>, filter: Seq<char>)
    requires
        all.len() <= usize::MAX,
    ensures
        forall|k: int|
            0 <= k < passing(all, filter).len() ==> (#[trigger] passing(all, filter)[k]) < all.len(),
        passing(all, filter).len() <= all.len(),
    decreases all.len(),
{
    if all.len() > 0 {
        lemma_passing_places(all.drop_last(), filter);
    }
}

/// Exactly the episodes that pass the filter are listed, each once and in their order.
pub proof fn law_filter_lists_what_passes(all: Seq<Episode>, filter: Seq<char>)
    requires
        all.len() <= usize::MAX,
    ensures
        forall|i: int|
            #![trigger all[i]]
            0 <= i < all.len() ==> (passes(all[i], filter) <==> passing(all, filter).contains(
                i as usize,
            )),
        forall|j: int, k: int|
            #![trigger passing(all, filter)[j], passing(all, filter)[k]]
            0 <= j < k < passing(all, filter).len() ==> passing(all, filter)[j] < passing(
                all,
                filter,
            )[k],
    decreases all.len(),
{
    if all.len() > 0 {
        let rest = all.drop_last();
        let earlier = passing(rest, filter);
        let list = passing(all, filter);
        law_filter_lists_what_passes(rest, filter);
        lemma_passing_places(rest, filter);
        let last = (all.len() - 1) as usize;
        assert forall|i: int| #![trigger all[i]] 0 <= i < all.len() implies (passes(all[i], filter)
            <==> list.contains(i as usize)) by {
            if i < rest.len() {
                assert(rest[i] == all[i]);
                if earlier.contains(i as usize) {
                    let k = choose|k: int| 0 <= k < earlier.len() && earlier[k] == i as usize;
                    assert(list[k] == i as usize);
                }
                if list.contains(i as usize) {
                    let k = choose|k: int| 0 <= k < list.len() && list[k] == i as usize;
                    assert(k < earlier.len());
                    assert(earlier[k] == i as usize);
                }
            } else {
                if passes(all[i], filter) {
                    assert(list[list.len() - 1] == last);
                }
                if list.contains(last) && !passes(all[i], filter) {
                    let k = choose|k: int| 0 <= k < list.len() && list[k] == last;
                    assert(earlier[k] < rest.len());
                }
            }
        }
    }
}

impl State {
    /// Whether the list holds what passes the filter, and the selection lies in it.
    pub open spec fn wf(self) -> bool {
        &&& self.visible@ == passing(self.all@, self.filter@)
        &&& self.selected == shared::clamped(self.selected as int, self.visible@.len() as int)
    }

    /// Whether two states are about the same feed.
    pub open spec fn same_feed(self, other: State) -> bool {
        &&& self.feed_id == other.feed_id
        &&& self.feed_slug == other.feed_slug
        &&& self.feed_title == other.feed_title
        &&& self.feed_cfg == other.feed_cfg
        &&& self.server_cfg == other.server_cfg
    }

    /// The browser at its start: all episodes are listed and the first is selected.
    pub fn new(
        feed_id: FeedId,
        slug: &str,
        title: &Option<String>,
        feed_cfg: Option<FeedConfig>,
        all: Vec<Episode>,
        server_cfg: Option<ServerConfig>,
    ) -> (res: State)
        ensures
            res.wf(),
            res.feed_id == feed_id,
            res.feed_slug@ == slug@,
            res.feed_title@ == (match title {
                Some(t) => t@,
                None => slug@,
            }),
            res.feed_cfg == feed_cfg,
            res.all == all,
            res.filter@ == ""@,
            !res.filter_mode,
            res.selected == 0,
            res.popup is None,
            res.server_cfg == server_cfg,
            res.status@ == ""@,
    {
        let feed_title = match title {
            Some(t) => t.clone(),
            None => slug.to_string(),
        };
        let mut state = State {
            feed_id,
            feed_slug: slug.to_string(),
            feed_title,
            feed_cfg,
            all,
            visible: Vec::new(),
            filter: "".to_string(),
            filter_mode: false,
            selected: 0,
            popup: None,
            server_cfg,
            status: "".to_string(),
        };
        state.refilter();
        state
    }

    /// Selects the entry at `idx` of the list, or the last one where there is none.
    pub fn select(&mut self, idx: usize)
        ensures
            *final(self) == (State {
                selected: shared::clamped(idx as int, old(self).visible@.len() as int) as usize,
                ..*old(self)
            }),
    {
        self.selected = shared::clamp(idx, self.visible.len());
    }

    /// Lists the episodes that pass the filter, and keeps the selection in the list.
    pub fn refilter(&mut self)
        ensures
            final(self).wf(),
            final(self).selected == shared::clamped(
                old(self).selected as int,
                final(self).visible@.len() as int,
            ),
            *final(self) == (State {
                visible: final(self).visible,
                selected: final(self).selected,
                ..*old(self)
            }),
    {
        let lower = text::to_lower(self.filter.as_str());
        let mut visible: Vec<usize> = Vec::new();
        for i in 0..self.all.len()
            invariant
                lower@ == text::lowercase(self.filter@),
                visible@ == passing(self.all@.take(i as int), self.filter@),
        {
            assert(self.all@.take(i + 1).drop_last() =~= self.all@.take(i as int));
            if text::text_contains(
                text::to_lower(self.all[i].title.as_str()).as_str(),
                lower.as_str(),
            ) {
                visible.push(i);
            }
        }
        assert(self.all@.take(self.all@.len() as int) =~= self.all@);
        self.visible = visible;
        let selected = self.selected;
        self.select(selected);
    }

    /// The episode that is selected, if one is.
    pub open spec fn chosen(self) -> Option<Episode> {
        if self.selected < self.visible@.len() && self.visible@[self.selected as int]
            < self.all@.len() {
            Some(self.all@[self.visible@[self.selected as int] as int])
        } else {
            None
        }
    }

    /// The episode that is selected.
    pub fn selected_ep(&self) -> (res: Option<&Episode>)
        ensures
            res == match self.chosen() {
                Some(ep) => Some(&ep),
                None => None,
            },
    {
        if self.selected < self.visible.len() {
            let i = self.visible[self.selected];
            if i < self.all.len() {
                return Some(&self.all[i]);
            }
        }
        None
    }

    /// How many episodes have a file.
    pub fn count_complete(&self) -> (res: usize)
        ensures
            res == complete_count(self.all@),
    {
        let mut n: usize = 0;
        for i in 0..self.all.len()
            invariant
                n == complete_count(self.all@.take(i as int)),
                n <= i,
        {
            assert(self.all@.take(i + 1).drop_last() =~= self.all@.take(i as int));
            match &self.all[i].state {
                EpisodeState::Complete { .. } => {
                    n = n + 1;
                },
                EpisodeState::Dynamic { .. } => {
                    n = n + 1;
                },
                _ => {},
            }
        }
        assert(self.all@.take(self.all@.len() as int) =~= self.all@);
        n
    }

    /// The state after the episodes were loaded again, with a message.
    pub fn reloaded(&mut self, all: Vec<Episode>, message: &str)
        ensures
            final(self).wf(),
            final(self).same_feed(*old(self)),
            final(self).all == all,
            final(self).selected == shared::clamped(
                old(self).selected as int,
                final(self).visible@.len() as int,
            ),
            final(self).filter == old(self).filter,
            final(self).filter_mode == old(self).filter_mode,
            final(self).popup == old(self).popup,
            final(self).status@ == message@,
    {
        self.all = all;
        self.refilter();
        self.status = message.to_string();
    }
}

// ---- Keys ------------------------------------------------------------------------------------

/// What a key asks for.
#[derive(Debug)]
#[allow(inconsistent_fields)]
pub enum Effect {
    Continue,
    /// Leave the browser.
    Back,
    /// Queue an episode for download, then load the episodes again.
    Download { id: EpisodeId },
    /// Take an episode out of the queue and skip it, then load the episodes again.
    Skip { id: EpisodeId },
    /// Delete the file of an episode, where it has one, and skip the episode; then load the
    /// episodes again.
    Delete { file: Option<String>, skipped: Option<EpisodeId> },
    /// Copy a text; the message about it becomes the status.
    Copy(String),
}

/// The state an episode gets by an effect, and the message about it.
pub fn effect_state(effect: &Effect) -> (res: Option<(EpisodeState, &'static str)>)
    ensures
        match effect {
            Effect::Download { .. } => res matches Some(p) && p.0 == EpisodeState::Matched(
                Action::Download,
            ) && p.1@ == "Queued for download"@,
            Effect::Skip { .. } => res matches Some(p) && p.0 == EpisodeState::Matched(Action::Skip)
                && p.1@ == "Marked as skipped"@,
            Effect::Delete { .. } => res matches Some(p) && p.0 == EpisodeState::Matched(
                Action::Skip,
            ) && p.1@ == "File deleted, episode marked as skipped"@,
            _ => res is None,
        },
{
    match effect {
        Effect::Download { .. } => Some(
            (EpisodeState::Matched(Action::Download), "Queued for download"),
        ),
        Effect::Skip { .. } => Some((EpisodeState::Matched(Action::Skip), "Marked as skipped")),
        Effect::Delete { .. } => Some(
            (EpisodeState::Matched(Action::Skip), "File deleted, episode marked as skipped"),
        ),
        _ => None,
    }
}

/// Where a key that moves the selection moves it to, in a list of `len` entries.
pub open spec fn moved(key: Key, selected: int, len: int) -> Option<int> {
    match key {
        Key::Up => Some(shared::clamped(shared::up_by(selected, 1), len)),
        Key::Char('k') => Some(shared::clamped(shared::up_by(selected, 1), len)),
        Key::Down => Some(shared::clamped(selected + 1, len)),
        Key::Char('j') => Some(shared::clamped(selected + 1, len)),
        Key::Home => Some(0),
        Key::Char('g') => Some(0),
        Key::End => Some(shared::clamped(len, len)),
        Key::Char('G') => Some(shared::clamped(len, len)),
        Key::PageUp => Some(shared::clamped(shared::up_by(selected, 10), len)),
        Key::PageDown => Some(shared::clamped(selected + 10, len)),
        _ => None,
    }
}

fn moved_to(key: Key, selected: usize, len: usize) -> (res: Option<usize>)
    ensures
        match res {
            Some(i) => moved(key, selected as int, len as int) == Some(i as int),
            None => moved(key, selected as int, len as int) is None,
        },
{
    match key {
        Key::Up => Some(shared::clamp(shared::move_up(selected, 1), len)),
        Key::Char('k') => Some(shared::clamp(shared::move_up(selected, 1), len)),
        Key::Down => Some(shared::move_down(selected, 1, len)),
        Key::Char('j') => Some(shared::move_down(selected, 1, len)),
        Key::Home => Some(0),
        Key::Char('g') => Some(0),
        Key::End => Some(shared::clamp(len, len)),
        Key::Char('G') => Some(shared::clamp(len, len)),
        Key::PageUp => Some(shared::clamp(shared::move_up(selected, 10), len)),
        Key::PageDown => Some(shared::move_down(selected, 10, len)),
        _ => None,
    }
}

/// Whether `effect` is what a key that does not move the selection asks for, and `after` what
/// it makes of the state.
pub open spec fn is_normal_key(
    state: State,
    key: Key,
    ctrl: bool,
    effect: Effect,
    after: State,
) -> bool {
    match key {
        Key::Char('/') => effect is Continue && after == (State { filter_mode: true, ..state }),
        Key::Char('d') => after == state && match state.chosen() {
            Some(ep) => effect matches Effect::Download { id } && id@ == ep.id@,
            None => effect is Continue,
        },
        Key::Char('s') => after == state && match state.chosen() {
            Some(ep) => effect matches Effect::Skip { id } && id@ == ep.id@,
            None => effect is Continue,
        },
        Key::Char('x') => effect is Continue && after == if state.selected < state.visible@.len() {
            State {
                popup: Some(
                    Popup::ConfirmDelete { ep_idx: state.visible@[state.selected as int] },
                ),
                ..state
            }
        } else {
            state
        },
        Key::Char('q') => effect is Back && after == state,
        Key::Esc => effect is Back && after == state,
        Key::Char('c') => (effect is Back <==> ctrl) && (effect is Continue <==> !ctrl) && after
            == state,
        _ => if key == Key::Char('u') || key == Key::Enter {
            effect is Continue && after == if state.selected < state.visible@.len() {
                State {
                    popup: Some(Popup::Url { ep_idx: state.visible@[state.selected as int] }),
                    ..state
                }
            } else {
                state
            }
        } else {
            effect is Continue && after == state
        },
    }
}

/// Answers to a key while the list is shown.
pub fn handle_key_normal(state: &mut State, key: Key, ctrl: bool) -> (res: Effect)
    ensures
        match moved(key, old(state).selected as int, old(state).visible@.len() as int) {
            Some(i) => res is Continue && *final(state) == (State {
                selected: i as usize,
                ..*old(state)
            }),
            None => is_normal_key(*old(state), key, ctrl, res, *final(state)),
        },
        old(state).wf() ==> final(state).wf(),
{
    if let Some(i) = moved_to(key, state.selected, state.visible.len()) {
        state.select(i);
        return Effect::Continue;
    }
    match key {
        Key::Char('/') => {
            state.filter_mode = true;
            Effect::Continue
        },
        Key::Char('d') => match state.selected_ep() {
            Some(ep) => Effect::Download { id: ep.id.clone() },
            None => Effect::Continue,
        },
        Key::Char('s') => match state.selected_ep() {
            Some(ep) => Effect::Skip { id: ep.id.clone() },
            None => Effect::Continue,
        },
        Key::Char('x') => {
            if state.selected < state.visible.len() {
                let ep_idx = state.visible[state.selected];
                state.popup = Some(Popup::ConfirmDelete { ep_idx });
            }
            Effect::Continue
        },
        Key::Char('u') => {
            if state.selected < state.visible.len() {
                let ep_idx = state.visible[state.selected];
                state.popup = Some(Popup::Url { ep_idx });
            }
            Effect::Continue
        },
        Key::Enter => {
            if state.selected < state.visible.len() {
                let ep_idx = state.visible[state.selected];
                state.popup = Some(Popup::Url { ep_idx });
            }
            Effect::Continue
        },
        Key::Char('q') => Effect::Back,
        Key::Esc => Effect::Back,
        Key::Char('c') => if ctrl {
            Effect::Back
        } else {
            Effect::Continue
        },
        _ => Effect::Continue,
    }
}

/// What a key makes of the filter: its text, and whether it is still being written.
pub open spec fn filter_after(key: Key, filter: Seq<char>) -> (Seq<char>, bool) {
    match key {
        Key::Esc => (Seq::empty(), false),
        Key::Enter => (filter, false),
        Key::Backspace => if filter.len() > 0 {
            (filter.drop_last(), true)
        } else {
            (filter, true)
        },
        Key::Char(c) => (filter.push(c), true),
        _ => (filter, true),
    }
}

/// Answers to a key while the filter is written.
pub fn handle_key_filter(state: &mut State, key: Key) -> (res: Effect)
    requires
        old(state).wf(),
        old(state).filter_mode,
    ensures
        res is Continue,
        final(state).wf(),
        final(state).same_feed(*old(state)),
        final(state).all == old(state).all,
        final(state).popup == old(state).popup,
        final(state).status == old(state).status,
        (final(state).filter@, final(state).filter_mode) == filter_after(key, old(state).filter@),
        final(state).selected == shared::clamped(
            old(state).selected as int,
            final(state).visible@.len() as int,
        ),
{
    match key {
        Key::Esc => {
            state.filter_mode = false;
            state.filter = "".to_string();
            proof {
                reveal_strlit("");
                assert(""@ =~= Seq::empty());
            }
            state.refilter();
        },
        Key::Enter => {
            state.filter_mode = false;
        },
        Key::Backspace => {
            state.filter = without_last(state.filter.as_str());
            state.refilter();
        },
        Key::Char(c) => {
            state.filter.push(c);
            state.refilter();
        },
        _ => {},
    }
    Effect::Continue
}

fn without_last(s: &str) -> (res: String)
    ensures
        res@ == if s@.len() > 0 {
            s@.drop_last()
        } else {
            s@
        },
{
    let chars = text::chars_of(s);
    let mut out = String::new();
    let n = chars.len();
    if n == 0 {
        return out;
    }
    for i in 0..n - 1
        invariant
            0 < n == chars@.len(),
            chars@ == s@,
            out@ == s@.take(i as int),
    {
        out.push(chars[i]);
        assert(s@.take(i + 1) =~= s@.take(i as int).push(s@[i as int]));
    }
    assert(s@.take(n - 1) =~= s@.drop_last());
    out
}

/// The file of an episode, where it has one.
pub open spec fn file_of(ep: Episode) -> Option<Seq<char>> {
    match ep.state {
        EpisodeState::Complete { path, .. } => Some(path@),
        EpisodeState::Dynamic { path, .. } => Some(path@),
        _ => None,
    }
}

fn ep_file(ep: &Episode) -> (res: Option<String>)
    ensures
        text::opt_text(res) == file_of(*ep),
{
    match &ep.state {
        EpisodeState::Complete { path, .. } => Some(path.clone()),
        EpisodeState::Dynamic { path, .. } => Some(path.clone()),
        _ => None,
    }
}

/// Whether `effect` is what a key asks for while a popup is shown, `status` the message it
/// leaves and `popup` what is shown then.
pub open spec fn is_popup_key(
    state: State,
    key: Key,
    effect: Effect,
    status: Seq<char>,
    popup: Option<Popup>,
) -> bool {
    match state.popup {
        Some(Popup::Url { ep_idx }) => match key {
            Key::Char('c') => popup is None && status == state.status@ && if ep_idx
                < state.all@.len() {
                effect matches Effect::Copy(t) && t@ == state.all@[ep_idx as int].enclosure_url@
            } else {
                effect is Continue
            },
            Key::Char('r') => popup is None && {
                let address = if ep_idx < state.all@.len() {
                    shared::episode_address(
                        state.feed_cfg,
                        state.server_cfg,
                        state.feed_slug@,
                        state.all@[ep_idx as int].id@,
                    )
                } else {
                    None
                };
                match address {
                    Some(a) => (effect matches Effect::Copy(t) && t@ == a) && status
                        == state.status@,
                    None => effect is Continue && status == "Restreaming not configured"@,
                }
            },
            _ => effect is Continue && status == state.status@ && popup == if key == Key::Esc || key
                == Key::Char('q') {
                None
            } else {
                state.popup
            },
        },
        Some(Popup::ConfirmDelete { ep_idx }) => match key {
            Key::Char('y') => popup is None && status == state.status@ && (effect matches Effect::Delete {
                file,
                skipped,
            } && if ep_idx < state.all@.len() {
                text::opt_text(file) == file_of(state.all@[ep_idx as int]) && (skipped matches Some(
                    id,
                ) && id@ == state.all@[ep_idx as int].id@)
            } else {
                file is None && skipped is None
            }),
            _ => effect is Continue && status == state.status@ && popup == if key == Key::Esc || key
                == Key::Char('n') {
                None
            } else {
                state.popup
            },
        },
        None => effect is Continue && status == state.status@ && popup is None,
    }
}

fn url_key(state: &mut State, key: Key, ep_idx: usize) -> (res: Effect)
    requires
        old(state).popup == Some(Popup::Url { ep_idx }),
    ensures
        is_popup_key(*old(state), key, res, final(state).status@, final(state).popup),
        *final(state) == (State {
            status: final(state).status,
            popup: final(state).popup,
            ..*old(state)
        }),
{
    match key {
        Key::Char('c') => {
            state.popup = None;
            if ep_idx < state.all.len() {
                Effect::Copy(state.all[ep_idx].enclosure_url.as_str().to_string())
            } else {
                Effect::Continue
            }
        },
        Key::Char('r') => {
            state.popup = None;
            if ep_idx < state.all.len() {
                let address = shared::episode_restream_url(
                    &state.feed_cfg,
                    &state.server_cfg,
                    state.feed_slug.as_str(),
                    state.all[ep_idx].id.as_str(),
                );
                if let Some(a) = address {
                    return Effect::Copy(a);
                }
            }
            state.status = "Restreaming not configured".to_string();
            Effect::Continue
        },
        Key::Esc => {
            state.popup = None;
            Effect::Continue
        },
        Key::Char('q') => {
            state.popup = None;
            Effect::Continue
        },
        _ => Effect::Continue,
    }
}

fn confirm_key(state: &mut State, key: Key, ep_idx: usize) -> (res: Effect)
    requires
        old(state).popup == Some(Popup::ConfirmDelete { ep_idx }),
    ensures
        is_popup_key(*old(state), key, res, final(state).status@, final(state).popup),
        *final(state) == (State { popup: final(state).popup, ..*old(state) }),
{
    match key {
        Key::Char('y') => {
            state.popup = None;
            if ep_idx < state.all.len() {
                let ep = &state.all[ep_idx];
                Effect::Delete { file: ep_file(ep), skipped: Some(ep.id.clone()) }
            } else {
                Effect::Delete { file: None, skipped: None }
            }
        },
        Key::Esc => {
            state.popup = None;
            Effect::Continue
        },
        Key::Char('n') => {
            state.popup = None;
            Effect::Continue
        },
        _ => Effect::Continue,
    }
}

/// Answers to a key while a popup is shown.
pub fn handle_key_popup(state: &mut State, key: Key) -> (res: Effect)
    ensures
        is_popup_key(*old(state), key, res, final(state).status@, final(state).popup),
        *final(state) == (State {
            status: final(state).status,
            popup: final(state).popup,
            ..*old(state)
        }),
        old(state).wf() ==> final(state).wf(),
{
    match state.popup {
        Some(Popup::Url { ep_idx }) => url_key(state, key, ep_idx),
        Some(Popup::ConfirmDelete { ep_idx }) => confirm_key(state, key, ep_idx),
        None => Effect::Continue,
    }
}

/// Whether `effect` is what a key asks for, and `after` what it makes of the state.
pub open spec fn is_answer(state: State, key: Key, ctrl: bool, effect: Effect, after: State) -> bool {
    if state.popup is Some {
        is_popup_key(state, key, effect, after.status@, after.popup) && after == (State {
            status: after.status,
            popup: after.popup,
            ..state
        })
    } else if state.filter_mode {
        &&& effect is Continue
        &&& after.same_feed(state)
        &&& after.all == state.all
        &&& after.popup is None
        &&& after.status@ == state.status@
        &&& (after.filter@, after.filter_mode) == filter_after(key, state.filter@)
        &&& after.selected == shared::clamped(state.selected as int, after.visible@.len() as int)
    } else {
        match moved(key, state.selected as int, state.visible@.len() as int) {
            Some(i) => effect is Continue && after == (State { selected: i as usize, ..state }),
            None => is_normal_key(state, key, ctrl, effect, after),
        }
    }
}

/// Answers to a key: in the popup where one is shown, else in the filter while that is
/// written, else in the list. The message of the key before it goes.
pub fn handle_key(state: &mut State, key: Key, ctrl: bool) -> (res: Effect)
    requires
        old(state).wf(),
    ensures
        final(state).wf(),
        exists|cleared: String| #[trigger]
            cleared@ == ""@ && is_answer(
                State { status: cleared, ..*old(state) },
                key,
                ctrl,
                res,
                *final(state),
            ),
{
    state.status = "".to_string();
    let ghost cleared = state.status;
    let res = if state.popup.is_some() {
        handle_key_popup(state, key)
    } else if state.filter_mode {
        handle_key_filter(state, key)
    } else {
        handle_key_normal(state, key, ctrl)
    };
    assert(cleared@ == ""@);
    res
}

/// A key leaves the browser only while the list is shown.
pub proof fn law_only_the_list_is_left(
    state: State,
    key: Key,
    ctrl: bool,
    effect: Effect,
    after: State,
)
    requires
        is_answer(state, key, ctrl, effect, after),
        effect is Back,
    ensures
        state.popup is None,
        !state.filter_mode,
{
}

/// A file is deleted only after the question about it was answered with yes, and it is the
/// file of the episode that the question was about.
pub proof fn law_files_are_deleted_on_confirmation(
    state: State,
    key: Key,
    ctrl: bool,
    effect: Effect,
    after: State,
)
    requires
        is_answer(state, key, ctrl, effect, after),
        effect is Delete,
    ensures
        key == Key::Char('y'),
        state.popup matches Some(Popup::ConfirmDelete { ep_idx }) && (ep_idx < state.all@.len()
            ==> text::opt_text(effect->file) == file_of(state.all@[ep_idx as int])),
{
}

// ---- What is shown ---------------------------------------------------------------------------

/// The line above the list.
pub open spec fn header_doc(state: State) -> Seq<char> {
    let listed = if state.filter@ == ""@ {
        state.all@.len()
    } else {
        state.visible@.len()
    };
    " "@ + shared::shortened(state.feed_title@, 40) + " — "@ + text::decimal(listed)
        + " episodes (✓ "@ + text::decimal(complete_count(state.all@)) + "/"@ + text::decimal(
        state.all@.len(),
    ) + ")"@
}

/// The line above the list.
pub fn header_text(state: &State) -> (res: String)
    ensures
        res@ == header_doc(*state),
{
    let listed = if text::same_text(state.filter.as_str(), "") {
        state.all.len()
    } else {
        state.visible.len()
    };
    let mut s = " ".to_string();
    s.append(shared::trunc(state.feed_title.as_str(), 40).as_str());
    s.append(" — ");
    s.append(text::decimal_text(listed as u64).as_str());
    s.append(" episodes (✓ ");
    s.append(text::decimal_text(state.count_complete() as u64).as_str());
    s.append("/");
    s.append(text::decimal_text(state.all.len() as u64).as_str());
    s.append(")");
    s
}

/// The line with the filter.
pub fn filter_text(state: &State) -> (res: String)
    ensures
        res@ == if state.filter_mode {
            " / Filter: "@ + state.filter@ + "█"@
        } else if state.filter@ != ""@ {
            " / Filter: "@ + state.filter@ + " (esc to clear)"@
        } else {
            " / to filter"@
        },
{
    if state.filter_mode {
        let mut s = " / Filter: ".to_string();
        s.append(state.filter.as_str());
        s.append("█");
        s
    } else if !text::same_text(state.filter.as_str(), "") {
        let mut s = " / Filter: ".to_string();
        s.append(state.filter.as_str());
        s.append(" (esc to clear)");
        s
    } else {
        " / to filter".to_string()
    }
}

/// The line below the list.
pub fn hint_text(state: &State) -> (res: String)
    ensures
        res@ == if state.status@ != ""@ {
            " "@ + state.status@
        } else if state.filter_mode {
            " Type to filter, esc to exit filter"@
        } else {
            " ↑↓/jk nav  / filter  d download  s skip  x del+skip  u URLs  q back"@
        },
{
    if !text::same_text(state.status.as_str(), "") {
        let mut s = " ".to_string();
        s.append(state.status.as_str());
        s
    } else if state.filter_mode {
        " Type to filter, esc to exit filter".to_string()
    } else {
        " ↑↓/jk nav  / filter  d download  s skip  x del+skip  u URLs  q back".to_string()
    }
}

/// The width of the columns of a line besides the title.
pub const FIXED_WIDTH: u16 = 35;

/// The width of the title of an episode in a list of the width `width` with a border.
pub open spec fn title_width(width: int) -> nat {
    shared::up_by(shared::up_by(width, 2), FIXED_WIDTH as int) as nat
}

/// A line of the list of episodes.
#[derive(Debug)]
pub struct EpisodeLine {
    pub symbol: String,
    pub color: Color,
    pub title: String,
    pub date: String,
    pub size: String,
    pub duration: String,
}

/// Whether `line` is the line of an episode.
pub open spec fn is_episode_line(
    ep: Episode,
    width: int,
    gigabytes: Seq<char>,
    line: EpisodeLine,
) -> bool {
    let style = style_of(ep.state);
    &&& line.symbol@ == text::padded_right(style.0, 3)
    &&& line.color == style.1
    &&& line.title@ == shared::column(ep.title@, title_width(width))
    &&& line.date@ == "  "@ + text::padded_right(
        time::date_text(ep.pub_date.epoch_secs(), ep.pub_date.subsec()),
        10,
    )
    &&& line.size@ == "  "@ + text::padded_left(
        shared::bytes_text(ep.enclosure_size, gigabytes),
        8,
    )
    &&& line.duration@ == "  "@ + text::padded_left(shared::dur_text(ep.duration_secs), 8)
}

/// The line of an episode in a list of the width `width`. `gigabytes` is its size in gigabytes
/// with one decimal place, for a size of at least one.
pub fn episode_line(ep: &Episode, width: u16, gigabytes: &str) -> (res: EpisodeLine)
    ensures
        is_episode_line(*ep, width as int, gigabytes@, res),
{
    let style = ep_style(&ep.state);
    let room = shared::move_up(shared::move_up(width as usize, 2), FIXED_WIDTH as usize);
    let mut date = "  ".to_string();
    date.append(text::pad_right(ep.pub_date.date().as_str(), 10).as_str());
    let mut size = "  ".to_string();
    size.append(
        text::pad_left(shared::format_bytes(ep.enclosure_size, gigabytes).as_str(), 8).as_str(),
    );
    let mut duration = "  ".to_string();
    duration.append(text::pad_left(shared::format_dur(ep.duration_secs).as_str(), 8).as_str());
    EpisodeLine {
        symbol: text::pad_right(style.symbol, 3),
        color: style.color,
        title: shared::column_text(ep.title.as_str(), room),
        date,
        size,
        duration,
    }
}

/// The lines of the list. `gigabytes` holds, for each of all episodes, its size in gigabytes
/// with one decimal place.
pub fn episode_lines(state: &State, width: u16, gigabytes: &Vec<String>) -> (res: Vec<EpisodeLine>)
    requires
        state.wf(),
        gigabytes@.len() == state.all@.len(),
    ensures
        res@.len() == state.visible@.len(),
        forall|k: int|
            0 <= k < res@.len() ==> is_episode_line(
                state.all@[state.visible@[k] as int],
                width as int,
                gigabytes@[state.visible@[k] as int]@,
                #[trigger] res@[k],
            ),
{
    let mut lines: Vec<EpisodeLine> = Vec::new();
    let count = state.all.len();
    proof {
        assert(count == state.all@.len());
        lemma_passing_places(state.all@, state.filter@);
    }
    for k in 0..state.visible.len()
        invariant
            gigabytes@.len() == state.all@.len(),
            forall|k: int|
                0 <= k < state.visible@.len() ==> (#[trigger] state.visible@[k]) < state.all@.len(),
            lines@.len() == k,
            forall|j: int|
                0 <= j < k ==> is_episode_line(
                    state.all@[state.visible@[j] as int],
                    width as int,
                    gigabytes@[state.visible@[j] as int]@,
                    #[trigger] lines@[j],
                ),
    {
        let i = state.visible[k];
        lines.push(episode_line(&state.all[i], width, gigabytes[i].as_str()));
    }
    lines
}

/// What the popup with the addresses of an episode shows.
#[derive(Debug)]
pub struct UrlPopup {
    pub area: Rect,
    pub title: String,
    pub original: String,
    pub restream: String,
}

/// The popup with the addresses of an episode, over a screen of the size `area`.
pub fn url_popup(state: &State, ep: &Episode, area: Rect) -> (res: UrlPopup)
    requires
        area.fits(),
    ensures
        res.area.inside(area),
        res.area.width == if 72 < area.width {
            72
        } else {
            area.width
        },
        res.area.height == if 8 < area.height {
            8
        } else {
            area.height
        },
        res.area.x == area.x + shared::margin(72, area.width as int),
        res.area.y == area.y + shared::margin(8, area.height as int),
        res.title@ == " URLs — "@ + shared::shortened(ep.title@, 50) + " "@,
        res.original@ == shared::shortened(
            ep.enclosure_url@,
            shared::up_by(res.area.width as int, 14) as nat,
        ),
        res.restream@ == shared::shortened(
            match shared::episode_address(
                state.feed_cfg,
                state.server_cfg,
                state.feed_slug@,
                ep.id@,
            ) {
                Some(a) => a,
                None => "(restreaming not configured)"@,
            },
            shared::up_by(res.area.width as int, 14) as nat,
        ),
{
    let popup = shared::centered_rect(72, 8, area);
    let room = shared::move_up(popup.width as usize, 14);
    let restream = match shared::episode_restream_url(
        &state.feed_cfg,
        &state.server_cfg,
        state.feed_slug.as_str(),
        ep.id.as_str(),
    ) {
        Some(a) => a,
        None => "(restreaming not configured)".to_string(),
    };
    let mut title = " URLs — ".to_string();
    title.append(shared::trunc(ep.title.as_str(), 50).as_str());
    title.append(" ");
    UrlPopup {
        area: popup,
        title,
        original: shared::trunc(ep.enclosure_url.as_str(), room),
        restream: shared::trunc(restream.as_str(), room),
    }
}

/// What the question before a file is deleted shows.
#[derive(Debug)]
pub struct ConfirmPopup {
    pub area: Rect,
    pub title: String,
}

/// The question before the file of an episode is deleted, over a screen of the size `area`.
pub fn confirm_popup(ep: &Episode, area: Rect) -> (res: ConfirmPopup)
    requires
        area.fits(),
    ensures
        res.area.inside(area),
        res.area.width == if 50 < area.width {
            50
        } else {
            area.width
        },
        res.area.height == if 6 < area.height {
            6
        } else {
            area.height
        },
        res.area.x == area.x + shared::margin(50, area.width as int),
        res.area.y == area.y + shared::margin(6, area.height as int),
        res.title@ == "  "@ + shared::shortened(ep.title@, 44),
{
    let mut title = "  ".to_string();
    title.append(shared::trunc(ep.title.as_str(), 44).as_str());
    ConfirmPopup { area: shared::centered_rect(50, 6, area), title }
}

// ---- Laws ------------------------------------------------------------------------------------

/// An episode passes the filter where its title holds the filter's text, whatever the case of
/// either; an empty filter lets every episode pass.
pub proof fn law_what_passes_the_filter(ep: Episode, filter: Seq<char>, i: int)
    ensures
        ({
            let hay = text::lowercase(ep.title@);
            let needle = text::lowercase(filter);
            &&& 0 <= i && i + needle.len() <= hay.len() && hay.subrange(i, i + needle.len())
                == needle ==> passes(ep, filter)
            &&& needle.len() == 0 ==> passes(ep, filter)
            &&& passes(ep, filter) ==> exists|k: int|
                0 <= k && k + needle.len() <= hay.len() && #[trigger] hay.subrange(
                    k,
                    k + needle.len(),
                ) == needle
        }),
{
    let hay = text::lowercase(ep.title@);
    let needle = text::lowercase(filter);
    if 0 <= i && i + needle.len() <= hay.len() && hay.subrange(i, i + needle.len()) == needle {
        assert(text::occurs_at(hay, needle, i));
    }
    if needle.len() == 0 {
        assert(hay.subrange(0, 0) =~= needle);
        assert(text::occurs_at(hay, needle, 0));
    }
    if passes(ep, filter) {
        let k = choose|k: int| text::occurs_at(hay, needle, k);
        assert(hay.subrange(k, k + needle.len()) == needle);
    }
}

/// How the filter is written: characters are added and taken away at its end, the escape key
/// empties and leaves it, and enter leaves it as it is.
pub proof fn law_how_the_filter_is_written(filter: Seq<char>, c: char)
    ensures
        filter_after(Key::Char(c), filter) == (filter.push(c), true),
        filter_after(Key::Backspace, filter.push(c)) == (filter, true),
        filter_after(Key::Backspace, Seq::empty()) == (Seq::<char>::empty(), true),
        filter_after(Key::Esc, filter) == (Seq::<char>::empty(), false),
        filter_after(Key::Enter, filter) == (filter, false),
        filter_after(Key::Up, filter) == (filter, true),
        filter_after(Key::Down, filter) == (filter, true),
        filter_after(Key::Other, filter) == (filter, true),
{
    assert(filter.push(c).drop_last() =~= filter);
}

/// Where the keys move the selection: by one or by ten entries, to the first and to the last, and
/// not past the ends of the list.
pub proof fn law_where_keys_move_in_the_list(selected: int, len: int)
    requires
        0 <= selected < len,
    ensures
        moved(Key::Up, selected, len) == Some(
            if selected > 0 {
                selected - 1
            } else {
                0
            },
        ),
        moved(Key::Char('k'), selected, len) == moved(Key::Up, selected, len),
        moved(Key::Down, selected, len) == Some(
            if selected + 1 < len {
                selected + 1
            } else {
                selected
            },
        ),
        moved(Key::Char('j'), selected, len) == moved(Key::Down, selected, len),
        moved(Key::PageUp, selected, len) == Some(
            if selected >= 10 {
                selected - 10
            } else {
                0
            },
        ),
        moved(Key::PageDown, selected, len) == Some(
            if selected + 10 < len {
                selected + 10
            } else {
                len - 1
            },
        ),
        moved(Key::Home, selected, len) == Some(0int),
        moved(Key::Char('g'), selected, len) == Some(0int),
        moved(Key::End, selected, len) == Some(len - 1),
        moved(Key::Char('G'), selected, len) == Some(len - 1),
{
}

/// What the keys ask for while the list is shown: they are about the episode that is selected,
/// and change nothing else than the key is for.
pub proof fn law_what_keys_ask_for_in_the_list(
    state: State,
    key: Key,
    ctrl: bool,
    effect: Effect,
    after: State,
)
    requires
        is_answer(state, key, ctrl, effect, after),
        state.popup is None,
        !state.filter_mode,
    ensures
        key == Key::Char('/') ==> effect is Continue && after.filter_mode && after.filter
            == state.filter,
        (key == Key::Char('d') && state.chosen() is Some) ==> (effect matches Effect::Download { id }
            && id@ == state.chosen()->0.id@),
        (key == Key::Char('s') && state.chosen() is Some) ==> (effect matches Effect::Skip { id }
            && id@ == state.chosen()->0.id@),
        (key == Key::Char('x') && state.selected < state.visible@.len()) ==> effect is Continue
            && after.popup == Some(
            Popup::ConfirmDelete { ep_idx: state.visible@[state.selected as int] },
        ),
        ((key == Key::Char('u') || key == Key::Enter) && state.selected < state.visible@.len())
            ==> effect is Continue && after.popup == Some(
            Popup::Url { ep_idx: state.visible@[state.selected as int] },
        ),
        key == Key::Char('q') || key == Key::Esc ==> effect is Back,
        key == Key::Char('c') && ctrl ==> effect is Back,
        key == Key::Char('c') && !ctrl ==> effect is Continue,
        after.all == state.all,
{
}

/// What the keys ask for while a popup is shown: the address at the origin or at the server is
/// copied, or the question about a file answered.
pub proof fn law_what_keys_ask_for_in_a_popup(
    state: State,
    key: Key,
    ctrl: bool,
    effect: Effect,
    after: State,
    i: usize,
)
    requires
        is_answer(state, key, ctrl, effect, after),
        i < state.all@.len(),
    ensures
        state.popup == Some(Popup::Url { ep_idx: i }) ==> {
            &&& key == Key::Char('c') ==> (effect matches Effect::Copy(t) && t@
                == state.all@[i as int].enclosure_url@) && after.popup is None
            &&& key == Key::Char('r') ==> after.popup is None && match shared::episode_address(
                state.feed_cfg,
                state.server_cfg,
                state.feed_slug@,
                state.all@[i as int].id@,
            ) {
                Some(a) => effect matches Effect::Copy(t) && t@ == a,
                None => effect is Continue && after.status@ == "Restreaming not configured"@,
            }
            &&& key == Key::Esc || key == Key::Char('q') ==> effect is Continue && after.popup
                is None
        },
        state.popup == Some(Popup::ConfirmDelete { ep_idx: i }) ==> {
            &&& key == Key::Char('y') ==> after.popup is None && effect is Delete && text::opt_text(
                effect->file,
            ) == file_of(state.all@[i as int]) && (effect->skipped matches Some(id) && id@
                == state.all@[i as int].id@)
            &&& key == Key::Char('n') || key == Key::Esc ==> effect is Continue && after.popup
                is None
            &&& key != Key::Char('y') ==> effect is Continue
        },
{
}

/// Only an episode that is complete or dynamic has a file, and both count as downloaded.
pub proof fn law_episodes_with_a_file(ep: Episode, all: Seq<Episode>)
    ensures
        ep.state matches EpisodeState::Complete { path, .. } ==> file_of(ep) == Some(path@),
        ep.state matches EpisodeState::Dynamic { path, .. } ==> file_of(ep) == Some(path@),
        !(ep.state is Complete) && !(ep.state is Dynamic) ==> file_of(ep) is None,
        complete_count(Seq::empty()) == 0,
        ep.state is Complete || ep.state is Dynamic ==> complete_count(all.push(ep))
            == complete_count(all) + 1,
        !(ep.state is Complete) && !(ep.state is Dynamic) ==> complete_count(all.push(ep))
            == complete_count(all),
{
    assert(all.push(ep).drop_last() =~= all);
}

/// How the state of an episode is shown.
pub proof fn law_signs_of_states(state: EpisodeState)
    ensures
        state is Complete || state is Dynamic ==> style_of(state) == ("✓"@, Color::Green),
        state == EpisodeState::Matched(Action::Download) || state == EpisodeState::Matched(
            Action::Dynamic,
        ) ==> style_of(state) == ("↓"@, Color::Cyan),
        state == EpisodeState::Matched(Action::Skip) || state == EpisodeState::Matched(Action::Purge)
            || state is Purged ==> style_of(state) == ("–"@, Color::DarkGray),
        state is Discovered ==> style_of(state) == ("?"@, Color::Yellow),
        state is Quarantined ==> style_of(state) == ("!"@, Color::Red),
        state is Failed || state is Downloading ==> style_of(state) == ("↓"@, Color::Blue),
{
}

/// The line above the list counts the episodes that are listed: all of them without a filter, and
/// those that pass with one.
pub proof fn law_line_above_the_list(state: State)
    ensures
        state.filter@ == ""@ ==> header_doc(state) == " "@ + shared::shortened(state.feed_title@, 40)
            + " — "@ + text::decimal(state.all@.len()) + " episodes (✓ "@ + text::decimal(
            complete_count(state.all@),
        ) + "/"@ + text::decimal(state.all@.len()) + ")"@,
        state.filter@ != ""@ ==> header_doc(state) == " "@ + shared::shortened(state.feed_title@, 40)
            + " — "@ + text::decimal(state.visible@.len()) + " episodes (✓ "@ + text::decimal(
            complete_count(state.all@),
        ) + "/"@ + text::decimal(state.all@.len()) + ")"@,
{
}

/// What the line of an episode shows of it.
pub proof fn law_line_of_an_episode(
    ep: Episode,
    width: int,
    gigabytes: Seq<char>,
    line: EpisodeLine,
)
    requires
        is_episode_line(ep, width, gigabytes, line),
    ensures
        line.symbol@ == text::padded_right(style_of(ep.state).0, 3),
        line.color == style_of(ep.state).1,
        line.title@ == shared::column(ep.title@, title_width(width)),
        line.date@ == "  "@ + text::padded_right(
            time::date_text(ep.pub_date.epoch_secs(), ep.pub_date.subsec()),
            10,
        ),
        line.size@ == "  "@ + text::padded_left(
            shared::bytes_text(ep.enclosure_size, gigabytes),
            8,
        ),
        line.duration@ == "  "@ + text::padded_left(shared::dur_text(ep.duration_secs), 8),
{
}

} // verus!
