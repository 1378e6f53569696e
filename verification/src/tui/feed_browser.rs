//! The browser of feeds.
use crate::feed::Feed;
use crate::ids::FeedId;
use crate::rules::config::FeedConfig;
use crate::server::config::ServerConfig;
use crate::text;
use crate::time::UtcTime;
use crate::tui::shared;
use crate::tui::shared::Key;
use vstd::prelude::*;
use vstd::string::*;
use vstd::utf8::*;

verus! {

/// The state of the browser of feeds.
#[derive(Debug)]
pub struct State {
    pub feeds: Vec<Feed>,
    /// The configuration, for the names of feeds and whether they are restreamed.
    pub cfg: Vec<FeedConfig>,
    pub selected: usize,
    pub server_cfg: Option<ServerConfig>,
    /// A message that stands until the next key.
    pub status: String,
}

/// The last feed of the configuration with a slug.
pub open spec fn last_config_of(cfg: Seq<FeedConfig>, slug: Seq<char>) -> Option<FeedConfig>
    decreases cfg.len(),
{
    if cfg.len() == 0 {
        None
    } else if cfg.last().slug@ == slug {
        Some(cfg.last())
    } else {
        last_config_of(cfg.drop_last(), slug)
    }
}

fn find_last_config(cfg: &Vec<FeedConfig>, slug: &str) -> (res: Option<usize>)
    ensures
        match res {
            Some(i) => i < cfg@.len() && last_config_of(cfg@, slug@) == Some(cfg@[i as int]),
            None => last_config_of(cfg@, slug@) is None,
        },
{
    let mut i = cfg.len();
    assert(cfg@.take(i as int) =~= cfg@);
    while i > 0
        invariant
            i <= cfg@.len(),
            last_config_of(cfg@, slug@) == last_config_of(cfg@.take(i as int), slug@),
        decreases i,
    {
        assert(cfg@.take(i as int).drop_last() =~= cfg@.take(i - 1));
        i = i - 1;
        if text::same_text(cfg[i].slug.as_str(), slug) {
            return Some(i);
        }
    }
    None
}

/// The name that the browser shows of a feed: the one in its configuration, else its title,
/// else its slug.
pub open spec fn browser_name(cfg: Seq<FeedConfig>, feed: Feed) -> Seq<char> {
    crate::cli::helpers::name_by(last_config_of(cfg, feed.slug@), feed, feed.slug@)
}

/// The slug of the feed that is selected, if one is.
pub open spec fn selected_slug(state: State) -> Option<Seq<char>> {
    if state.selected < state.feeds@.len() {
        Some(state.feeds@[state.selected as int].slug@)
    } else {
        None
    }
}

/// The address of the feed that is selected.
pub open spec fn selected_address(state: State) -> Option<Seq<char>> {
    match (last_config_of(state.cfg@, state.feeds@[state.selected as int].slug@), state.server_cfg) {
        (Some(cfg), Some(srv)) => shared::restream_address(cfg, srv),
        _ => None,
    }
}

impl State {
    /// The browser at its start, with the first feed selected.
    pub fn new(feeds: Vec<Feed>, cfg: Vec<FeedConfig>, server_cfg: Option<ServerConfig>) -> (res:
        State)
        ensures
            res.feeds == feeds,
            res.cfg == cfg,
            res.selected == 0,
            res.server_cfg == server_cfg,
            res.status@ == ""@,
    {
        State { feeds, cfg, selected: 0, server_cfg, status: "".to_string() }
    }

    /// Whether two states show the same feeds.
    pub open spec fn same_feeds(self, other: State) -> bool {
        self.feeds == other.feeds && self.cfg == other.cfg && self.server_cfg == other.server_cfg
    }

    /// Selects the feed at `idx`, or the last one where there is none.
    pub fn select(&mut self, idx: usize)
        ensures
            final(self).same_feeds(*old(self)),
            final(self).status == old(self).status,
            final(self).selected == shared::clamped(idx as int, old(self).feeds@.len() as int),
    {
        self.selected = shared::clamp(idx, self.feeds.len());
    }

    /// The feed that is selected.
    pub fn selected_feed(&self) -> (res: Option<&Feed>)
        ensures
            res == if self.selected < self.feeds@.len() {
                Some(&self.feeds@[self.selected as int])
            } else {
                None
            },
    {
        if self.selected < self.feeds.len() {
            Some(&self.feeds[self.selected])
        } else {
            None
        }
    }

    /// The name that is shown of a feed.
    pub fn display_name(&self, feed: &Feed) -> (res: String)
        ensures
            res@ == browser_name(self.cfg@, *feed),
    {
        if let Some(i) = find_last_config(&self.cfg, feed.slug.as_str()) {
            if let Some(n) = &self.cfg[i].display_name {
                return n.clone();
            }
        }
        match &feed.title {
            Some(t) => t.clone(),
            None => feed.slug.clone(),
        }
    }

    /// The state after the feeds were loaded again.
    pub fn reloaded(&mut self, feeds: Vec<Feed>)
        ensures
            *final(self) == (State { feeds, ..*old(self) }),
    {
        self.feeds = feeds;
    }
}

// ---- Keys ------------------------------------------------------------------------------------

/// What a key asks for.
#[derive(Debug)]
pub enum KeyAction {
    Continue,
    Quit,
    OpenEpisodes(String),
    Sync(String),
    /// Copy this address; the message about it becomes the status.
    Copy(String),
    /// Count the episodes of this feed for the status.
    Count { slug: String, id: FeedId },
}

/// Where a key that moves the selection moves it to, in a list of `len` feeds.
pub open spec fn moved(key: Key, selected: int, len: int) -> Option<int> {
    match key {
        Key::Up => Some(shared::clamped(shared::up_by(selected, 1), len)),
        Key::Char('k') => Some(shared::clamped(shared::up_by(selected, 1), len)),
        Key::Down => Some(shared::clamped(selected + 1, len)),
        Key::Char('j') => Some(shared::clamped(selected + 1, len)),
        Key::Home => Some(0),
        Key::Char('g') => Some(0),
        Key::End => Some(shared::clamped(len, len)),
        Key::Char('G') => Some(shared::clamped(len, len)),
        _ => None,
    }
}

/// Whether `action` is what a key asks for and `status` the message that it leaves.
pub open spec fn is_key_action(
    state: State,
    key: Key,
    action: KeyAction,
    status: Seq<char>,
) -> bool {
    if key == Key::Char('q') || key == Key::Esc {
        action is Quit && status == ""@
    } else if selected_slug(state) is None {
        action is Continue && status == ""@
    } else {
        let feed = state.feeds@[state.selected as int];
        match key {
            Key::Enter => (action matches KeyAction::OpenEpisodes(s) && s@ == feed.slug@) && status
                == ""@,
            Key::Char('r') => (action matches KeyAction::Sync(s) && s@ == feed.slug@) && status
                == ""@,
            Key::Char('c') => match selected_address(state) {
                Some(url) => (action matches KeyAction::Copy(u) && u@ == url) && status == ""@,
                None => action is Continue && status == "Feed has no restream URL configured"@,
            },
            Key::Char('i') => (action matches KeyAction::Count { slug, id } && slug@ == feed.slug@
                && id == feed.id) && status == ""@,
            _ => action is Continue && status == ""@,
        }
    }
}

fn moved_to(key: Key, selected: usize, len: usize) -> (res: Option<usize>)
    ensures
        match res {
            Some(i) => moved(key, selected as int, len as int) == Some(i as int),
            None => moved(key, selected as int, len as int) is None,
        },
{
    match key {
        Key::Up => Some(shared::clamp(shared::move_up(selected, 1), len)),
        Key::Char('k') => Some(shared::clamp(shared::move_up(selected, 1), len)),
        Key::Down => Some(shared::move_down(selected, 1, len)),
        Key::Char('j') => Some(shared::move_down(selected, 1, len)),
        Key::Home => Some(0),
        Key::Char('g') => Some(0),
        Key::End => Some(shared::clamp(len, len)),
        Key::Char('G') => Some(shared::clamp(len, len)),
        _ => None,
    }
}

/// Answers to a key. With the control key, `c` quits and leaves the state as it is.
pub fn handle_key(state: &mut State, key: Key, ctrl: bool) -> (res: KeyAction)
    ensures
        final(state).same_feeds(*old(state)),
        if ctrl && key == Key::Char('c') {
            res is Quit && *final(state) == *old(state)
        } else {
            match moved(key, old(state).selected as int, old(state).feeds@.len() as int) {
                Some(i) => final(state).selected == i && final(state).status@ == ""@
                    && res is Continue,
                None => final(state).selected == old(state).selected && is_key_action(
                    *old(state),
                    key,
                    res,
                    final(state).status@,
                ),
            }
        },
{
    if ctrl {
        if let Key::Char('c') = key {
            return KeyAction::Quit;
        }
    }
    state.status = "".to_string();
    if let Some(i) = moved_to(key, state.selected, state.feeds.len()) {
        state.select(i);
        return KeyAction::Continue;
    }
    match key {
        Key::Char('q') => {
            return KeyAction::Quit;
        },
        Key::Esc => {
            return KeyAction::Quit;
        },
        _ => {},
    }
    if state.selected >= state.feeds.len() {
        return KeyAction::Continue;
    }
    let feed = &state.feeds[state.selected];
    match key {
        Key::Enter => KeyAction::OpenEpisodes(feed.slug.clone()),
        Key::Char('r') => KeyAction::Sync(feed.slug.clone()),
        Key::Char('i') => KeyAction::Count { slug: feed.slug.clone(), id: feed.id },
        Key::Char('c') => {
            if let Some(i) = find_last_config(&state.cfg, feed.slug.as_str()) {
                if let Some(srv) = &state.server_cfg {
                    if let Some(url) = shared::feed_restream_url(&state.cfg[i], srv) {
                        return KeyAction::Copy(url);
                    }
                }
            }
            state.status = "Feed has no restream URL configured".to_string();
            KeyAction::Continue
        },
        _ => KeyAction::Continue,
    }
}

/// The status that tells how many episodes a feed has.
pub fn count_status(slug: &str, count: usize) -> (res: String)
    ensures
        res@ == slug@ + ": "@ + text::decimal(count as nat) + " episodes"@,
{
    let mut s = slug.to_string();
    s.append(": ");
    s.append(text::decimal_text(count as u64).as_str());
    s.append(" episodes");
    s
}

/// No key moves the selection out of the list, from wherever it is.
pub proof fn law_keys_keep_the_selection_in_the_list(key: Key, selected: int, len: int)
    requires
        0 <= selected,
        0 < len,
    ensures
        moved(key, selected, len) matches Some(i) ==> 0 <= i < len,
{
}

// ---- What is shown ---------------------------------------------------------------------------

/// A line of the list of feeds.
#[derive(Debug)]
pub struct FeedLine {
    /// Tells whether the feed is restreamed.
    pub marker: &'static str,
    pub name: String,
    pub last: String,
}

/// What the browser shows.
#[derive(Debug)]
pub struct Screen {
    pub lines: Vec<FeedLine>,
    pub title: String,
    pub hint: String,
}

/// Whether a feed is restreamed.
pub open spec fn is_restreamed(cfg: Seq<FeedConfig>, feed: Feed) -> bool {
    last_config_of(cfg, feed.slug@) matches Some(c) && c.restream
}

/// The width of the column with the name of a feed, on a screen of the width `width`.
pub open spec fn name_width(width: int, restreamed: bool, last: Seq<char>) -> nat {
    let taken = (if restreamed {
        4int
    } else {
        2int
    }) + encode_utf8(last).len() + 4;
    if width > taken {
        (width - taken) as nat
    } else {
        0
    }
}

/// Whether `line` is the line of a feed.
pub open spec fn is_feed_line(
    state: State,
    feed: Feed,
    width: int,
    now: UtcTime,
    line: FeedLine,
) -> bool {
    let restreamed = is_restreamed(state.cfg@, feed);
    &&& line.marker@ == if restreamed {
        "◉ "@
    } else {
        "  "@
    }
    &&& line.last@ == shared::time_ago_text(feed.last_fetched_at, now)
    &&& line.name@ == shared::column(
        browser_name(state.cfg@, feed),
        name_width(width, restreamed, line.last@),
    )
}

fn feed_line(state: &State, feed: &Feed, width: u16, now: &UtcTime) -> (res: FeedLine)
    ensures
        is_feed_line(*state, *feed, width as int, *now, res),
{
    let last = shared::time_ago(&feed.last_fetched_at, now);
    let restreamed = match find_last_config(&state.cfg, feed.slug.as_str()) {
        Some(i) => state.cfg[i].restream,
        None => false,
    };
    let marker = if restreamed {
        "◉ "
    } else {
        "  "
    };
    let marker_len: usize = if restreamed {
        4
    } else {
        2
    };
    let last_len = last.as_str().as_bytes().len();
    let room = shared::move_up(shared::move_up(width as usize, marker_len + 4), last_len);
    let name = shared::column_text(state.display_name(feed).as_str(), room);
    FeedLine { marker, name, last }
}

/// What the browser shows on a screen of the width `width` at the time `now`.
pub fn render(state: &State, width: u16, now: &UtcTime) -> (res: Screen)
    ensures
        res.lines@.len() == state.feeds@.len(),
        forall|i: int|
            0 <= i < res.lines@.len() ==> is_feed_line(
                *state,
                state.feeds@[i],
                width as int,
                *now,
                #[trigger] res.lines@[i],
            ),
        res.title@ == " Feeds ("@ + text::decimal(state.feeds@.len()) + ") "@,
        res.hint@ == if state.status@ == ""@ {
            " ↑↓/jk navigate  enter open  c copy URL  r sync  q quit"@
        } else {
            " "@ + state.status@
        },
{
    let mut lines: Vec<FeedLine> = Vec::new();
    for i in 0..state.feeds.len()
        invariant
            lines@.len() == i,
            forall|k: int|
                0 <= k < i ==> is_feed_line(
                    *state,
                    state.feeds@[k],
                    width as int,
                    *now,
                    #[trigger] lines@[k],
                ),
    {
        lines.push(feed_line(state, &state.feeds[i], width, now));
    }
    let mut title = " Feeds (".to_string();
    title.append(text::decimal_text(state.feeds.len() as u64).as_str());
    title.append(") ");
    let hint = if text::same_text(state.status.as_str(), "") {
        " ↑↓/jk navigate  enter open  c copy URL  r sync  q quit".to_string()
    } else {
        let mut s = " ".to_string();
        s.append(state.status.as_str());
        s
    };
    Screen { lines, title, hint }
}

// ---- Laws ------------------------------------------------------------------------------------

/// Where the keys move the selection: one feed up or down, to the first and to the last one, and
/// not past the ends of the list.
pub proof fn law_where_keys_move_the_selection(selected: int, len: int)
    requires
        0 <= selected < len,
    ensures
        moved(Key::Up, selected, len) == Some(
            if selected > 0 {
                selected - 1
            } else {
                0
            },
        ),
        moved(Key::Char('k'), selected, len) == moved(Key::Up, selected, len),
        moved(Key::Down, selected, len) == Some(
            if selected + 1 < len {
                selected + 1
            } else {
                selected
            },
        ),
        moved(Key::Char('j'), selected, len) == moved(Key::Down, selected, len),
        moved(Key::Home, selected, len) == Some(0int),
        moved(Key::Char('g'), selected, len) == Some(0int),
        moved(Key::End, selected, len) == Some(len - 1),
        moved(Key::Char('G'), selected, len) == Some(len - 1),
        moved(Key::Enter, selected, len) is None,
        moved(Key::Char('c'), selected, len) is None,
        moved(Key::Char('r'), selected, len) is None,
        moved(Key::Char('q'), selected, len) is None,
{
}

/// What the keys ask for while a feed is selected, and that they ask for nothing while none is.
pub proof fn law_what_keys_ask_for(state: State, key: Key, action: KeyAction, status: Seq<char>)
    requires
        is_key_action(state, key, action, status),
    ensures
        key == Key::Char('q') || key == Key::Esc ==> action is Quit,
        state.selected >= state.feeds@.len() && key != Key::Char('q') && key != Key::Esc
            ==> action is Continue,
        state.selected < state.feeds@.len() ==> {
            let feed = state.feeds@[state.selected as int];
            &&& key == Key::Enter ==> (action matches KeyAction::OpenEpisodes(s) && s@ == feed.slug@)
            &&& key == Key::Char('r') ==> (action matches KeyAction::Sync(s) && s@ == feed.slug@)
            &&& key == Key::Char('i') ==> (action matches KeyAction::Count { slug, id } && slug@
                == feed.slug@ && id == feed.id)
            &&& key == Key::Char('c') ==> match selected_address(state) {
                Some(url) => action matches KeyAction::Copy(u) && u@ == url,
                None => action is Continue && status == "Feed has no restream URL configured"@,
            }
        },
{
}

/// The configuration of a feed in the browser is the last one with its slug.
pub proof fn law_last_configuration_counts(cfg: Seq<FeedConfig>, slug: Seq<char>, i: int)
    ensures
        0 <= i < cfg.len() && cfg[i].slug@ == slug && (forall|j: int|
            i < j < cfg.len() ==> (#[trigger] cfg[j]).slug@ != slug) ==> last_config_of(cfg, slug)
            == Some(cfg[i]),
        (forall|j: int| 0 <= j < cfg.len() ==> (#[trigger] cfg[j]).slug@ != slug) ==> last_config_of(
            cfg,
            slug,
        ) is None,
    decreases cfg.len(),
{
    if cfg.len() > 0 {
        assert(cfg.last() == cfg[cfg.len() - 1]);
        law_last_configuration_counts(cfg.drop_last(), slug, i);
    }
}

/// A line of the list marks a feed that is restreamed, shows its name in the room that is left,
/// and when it was last fetched.
pub proof fn law_line_of_a_feed_on_screen(
    state: State,
    feed: Feed,
    width: int,
    now: UtcTime,
    line: FeedLine,
)
    requires
        is_feed_line(state, feed, width, now, line),
    ensures
        is_restreamed(state.cfg@, feed) ==> line.marker@ == "◉ "@,
        !is_restreamed(state.cfg@, feed) ==> line.marker@ == "  "@,
        is_restreamed(state.cfg@, feed) <==> (last_config_of(state.cfg@, feed.slug@) is Some
            && last_config_of(state.cfg@, feed.slug@)->0.restream),
        line.last@ == shared::time_ago_text(feed.last_fetched_at, now),
        line.name@ == shared::column(
            browser_name(state.cfg@, feed),
            name_width(width, is_restreamed(state.cfg@, feed), line.last@),
        ),
{
}

} // verus!
