//! Episodes and what is known of each.
use crate::ids::{EpisodeId, FeedId};
use crate::text;
use crate::time;
use crate::time::{Duration, UtcTime};
use crate::weburl::Url;
use vstd::prelude::*;
use vstd::string::*;

verus! {

/// One episode of a feed.
#[derive(Debug)]
pub struct Episode {
    pub id: EpisodeId,
    pub feed_id: FeedId,
    pub guid: String,
    pub title: String,
    pub description: Option<String>,
    pub pub_date: UtcTime,
    /// Duration in seconds.
    pub duration_secs: Option<u64>,
    pub enclosure_url: Url,
    pub enclosure_size: Option<u64>,
    pub enclosure_mime: Option<String>,
    pub state: EpisodeState,
    /// Address of the episode's own cover art, if it has any.
    pub image_url: Option<Url>,
    /// Position among the feed's episodes, counted from the first in the feed.
    pub episode_no: usize,
}

impl Episode {
    /// The duration of the episode, where the feed gives one.
    pub fn duration(&self) -> (res: Option<Duration>)
        ensures
            res is Some <==> self.duration_secs is Some,
            res is Some ==> res->0.whole_secs() == self.duration_secs->0 && res->0.subsec() == 0,
    {
        match self.duration_secs {
            Some(secs) => Some(Duration::from_secs(secs)),
            None => None,
        }
    }

    /// The episode with another position.
    pub open spec fn with_no(self, episode_no: usize) -> Episode {
        Episode { episode_no, ..self }
    }
}

impl Clone for Episode {
    fn clone(&self) -> (res: Episode)
        ensures
            res == *self,
    {
        Episode {
            id: self.id.clone(),
            feed_id: self.feed_id,
            guid: self.guid.clone(),
            title: self.title.clone(),
            description: text::copy_opt(&self.description),
            pub_date: self.pub_date,
            duration_secs: self.duration_secs,
            enclosure_url: self.enclosure_url.clone(),
            enclosure_size: self.enclosure_size,
            enclosure_mime: text::copy_opt(&self.enclosure_mime),
            state: self.state.clone(),
            image_url: crate::weburl::copy_opt_url(&self.image_url),
            episode_no: self.episode_no,
        }
    }
}

/// Where an episode stands between its discovery and its file on disk. A path is held as
/// the text that is stored for it.
#[derive(Debug)]
pub enum EpisodeState {
    Discovered,
    Matched(Action),
    Downloading { attempt: u8, started_at: UtcTime },
    Complete { path: String, downloaded_at: UtcTime, sha256: String },
    Dynamic { path: String, downloaded_at: UtcTime, sha256: String },
    Failed { last_error: String, attempts: u8 },
    Quarantined { reason: String, last_error: String },
    Purged { purged_at: UtcTime },
}

impl Clone for EpisodeState {
    fn clone(&self) -> (res: EpisodeState)
        ensures
            res == *self,
    {
        match self {
            EpisodeState::Discovered => EpisodeState::Discovered,
            EpisodeState::Matched(a) => EpisodeState::Matched(*a),
            EpisodeState::Downloading { attempt, started_at } => EpisodeState::Downloading {
                attempt: *attempt,
                started_at: *started_at,
            },
            EpisodeState::Complete { path, downloaded_at, sha256 } => EpisodeState::Complete {
                path: path.clone(),
                downloaded_at: *downloaded_at,
                sha256: sha256.clone(),
            },
            EpisodeState::Dynamic { path, downloaded_at, sha256 } => EpisodeState::Dynamic {
                path: path.clone(),
                downloaded_at: *downloaded_at,
                sha256: sha256.clone(),
            },
            EpisodeState::Failed { last_error, attempts } => EpisodeState::Failed {
                last_error: last_error.clone(),
                attempts: *attempts,
            },
            EpisodeState::Quarantined { reason, last_error } => EpisodeState::Quarantined {
                reason: reason.clone(),
                last_error: last_error.clone(),
            },
            EpisodeState::Purged { purged_at } => EpisodeState::Purged { purged_at: *purged_at },
        }
    }
}

/// The lower-case name of the kind of a state.
pub open spec fn kind_text(state: EpisodeState) -> Seq<char> {
    match state {
        EpisodeState::Discovered => "discovered"@,
        EpisodeState::Matched(_) => "matched"@,
        EpisodeState::Downloading { .. } => "downloading"@,
        EpisodeState::Complete { .. } => "complete"@,
        EpisodeState::Dynamic { .. } => "dynamic"@,
        EpisodeState::Failed { .. } => "failed"@,
        EpisodeState::Quarantined { .. } => "quarantined"@,
        EpisodeState::Purged { .. } => "purged"@,
    }
}

/// The text that describes a state.
pub open spec fn state_text(state: EpisodeState) -> Seq<char> {
    match state {
        EpisodeState::Discovered => "discovered"@,
        EpisodeState::Matched(a) => "matched ("@ + action_text(a) + ")"@,
        EpisodeState::Downloading { attempt, .. } => "downloading (attempt "@ + text::decimal(
            attempt as nat,
        ) + ")"@,
        EpisodeState::Complete { path, .. } => "complete → "@ + path@,
        EpisodeState::Dynamic { path, .. } => "dynamic → "@ + path@,
        EpisodeState::Failed { attempts, .. } => "failed ("@ + text::decimal(attempts as nat)
            + " attempt(s))"@,
        EpisodeState::Quarantined { reason, .. } => "quarantined: "@ + reason@,
        EpisodeState::Purged { purged_at } => "purged ("@ + time::time_text(
            purged_at.epoch_secs(),
            purged_at.subsec(),
        ) + ")"@,
    }
}

impl EpisodeState {
    /// Lower-case name of the state, used for filtering and for display.
    pub fn kind_name(&self) -> (res: &'static str)
        ensures
            res@ == kind_text(*self),
    {
        match self {
            EpisodeState::Discovered => "discovered",
            EpisodeState::Matched(_) => "matched",
            EpisodeState::Downloading { .. } => "downloading",
            EpisodeState::Complete { .. } => "complete",
            EpisodeState::Dynamic { .. } => "dynamic",
            EpisodeState::Failed { .. } => "failed",
            EpisodeState::Quarantined { .. } => "quarantined",
            EpisodeState::Purged { .. } => "purged",
        }
    }

    /// Whether nothing more happens to an episode in this state by itself.
    pub open spec fn terminal(self) -> bool {
        self is Complete || self is Quarantined || self is Purged || self == EpisodeState::Matched(
            Action::Skip,
        )
    }

    /// Whether nothing more happens to an episode in this state by itself.
    pub fn is_terminal(&self) -> (res: bool)
        ensures
            res == self.terminal(),
    {
        match self {
            EpisodeState::Complete { .. } => true,
            EpisodeState::Quarantined { .. } => true,
            EpisodeState::Purged { .. } => true,
            EpisodeState::Matched(a) => *a == Action::Skip,
            _ => false,
        }
    }

    /// The text that describes the state.
    pub fn to_text(&self) -> (res: String)
        ensures
            res@ == state_text(*self),
    {
        match self {
            EpisodeState::Discovered => "discovered".to_string(),
            EpisodeState::Matched(a) => {
                let mut s = "matched (".to_string();
                s.append(a.as_str());
                s.append(")");
                s
            },
            EpisodeState::Downloading { attempt, .. } => {
                let mut s = "downloading (attempt ".to_string();
                s.append(text::decimal_text(*attempt as u64).as_str());
                s.append(")");
                s
            },
            EpisodeState::Complete { path, .. } => {
                let mut s = "complete → ".to_string();
                s.append(path.as_str());
                s
            },
            EpisodeState::Dynamic { path, .. } => {
                let mut s = "dynamic → ".to_string();
                s.append(path.as_str());
                s
            },
            EpisodeState::Failed { attempts, .. } => {
                let mut s = "failed (".to_string();
                s.append(text::decimal_text(*attempts as u64).as_str());
                s.append(" attempt(s))");
                s
            },
            EpisodeState::Quarantined { reason, .. } => {
                let mut s = "quarantined: ".to_string();
                s.append(reason.as_str());
                s
            },
            EpisodeState::Purged { purged_at } => {
                let mut s = "purged (".to_string();
                s.append(purged_at.to_text().as_str());
                s.append(")");
                s
            },
        }
    }
}

/// What a rule decides to do with an episode.
#[derive(Clone, Copy, Debug, PartialEq, Eq, PartialOrd, Structural)]
pub enum Action {
    Download,
    Dynamic,
    Skip,
    Purge,
    Archive,
    Quarantine,
}

impl Default for Action {
    fn default() -> (res: Action)
        ensures
            res == Action::Download,
    {
        Action::Download
    }
}

/// The lower-case name of an action.
pub open spec fn action_text(a: Action) -> Seq<char> {
    match a {
        Action::Download => "download"@,
        Action::Dynamic => "dynamic"@,
        Action::Skip => "skip"@,
        Action::Purge => "purge"@,
        Action::Archive => "archive"@,
        Action::Quarantine => "quarantine"@,
    }
}

impl Action {
    /// The lower-case name of the action.
    pub fn as_str(&self) -> (res: &'static str)
        ensures
            res@ == action_text(*self),
    {
        match self {
            Action::Download => "download",
            Action::Dynamic => "dynamic",
            Action::Skip => "skip",
            Action::Purge => "purge",
            Action::Archive => "archive",
            Action::Quarantine => "quarantine",
        }
    }
}

/// Two states have the same name exactly where they are of the same kind.
pub proof fn law_kind_names_are_distinct(a: EpisodeState, b: EpisodeState)
    ensures
        kind_text(a) == kind_text(b) <==> {
            ||| a is Discovered && b is Discovered
            ||| a is Matched && b is Matched
            ||| a is Downloading && b is Downloading
            ||| a is Complete && b is Complete
            ||| a is Dynamic && b is Dynamic
            ||| a is Failed && b is Failed
            ||| a is Quarantined && b is Quarantined
            ||| a is Purged && b is Purged
        },
{
    reveal_strlit("discovered");
    reveal_strlit("matched");
    reveal_strlit("downloading");
    reveal_strlit("complete");
    reveal_strlit("dynamic");
    reveal_strlit("failed");
    reveal_strlit("quarantined");
    reveal_strlit("purged");
    assert("discovered"@[0] == 'd' && "discovered"@[1] == 'i');
    assert("matched"@[0] == 'm');
    assert("downloading"@[0] == 'd' && "downloading"@[1] == 'o');
    assert("complete"@[0] == 'c');
    assert("dynamic"@[0] == 'd' && "dynamic"@[1] == 'y');
    assert("failed"@[0] == 'f');
    assert("quarantined"@[0] == 'q');
    assert("purged"@[0] == 'p');
}

/// The names of the kinds of states and of the actions, by which episodes are filtered and
/// rules are written.
pub proof fn law_names_of_kinds_and_actions(state: EpisodeState)
    ensures
        state is Discovered ==> kind_text(state) == "discovered"@,
        state is Matched ==> kind_text(state) == "matched"@,
        state is Downloading ==> kind_text(state) == "downloading"@,
        state is Complete ==> kind_text(state) == "complete"@,
        state is Dynamic ==> kind_text(state) == "dynamic"@,
        state is Failed ==> kind_text(state) == "failed"@,
        state is Quarantined ==> kind_text(state) == "quarantined"@,
        state is Purged ==> kind_text(state) == "purged"@,
        action_text(Action::Download) == "download"@,
        action_text(Action::Dynamic) == "dynamic"@,
        action_text(Action::Skip) == "skip"@,
        action_text(Action::Purge) == "purge"@,
        action_text(Action::Archive) == "archive"@,
        action_text(Action::Quarantine) == "quarantine"@,
{
}

/// Nothing more happens by itself to an episode that is complete, quarantined, purged or
/// skipped, and to no other.
pub proof fn law_which_states_are_final(state: EpisodeState)
    ensures
        state.terminal() <==> match state {
            EpisodeState::Complete { .. } => true,
            EpisodeState::Quarantined { .. } => true,
            EpisodeState::Purged { .. } => true,
            EpisodeState::Matched(Action::Skip) => true,
            _ => false,
        },
{
}

/// The text of a state names its kind and what else is known of it.
pub proof fn law_texts_of_states(state: EpisodeState)
    ensures
        state is Discovered ==> state_text(state) == "discovered"@,
        state matches EpisodeState::Matched(a) ==> state_text(state) == "matched ("@ + action_text(a)
            + ")"@,
        state matches EpisodeState::Downloading { attempt, .. } ==> state_text(state)
            == "downloading (attempt "@ + text::decimal(attempt as nat) + ")"@,
        state matches EpisodeState::Complete { path, .. } ==> state_text(state) == "complete → "@
            + path@,
        state matches EpisodeState::Dynamic { path, .. } ==> state_text(state) == "dynamic → "@
            + path@,
        state matches EpisodeState::Failed { attempts, .. } ==> state_text(state) == "failed ("@
            + text::decimal(attempts as nat) + " attempt(s))"@,
        state matches EpisodeState::Quarantined { reason, .. } ==> state_text(state)
            == "quarantined: "@ + reason@,
        state matches EpisodeState::Purged { purged_at } ==> state_text(state) == "purged ("@
            + time::time_text(purged_at.epoch_secs(), purged_at.subsec()) + ")"@,
{
}

} // verus!
