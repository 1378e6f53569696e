//! The course of the download of one queued episode.
use crate::downloader;
use crate::downloader::{DownloadError, DownloadResult};
use crate::episode::{Action, Episode, EpisodeState};
use crate::feed::Feed;
use crate::ids::FeedId;
use crate::time::UtcTime;
use vstd::prelude::*;
use vstd::string::*;

verus! {

/// Where the download of an episode stands.
pub enum TaskState {
    Start,
    AwaitFeed,
    AwaitDir,
    AwaitFile,
    AwaitDownload,
    /// The state of an episode whose file was on disk already is being written.
    AwaitFoundState,
    /// The state of a downloaded episode is being written.
    AwaitDoneState { path: String },
    /// The state of a failed episode is being written.
    AwaitFailedState,
    /// The episode is being taken out of the queue. A file that was just downloaded gets its
    /// tags afterwards.
    AwaitDequeue { tag: Option<String> },
    AwaitTags,
    Finished,
}

/// What is done next for an episode.
pub enum TaskAction {
    LoadFeed { id: FeedId },
    /// The feed's directory in the library is made.
    MakeDir { slug: String },
    /// A file with this name is looked for in the feed's directory.
    FindFile { name: String },
    Download,
    SetState { state: EpisodeState },
    Dequeue,
    /// The cover is fetched and the tags are written to the file.
    WriteTags { path: String },
    Finish,
}

/// How an action ended.
pub enum TaskEvent {
    Begin,
    FeedLoaded { feed: Option<Feed> },
    DirMade { ok: bool },
    /// The path of the file that was found, and when it was last changed, where that is known.
    FileFound { path: String, modified: Option<UtcTime> },
    FileMissing,
    Downloaded { result: Result<DownloadResult, DownloadError> },
    StateSet { ok: bool },
    Dequeued,
    Tagged,
}

/// Whether an episode is kept only while it is in a window.
pub open spec fn is_dynamic(ep: Episode) -> bool {
    ep.state == EpisodeState::Matched(Action::Dynamic)
}

/// Whether `state` is the one of an episode whose file is at `path`. An episode that is kept
/// only while it is in a window stays dynamic; any other is complete.
pub open spec fn is_downloaded_state(
    ep: Episode,
    path: Seq<char>,
    at: UtcTime,
    sha256: Seq<char>,
    state: EpisodeState,
) -> bool {
    if is_dynamic(ep) {
        state matches EpisodeState::Dynamic { path: p, downloaded_at, sha256: h } && p@ == path
            && downloaded_at == at && h@ == sha256
    } else {
        state matches EpisodeState::Complete { path: p, downloaded_at, sha256: h } && p@ == path
            && downloaded_at == at && h@ == sha256
    }
}

/// The state of an episode whose file is at `path`.
pub fn downloaded_state(ep: &Episode, path: String, at: UtcTime, sha256: String) -> (res:
    EpisodeState)
    ensures
        is_downloaded_state(*ep, path@, at, sha256@, res),
{
    let dynamic = match &ep.state {
        EpisodeState::Matched(a) => *a == Action::Dynamic,
        _ => false,
    };
    if dynamic {
        EpisodeState::Dynamic { path, downloaded_at: at, sha256 }
    } else {
        EpisodeState::Complete { path, downloaded_at: at, sha256 }
    }
}

/// Whether `next` and `action` follow where the download of `ep` stands at `state` and
/// `event` has happened at the moment `now`.
pub open spec fn is_task_step(
    ep: Episode,
    state: TaskState,
    event: TaskEvent,
    now: UtcTime,
    next: TaskState,
    action: TaskAction,
) -> bool {
    match (state, event) {
        (TaskState::Start, TaskEvent::Begin) => next is AwaitFeed && action == (
        TaskAction::LoadFeed { id: ep.feed_id }),
        (TaskState::AwaitFeed, TaskEvent::FeedLoaded { feed: Some(feed) }) => next is AwaitDir && (
        action matches TaskAction::MakeDir { slug } && slug@ == feed.slug@),
        (TaskState::AwaitDir, TaskEvent::DirMade { ok: true }) => next is AwaitFile && (
        action matches TaskAction::FindFile { name } && name@ == downloader::file_name_text(ep, false)),
        (TaskState::AwaitFile, TaskEvent::FileMissing) => next is AwaitDownload
            && action is Download,
        (TaskState::AwaitFile, TaskEvent::FileFound { path, modified }) => next is AwaitFoundState
            && (action matches TaskAction::SetState { state: s } && is_downloaded_state(
            ep,
            path@,
            match modified {
                Some(t) => t,
                None => now,
            },
            Seq::empty(),
            s,
        )),
        (TaskState::AwaitFoundState, TaskEvent::StateSet { ok: true }) => next == (
        TaskState::AwaitDequeue { tag: None }) && action is Dequeue,
        (TaskState::AwaitDownload, TaskEvent::Downloaded { result: Ok(r) }) => (
        next matches TaskState::AwaitDoneState { path } && path@ == r.path@) && (
        action matches TaskAction::SetState { state: s } && is_downloaded_state(
            ep,
            r.path@,
            now,
            r.sha256@,
            s,
        )),
        (TaskState::AwaitDownload, TaskEvent::Downloaded { result: Err(e) }) =>
        next is AwaitFailedState && (action matches TaskAction::SetState {
            state: EpisodeState::Quarantined { reason, last_error },
        } && reason@ == downloader::reason_text(e) && last_error@
            == downloader::download_error_text(e)),
        (TaskState::AwaitDoneState { path }, TaskEvent::StateSet { ok: true }) => next == (
        TaskState::AwaitDequeue { tag: Some(path) }) && action is Dequeue,
        (TaskState::AwaitFailedState, TaskEvent::StateSet { .. }) => next == (
        TaskState::AwaitDequeue { tag: None }) && action is Dequeue,
        (TaskState::AwaitDequeue { tag: Some(path) }, TaskEvent::Dequeued) => next is AwaitTags
            && action == (TaskAction::WriteTags { path }),
        _ => next is Finished && action is Finish,
    }
}

/// The next action for an episode, and where its download stands then. Anything that goes
/// wrong ends the download and leaves the episode in the queue, but a download that failed
/// after all attempts: that episode is quarantined and taken out of the queue.
pub fn task_step(ep: &Episode, state: TaskState, event: TaskEvent, now: UtcTime) -> (res: (
    TaskState,
    TaskAction,
))
    ensures
        is_task_step(*ep, state, event, now, res.0, res.1),
{
    match (state, event) {
        (TaskState::Start, TaskEvent::Begin) => (
            TaskState::AwaitFeed,
            TaskAction::LoadFeed { id: ep.feed_id },
        ),
        (TaskState::AwaitFeed, TaskEvent::FeedLoaded { feed: Some(feed) }) => (
            TaskState::AwaitDir,
            TaskAction::MakeDir { slug: feed.slug },
        ),
        (TaskState::AwaitDir, TaskEvent::DirMade { ok: true }) => {
            let name = downloader::file_name(ep, false);
            (TaskState::AwaitFile, TaskAction::FindFile { name })
        },
        (TaskState::AwaitFile, TaskEvent::FileMissing) => (
            TaskState::AwaitDownload,
            TaskAction::Download,
        ),
        (TaskState::AwaitFile, TaskEvent::FileFound { path, modified }) => {
            let at = match modified {
                Some(t) => t,
                None => now,
            };
            let new_state = downloaded_state(ep, path, at, String::new());
            (TaskState::AwaitFoundState, TaskAction::SetState { state: new_state })
        },
        (TaskState::AwaitFoundState, TaskEvent::StateSet { ok: true }) => (
            TaskState::AwaitDequeue { tag: None },
            TaskAction::Dequeue,
        ),
        (TaskState::AwaitDownload, TaskEvent::Downloaded { result: Ok(r) }) => {
            let new_state = downloaded_state(ep, r.path.clone(), now, r.sha256);
            (
                TaskState::AwaitDoneState { path: r.path },
                TaskAction::SetState { state: new_state },
            )
        },
        (TaskState::AwaitDownload, TaskEvent::Downloaded { result: Err(e) }) => {
            let quarantined = EpisodeState::Quarantined {
                reason: e.reason().to_string(),
                last_error: e.to_text(),
            };
            (TaskState::AwaitFailedState, TaskAction::SetState { state: quarantined })
        },
        (TaskState::AwaitDoneState { path }, TaskEvent::StateSet { ok: true }) => (
            TaskState::AwaitDequeue { tag: Some(path) },
            TaskAction::Dequeue,
        ),
        (TaskState::AwaitFailedState, TaskEvent::StateSet { .. }) => (
            TaskState::AwaitDequeue { tag: None },
            TaskAction::Dequeue,
        ),
        (TaskState::AwaitDequeue { tag: Some(path) }, TaskEvent::Dequeued) => (
            TaskState::AwaitTags,
            TaskAction::WriteTags { path },
        ),
        _ => (TaskState::Finished, TaskAction::Finish),
    }
}

/// A step of the course of a download.
pub struct TaskStep {
    pub event: TaskEvent,
    pub now: UtcTime,
    pub next: TaskState,
    pub action: TaskAction,
}

/// Where a download stands before step `i` of a course.
pub open spec fn state_before(steps: Seq<TaskStep>, i: int) -> TaskState {
    if i <= 0 {
        TaskState::Start
    } else {
        steps[i - 1].next
    }
}

/// Whether steps are a possible course of the download of an episode.
pub open spec fn is_course(ep: Episode, steps: Seq<TaskStep>) -> bool {
    forall|i: int|
        0 <= i < steps.len() ==> is_task_step(
            ep,
            state_before(steps, i),
            (#[trigger] steps[i]).event,
            steps[i].now,
            steps[i].next,
            steps[i].action,
        )
}

/// An episode is downloaded only after no file with its name was found: a file that is on disk
/// is not downloaded again.
pub proof fn law_no_download_over_a_file(ep: Episode, steps: Seq<TaskStep>, i: int)
    requires
        is_course(ep, steps),
        0 <= i < steps.len(),
        steps[i].action is Download,
    ensures
        steps[i].event is FileMissing,
        1 <= i,
        steps[i - 1].action matches TaskAction::FindFile { name } && name@
            == downloader::file_name_text(ep, false),
{
    assert(steps[i] == steps[i]);
    if i > 0 {
        assert(steps[i - 1] == steps[i - 1]);
        assert(steps[i - 1].next is AwaitFile);
    }
}

/// An episode leaves the queue only after its new state was written, or after its download
/// failed for good and the attempt to write that was made.
pub proof fn law_dequeued_after_state(ep: Episode, steps: Seq<TaskStep>, i: int)
    requires
        is_course(ep, steps),
        0 <= i < steps.len(),
        steps[i].action is Dequeue,
    ensures
        1 <= i,
        steps[i].event matches TaskEvent::StateSet { ok } && (steps[i - 1].action
            matches TaskAction::SetState { state } && (ok || state is Quarantined)),
{
    assert(steps[i] == steps[i]);
    if i > 0 {
        assert(steps[i - 1] == steps[i - 1]);
    }
}

/// An episode that is kept only while it is in a window is never marked as complete by its
/// download, and any other never as dynamic.
pub proof fn law_dynamic_episodes_stay_dynamic(ep: Episode, steps: Seq<TaskStep>, i: int)
    requires
        is_course(ep, steps),
        0 <= i < steps.len(),
    ensures
        steps[i].action matches TaskAction::SetState { state } ==> {
            &&& state is Complete ==> !is_dynamic(ep)
            &&& state is Dynamic ==> is_dynamic(ep)
            &&& state is Complete || state is Dynamic || state is Quarantined
        },
{
    assert(steps[i] == steps[i]);
}

// ---- Chosen episodes ------------------------------------------------------------------------

/// The episodes that a download of chosen ones works on: those that were found, in the order
/// in which they were asked for.
pub open spec fn found_episodes(found: Seq<Option<Episode>>) -> Seq<Episode>
    decreases found.len(),
{
    if found.len() == 0 {
        Seq::empty()
    } else {
        match found.last() {
            Some(ep) => found_episodes(found.drop_last()).push(ep),
            None => found_episodes(found.drop_last()),
        }
    }
}

/// The episodes of `found` that are there.
pub fn keep_found(found: &Vec<Option<Episode>>) -> (res: Vec<Episode>)
    ensures
        res@ == found_episodes(found@),
{
    let mut out: Vec<Episode> = Vec::new();
    assert(found@.take(0) =~= Seq::empty());
    for i in 0..found.len()
        invariant
            out@ == found_episodes(found@.take(i as int)),
    {
        assert(found@.take(i + 1).drop_last() =~= found@.take(i as int));
        if let Some(ep) = &found[i] {
            out.push(ep.clone());
        }
    }
    assert(found@.take(found@.len() as int) =~= found@);
    out
}

// ---- Laws -----------------------------------------------------------------------------------

/// A file that is found on disk, or that was just downloaded, makes an episode that was matched
/// to be kept dynamically dynamic and every other one complete. A found file counts from the
/// moment it was last changed, or from now where that is not known, and has no digest; a
/// downloaded one counts from now, with its digest.
pub proof fn law_state_of_an_episode_with_a_file(
    ep: Episode,
    state: TaskState,
    event: TaskEvent,
    now: UtcTime,
    next: TaskState,
    action: TaskAction,
)
    requires
        is_task_step(ep, state, event, now, next, action),
    ensures
        (state is AwaitFile && event is FileFound) ==> next is AwaitFoundState && action is SetState
            && match ep.state {
            EpisodeState::Matched(Action::Dynamic) => action->SetState_state
                matches EpisodeState::Dynamic { path, downloaded_at, sha256 } && path@
                == event->path@ && downloaded_at == (if event->modified is Some {
                event->modified->0
            } else {
                now
            }) && sha256@.len() == 0,
            _ => action->SetState_state matches EpisodeState::Complete {
                path,
                downloaded_at,
                sha256,
            } && path@ == event->path@ && downloaded_at == (if event->modified is Some {
                event->modified->0
            } else {
                now
            }) && sha256@.len() == 0,
        },
        (state is AwaitDownload && event is Downloaded && event->result is Ok) ==> (
        next matches TaskState::AwaitDoneState { path } && path@ == event->result->Ok_0.path@)
            && action is SetState && match ep.state {
            EpisodeState::Matched(Action::Dynamic) => action->SetState_state
                matches EpisodeState::Dynamic { path, downloaded_at, sha256 } && path@
                == event->result->Ok_0.path@ && downloaded_at == now && sha256@
                == event->result->Ok_0.sha256@,
            _ => action->SetState_state matches EpisodeState::Complete {
                path,
                downloaded_at,
                sha256,
            } && path@ == event->result->Ok_0.path@ && downloaded_at == now && sha256@
                == event->result->Ok_0.sha256@,
        },
{
}

/// A download that failed after all attempts quarantines the episode with the cause, and the
/// episode leaves the queue whether or not that could be written.
pub proof fn law_failed_episode_is_quarantined(
    ep: Episode,
    state: TaskState,
    event: TaskEvent,
    now: UtcTime,
    next: TaskState,
    action: TaskAction,
)
    requires
        is_task_step(ep, state, event, now, next, action),
    ensures
        (state is AwaitDownload && event is Downloaded && event->result is Err) ==> {
            &&& next is AwaitFailedState
            &&& action is SetState
            &&& action->SetState_state matches EpisodeState::Quarantined { reason, last_error }
                && reason@ == downloader::reason_text(event->result->Err_0) && last_error@
                == downloader::download_error_text(event->result->Err_0)
        },
        (state is AwaitFailedState && event is StateSet) ==> next == (TaskState::AwaitDequeue {
            tag: None,
        }) && action is Dequeue,
{
}

/// The course of a download that goes well: the feed is loaded, its directory made, the file
/// looked for and downloaded where it is missing, the state written, the episode taken out of
/// the queue and only a file that was just downloaded tagged. Anything that goes wrong on the
/// way ends it, and the episode stays in the queue.
pub proof fn law_course_of_a_download(
    ep: Episode,
    state: TaskState,
    event: TaskEvent,
    now: UtcTime,
    next: TaskState,
    action: TaskAction,
)
    requires
        is_task_step(ep, state, event, now, next, action),
    ensures
        state is Start && event is Begin ==> next is AwaitFeed && action == (TaskAction::LoadFeed {
            id: ep.feed_id,
        }),
        (state is AwaitFeed && event is FeedLoaded && event->feed is Some) ==> next is AwaitDir && (
        action matches TaskAction::MakeDir { slug } && slug@ == event->feed->0.slug@),
        (state is AwaitFeed && event is FeedLoaded && event->feed is None) ==> next is Finished
            && action is Finish,
        state is AwaitDir && event == (TaskEvent::DirMade { ok: true }) ==> next is AwaitFile && (
        action matches TaskAction::FindFile { name } && name@ == downloader::file_name_text(
            ep,
            false,
        )),
        state is AwaitDir && event == (TaskEvent::DirMade { ok: false }) ==> next is Finished
            && action is Finish,
        state is AwaitFile && event is FileMissing ==> next is AwaitDownload && action is Download,
        state is AwaitFoundState && event == (TaskEvent::StateSet { ok: true }) ==> next == (
        TaskState::AwaitDequeue { tag: None }) && action is Dequeue,
        (state is AwaitDoneState && event == (TaskEvent::StateSet { ok: true })) ==> next == (
        TaskState::AwaitDequeue { tag: Some(state->AwaitDoneState_path) }) && action is Dequeue,
        (state is AwaitFoundState || state is AwaitDoneState) && event == (TaskEvent::StateSet {
            ok: false,
        }) ==> next is Finished && action is Finish,
        (state is AwaitDequeue && state->tag is Some && event is Dequeued) ==> next is AwaitTags
            && action == (TaskAction::WriteTags { path: state->tag->0 }),
        (state is AwaitDequeue && state->tag is None && event is Dequeued) ==> next is Finished
            && action is Finish,
{
}

/// Of chosen episodes exactly those that were found are worked on, in the order in which they
/// were asked for: entry `i`, where it was found, comes after as many as were found before it.
pub proof fn law_found_episodes_keep_their_order(found: Seq<Option<Episode>>, i: int)
    requires
        0 <= i < found.len(),
        found[i] is Some,
    ensures
        ({
            let k = found.take(i).filter(|f: Option<Episode>| f is Some).len();
            k < found_episodes(found).len() && found_episodes(found)[k as int] == found[i]->0
        }),
        found_episodes(found).len() == found.filter(|f: Option<Episode>| f is Some).len(),
    decreases found.len(),
{
    lemma_found_count(found);
    lemma_found_count(found.take(i));
    if i == found.len() - 1 {
        assert(found.take(i) =~= found.drop_last());
    } else {
        let rest = found.drop_last();
        law_found_episodes_keep_their_order(rest, i);
        assert(rest.take(i) =~= found.take(i));
    }
}

proof fn lemma_found_count(found: Seq<Option<Episode>>)
    ensures
        found_episodes(found).len() == found.filter(|f: Option<Episode>| f is Some).len(),
    decreases found.len(),
{
    reveal(Seq::filter);
    if found.len() > 0 {
        lemma_found_count(found.drop_last());
    }
}

} // verus!
