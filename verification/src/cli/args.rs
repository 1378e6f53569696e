//! The commands of the program and their arguments.
use crate::config;
use crate::config::Config;
use vstd::prelude::*;

verus! {

/// Arguments of the check for missing files.
#[derive(Debug)]
pub struct CheckArgs {
    /// Queue missing episodes again.
    pub fix: bool,
}

/// Arguments of a download.
#[derive(Debug)]
pub struct DownloadArgs {
    /// The episodes to download; the queue where there are none.
    pub ids: Vec<String>,
}

/// Arguments of the commands on episodes.
#[derive(Debug)]
pub struct EpisodeArgs {
    pub sub: EpisodeSub,
}

/// The commands on episodes.
#[derive(Debug)]
#[allow(inconsistent_fields)]
pub enum EpisodeSub {
    /// List episodes of one feed or of all, in any state or in one.
    List { feed: Option<String>, state: Option<String>, limit: usize, completions: bool },
    /// Queue an episode again.
    Requeue { id: String },
    /// Remove an episode, and its file where that is asked for.
    Delete { id: String, delete_file: bool },
}

/// Arguments of the commands on feeds.
#[derive(Debug)]
pub struct FeedArgs {
    pub sub: FeedSub,
}

/// The commands on feeds.
#[derive(Debug)]
#[allow(inconsistent_fields)]
pub enum FeedSub {
    List,
    Info { slug: String },
    /// Look for files in the library and mark their episodes as complete.
    Reimport { slug: Option<String> },
    /// Write the documents of restreamed feeds again.
    RebuildRss { slugs: Vec<String> },
}

/// Arguments of the commands on quarantined episodes.
#[derive(Debug)]
pub struct QuarantineArgs {
    pub sub: QuarantineSub,
}

/// The commands on quarantined episodes.
#[derive(Debug)]
pub enum QuarantineSub {
    List,
    Retry { id: String },
}

/// Arguments of the commands on rules.
#[derive(Debug)]
pub struct RulesArgs {
    pub sub: RulesSub,
}

/// The commands on rules.
#[derive(Debug)]
pub enum RulesSub {
    /// Show what the rules say of each episode of a feed.
    Check { slug: String },
    List,
}

/// Arguments of a sync.
#[derive(Debug)]
pub struct SyncArgs {
    /// The feeds to sync; all enabled ones where there are none.
    pub slugs: Vec<String>,
    /// Do not download anything.
    pub feeds_only: bool,
    /// Try the rules again on all pending episodes.
    pub recheck: bool,
}

/// The commands that need the store.
#[derive(Debug)]
#[allow(inconsistent_fields)]
pub enum Command {
    Feed(FeedArgs),
    Episode(EpisodeArgs),
    Start,
    Sync(SyncArgs),
    Download(DownloadArgs),
    Quarantine(QuarantineArgs),
    Rules(RulesArgs),
    Migrate,
    Status,
    Check(CheckArgs),
    Purge { slugs: Vec<String> },
}

/// What is done for a command, with the slugs of feeds in place of their aliases.
#[derive(Debug)]
#[allow(inconsistent_fields)]
pub enum Task {
    FeedList { interactive: bool },
    FeedInfo { slug: String, interactive: bool },
    Reimport { slug: Option<String> },
    RebuildRss { slugs: Vec<String> },
    EpisodeList { feed: Option<String>, state: Option<String>, limit: usize, completions: bool },
    Requeue { id: String },
    EpisodeDelete { id: String, delete_file: bool },
    Start,
    Sync { slugs: Vec<String>, feeds_only: bool, recheck: bool },
    Download { ids: Vec<String> },
    QuarantineList,
    RulesCheck { slug: String },
    RulesList,
    Migrate,
    Status,
    Check { fix: bool },
    Purge { slugs: Vec<String> },
}

/// Whether `out` holds the slugs for the names in `names`.
pub open spec fn are_resolved(cfg: Config, names: Seq<String>, out: Seq<String>) -> bool {
    &&& out.len() == names.len()
    &&& forall|i: int|
        0 <= i < out.len() ==> (#[trigger] out[i])@ == config::resolved(cfg.feeds@, names[i]@)
}

/// Whether `out` holds the slug for the optional name in `name`.
pub open spec fn is_resolved(cfg: Config, name: Option<String>, out: Option<String>) -> bool {
    match name {
        Some(n) => out matches Some(o) && o@ == config::resolved(cfg.feeds@, n@),
        None => out is None,
    }
}

/// The slugs for some names of feeds.
pub fn resolve_all(cfg: &Config, names: &Vec<String>) -> (res: Vec<String>)
    ensures
        are_resolved(*cfg, names@, res@),
{
    let mut out: Vec<String> = Vec::new();
    for i in 0..names.len()
        invariant
            out@.len() == i,
            forall|k: int|
                0 <= k < i ==> (#[trigger] out@[k])@ == config::resolved(cfg.feeds@, names@[k]@),
    {
        out.push(config::resolve_slug(cfg, names[i].as_str()));
    }
    out
}

fn resolve_opt(cfg: &Config, name: &Option<String>) -> (res: Option<String>)
    ensures
        is_resolved(*cfg, *name, res),
{
    match name {
        Some(n) => Some(config::resolve_slug(cfg, n.as_str())),
        None => None,
    }
}

/// Whether `task` is what is done for `command`. A feed may be named by an alias wherever a
/// command takes a slug; a sync resolves its names itself.
pub open spec fn is_task_of(cfg: Config, command: Command, interactive: bool, task: Task) -> bool {
    match command {
        Command::Feed(FeedArgs { sub }) => match sub {
            FeedSub::List => task == (Task::FeedList { interactive }),
            FeedSub::Info { slug } => task matches Task::FeedInfo { slug: s, interactive: i } && s@
                == config::resolved(cfg.feeds@, slug@) && i == interactive,
            FeedSub::Reimport { slug } => task matches Task::Reimport { slug: s } && is_resolved(
                cfg,
                slug,
                s,
            ),
            FeedSub::RebuildRss { slugs } => task matches Task::RebuildRss { slugs: s }
                && are_resolved(cfg, slugs@, s@),
        },
        Command::Episode(EpisodeArgs { sub }) => match sub {
            EpisodeSub::List { feed, state, limit, completions } => task matches Task::EpisodeList {
                feed: f,
                state: s,
                limit: l,
                completions: c,
            } && is_resolved(cfg, feed, f) && s == state && l == limit && c == completions,
            EpisodeSub::Requeue { id } => task == (Task::Requeue { id }),
            EpisodeSub::Delete { id, delete_file } => task == (Task::EpisodeDelete {
                id,
                delete_file,
            }),
        },
        Command::Start => task is Start,
        Command::Sync(SyncArgs { slugs, feeds_only, recheck }) => task matches Task::Sync {
            slugs: s,
            feeds_only: f,
            recheck: r,
        } && s == slugs && f == feeds_only && r == recheck,
        Command::Download(DownloadArgs { ids }) => task == (Task::Download { ids }),
        Command::Quarantine(QuarantineArgs { sub }) => match sub {
            QuarantineSub::List => task is QuarantineList,
            QuarantineSub::Retry { id } => task == (Task::Requeue { id }),
        },
        Command::Rules(RulesArgs { sub }) => match sub {
            RulesSub::Check { slug } => task matches Task::RulesCheck { slug: s } && s@
                == config::resolved(cfg.feeds@, slug@),
            RulesSub::List => task is RulesList,
        },
        Command::Migrate => task is Migrate,
        Command::Status => task is Status,
        Command::Check(CheckArgs { fix }) => task == (Task::Check { fix }),
        Command::Purge { slugs } => task matches Task::Purge { slugs: s } && are_resolved(
            cfg,
            slugs@,
            s@,
        ),
    }
}

/// What is done for a command.
pub fn run(command: Command, cfg: &Config, interactive: bool) -> (res: Task)
    ensures
        is_task_of(*cfg, command, interactive, res),
{
    match command {
        Command::Feed(FeedArgs { sub }) => match sub {
            FeedSub::List => Task::FeedList { interactive },
            FeedSub::Info { slug } => Task::FeedInfo {
                slug: config::resolve_slug(cfg, slug.as_str()),
                interactive,
            },
            FeedSub::Reimport { slug } => Task::Reimport { slug: resolve_opt(cfg, &slug) },
            FeedSub::RebuildRss { slugs } => Task::RebuildRss { slugs: resolve_all(cfg, &slugs) },
        },
        Command::Episode(EpisodeArgs { sub }) => match sub {
            EpisodeSub::List { feed, state, limit, completions } => Task::EpisodeList {
                feed: resolve_opt(cfg, &feed),
                state,
                limit,
                completions,
            },
            EpisodeSub::Requeue { id } => Task::Requeue { id },
            EpisodeSub::Delete { id, delete_file } => Task::EpisodeDelete { id, delete_file },
        },
        Command::Start => Task::Start,
        Command::Sync(SyncArgs { slugs, feeds_only, recheck }) => Task::Sync {
            slugs,
            feeds_only,
            recheck,
        },
        Command::Download(DownloadArgs { ids }) => Task::Download { ids },
        Command::Quarantine(QuarantineArgs { sub }) => match sub {
            QuarantineSub::List => Task::QuarantineList,
            QuarantineSub::Retry { id } => Task::Requeue { id },
        },
        Command::Rules(RulesArgs { sub }) => match sub {
            RulesSub::Check { slug } => Task::RulesCheck {
                slug: config::resolve_slug(cfg, slug.as_str()),
            },
            RulesSub::List => Task::RulesList,
        },
        Command::Migrate => Task::Migrate,
        Command::Status => Task::Status,
        Command::Check(CheckArgs { fix }) => Task::Check { fix },
        Command::Purge { slugs } => Task::Purge { slugs: resolve_all(cfg, &slugs) },
    }
}

/// Whether a command shows its interactive form: it does not where that is ruled out, does
/// where it is asked for, and else by whether it writes to a terminal.
pub fn is_interactive(interactive: bool, no_interactive: bool, is_terminal: bool) -> (res: bool)
    ensures
        res == (!no_interactive && (interactive || is_terminal)),
{
    if no_interactive {
        false
    } else if interactive {
        true
    } else {
        is_terminal
    }
}

/// A feed may be named by an alias wherever a command takes a slug: what is done then is done
/// for the slug that the name stands for. A sync keeps the names as they were given, and resolves
/// them when it is planned.
pub proof fn law_names_of_feeds_are_resolved(
    cfg: Config,
    command: Command,
    interactive: bool,
    task: Task,
)
    requires
        is_task_of(cfg, command, interactive, task),
    ensures
        command matches Command::Feed(FeedArgs { sub: FeedSub::Info { slug } }) ==> task is FeedInfo
            && task->FeedInfo_slug@ == config::resolved(cfg.feeds@, slug@),
        command matches Command::Rules(RulesArgs { sub: RulesSub::Check { slug } })
            ==> task is RulesCheck && task->RulesCheck_slug@ == config::resolved(
            cfg.feeds@,
            slug@,
        ),
        command matches Command::Feed(FeedArgs { sub: FeedSub::RebuildRss { slugs } })
            ==> task is RebuildRss && task->RebuildRss_slugs@.len() == slugs@.len() && forall|i: int|
            0 <= i < slugs@.len() ==> (#[trigger] task->RebuildRss_slugs@[i])@ == config::resolved(
                cfg.feeds@,
                slugs@[i]@,
            ),
        command matches Command::Purge { slugs } ==> task is Purge && task->Purge_slugs@.len()
            == slugs@.len() && forall|i: int|
            0 <= i < slugs@.len() ==> (#[trigger] task->Purge_slugs@[i])@ == config::resolved(
                cfg.feeds@,
                slugs@[i]@,
            ),
        command matches Command::Feed(FeedArgs { sub: FeedSub::Reimport { slug } })
            ==> task is Reimport && match slug {
            Some(s) => task->Reimport_slug matches Some(t) && t@ == config::resolved(
                cfg.feeds@,
                s@,
            ),
            None => task->Reimport_slug is None,
        },
        command matches Command::Episode(EpisodeArgs { sub: EpisodeSub::List { feed, .. } })
            ==> task is EpisodeList && match feed {
            Some(s) => task->feed matches Some(t) && t@ == config::resolved(cfg.feeds@, s@),
            None => task->feed is None,
        },
        command matches Command::Sync(a) ==> task is Sync && task->Sync_slugs == a.slugs
            && task->recheck == a.recheck && task->feeds_only == a.feeds_only,
        command matches Command::Quarantine(QuarantineArgs { sub: QuarantineSub::Retry { id } })
            ==> task == (Task::Requeue { id }),
        command matches Command::Episode(EpisodeArgs { sub: EpisodeSub::Requeue { id } }) ==> task
            == (Task::Requeue { id }),
        command matches Command::Episode(
            EpisodeArgs { sub: EpisodeSub::Delete { id, delete_file } },
        ) ==> task == (Task::EpisodeDelete { id, delete_file }),
        command matches Command::Check(CheckArgs { fix }) ==> task == (Task::Check { fix }),
        command matches Command::Download(DownloadArgs { ids }) ==> task == (Task::Download { ids }),
{
}

} // verus!
