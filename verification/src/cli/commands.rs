//! The commands on the store: what they show and what they change.
use crate::cli::args;
use crate::cli::args::SyncArgs;
use crate::cli::helpers;
use crate::cli::helpers::EpisodeCounts;
use crate::cli::output;
use crate::cli::output::{OutDoc, Output, Span, SpanDoc, Style};
use crate::config;
use crate::config::Config;
use crate::downloads;
use crate::episode;
use crate::episode::{Action, Episode, EpisodeState};
use crate::feed::Feed;
use crate::ids;
use crate::ids::FeedId;
use crate::rules::config::FeedConfig;
use crate::rules::engine::RuleEngine;
use crate::storage::EpisodeFilter;
use crate::text;
use crate::time::UtcTime;
use vstd::prelude::*;
use vstd::string::*;

verus! {

/// Whether all episodes have a short form of their identifier.
pub open spec fn all_have_short(eps: Seq<Episode>) -> bool {
    forall|i: int| 0 <= i < eps.len() ==> (#[trigger] eps[i]).id.has_short()
}

/// The style of a count: plain where it is nought.
pub open spec fn count_style(n: nat, style: Style) -> Style {
    if n > 0 {
        style
    } else {
        Style::Plain
    }
}

/// A cell with a count.
pub open spec fn count_cell(n: nat, style: Style) -> Seq<SpanDoc> {
    output::one(text::decimal(n), count_style(n, style))
}

/// Puts a cell with a count at the end of a row.
pub fn push_count(row: &mut Vec<Vec<Span>>, n: usize, style: Style)
    ensures
        output::row_doc(final(row)@) == output::row_doc(old(row)@).push(
            count_cell(n as nat, style),
        ),
{
    let shown = if n > 0 {
        style
    } else {
        Style::Plain
    };
    output::push_cell(row, text::decimal_text(n as u64).as_str(), shown);
}

/// Puts a cell with a number at the end of a row.
pub fn push_number(row: &mut Vec<Vec<Span>>, n: usize, style: Style)
    ensures
        output::row_doc(final(row)@) == output::row_doc(old(row)@).push(
            output::one(text::decimal(n as nat), style),
        ),
{
    output::push_cell(row, text::decimal_text(n as u64).as_str(), style);
}

// ---- Status ------------------------------------------------------------------------------

/// Whether `row` is the row of a feed in the overview.
pub open spec fn is_status_row(
    feeds: Seq<FeedConfig>,
    feed: Feed,
    eps: Seq<Episode>,
    exist: Seq<bool>,
    row: Seq<Seq<SpanDoc>>,
) -> bool {
    exists|c: EpisodeCounts| #[trigger]
        helpers::are_counts(c, eps, exist) && row == Seq::empty()
            .push(output::one(helpers::shown_name(feeds, feed, feed.slug@), Style::Plain))
            .push(output::one(text::decimal(eps.len()), Style::Plain))
            .push(Seq::empty()
                .push((text::decimal(c.dl as nat), Style::Green))
                .push(("("@, Style::Plain))
                .push((text::decimal(c.dynamic as nat), Style::Blue))
                .push((")"@, Style::Plain)))
            .push(count_cell(c.queued as nat, Style::Yellow))
            .push(output::one(text::decimal(c.skipped as nat), Style::DarkGrey))
            .push(count_cell(c.quarantined as nat, Style::Red))
}

/// Whether `outs` is the overview of some feeds.
pub open spec fn is_status(
    cfg: Config,
    feeds: Seq<Feed>,
    eps: Seq<Vec<Episode>>,
    exist: Seq<Vec<bool>>,
    outs: Seq<OutDoc>,
) -> bool {
    if feeds.len() == 0 {
        outs == seq![
            OutDoc::Line(
                output::one("No feeds in database. Run `dura feed sync` first."@, Style::Dim),
            ),
        ]
    } else {
        &&& outs.len() == 1
        &&& outs[0] matches OutDoc::Table(header, rows)
        &&& header == Seq::empty()
            .push("FEED"@)
            .push("TOTAL"@)
            .push("DL(DYN)"@)
            .push("QUEUED"@)
            .push("SKIP"@)
            .push("QUAR"@)
        &&& rows.len() == feeds.len()
        &&& forall|i: int|
            0 <= i < rows.len() ==> is_status_row(
                cfg.feeds@,
                feeds[i],
                eps[i]@,
                exist[i]@,
                #[trigger] rows[i],
            )
    }
}

fn status_row(
    feeds: &Vec<FeedConfig>,
    feed: &Feed,
    eps: &Vec<Episode>,
    exist: &Vec<bool>,
) -> (row: Vec<Vec<Span>>)
    requires
        exist@.len() == eps@.len(),
    ensures
        is_status_row(feeds@, *feed, eps@, exist@, output::row_doc(row@)),
{
    let c = EpisodeCounts::tally(eps.as_slice(), exist.as_slice());
    let mut row = output::no_cells();
    let name = helpers::display_name(feeds, feed, feed.slug.as_str());
    output::push_cell(&mut row, name.as_str(), Style::Plain);
    push_number(&mut row, eps.len(), Style::Plain);
    let mut cell = output::no_spans();
    output::push_span(&mut cell, text::decimal_text(c.dl as u64).as_str(), Style::Green);
    output::push_span(&mut cell, "(", Style::Plain);
    output::push_span(&mut cell, text::decimal_text(c.dynamic as u64).as_str(), Style::Blue);
    output::push_span(&mut cell, ")", Style::Plain);
    output::push_line_cell(&mut row, cell);
    push_count(&mut row, c.queued, Style::Yellow);
    push_number(&mut row, c.skipped, Style::DarkGrey);
    push_count(&mut row, c.quarantined, Style::Red);
    row
}

/// The overview of all feeds. `episodes` holds the episodes of each feed, and `exist` tells
/// which of them have their file on disk.
pub fn cmd_status(
    cfg: &Config,
    feeds: &Vec<Feed>,
    episodes: &Vec<Vec<Episode>>,
    exist: &Vec<Vec<bool>>,
) -> (res: Vec<Output>)
    requires
        episodes@.len() == feeds@.len(),
        exist@.len() == feeds@.len(),
        forall|i: int| 0 <= i < feeds@.len() ==> (#[trigger] exist@[i])@.len() == episodes@[i]@.len(),
    ensures
        is_status(*cfg, feeds@, episodes@, exist@, output::outs_doc(res@)),
{
    let mut outs = output::no_outputs();
    if feeds.len() == 0 {
        output::push_text(
            &mut outs,
            "No feeds in database. Run `dura feed sync` first.",
            Style::Dim,
        );
        return outs;
    }
    let mut header = output::no_titles();
    output::push_title(&mut header, "FEED");
    output::push_title(&mut header, "TOTAL");
    output::push_title(&mut header, "DL(DYN)");
    output::push_title(&mut header, "QUEUED");
    output::push_title(&mut header, "SKIP");
    output::push_title(&mut header, "QUAR");
    let mut rows = output::no_rows();
    for i in 0..feeds.len()
        invariant
            episodes@.len() == feeds@.len(),
            exist@.len() == feeds@.len(),
            forall|i: int|
                0 <= i < feeds@.len() ==> (#[trigger] exist@[i])@.len() == episodes@[i]@.len(),
            output::rows_doc(rows@).len() == i,
            forall|k: int|
                0 <= k < i ==> is_status_row(
                    cfg.feeds@,
                    feeds@[k],
                    episodes@[k]@,
                    exist@[k]@,
                    #[trigger] output::rows_doc(rows@)[k],
                ),
    {
        assert(exist@[i as int]@.len() == episodes@[i as int]@.len());
        output::push_row(&mut rows, status_row(&cfg.feeds, &feeds[i], &episodes[i], &exist[i]));
    }
    output::push_table(&mut outs, header, rows);
    outs
}

// ---- Feeds -------------------------------------------------------------------------------

/// When a feed was last fetched, in words.
pub open spec fn fetched_doc(at: Option<String>) -> Seq<char> {
    match at {
        Some(t) => t@,
        None => "never"@,
    }
}

/// When a feed was last fetched, in words.
pub fn fetched_text(at: &Option<String>) -> (res: String)
    ensures
        res@ == fetched_doc(*at),
{
    match at {
        Some(t) => t.clone(),
        None => "never".to_string(),
    }
}

/// The row of a feed in the list of feeds.
pub open spec fn feed_row(feeds: Seq<FeedConfig>, feed: Feed, at: Option<String>) -> Seq<
    Seq<SpanDoc>,
> {
    Seq::empty()
        .push(output::one(feed.slug@, Style::Plain))
        .push(output::one(helpers::shown_name(feeds, feed, "—"@), Style::Plain))
        .push(output::one(fetched_doc(at), Style::Plain))
}

/// The list of feeds.
pub open spec fn feed_list_doc(cfg: Config, feeds: Seq<Feed>, fetched: Seq<Option<String>>) -> Seq<
    OutDoc,
> {
    if feeds.len() == 0 {
        seq![OutDoc::Line(output::one("No feeds in database."@, Style::Dim))]
    } else {
        seq![
            OutDoc::Table(
                Seq::empty()
                    .push("SLUG"@)
                    .push("NAME"@)
                    .push("LAST FETCHED"@),
                Seq::new(feeds.len(), |i: int| feed_row(cfg.feeds@, feeds[i], fetched[i])),
            ),
        ]
    }
}

/// The list of feeds. `fetched` holds the local time at which each was last fetched.
pub fn cmd_feed_list(cfg: &Config, feeds: &Vec<Feed>, fetched: &Vec<Option<String>>) -> (res: Vec<
    Output,
>)
    requires
        fetched@.len() == feeds@.len(),
    ensures
        output::outs_doc(res@) == feed_list_doc(*cfg, feeds@, fetched@),
{
    let mut outs = output::no_outputs();
    if feeds.len() == 0 {
        output::push_text(&mut outs, "No feeds in database.", Style::Dim);
        return outs;
    }
    let mut header = output::no_titles();
    output::push_title(&mut header, "SLUG");
    output::push_title(&mut header, "NAME");
    output::push_title(&mut header, "LAST FETCHED");
    let mut rows = output::no_rows();
    let ghost all = Seq::new(
        feeds@.len(),
        |i: int| feed_row(cfg.feeds@, feeds@[i], fetched@[i]),
    );
    assert(all.take(0) =~= Seq::empty());
    for i in 0..feeds.len()
        invariant
            fetched@.len() == feeds@.len(),
            all == Seq::new(
                feeds@.len(),
                |i: int| feed_row(cfg.feeds@, feeds@[i], fetched@[i]),
            ),
            output::rows_doc(rows@) == all.take(i as int),
    {
        let mut row = output::no_cells();
        output::push_cell(&mut row, feeds[i].slug.as_str(), Style::Plain);
        let name = helpers::display_name(&cfg.feeds, &feeds[i], "—");
        output::push_cell(&mut row, name.as_str(), Style::Plain);
        output::push_cell(&mut row, fetched_text(&fetched[i]).as_str(), Style::Plain);
        output::push_row(&mut rows, row);
        assert(all.take(i + 1) =~= all.take(i as int).push(all[i as int]));
    }
    assert(all.take(all.len() as int) =~= all);
    output::push_table(&mut outs, header, rows);
    outs
}

// ---- Documents of restreamed feeds ---------------------------------------------------------

/// What a rebuild of documents does.
#[derive(Debug)]
pub struct RebuildPlan {
    /// The indices of the feeds whose document is written again.
    pub feeds: Vec<usize>,
    /// What is shown before.
    pub outputs: Vec<Output>,
}

/// Plans the rebuild of the documents of the feeds that were named, or of all restreamed ones
/// where none was.
pub fn cmd_rebuild_rss(cfg: &Config, slugs: &Vec<String>) -> (res: Result<RebuildPlan, String>)
    ensures
        match res {
            Ok(plan) => cfg.server is Some && plan.feeds@ == helpers::indices_where(
                cfg.feeds@.len() as int,
                |i: int| helpers::is_rebuilt(cfg.feeds@[i], slugs@),
            ) && output::outs_doc(plan.outputs@) == if plan.feeds@.len() == 0 {
                seq![
                    OutDoc::Line(output::one("No restream-enabled feeds to rebuild."@, Style::Dim)),
                ]
            } else {
                Seq::empty()
            },
            Err(message) => cfg.server is None && message@
                == "no [server] block in config — RSS restreaming not configured"@,
        },
{
    if cfg.server.is_none() {
        return Err("no [server] block in config — RSS restreaming not configured".to_string());
    }
    let feeds = helpers::choose_rebuilt(&cfg.feeds, slugs);
    let mut outputs = output::no_outputs();
    if feeds.len() == 0 {
        output::push_text(&mut outputs, "No restream-enabled feeds to rebuild.", Style::Dim);
    }
    Ok(RebuildPlan { feeds, outputs })
}

/// What is shown when the document of a feed has been rebuilt.
pub fn rebuilt_line(feed: &FeedConfig) -> (res: Vec<Span>)
    ensures
        output::line_doc(res@) == Seq::empty()
            .push(("Rebuilt"@, Style::Green))
            .push((" "@, Style::Plain))
            .push((feed.slug@, Style::Plain)),
{
    let mut line = output::no_spans();
    output::push_span(&mut line, "Rebuilt", Style::Green);
    output::push_span(&mut line, " ", Style::Plain);
    output::push_span(&mut line, feed.slug.as_str(), Style::Plain);
    line
}

// ---- Sync, purge and download ----------------------------------------------------------------

/// What a sync does.
#[derive(Debug)]
pub struct SyncPlan {
    /// The indices of the feeds that are synced.
    pub feeds: Vec<usize>,
    /// Whether the rules are tried again on pending episodes.
    pub recheck: bool,
    /// Whether the queue is downloaded.
    pub download: bool,
}

/// Plans a sync of the feeds that were named by slug or alias, or of all enabled ones where
/// none was.
pub fn cmd_sync(cfg: &Config, sync: &SyncArgs) -> (res: SyncPlan)
    ensures
        exists|slugs: Seq<String>| #[trigger]
            args::are_resolved(*cfg, sync.slugs@, slugs) && res.feeds@ == helpers::indices_where(
                cfg.feeds@.len() as int,
                |i: int| helpers::is_chosen(cfg.feeds@[i], slugs),
            ),
        res.recheck == sync.recheck,
        res.download == !sync.feeds_only,
{
    let slugs = args::resolve_all(cfg, &sync.slugs);
    let feeds = helpers::choose_feeds(&cfg.feeds, &slugs);
    SyncPlan { feeds, recheck: sync.recheck, download: !sync.feeds_only }
}

/// The indices of the feeds whose purge cycle is run: those that were named, or all enabled
/// ones where none was.
pub fn cmd_purge(cfg: &Config, slugs: &Vec<String>) -> (res: Vec<usize>)
    ensures
        res@ == helpers::indices_where(
            cfg.feeds@.len() as int,
            |i: int| helpers::is_chosen(cfg.feeds@[i], slugs@),
        ),
{
    helpers::choose_feeds(&cfg.feeds, slugs)
}

/// What a download does.
#[derive(Debug)]
pub struct DownloadPlan {
    pub episodes: Vec<Episode>,
    /// What is shown before.
    pub outputs: Vec<Output>,
}

/// Plans a download: of the queue where no episode was named, else of those that were and that
/// the store holds. `found` tells for each of `ids` what the store holds of it.
pub fn cmd_download(ids: &Vec<String>, queue: Vec<Episode>, found: &Vec<Option<Episode>>) -> (res:
    DownloadPlan)
    requires
        found@.len() == ids@.len(),
    ensures
        res.episodes@ == if ids@.len() == 0 {
            queue@
        } else {
            downloads::found_episodes(found@)
        },
        output::outs_doc(res.outputs@) == if res.episodes@.len() == 0 {
            seq![OutDoc::Line(output::one("Nothing to download."@, Style::Dim))]
        } else {
            Seq::empty()
        },
{
    let episodes = if ids.len() == 0 {
        queue
    } else {
        downloads::keep_found(found)
    };
    let mut outputs = output::no_outputs();
    if episodes.len() == 0 {
        output::push_text(&mut outputs, "Nothing to download.", Style::Dim);
    }
    DownloadPlan { episodes, outputs }
}

// ---- Episodes --------------------------------------------------------------------------------

/// The cell with the kind of a state.
pub open spec fn kind_cell(state: EpisodeState) -> Seq<SpanDoc> {
    let kind = text::lowercase(episode::kind_text(state));
    output::one(kind, helpers::kind_style(kind))
}

/// Puts the cell with the kind of a state at the end of a row.
pub fn push_kind(row: &mut Vec<Vec<Span>>, state: &EpisodeState)
    ensures
        output::row_doc(final(row)@) == output::row_doc(old(row)@).push(kind_cell(*state)),
{
    let kind = text::to_lower(state.kind_name());
    output::push_cell(row, kind.as_str(), helpers::state_cell(kind.as_str()));
}

/// What is asked of the store for a list of episodes: those of the feed that was named, if one
/// was. `found` is the number of the feed with the slug `feed`.
pub fn episode_filter(
    feed: &Option<String>,
    found: Option<FeedId>,
    state: &Option<String>,
    limit: usize,
) -> (res: Result<EpisodeFilter, String>)
    ensures
        match res {
            Ok(f) => (feed is Some ==> found is Some) && f.feed_id == (if feed is Some {
                found
            } else {
                None
            }) && text::opt_text(f.state_kind) == text::opt_text(*state) && f.limit == Some(limit),
            Err(message) => found is None && (feed matches Some(slug) && message@ == "feed "@
                + text::debug_text(slug@) + " not found"@),
        },
{
    let feed_id = match feed {
        Some(slug) => match found {
            Some(id) => Some(id),
            None => {
                let mut s = "feed ".to_string();
                s.append(text::debug_quote(slug.as_str()).as_str());
                s.append(" not found");
                return Err(s);
            },
        },
        None => None,
    };
    Ok(EpisodeFilter { feed_id, state_kind: text::copy_opt(state), limit: Some(limit) })
}

/// An episode as completion scripts read it.
pub open spec fn completion_line(ep: Episode) -> OutDoc {
    OutDoc::Line(output::one(ids::short_text(ep.id@) + "\t"@ + ep.title@, Style::Plain))
}

/// The row of an episode.
pub open spec fn episode_row(ep: Episode) -> Seq<Seq<SpanDoc>> {
    Seq::empty()
        .push(output::one(ids::short_text(ep.id@), Style::Plain))
        .push(output::one(ep.title@, Style::Plain))
        .push(kind_cell(ep.state))
}

/// The list of episodes.
pub open spec fn episode_list_doc(eps: Seq<Episode>, completions: bool) -> Seq<OutDoc> {
    if completions {
        eps.map_values(|ep: Episode| completion_line(ep))
    } else {
        seq![
            OutDoc::Table(
                Seq::empty()
                    .push("ID"@)
                    .push("TITLE"@)
                    .push("STATE"@),
                eps.map_values(|ep: Episode| episode_row(ep)),
            ),
        ]
    }
}

fn completion_lines(episodes: &Vec<Episode>) -> (res: Vec<Output>)
    requires
        all_have_short(episodes@),
    ensures
        output::outs_doc(res@) == episodes@.map_values(|ep: Episode| completion_line(ep)),
{
    let mut outs = output::no_outputs();
    let ghost all = episodes@.map_values(|ep: Episode| completion_line(ep));
    assert(all.take(0) =~= Seq::empty());
    for i in 0..episodes.len()
        invariant
            all_have_short(episodes@),
            all == episodes@.map_values(|ep: Episode| completion_line(ep)),
            output::outs_doc(outs@) == all.take(i as int),
    {
        let ep = &episodes[i];
        assert(episodes@[i as int].id.has_short());
        let mut s = ep.id.short().to_string();
        s.append("\t");
        s.append(ep.title.as_str());
        output::push_text(&mut outs, s.as_str(), Style::Plain);
        assert(all.take(i + 1) =~= all.take(i as int).push(all[i as int]));
    }
    assert(all.take(all.len() as int) =~= all);
    outs
}

/// The list of episodes, for a reader or for a completion script.
pub fn cmd_episode_list(episodes: &Vec<Episode>, completions: bool) -> (res: Vec<Output>)
    requires
        all_have_short(episodes@),
    ensures
        output::outs_doc(res@) == episode_list_doc(episodes@, completions),
{
    if completions {
        return completion_lines(episodes);
    }
    let mut outs = output::no_outputs();
    let mut header = output::no_titles();
    output::push_title(&mut header, "ID");
    output::push_title(&mut header, "TITLE");
    output::push_title(&mut header, "STATE");
    let mut rows = output::no_rows();
    let ghost all = episodes@.map_values(|ep: Episode| episode_row(ep));
    assert(all.take(0) =~= Seq::empty());
    for i in 0..episodes.len()
        invariant
            all_have_short(episodes@),
            all == episodes@.map_values(|ep: Episode| episode_row(ep)),
            output::rows_doc(rows@) == all.take(i as int),
    {
        let ep = &episodes[i];
        assert(episodes@[i as int].id.has_short());
        let mut row = output::no_cells();
        output::push_cell(&mut row, ep.id.short(), Style::Plain);
        output::push_cell(&mut row, ep.title.as_str(), Style::Plain);
        push_kind(&mut row, &ep.state);
        output::push_row(&mut rows, row);
        assert(all.take(i + 1) =~= all.take(i as int).push(all[i as int]));
    }
    assert(all.take(all.len() as int) =~= all);
    output::push_table(&mut outs, header, rows);
    outs
}

/// The message about an episode that the store does not hold.
pub open spec fn not_found_text(id: Seq<char>) -> Seq<char> {
    "episode "@ + text::debug_text(id) + " not found"@
}

fn not_found(id: &str) -> (res: String)
    ensures
        res@ == not_found_text(id@),
{
    let mut s = "episode ".to_string();
    s.append(text::debug_quote(id).as_str());
    s.append(" not found");
    s
}

/// What queues an episode again.
#[derive(Debug)]
pub struct RequeuePlan {
    /// The state the episode gets.
    pub state: EpisodeState,
    /// The action it is queued with.
    pub action: Action,
    /// What is shown afterwards.
    pub outputs: Vec<Output>,
}

/// Queues an episode for download again. `found` is what the store holds under `id`.
pub fn cmd_requeue(id: &str, found: &Option<Episode>) -> (res: Result<RequeuePlan, String>)
    requires
        found matches Some(ep) ==> ep.id.has_short(),
    ensures
        match res {
            Ok(plan) => found matches Some(ep) && plan.state == EpisodeState::Matched(
                Action::Download,
            ) && plan.action == Action::Download && output::outs_doc(plan.outputs@) == seq![
                OutDoc::Line(
                    Seq::empty()
                        .push(("Re-queued"@, Style::Green))
                        .push((" episode "@ + ids::short_text(ep.id@), Style::Plain)),
                ),
            ],
            Err(message) => found is None && message@ == not_found_text(id@),
        },
{
    match found {
        Some(ep) => {
            let mut outputs = output::no_outputs();
            let mut line = output::no_spans();
            output::push_span(&mut line, "Re-queued", Style::Green);
            let mut s = " episode ".to_string();
            s.append(ep.id.short());
            output::push_span(&mut line, s.as_str(), Style::Plain);
            output::push_line(&mut outputs, line);
            Ok(
                RequeuePlan {
                    state: EpisodeState::Matched(Action::Download),
                    action: Action::Download,
                    outputs,
                },
            )
        },
        None => Err(not_found(id)),
    }
}

/// What removes an episode.
#[derive(Debug)]
pub struct DeletePlan {
    /// The file that is deleted first.
    pub file: Option<String>,
    /// What is shown when the file is gone.
    pub file_outputs: Vec<Output>,
    /// What is shown when the episode is gone too.
    pub outputs: Vec<Output>,
}

/// The file of an episode that is deleted with it: that of a complete one, where it is asked
/// for and there.
pub open spec fn deleted_file(ep: Episode, delete_file: bool, file_exists: bool) -> Option<
    Seq<char>,
> {
    match ep.state {
        EpisodeState::Complete { path, .. } => if delete_file && file_exists {
            Some(path@)
        } else {
            None
        },
        _ => None,
    }
}

/// What is shown of the file of an episode that is removed.
pub open spec fn deleted_file_doc(ep: Episode, delete_file: bool, file_exists: bool) -> Seq<
    OutDoc,
> {
    match deleted_file(ep, delete_file, file_exists) {
        Some(path) => seq![
            OutDoc::Line(
                Seq::empty()
                    .push(("  "@, Style::Plain))
                    .push(("Deleted file:"@, Style::Dim))
                    .push((" "@, Style::Plain))
                    .push((path, Style::Plain)),
            ),
        ],
        None => if delete_file && ep.state is Complete {
            seq![
                OutDoc::Line(
                    Seq::empty()
                        .push(("  "@, Style::Plain))
                        .push(("File already missing from disk."@, Style::Dim)),
                ),
            ]
        } else {
            Seq::empty()
        },
    }
}

/// Plans the removal of an episode. `found` is what the store holds under `id`, and
/// `file_exists` tells whether the file of a complete episode is on disk.
pub fn cmd_episode_delete(
    id: &str,
    found: &Option<Episode>,
    delete_file: bool,
    file_exists: bool,
) -> (res: Result<DeletePlan, String>)
    requires
        found matches Some(ep) ==> ep.id.has_short(),
    ensures
        match res {
            Ok(plan) => found matches Some(ep) && text::opt_text(plan.file) == deleted_file(
                *ep,
                delete_file,
                file_exists,
            ) && output::outs_doc(plan.file_outputs@) == deleted_file_doc(
                *ep,
                delete_file,
                file_exists,
            ) && output::outs_doc(plan.outputs@) == seq![
                OutDoc::Line(
                    Seq::empty()
                        .push(("Removed"@, Style::Red))
                        .push(( " "@ + ids::short_text(ep.id@) + " — "@ + ep.title@, Style::Plain, )),
                ),
            ],
            Err(message) => found is None && message@ == not_found_text(id@),
        },
{
    match found {
        Some(ep) => {
            let mut file: Option<String> = None;
            let mut file_outputs = output::no_outputs();
            if delete_file {
                if let EpisodeState::Complete { path, .. } = &ep.state {
                    let mut line = output::no_spans();
                    output::push_span(&mut line, "  ", Style::Plain);
                    if file_exists {
                        file = Some(path.clone());
                        output::push_span(&mut line, "Deleted file:", Style::Dim);
                        output::push_span(&mut line, " ", Style::Plain);
                        output::push_span(&mut line, path.as_str(), Style::Plain);
                    } else {
                        output::push_span(&mut line, "File already missing from disk.", Style::Dim);
                    }
                    output::push_line(&mut file_outputs, line);
                }
            }
            let mut outputs = output::no_outputs();
            let mut line = output::no_spans();
            output::push_span(&mut line, "Removed", Style::Red);
            let mut s = " ".to_string();
            s.append(ep.id.short());
            s.append(" — ");
            s.append(ep.title.as_str());
            output::push_span(&mut line, s.as_str(), Style::Plain);
            output::push_line(&mut outputs, line);
            Ok(DeletePlan { file, file_outputs, outputs })
        },
        None => Err(not_found(id)),
    }
}

// ---- Quarantine ----------------------------------------------------------------------------

/// What is asked of the store for the quarantined episodes.
pub fn quarantine_filter() -> (res: EpisodeFilter)
    ensures
        res.feed_id is None,
        text::opt_text(res.state_kind) == Some("quarantined"@),
        res.limit is None,
{
    EpisodeFilter { feed_id: None, state_kind: Some("quarantined".to_string()), limit: None }
}

/// Why an episode is quarantined.
pub open spec fn quarantine_reason(state: EpisodeState) -> Seq<char> {
    match state {
        EpisodeState::Quarantined { reason, .. } => reason@,
        _ => "?"@,
    }
}

/// The row of a quarantined episode.
pub open spec fn quarantine_row(ep: Episode) -> Seq<Seq<SpanDoc>> {
    Seq::empty()
        .push(output::one(ids::short_text(ep.id@), Style::Plain))
        .push(output::one(ep.title@, Style::Plain))
        .push(output::one(quarantine_reason(ep.state), Style::Red))
}

/// The list of quarantined episodes.
pub open spec fn quarantine_list_doc(eps: Seq<Episode>) -> Seq<OutDoc> {
    if eps.len() == 0 {
        seq![OutDoc::Line(output::one("No quarantined episodes."@, Style::Dim))]
    } else {
        seq![
            OutDoc::Table(
                Seq::empty()
                    .push("ID"@)
                    .push("TITLE"@)
                    .push("REASON"@),
                eps.map_values(|ep: Episode| quarantine_row(ep)),
            ),
        ]
    }
}

/// The list of quarantined episodes.
pub fn cmd_quarantine_list(episodes: &Vec<Episode>) -> (res: Vec<Output>)
    requires
        all_have_short(episodes@),
    ensures
        output::outs_doc(res@) == quarantine_list_doc(episodes@),
{
    let mut outs = output::no_outputs();
    if episodes.len() == 0 {
        output::push_text(&mut outs, "No quarantined episodes.", Style::Dim);
        return outs;
    }
    let mut header = output::no_titles();
    output::push_title(&mut header, "ID");
    output::push_title(&mut header, "TITLE");
    output::push_title(&mut header, "REASON");
    let mut rows = output::no_rows();
    let ghost all = episodes@.map_values(|ep: Episode| quarantine_row(ep));
    assert(all.take(0) =~= Seq::empty());
    for i in 0..episodes.len()
        invariant
            all_have_short(episodes@),
            all == episodes@.map_values(|ep: Episode| quarantine_row(ep)),
            output::rows_doc(rows@) == all.take(i as int),
    {
        let ep = &episodes[i];
        assert(episodes@[i as int].id.has_short());
        let mut row = output::no_cells();
        output::push_cell(&mut row, ep.id.short(), Style::Plain);
        output::push_cell(&mut row, ep.title.as_str(), Style::Plain);
        match &ep.state {
            EpisodeState::Quarantined { reason, .. } => {
                output::push_cell(&mut row, reason.as_str(), Style::Red);
            },
            _ => {
                output::push_cell(&mut row, "?", Style::Red);
            },
        }
        output::push_row(&mut rows, row);
        assert(all.take(i + 1) =~= all.take(i as int).push(all[i as int]));
    }
    assert(all.take(all.len() as int) =~= all);
    output::push_table(&mut outs, header, rows);
    outs
}

// ---- Rules -----------------------------------------------------------------------------------

/// The row that tells what the rules say of an episode.
pub open spec fn verdict_row(ep: Episode, a: Action) -> Seq<Seq<SpanDoc>> {
    Seq::empty()
        .push(output::one(ids::short_text(ep.id@), Style::Plain))
        .push(output::one(ep.title@, Style::Plain))
        .push(output::one(episode::action_text(a), helpers::action_style(a)))
}

/// What the rules say of some episodes of a feed at the time `now`.
pub open spec fn rules_check_doc(
    engine: RuleEngine,
    feed: Feed,
    eps: Seq<Episode>,
    now: UtcTime,
) -> Seq<OutDoc> {
    seq![
        OutDoc::Table(
            Seq::empty()
                .push("ID"@)
                .push("TITLE"@)
                .push("ACTION"@),
            eps.map_values(|ep: Episode| verdict_row(ep, engine.action_at(ep, feed, now))),
        ),
    ]
}

/// The message about a feed that the store does not hold.
pub open spec fn unknown_feed_text(slug: Seq<char>, hint: Seq<char>) -> Seq<char> {
    "feed "@ + text::debug_text(slug) + hint
}

/// The message about a feed that the store does not hold, with `hint` at its end.
pub fn unknown_feed(slug: &str, hint: &str) -> (res: String)
    ensures
        res@ == unknown_feed_text(slug@, hint@),
{
    let mut s = "feed ".to_string();
    s.append(text::debug_quote(slug).as_str());
    s.append(hint);
    s
}

/// What the rules say of the episodes of a feed at the time `now`. `found` is what the store
/// holds under `slug`.
pub fn cmd_rules_check(
    engine: &RuleEngine,
    slug: &str,
    found: &Option<Feed>,
    episodes: &Vec<Episode>,
    now: UtcTime,
) -> (res: Result<Vec<Output>, String>)
    requires
        found is Some ==> all_have_short(episodes@),
    ensures
        match res {
            Ok(outs) => found matches Some(feed) && output::outs_doc(outs@) == rules_check_doc(
                *engine,
                *feed,
                episodes@,
                now,
            ),
            Err(message) => found is None && message@ == unknown_feed_text(
                slug@,
                " not found in database — run `feed sync` first"@,
            ),
        },
{
    let feed = match found {
        Some(feed) => feed,
        None => {
            return Err(unknown_feed(slug, " not found in database — run `feed sync` first"));
        },
    };
    let mut outs = output::no_outputs();
    let mut header = output::no_titles();
    output::push_title(&mut header, "ID");
    output::push_title(&mut header, "TITLE");
    output::push_title(&mut header, "ACTION");
    let mut rows = output::no_rows();
    let ghost all = episodes@.map_values(
        |ep: Episode| verdict_row(ep, engine.action_at(ep, *feed, now)),
    );
    assert(all.take(0) =~= Seq::empty());
    for i in 0..episodes.len()
        invariant
            all_have_short(episodes@),
            all == episodes@.map_values(
                |ep: Episode| verdict_row(ep, engine.action_at(ep, *feed, now)),
            ),
            output::rows_doc(rows@) == all.take(i as int),
    {
        let ep = &episodes[i];
        assert(episodes@[i as int].id.has_short());
        let action = engine.evaluate_at(ep, feed, &now);
        let mut row = output::no_cells();
        output::push_cell(&mut row, ep.id.short(), Style::Plain);
        output::push_cell(&mut row, ep.title.as_str(), Style::Plain);
        output::push_cell(&mut row, action.as_str(), helpers::action_cell(action));
        output::push_row(&mut rows, row);
        assert(all.take(i + 1) =~= all.take(i as int).push(all[i as int]));
    }
    assert(all.take(all.len() as int) =~= all);
    output::push_table(&mut outs, header, rows);
    Ok(outs)
}

// ---- Missing files ---------------------------------------------------------------------------

/// What a check for missing files found.
#[derive(Debug)]
pub struct CheckReport {
    /// The indices of the episodes that are queued again.
    pub requeued: Vec<usize>,
    /// What is shown before they are queued.
    pub outputs: Vec<Output>,
    /// What is shown afterwards.
    pub closing: Vec<Output>,
}

/// How many episodes should have a file.
pub open spec fn with_files(eps: Seq<Episode>) -> nat
    decreases eps.len(),
{
    if eps.len() == 0 {
        0
    } else {
        with_files(eps.drop_last()) + if eps.last().state is Complete || eps.last().state is Dynamic {
            1nat
        } else {
            0nat
        }
    }
}

fn count_with_files(episodes: &Vec<Episode>) -> (res: usize)
    ensures
        res == with_files(episodes@),
{
    let mut n: usize = 0;
    for i in 0..episodes.len()
        invariant
            n == with_files(episodes@.take(i as int)),
            n <= i,
    {
        assert(episodes@.take(i + 1).drop_last() =~= episodes@.take(i as int));
        match &episodes[i].state {
            EpisodeState::Complete { .. } => {
                n = n + 1;
            },
            EpisodeState::Dynamic { .. } => {
                n = n + 1;
            },
            _ => {},
        }
    }
    assert(episodes@.take(episodes@.len() as int) =~= episodes@);
    n
}

/// The row of an episode whose file is gone.
pub open spec fn missing_row(ep: Episode) -> Seq<Seq<SpanDoc>> {
    Seq::empty()
        .push(output::one(ids::short_text(ep.id@), Style::Red))
        .push(output::one(ep.title@, Style::Plain))
        .push(output::one(ep.state->Complete_path@, Style::DarkGrey))
}

/// What is shown of the episodes in `missing`, whose files are gone.
pub open spec fn check_doc(eps: Seq<Episode>, missing: Seq<usize>) -> Seq<OutDoc> {
    let head = seq![
        OutDoc::Line(
            output::one(
                "Checking "@ + text::decimal(with_files(eps))
                    + " complete episode(s) for missing files..."@,
                Style::Plain,
            ),
        ),
    ];
    if missing.len() == 0 {
        head.push(OutDoc::Line(output::one("All files present."@, Style::Green)))
    } else {
        head.push(
            OutDoc::Table(
                Seq::empty()
                    .push("ID"@)
                    .push("TITLE"@)
                    .push("PATH"@),
                missing.map_values(|i: usize| missing_row(eps[i as int])),
            ),
        ).push(
            OutDoc::Line(
                Seq::empty()
                    .push((text::decimal(missing.len()), Style::Red))
                    .push((" missing file(s)."@, Style::Plain)),
            ),
        )
    }
}

/// What is shown at the end of a check that found `n` missing files.
pub open spec fn check_closing_doc(n: nat, fix: bool) -> Seq<OutDoc> {
    if n == 0 {
        Seq::empty()
    } else if fix {
        seq![
            OutDoc::Line({
                let rest = " "@ + text::decimal(n) + " episode(s) — run `dura download` to fetch."@;
                Seq::empty().push(("Re-queued"@, Style::Green)).push((rest, Style::Plain))
            }),
        ]
    } else {
        seq![
            OutDoc::Line(output::one("Run with --fix to re-queue them for download."@, Style::Dim)),
        ]
    }
}

/// Whether the complete episodes whose file is gone have short identifiers.
pub open spec fn missing_have_short(eps: Seq<Episode>, exist: Seq<bool>) -> bool {
    forall|i: int|
        0 <= i < eps.len() && helpers::is_missing(#[trigger] eps[i], exist[i])
            ==> eps[i].id.has_short()
}

fn missing_rows(episodes: &Vec<Episode>, missing: &Vec<usize>) -> (rows: Vec<Vec<Vec<Span>>>)
    requires
        forall|k: int|
            0 <= k < missing@.len() ==> (#[trigger] missing@[k]) < episodes@.len()
                && episodes@[missing@[k] as int].state is Complete
                && episodes@[missing@[k] as int].id.has_short(),
    ensures
        output::rows_doc(rows@) == missing@.map_values(|i: usize| missing_row(episodes@[i as int])),
{
    let mut rows = output::no_rows();
    let ghost all = missing@.map_values(|i: usize| missing_row(episodes@[i as int]));
    assert(all.take(0) =~= Seq::empty());
    for k in 0..missing.len()
        invariant
            forall|k: int|
                0 <= k < missing@.len() ==> (#[trigger] missing@[k]) < episodes@.len()
                    && episodes@[missing@[k] as int].state is Complete
                    && episodes@[missing@[k] as int].id.has_short(),
            all == missing@.map_values(|i: usize| missing_row(episodes@[i as int])),
            output::rows_doc(rows@) == all.take(k as int),
    {
        assert(missing@[k as int] < episodes@.len());
        let ep = &episodes[missing[k]];
        let mut row = output::no_cells();
        output::push_cell(&mut row, ep.id.short(), Style::Red);
        output::push_cell(&mut row, ep.title.as_str(), Style::Plain);
        if let EpisodeState::Complete { path, .. } = &ep.state {
            output::push_cell(&mut row, path.as_str(), Style::DarkGrey);
        }
        output::push_row(&mut rows, row);
        assert(all.take(k + 1) =~= all.take(k as int).push(all[k as int]));
    }
    assert(all.take(all.len() as int) =~= all);
    rows
}

/// Looks for complete episodes whose file is gone; with `fix` they are queued again. `exist`
/// tells for each episode whether its file is on disk.
pub fn cmd_check(episodes: &Vec<Episode>, exist: &Vec<bool>, fix: bool) -> (res: CheckReport)
    requires
        exist@.len() == episodes@.len(),
        missing_have_short(episodes@, exist@),
    ensures
        ({
            let missing = helpers::indices_where(
                episodes@.len() as int,
                |i: int| helpers::is_missing(episodes@[i], exist@[i]),
            );
            &&& res.requeued@ == if fix {
                missing
            } else {
                Seq::empty()
            }
            &&& output::outs_doc(res.outputs@) == check_doc(episodes@, missing)
            &&& output::outs_doc(res.closing@) == check_closing_doc(missing.len(), fix)
        }),
{
    let missing = helpers::missing_files(episodes.as_slice(), exist.as_slice());
    let mut outputs = output::no_outputs();
    let mut closing = output::no_outputs();
    let mut s = "Checking ".to_string();
    s.append(text::decimal_text(count_with_files(episodes) as u64).as_str());
    s.append(" complete episode(s) for missing files...");
    output::push_text(&mut outputs, s.as_str(), Style::Plain);
    let n = missing.len();
    if n == 0 {
        output::push_text(&mut outputs, "All files present.", Style::Green);
        assert(missing@ =~= Seq::empty());
        return CheckReport { requeued: missing, outputs, closing };
    }
    let mut header = output::no_titles();
    output::push_title(&mut header, "ID");
    output::push_title(&mut header, "TITLE");
    output::push_title(&mut header, "PATH");
    output::push_table(&mut outputs, header, missing_rows(episodes, &missing));
    let mut line = output::no_spans();
    output::push_span(&mut line, text::decimal_text(n as u64).as_str(), Style::Red);
    output::push_span(&mut line, " missing file(s).", Style::Plain);
    output::push_line(&mut outputs, line);
    if fix {
        let mut line = output::no_spans();
        output::push_span(&mut line, "Re-queued", Style::Green);
        let mut s = " ".to_string();
        s.append(text::decimal_text(n as u64).as_str());
        s.append(" episode(s) — run `dura download` to fetch.");
        output::push_span(&mut line, s.as_str(), Style::Plain);
        output::push_line(&mut closing, line);
        CheckReport { requeued: missing, outputs, closing }
    } else {
        output::push_text(
            &mut closing,
            "Run with --fix to re-queue them for download.",
            Style::Dim,
        );
        CheckReport { requeued: Vec::new(), outputs, closing }
    }
}

/// The state that an episode gets when it is queued again.
pub fn requeued_state() -> (res: EpisodeState)
    ensures
        res == EpisodeState::Matched(Action::Download),
{
    EpisodeState::Matched(Action::Download)
}

// ---- Laws ------------------------------------------------------------------------------------

/// A check finds exactly the complete episodes whose file is gone, each once and in order: no
/// other episode is queued again by it.
pub proof fn law_check_finds_what_is_gone(eps: Seq<Episode>, exist: Seq<bool>, i: int)
    requires
        0 <= i < eps.len() <= usize::MAX,
    ensures
        ({
            let missing = helpers::indices_where(
                eps.len() as int,
                |k: int| helpers::is_missing(eps[k], exist[k]),
            );
            &&& missing.contains(i as usize) <==> eps[i].state is Complete && !exist[i]
            &&& forall|k: int, m: int|
                0 <= k < m < missing.len() ==> #[trigger] missing[k] < #[trigger] missing[m]
        }),
{
    let p = |k: int| helpers::is_missing(eps[k], exist[k]);
    helpers::law_indices_in_ascending_order(eps.len() as int, p);
    let missing = helpers::indices_where(eps.len() as int, p);
    if missing.contains(i as usize) {
        let k = choose|k: int| 0 <= k < missing.len() && missing[k] == i as usize;
        assert(p(missing[k] as int));
    }
    if eps[i].state is Complete && !exist[i] {
        assert(p(i));
    }
}

/// A check counts the episodes that should have a file: the complete and the dynamic ones.
pub proof fn law_check_counts_episodes_with_files(eps: Seq<Episode>, i: int)
    requires
        0 <= i < eps.len(),
    ensures
        with_files(eps.take(0)) == 0,
        eps[i].state is Complete || eps[i].state is Dynamic ==> with_files(eps.take(i + 1))
            == with_files(eps.take(i)) + 1,
        !(eps[i].state is Complete) && !(eps[i].state is Dynamic) ==> with_files(eps.take(i + 1))
            == with_files(eps.take(i)),
{
    assert(eps.take(i + 1).drop_last() =~= eps.take(i));
}

/// A file is deleted together with its episode only where that was asked for, the episode is
/// complete and its file is there; then it is the file that the state names.
pub proof fn law_which_file_is_deleted(ep: Episode, delete_file: bool, file_exists: bool)
    ensures
        !delete_file ==> deleted_file(ep, delete_file, file_exists) is None && deleted_file_doc(
            ep,
            delete_file,
            file_exists,
        ).len() == 0,
        !file_exists ==> deleted_file(ep, delete_file, file_exists) is None,
        !(ep.state is Complete) ==> deleted_file(ep, delete_file, file_exists) is None
            && deleted_file_doc(ep, delete_file, file_exists).len() == 0,
        (ep.state is Complete && delete_file && file_exists) ==> deleted_file(
            ep,
            delete_file,
            file_exists,
        ) == Some(ep.state->Complete_path@),
        (ep.state is Complete && delete_file) ==> deleted_file_doc(ep, delete_file, file_exists).len()
            == 1,
{
}

/// What a row of a list says of its episode.
pub proof fn law_rows_of_lists(ep: Episode, a: Action)
    ensures
        ({
            let row = episode_row(ep);
            &&& row.len() == 3
            &&& row[0] == output::one(ids::short_text(ep.id@), Style::Plain)
            &&& row[1] == output::one(ep.title@, Style::Plain)
            &&& row[2] == kind_cell(ep.state)
        }),
        ({
            let row = quarantine_row(ep);
            &&& row.len() == 3
            &&& row[0] == output::one(ids::short_text(ep.id@), Style::Plain)
            &&& row[1] == output::one(ep.title@, Style::Plain)
            &&& ep.state matches EpisodeState::Quarantined { reason, .. } ==> row[2] == output::one(
                reason@,
                Style::Red,
            )
        }),
        ({
            let row = verdict_row(ep, a);
            &&& row.len() == 3
            &&& row[0] == output::one(ids::short_text(ep.id@), Style::Plain)
            &&& row[1] == output::one(ep.title@, Style::Plain)
            &&& row[2] == output::one(episode::action_text(a), helpers::action_style(a))
        }),
        ({
            let row = missing_row(ep);
            &&& row.len() == 3
            &&& row[0] == output::one(ids::short_text(ep.id@), Style::Red)
            &&& row[1] == output::one(ep.title@, Style::Plain)
            &&& ep.state matches EpisodeState::Complete { path, .. } ==> row[2] == output::one(
                path@,
                Style::DarkGrey,
            )
        }),
        completion_line(ep) == OutDoc::Line(
            output::one(ids::short_text(ep.id@) + "\t"@ + ep.title@, Style::Plain),
        ),
{
}

/// A list shows every episode that it is given, in order, and none other.
pub proof fn law_lists_show_every_episode(
    eps: Seq<Episode>,
    engine: RuleEngine,
    feed: Feed,
    now: UtcTime,
    i: int,
)
    requires
        0 <= i < eps.len(),
    ensures
        episode_list_doc(eps, true).len() == eps.len(),
        episode_list_doc(eps, true)[i] == completion_line(eps[i]),
        episode_list_doc(eps, false).len() == 1,
        episode_list_doc(eps, false)[0] matches OutDoc::Table(_, rows) && rows.len() == eps.len()
            && rows[i] == episode_row(eps[i]),
        quarantine_list_doc(eps).len() == 1,
        quarantine_list_doc(eps)[0] matches OutDoc::Table(_, rows) && rows.len() == eps.len()
            && rows[i] == quarantine_row(eps[i]),
        rules_check_doc(engine, feed, eps, now).len() == 1,
        rules_check_doc(engine, feed, eps, now)[0] matches OutDoc::Table(_, rows) && rows.len()
            == eps.len() && rows[i] == verdict_row(eps[i], engine.action_at(eps[i], feed, now)),
{
}

/// The overview has a row for each feed with its name, the number of its episodes and the
/// counts, of which those of queued and quarantined episodes stand out where there are any.
pub proof fn law_row_of_the_overview(
    feeds: Seq<FeedConfig>,
    feed: Feed,
    eps: Seq<Episode>,
    exist: Seq<bool>,
    row: Seq<Seq<SpanDoc>>,
    c: EpisodeCounts,
)
    requires
        is_status_row(feeds, feed, eps, exist, row),
        helpers::are_counts(c, eps, exist),
    ensures
        row.len() == 6,
        row[0] == output::one(helpers::shown_name(feeds, feed, feed.slug@), Style::Plain),
        row[1] == output::one(text::decimal(eps.len()), Style::Plain),
        row[2].len() == 4,
        row[2][0] == (text::decimal(c.dl as nat), Style::Green),
        row[2][2] == (text::decimal(c.dynamic as nat), Style::Blue),
        row[3] == output::one(
            text::decimal(c.queued as nat),
            if c.queued > 0 {
                Style::Yellow
            } else {
                Style::Plain
            },
        ),
        row[4] == output::one(text::decimal(c.skipped as nat), Style::DarkGrey),
        row[5] == output::one(
            text::decimal(c.quarantined as nat),
            if c.quarantined > 0 {
                Style::Red
            } else {
                Style::Plain
            },
        ),
{
    let d = choose|d: EpisodeCounts| #[trigger]
        helpers::are_counts(d, eps, exist) && row == Seq::empty()
            .push(output::one(helpers::shown_name(feeds, feed, feed.slug@), Style::Plain))
            .push(output::one(text::decimal(eps.len()), Style::Plain))
            .push(Seq::empty()
                .push((text::decimal(d.dl as nat), Style::Green))
                .push(("("@, Style::Plain))
                .push((text::decimal(d.dynamic as nat), Style::Blue))
                .push((")"@, Style::Plain)))
            .push(count_cell(d.queued as nat, Style::Yellow))
            .push(output::one(text::decimal(d.skipped as nat), Style::DarkGrey))
            .push(count_cell(d.quarantined as nat, Style::Red));
    assert(d.dl == c.dl && d.dynamic == c.dynamic && d.queued == c.queued);
    assert(d.skipped == c.skipped && d.quarantined == c.quarantined);
}

/// The list of feeds shows each with its slug, its name and when it was last fetched, and says
/// so where that never happened.
pub proof fn law_row_of_a_feed(feeds: Seq<FeedConfig>, feed: Feed, at: Option<String>)
    ensures
        feed_row(feeds, feed, at).len() == 3,
        feed_row(feeds, feed, at)[0] == output::one(feed.slug@, Style::Plain),
        feed_row(feeds, feed, at)[1] == output::one(
            helpers::shown_name(feeds, feed, "—"@),
            Style::Plain,
        ),
        at matches Some(t) ==> feed_row(feeds, feed, at)[2] == output::one(t@, Style::Plain),
        at is None ==> feed_row(feeds, feed, at)[2] == output::one("never"@, Style::Plain),
{
}

/// The messages about what the store does not hold name what was asked for.
pub proof fn law_messages_about_unknown_names(id: Seq<char>, hint: Seq<char>)
    ensures
        not_found_text(id) == "episode "@ + text::debug_text(id) + " not found"@,
        unknown_feed_text(id, hint) == "feed "@ + text::debug_text(id) + hint,
{
}

/// What a check says: that all files are there, or how many are missing, and what can be or was
/// done about them.
pub proof fn law_what_a_check_says(eps: Seq<Episode>, missing: Seq<usize>, n: nat, i: int)
    ensures
        check_doc(eps, missing).len() > 0,
        check_doc(eps, missing)[0] == OutDoc::Line(
            output::one(
                "Checking "@ + text::decimal(with_files(eps))
                    + " complete episode(s) for missing files..."@,
                Style::Plain,
            ),
        ),
        missing.len() == 0 ==> check_doc(eps, missing).len() == 2 && check_doc(eps, missing)[1]
            == OutDoc::Line(output::one("All files present."@, Style::Green)),
        missing.len() > 0 ==> check_doc(eps, missing).len() == 3,
        0 <= i < missing.len() ==> (check_doc(eps, missing)[1] matches OutDoc::Table(_, rows)
            && rows.len() == missing.len() && rows[i] == missing_row(eps[missing[i] as int])),
        check_closing_doc(0, true).len() == 0,
        check_closing_doc(0, false).len() == 0,
        n > 0 ==> check_closing_doc(n, false).len() == 1 && check_closing_doc(n, false)[0]
            == OutDoc::Line(
            output::one("Run with --fix to re-queue them for download."@, Style::Dim),
        ),
        n > 0 ==> check_closing_doc(n, true).len() == 1,
{
}

} // verus!
