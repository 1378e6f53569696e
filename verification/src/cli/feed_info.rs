//! What is shown of one feed.
use crate::cli::commands;
use crate::cli::helpers;
use crate::cli::helpers::EpisodeCounts;
use crate::cli::output;
use crate::cli::output::{OutDoc, Output, SpanDoc, Style};
use crate::config::Config;
use crate::episode::Episode;
use crate::feed::Feed;
use crate::ids;
use crate::rules::config::FeedConfig;
use crate::text;
use vstd::prelude::*;
use vstd::string::*;

verus! {

/// The most episodes that are shown of a feed.
pub const RECENT_MAX: usize = 20;

/// A line with a labelled value.
pub open spec fn labelled(label: Seq<char>, value: Seq<char>) -> OutDoc {
    OutDoc::Line(
        Seq::empty()
            .push(("  "@, Style::Plain))
            .push((label, Style::Dim))
            .push((" "@, Style::Plain))
            .push((value, Style::Plain)),
    )
}

fn push_labelled(outs: &mut Vec<Output>, label: &str, value: &str)
    ensures
        output::outs_doc(final(outs)@) == output::outs_doc(old(outs)@).push(
            labelled(label@, value@),
        ),
{
    let mut line = output::no_spans();
    output::push_span(&mut line, "  ", Style::Plain);
    output::push_span(&mut line, label, Style::Dim);
    output::push_span(&mut line, " ", Style::Plain);
    output::push_span(&mut line, value, Style::Plain);
    output::push_line(outs, line);
}

/// What is shown of a feed itself.
pub open spec fn head_doc(config: Option<FeedConfig>, feed: Feed, fetched: Option<String>) -> Seq<
    OutDoc,
> {
    let name = Seq::empty()
        .push((helpers::name_by(config, feed, feed.slug@), Style::Bold))
        .push((" "@, Style::Plain))
        .push(("("@ + feed.slug@ + ")"@, Style::Dim));
    let head = Seq::empty()
        .push(OutDoc::Line(name))
        .push(labelled("URL:"@, feed.url@))
        .push(labelled("Last fetched:"@, commands::fetched_doc(fetched)));
    let with_aliases = match config {
        Some(c) => if c.aliases@.len() > 0 {
            head.push(labelled("Aliases:"@, text::joined(c.aliases@, ", "@)))
        } else {
            head
        },
        None => head,
    };
    with_aliases.push(OutDoc::Line(Seq::empty()))
}

fn head_outputs(cfg: &Config, slug: &str, feed: &Feed, fetched: &Option<String>) -> (res: Vec<
    Output,
>)
    ensures
        output::outs_doc(res@) == head_doc(
            helpers::config_of(cfg.feeds@, slug@),
            *feed,
            *fetched,
        ),
{
    let mut outs = output::no_outputs();
    let mut line = output::no_spans();
    let name = helpers::name_with(&cfg.feeds, slug, feed, feed.slug.as_str());
    output::push_span(&mut line, name.as_str(), Style::Bold);
    output::push_span(&mut line, " ", Style::Plain);
    let mut s = "(".to_string();
    s.append(feed.slug.as_str());
    s.append(")");
    output::push_span(&mut line, s.as_str(), Style::Dim);
    output::push_line(&mut outs, line);
    push_labelled(&mut outs, "URL:", feed.url.as_str());
    push_labelled(&mut outs, "Last fetched:", commands::fetched_text(fetched).as_str());
    if let Some(i) = helpers::find_config(&cfg.feeds, slug) {
        let aliases = &cfg.feeds[i].aliases;
        if aliases.len() > 0 {
            push_labelled(&mut outs, "Aliases:", text::join_texts(aliases, ", ").as_str());
        }
    }
    output::push_line(&mut outs, output::no_spans());
    outs
}

/// The row of the summary of a feed.
pub open spec fn summary_row(total: nat, c: EpisodeCounts) -> Seq<Seq<SpanDoc>> {
    Seq::empty()
        .push(output::one(text::decimal(total), Style::Plain))
        .push(output::one(text::decimal(c.dl as nat), Style::Green))
        .push(commands::count_cell(c.queued as nat, Style::Yellow))
        .push(output::one(text::decimal(c.skipped as nat), Style::DarkGrey))
        .push(commands::count_cell(c.quarantined as nat, Style::Red))
        .push(commands::count_cell(c.missing as nat, Style::Red))
}

/// The summary of a feed.
pub open spec fn summary_doc(total: nat, c: EpisodeCounts) -> OutDoc {
    OutDoc::Table(
        Seq::empty()
            .push("TOTAL"@)
            .push("DL"@)
            .push("QUEUED"@)
            .push("SKIP"@)
            .push("QUAR"@)
            .push("MISSING"@),
        seq![summary_row(total, c)],
    )
}

fn push_summary(outs: &mut Vec<Output>, total: usize, c: &EpisodeCounts)
    ensures
        output::outs_doc(final(outs)@) == output::outs_doc(old(outs)@).push(
            summary_doc(total as nat, *c),
        ),
{
    let mut header = output::no_titles();
    output::push_title(&mut header, "TOTAL");
    output::push_title(&mut header, "DL");
    output::push_title(&mut header, "QUEUED");
    output::push_title(&mut header, "SKIP");
    output::push_title(&mut header, "QUAR");
    output::push_title(&mut header, "MISSING");
    let mut row = output::no_cells();
    commands::push_number(&mut row, total, Style::Plain);
    commands::push_number(&mut row, c.dl, Style::Green);
    commands::push_count(&mut row, c.queued, Style::Yellow);
    commands::push_number(&mut row, c.skipped, Style::DarkGrey);
    commands::push_count(&mut row, c.quarantined, Style::Red);
    commands::push_count(&mut row, c.missing, Style::Red);
    let mut rows = output::no_rows();
    output::push_row(&mut rows, row);
    output::push_table(outs, header, rows);
}

/// The row of an episode, with the date that it is shown with.
pub open spec fn recent_row(ep: Episode, date: String) -> Seq<Seq<SpanDoc>> {
    Seq::empty()
        .push(output::one(ids::short_text(ep.id@), Style::Plain))
        .push(output::one(date@, Style::Plain))
        .push(commands::kind_cell(ep.state))
        .push(output::one(ep.title@, Style::Plain))
}

/// How many episodes are shown out of `n`.
pub open spec fn recent_count(n: nat) -> nat {
    if n < RECENT_MAX {
        n
    } else {
        RECENT_MAX as nat
    }
}

/// Whether the episodes that are shown have short identifiers.
pub open spec fn recent_have_short(eps: Seq<Episode>) -> bool {
    forall|i: int| 0 <= i < recent_count(eps.len()) ==> (#[trigger] eps[i]).id.has_short()
}

/// What is shown of the first episodes of a feed.
pub open spec fn recent_doc(eps: Seq<Episode>, dates: Seq<String>) -> Seq<OutDoc> {
    if eps.len() == 0 {
        Seq::empty()
    } else {
        Seq::empty()
            .push(OutDoc::Line(Seq::empty()))
            .push(OutDoc::Line(output::one("Recent episodes:"@, Style::Bold)))
            .push(
            OutDoc::Table(
                Seq::empty().push("ID"@).push("DATE"@).push("STATE"@).push("TITLE"@),
                Seq::new(recent_count(eps.len()), |i: int| recent_row(eps[i], dates[i])),
            ),
        )
    }
}

fn recent_outputs(episodes: &Vec<Episode>, dates: &Vec<String>) -> (res: Vec<Output>)
    requires
        recent_have_short(episodes@),
        dates@.len() == episodes@.len(),
    ensures
        output::outs_doc(res@) == recent_doc(episodes@, dates@),
{
    let mut outs = output::no_outputs();
    if episodes.len() == 0 {
        return outs;
    }
    output::push_line(&mut outs, output::no_spans());
    output::push_text(&mut outs, "Recent episodes:", Style::Bold);
    let mut header = output::no_titles();
    output::push_title(&mut header, "ID");
    output::push_title(&mut header, "DATE");
    output::push_title(&mut header, "STATE");
    output::push_title(&mut header, "TITLE");
    let n = if episodes.len() < RECENT_MAX {
        episodes.len()
    } else {
        RECENT_MAX
    };
    let mut rows = output::no_rows();
    let ghost all = Seq::new(n as nat, |i: int| recent_row(episodes@[i], dates@[i]));
    assert(all.take(0) =~= Seq::empty());
    for i in 0..n
        invariant
            n == recent_count(episodes@.len()),
            recent_have_short(episodes@),
            dates@.len() == episodes@.len(),
            all == Seq::new(n as nat, |i: int| recent_row(episodes@[i], dates@[i])),
            output::rows_doc(rows@) == all.take(i as int),
    {
        let ep = &episodes[i];
        assert(episodes@[i as int].id.has_short());
        let mut row = output::no_cells();
        output::push_cell(&mut row, ep.id.short(), Style::Plain);
        output::push_cell(&mut row, dates[i].as_str(), Style::Plain);
        commands::push_kind(&mut row, &ep.state);
        output::push_cell(&mut row, ep.title.as_str(), Style::Plain);
        output::push_row(&mut rows, row);
        assert(all.take(i + 1) =~= all.take(i as int).push(all[i as int]));
    }
    assert(all.take(all.len() as int) =~= all);
    output::push_table(&mut outs, header, rows);
    outs
}

/// Whether `outs` is what is shown of a feed.
pub open spec fn is_feed_info(
    cfg: Config,
    slug: Seq<char>,
    feed: Feed,
    eps: Seq<Episode>,
    exist: Seq<bool>,
    fetched: Option<String>,
    dates: Seq<String>,
    outs: Seq<OutDoc>,
) -> bool {
    exists|c: EpisodeCounts| #[trigger]
        helpers::are_counts(c, eps, exist) && outs == head_doc(
            helpers::config_of(cfg.feeds@, slug),
            feed,
            fetched,
        ).push(summary_doc(eps.len(), c)) + recent_doc(eps, dates)
}

/// What is shown of the feed with the slug `slug`. `found` is what the store holds of it,
/// `exist` tells which episodes have their file on disk, `fetched` is the local time at which
/// the feed was last fetched, and `dates` are the local dates of the episodes.
pub fn cmd_feed_info(
    cfg: &Config,
    slug: &str,
    found: &Option<Feed>,
    episodes: &Vec<Episode>,
    exist: &Vec<bool>,
    fetched: &Option<String>,
    dates: &Vec<String>,
) -> (res: Result<Vec<Output>, String>)
    requires
        exist@.len() == episodes@.len(),
        dates@.len() == episodes@.len(),
        found is Some ==> recent_have_short(episodes@),
    ensures
        match res {
            Ok(outs) => found matches Some(feed) && is_feed_info(
                *cfg,
                slug@,
                *feed,
                episodes@,
                exist@,
                *fetched,
                dates@,
                output::outs_doc(outs@),
            ),
            Err(message) => found is None && message@ == commands::unknown_feed_text(
                slug@,
                " not found — run `dura feed sync` first"@,
            ),
        },
{
    match found {
        Some(feed) => {
            let c = EpisodeCounts::tally(episodes.as_slice(), exist.as_slice());
            let mut outs = head_outputs(cfg, slug, feed, fetched);
            push_summary(&mut outs, episodes.len(), &c);
            output::append_outputs(&mut outs, recent_outputs(episodes, dates));
            Ok(outs)
        },
        None => Err(commands::unknown_feed(slug, " not found — run `dura feed sync` first")),
    }
}

// ---- Laws ---------------------------------------------------------------------------------

/// What is shown of a feed at first: its name, its address and when it was last fetched, and its
/// aliases where the configuration gives it any.
pub proof fn law_head_of_the_details(
    config: Option<FeedConfig>,
    feed: Feed,
    fetched: Option<String>,
)
    ensures
        ({
            let head = head_doc(config, feed, fetched);
            let aliased = config is Some && config->0.aliases@.len() > 0;
            &&& head.len() == if aliased {
                5int
            } else {
                4int
            }
            &&& head[0] matches OutDoc::Line(spans) && spans.len() == 3 && spans[0] == (
                helpers::name_by(config, feed, feed.slug@),
                Style::Bold,
            ) && spans[2] == ("("@ + feed.slug@ + ")"@, Style::Dim)
            &&& head[1] == labelled("URL:"@, feed.url@)
            &&& head[2] == labelled("Last fetched:"@, commands::fetched_doc(fetched))
            &&& aliased ==> head[3] == labelled(
                "Aliases:"@,
                text::joined(config->0.aliases@, ", "@),
            )
        }),
{
}

/// The summary of a feed counts its episodes: all of them, and those that are there, queued,
/// skipped, quarantined and missing.
pub proof fn law_summary_of_a_feed(total: nat, c: EpisodeCounts)
    ensures
        ({
            let row = summary_row(total, c);
            &&& row.len() == 6
            &&& row[0] == output::one(text::decimal(total), Style::Plain)
            &&& row[1] == output::one(text::decimal(c.dl as nat), Style::Green)
            &&& row[2] == output::one(
                text::decimal(c.queued as nat),
                if c.queued > 0 {
                    Style::Yellow
                } else {
                    Style::Plain
                },
            )
            &&& row[3] == output::one(text::decimal(c.skipped as nat), Style::DarkGrey)
            &&& row[4] == output::one(
                text::decimal(c.quarantined as nat),
                if c.quarantined > 0 {
                    Style::Red
                } else {
                    Style::Plain
                },
            )
            &&& row[5] == output::one(
                text::decimal(c.missing as nat),
                if c.missing > 0 {
                    Style::Red
                } else {
                    Style::Plain
                },
            )
        }),
{
}

/// The details of a feed show its first twenty episodes, or all where there are fewer, in order.
pub proof fn law_recent_episodes(eps: Seq<Episode>, dates: Seq<String>, i: int)
    ensures
        recent_count(eps.len()) <= 20,
        eps.len() <= 20 ==> recent_count(eps.len()) == eps.len(),
        eps.len() > 20 ==> recent_count(eps.len()) == 20,
        eps.len() == 0 ==> recent_doc(eps, dates).len() == 0,
        0 <= i < eps.len() && i < 20 ==> recent_doc(eps, dates).len() == 3 && (recent_doc(
            eps,
            dates,
        )[2] matches OutDoc::Table(_, rows) && rows.len() == recent_count(eps.len()) && rows[i]
            == recent_row(eps[i], dates[i])),
{
}

} // verus!
