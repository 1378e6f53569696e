//! Finding files in the library again.
use crate::cli::commands;
use crate::cli::helpers;
use crate::cli::output;
use crate::cli::output::{OutDoc, Output, Style};
use crate::downloader;
use crate::episode::{Episode, EpisodeState};
use crate::feed::Feed;
use crate::text;
use crate::time::UtcTime;
use vstd::prelude::*;
use vstd::string::*;

verus! {

/// Which feeds are looked at: the one that was named, or all.
pub open spec fn is_target(feed: Feed, slug: Option<Seq<char>>) -> bool {
    slug matches Some(s) ==> feed.slug@ == s
}

/// The indices of the feeds that are looked at.
pub fn reimport_targets(feeds: &Vec<Feed>, slug: &Option<String>) -> (res: Result<
    Vec<usize>,
    String,
>)
    ensures
        ({
            let targets = helpers::indices_where(
                feeds@.len() as int,
                |i: int| is_target(feeds@[i], text::opt_text(*slug)),
            );
            match res {
                Ok(t) => t@ == targets && (slug is Some ==> targets.len() > 0),
                Err(message) => targets.len() == 0 && (slug matches Some(s) && message@
                    == commands::unknown_feed_text(s@, " not found — run `dura sync` first"@)),
            }
        }),
{
    let mut out: Vec<usize> = Vec::new();
    let ghost p = |i: int| is_target(feeds@[i], text::opt_text(*slug));
    for i in 0..feeds.len()
        invariant
            p == (|i: int| is_target(feeds@[i], text::opt_text(*slug))),
            out@ == helpers::indices_where(i as int, p),
    {
        let wanted = match slug {
            Some(s) => text::same_text(feeds[i].slug.as_str(), s.as_str()),
            None => true,
        };
        assert(p(i as int) == wanted);
        if wanted {
            out.push(i);
        }
    }
    if let Some(s) = slug {
        if out.len() == 0 {
            return Err(commands::unknown_feed(s.as_str(), " not found — run `dura sync` first"));
        }
    }
    Ok(out)
}

/// What is done for an episode.
#[derive(Debug)]
pub enum ReimportStep {
    /// It is complete and its file is there.
    Already,
    /// No file of it is there.
    NotFound,
    /// It becomes complete with the file of this name in the directory of its feed.
    Mark { name: String },
}

/// What is done for an episode. `file_exists` tells whether the file of a complete episode is
/// on disk, `plain_exists` and `short_exists` whether the directory of its feed holds a file
/// with its plain name or with the name that carries its short identifier.
pub fn reimport_step(ep: &Episode, file_exists: bool, plain_exists: bool, short_exists: bool) -> (res:
    ReimportStep)
    requires
        !(ep.state is Complete && file_exists) ==> ep.id.has_short(),
    ensures
        match res {
            ReimportStep::Already => ep.state is Complete && file_exists,
            ReimportStep::NotFound => !(ep.state is Complete && file_exists) && !plain_exists
                && !short_exists,
            ReimportStep::Mark { name } => !(ep.state is Complete && file_exists) && (plain_exists
                || short_exists) && name@ == downloader::file_name_text(*ep, !plain_exists),
        },
{
    if let EpisodeState::Complete { .. } = &ep.state {
        if file_exists {
            return ReimportStep::Already;
        }
    }
    if plain_exists {
        ReimportStep::Mark { name: downloader::file_name(ep, false) }
    } else if short_exists {
        ReimportStep::Mark { name: downloader::file_name(ep, true) }
    } else {
        ReimportStep::NotFound
    }
}

/// The state of an episode whose file was found: complete, with a hash that is not known.
pub fn reimported_state(path: String, downloaded_at: UtcTime) -> (res: EpisodeState)
    ensures
        res matches EpisodeState::Complete { path: p, downloaded_at: at, sha256 } && p == path && at
            == downloaded_at && sha256@ == ""@,
{
    EpisodeState::Complete { path, downloaded_at, sha256: "".to_string() }
}

/// What came of an episode.
#[derive(Clone, Copy, Debug, PartialEq, Eq, Structural)]
pub enum Outcome {
    Already,
    /// No file, or its new state could not be stored.
    NotFound,
    Marked,
}

/// How many outcomes are `o`.
pub open spec fn count_of(outcomes: Seq<Outcome>, o: Outcome) -> nat
    decreases outcomes.len(),
{
    if outcomes.len() == 0 {
        0
    } else {
        count_of(outcomes.drop_last(), o) + if outcomes.last() == o {
            1nat
        } else {
            0nat
        }
    }
}

fn count_outcomes(outcomes: &Vec<Outcome>, o: Outcome) -> (res: usize)
    ensures
        res == count_of(outcomes@, o),
        res <= outcomes@.len(),
{
    let mut n: usize = 0;
    for i in 0..outcomes.len()
        invariant
            n == count_of(outcomes@.take(i as int), o),
            n <= i,
    {
        assert(outcomes@.take(i + 1).drop_last() =~= outcomes@.take(i as int));
        if outcomes[i] == o {
            n = n + 1;
        }
    }
    assert(outcomes@.take(outcomes@.len() as int) =~= outcomes@);
    n
}

/// Every episode has one outcome.
pub proof fn law_outcomes_add_up(outcomes: Seq<Outcome>)
    ensures
        count_of(outcomes, Outcome::Already) + count_of(outcomes, Outcome::Marked) + count_of(
            outcomes,
            Outcome::NotFound,
        ) == outcomes.len(),
    decreases outcomes.len(),
{
    if outcomes.len() > 0 {
        law_outcomes_add_up(outcomes.drop_last());
    }
}

/// What is shown of a feed. `outcomes` is nothing where it has no directory.
pub open spec fn feed_line(feed: Feed, outcomes: Option<Vec<Outcome>>) -> OutDoc {
    match outcomes {
        Some(o) => {
            let name = match feed.title {
                Some(t) => t@,
                None => feed.slug@,
            };
            OutDoc::Line(
                Seq::empty()
                    .push((name + ": "@, Style::Plain))
                    .push((text::decimal(count_of(o@, Outcome::Marked)), Style::Green))
                    .push((" matched, "@, Style::Plain))
                    .push((text::decimal(count_of(o@, Outcome::Already)), Style::Dim))
                    .push((" already complete, "@, Style::Plain))
                    .push((text::decimal(count_of(o@, Outcome::NotFound)), Style::Dim))
                    .push((" not found"@, Style::Plain)),
            )
        },
        None => OutDoc::Line(
            Seq::empty()
                .push((feed.slug@, Style::Dim))
                .push((" "@, Style::Plain))
                .push(("— directory not found, skipping"@, Style::Dim)),
        ),
    }
}

fn push_feed_line(outs: &mut Vec<Output>, feed: &Feed, outcomes: &Option<Vec<Outcome>>)
    ensures
        output::outs_doc(final(outs)@) == output::outs_doc(old(outs)@).push(
            feed_line(*feed, *outcomes),
        ),
{
    let mut line = output::no_spans();
    match outcomes {
        Some(o) => {
            let matched = count_outcomes(o, Outcome::Marked);
            let already = count_outcomes(o, Outcome::Already);
            proof {
                law_outcomes_add_up(o@);
            }
            let missing = o.len() - matched - already;
            let mut name = match &feed.title {
                Some(t) => t.clone(),
                None => feed.slug.clone(),
            };
            name.append(": ");
            output::push_span(&mut line, name.as_str(), Style::Plain);
            output::push_span(&mut line, text::decimal_text(matched as u64).as_str(), Style::Green);
            output::push_span(&mut line, " matched, ", Style::Plain);
            output::push_span(&mut line, text::decimal_text(already as u64).as_str(), Style::Dim);
            output::push_span(&mut line, " already complete, ", Style::Plain);
            output::push_span(&mut line, text::decimal_text(missing as u64).as_str(), Style::Dim);
            output::push_span(&mut line, " not found", Style::Plain);
        },
        None => {
            output::push_span(&mut line, feed.slug.as_str(), Style::Dim);
            output::push_span(&mut line, " ", Style::Plain);
            output::push_span(&mut line, "— directory not found, skipping", Style::Dim);
        },
    }
    output::push_line(outs, line);
}

/// How many outcomes over all feeds are `o`.
pub open spec fn total_of(outcomes: Seq<Option<Vec<Outcome>>>, o: Outcome) -> nat
    decreases outcomes.len(),
{
    if outcomes.len() == 0 {
        0
    } else {
        total_of(outcomes.drop_last(), o) + match outcomes.last() {
            Some(list) => count_of(list@, o),
            None => 0,
        }
    }
}

/// What is shown at the end.
pub open spec fn closing_doc(matched: nat, already: nat) -> Seq<OutDoc> {
    if matched > 0 {
        let line = Seq::empty()
            .push(("Marked "@, Style::Plain))
            .push((text::decimal(matched), Style::GreenBold))
            .push((" episode(s) as complete."@, Style::Plain));
        Seq::empty().push(OutDoc::Line(Seq::empty())).push(OutDoc::Line(line))
    } else if already == 0 {
        seq![OutDoc::Line(output::one("No matching files found."@, Style::Plain))]
    } else {
        Seq::empty()
    }
}

fn closing_outputs(matched: u64, already: u64) -> (res: Vec<Output>)
    ensures
        output::outs_doc(res@) == closing_doc(matched as nat, already as nat),
{
    let mut outs = output::no_outputs();
    if matched > 0 {
        output::push_line(&mut outs, output::no_spans());
        let mut line = output::no_spans();
        output::push_span(&mut line, "Marked ", Style::Plain);
        output::push_span(&mut line, text::decimal_text(matched).as_str(), Style::GreenBold);
        output::push_span(&mut line, " episode(s) as complete.", Style::Plain);
        output::push_line(&mut outs, line);
    } else if already == 0 {
        output::push_text(&mut outs, "No matching files found.", Style::Plain);
    }
    outs
}

/// What is shown of a look for files.
pub open spec fn reimport_doc(
    feeds: Seq<Feed>,
    targets: Seq<usize>,
    outcomes: Seq<Option<Vec<Outcome>>>,
) -> Seq<OutDoc> {
    Seq::new(targets.len(), |i: int| feed_line(feeds[targets[i] as int], outcomes[i]))
        + closing_doc(total_of(outcomes, Outcome::Marked), total_of(outcomes, Outcome::Already))
}

/// How many episodes were looked at.
pub open spec fn looked_at(outcomes: Seq<Option<Vec<Outcome>>>) -> nat
    decreases outcomes.len(),
{
    if outcomes.len() == 0 {
        0
    } else {
        looked_at(outcomes.drop_last()) + match outcomes.last() {
            Some(list) => list@.len(),
            None => 0,
        }
    }
}

proof fn lemma_totals_bounded(outcomes: Seq<Option<Vec<Outcome>>>, k: int)
    requires
        0 <= k <= outcomes.len(),
    ensures
        total_of(outcomes.take(k), Outcome::Marked) + total_of(outcomes.take(k), Outcome::Already)
            <= looked_at(outcomes.take(k)) <= looked_at(outcomes),
    decreases outcomes.len(),
{
    if k == outcomes.len() {
        assert(outcomes.take(k) =~= outcomes);
        if k > 0 {
            let rest = outcomes.drop_last();
            lemma_totals_bounded(rest, k - 1);
            assert(rest.take(k - 1) =~= rest);
            if let Some(list) = outcomes.last() {
                law_outcomes_add_up(list@);
            }
        }
    } else {
        let rest = outcomes.drop_last();
        lemma_totals_bounded(rest, k);
        assert(rest.take(k) =~= outcomes.take(k));
    }
}

/// What is shown of a look for files. `outcomes` holds what came of the episodes of each feed
/// in `targets`.
pub fn cmd_feed_reimport(
    feeds: &Vec<Feed>,
    targets: &Vec<usize>,
    outcomes: &Vec<Option<Vec<Outcome>>>,
) -> (res: Vec<Output>)
    requires
        outcomes@.len() == targets@.len(),
        forall|i: int| 0 <= i < targets@.len() ==> (#[trigger] targets@[i]) < feeds@.len(),
        looked_at(outcomes@) <= u64::MAX,
    ensures
        output::outs_doc(res@) == reimport_doc(feeds@, targets@, outcomes@),
{
    let mut outs = output::no_outputs();
    let mut matched: u64 = 0;
    let mut already: u64 = 0;
    let ghost lines = Seq::new(
        targets@.len(),
        |i: int| feed_line(feeds@[targets@[i] as int], outcomes@[i]),
    );
    assert(lines.take(0) =~= Seq::empty());
    for i in 0..targets.len()
        invariant
            outcomes@.len() == targets@.len(),
            forall|i: int| 0 <= i < targets@.len() ==> (#[trigger] targets@[i]) < feeds@.len(),
            looked_at(outcomes@) <= u64::MAX,
            lines == Seq::new(
                targets@.len(),
                |i: int| feed_line(feeds@[targets@[i] as int], outcomes@[i]),
            ),
            output::outs_doc(outs@) == lines.take(i as int),
            matched == total_of(outcomes@.take(i as int), Outcome::Marked),
            already == total_of(outcomes@.take(i as int), Outcome::Already),
    {
        assert(targets@[i as int] < feeds@.len());
        proof {
            assert(outcomes@.take(i + 1).drop_last() =~= outcomes@.take(i as int));
            lemma_totals_bounded(outcomes@, i + 1);
        }
        push_feed_line(&mut outs, &feeds[targets[i]], &outcomes[i]);
        if let Some(o) = &outcomes[i] {
            matched = matched + count_outcomes(o, Outcome::Marked) as u64;
            already = already + count_outcomes(o, Outcome::Already) as u64;
        }
        assert(lines.take(i + 1) =~= lines.take(i as int).push(lines[i as int]));
    }
    assert(lines.take(lines.len() as int) =~= lines);
    assert(outcomes@.take(outcomes@.len() as int) =~= outcomes@);
    output::append_outputs(&mut outs, closing_outputs(matched, already));
    outs
}

// ---- Laws -------------------------------------------------------------------------------------

/// A look for files goes over the feed that was named, and over all where none was.
pub proof fn law_which_feeds_are_looked_at(feed: Feed, slug: Seq<char>)
    ensures
        is_target(feed, None),
        is_target(feed, Some(slug)) <==> feed.slug@ == slug,
{
}

/// Outcomes are counted one by one, over an episode and over a feed.
pub proof fn law_outcomes_are_counted_one_by_one(
    outcomes: Seq<Outcome>,
    last: Outcome,
    o: Outcome,
    all: Seq<Option<Vec<Outcome>>>,
    list: Vec<Outcome>,
)
    ensures
        count_of(Seq::empty(), o) == 0,
        last == o ==> count_of(outcomes.push(last), o) == count_of(outcomes, o) + 1,
        last != o ==> count_of(outcomes.push(last), o) == count_of(outcomes, o),
        total_of(Seq::empty(), o) == 0,
        total_of(all.push(None), o) == total_of(all, o),
        total_of(all.push(Some(list)), o) == total_of(all, o) + count_of(list@, o),
{
    assert(outcomes.push(last).drop_last() =~= outcomes);
    assert(all.push(None).drop_last() =~= all);
    assert(all.push(Some(list)).drop_last() =~= all);
}

/// What is said at the end: how many episodes were marked, that nothing was found where none was
/// marked and none complete before, and nothing at all where all files belong to episodes that
/// were complete before.
pub proof fn law_what_is_said_at_the_end(matched: nat, already: nat)
    ensures
        matched > 0 ==> closing_doc(matched, already).len() == 2 && (closing_doc(matched, already)[1]
            matches OutDoc::Line(spans) && spans.len() == 3 && spans[1] == (
            text::decimal(matched),
            Style::GreenBold,
        )),
        matched == 0 && already == 0 ==> closing_doc(matched, already).len() == 1 && closing_doc(
            matched,
            already,
        )[0] == OutDoc::Line(output::one("No matching files found."@, Style::Plain)),
        matched == 0 && already > 0 ==> closing_doc(matched, already).len() == 0,
{
}

/// The line of a feed has its title, else its slug, and the counts of its outcomes; a feed
/// without a directory is passed over.
pub proof fn law_line_of_a_feed(feed: Feed, list: Vec<Outcome>)
    ensures
        feed_line(feed, Some(list)) matches OutDoc::Line(spans) && {
            &&& spans.len() == 7
            &&& feed.title matches Some(t) ==> spans[0] == (t@ + ": "@, Style::Plain)
            &&& feed.title is None ==> spans[0] == (feed.slug@ + ": "@, Style::Plain)
            &&& spans[1] == (text::decimal(count_of(list@, Outcome::Marked)), Style::Green)
            &&& spans[3] == (text::decimal(count_of(list@, Outcome::Already)), Style::Dim)
            &&& spans[5] == (text::decimal(count_of(list@, Outcome::NotFound)), Style::Dim)
        },
        feed_line(feed, None) matches OutDoc::Line(spans) && spans.len() == 3 && spans[0] == (
            feed.slug@,
            Style::Dim,
        ),
{
}

} // verus!
