//! The list of all rules.
use crate::cli::helpers;
use crate::cli::output;
use crate::cli::output::{OutDoc, Output, SpanDoc, Style};
use crate::config::Config;
use crate::episode;
use crate::rules::config;
use crate::rules::config::{DynamicRuleConfig, DynamicRuleKind, FeedConfig, RuleConfig, RuleKind};
use crate::text;
use crate::time;
use vstd::prelude::*;
use vstd::string::*;

verus! {

/// What a rule looks at, in words.
pub open spec fn kind_doc(k: RuleKind) -> Seq<char> {
    match k {
        RuleKind::Always => "always"@,
        RuleKind::TitleRegex { pattern } => "title ~ /"@ + pattern@ + "/"@,
        RuleKind::DescriptionRegex { pattern } => "description ~ /"@ + pattern@ + "/"@,
        RuleKind::DurationMin { value } => "duration >= "@ + time::human_duration(
            value.whole_secs(),
            value.subsec(),
        ),
        RuleKind::DurationMax { value } => "duration <= "@ + time::human_duration(
            value.whole_secs(),
            value.subsec(),
        ),
        RuleKind::PublishedAfter { date } => "published after "@ + time::date_text(
            date.epoch_secs(),
            date.subsec(),
        ),
        RuleKind::PublishedBefore { date } => "published before "@ + time::date_text(
            date.epoch_secs(),
            date.subsec(),
        ),
        RuleKind::EpisodeSizeMax { value } => "size <= "@ + config::bytesize_text(value as nat),
    }
}

/// What a rule looks at, in words.
pub fn fmt_kind(k: &RuleKind) -> (res: String)
    ensures
        res@ == kind_doc(*k),
{
    match k {
        RuleKind::Always => "always".to_string(),
        RuleKind::TitleRegex { pattern } => {
            let mut s = "title ~ /".to_string();
            s.append(pattern.as_str());
            s.append("/");
            s
        },
        RuleKind::DescriptionRegex { pattern } => {
            let mut s = "description ~ /".to_string();
            s.append(pattern.as_str());
            s.append("/");
            s
        },
        RuleKind::DurationMin { value } => {
            let mut s = "duration >= ".to_string();
            s.append(value.to_text().as_str());
            s
        },
        RuleKind::DurationMax { value } => {
            let mut s = "duration <= ".to_string();
            s.append(value.to_text().as_str());
            s
        },
        RuleKind::PublishedAfter { date } => {
            let mut s = "published after ".to_string();
            s.append(date.date().as_str());
            s
        },
        RuleKind::PublishedBefore { date } => {
            let mut s = "published before ".to_string();
            s.append(date.date().as_str());
            s
        },
        RuleKind::EpisodeSizeMax { value } => {
            let mut s = "size <= ".to_string();
            s.append(config::show_bytesize(*value).as_str());
            s
        },
    }
}

/// Whether the window of a dynamic rule has a length that can be shown: one that is not
/// negative.
pub open spec fn window_fits(k: DynamicRuleKind) -> bool {
    k matches DynamicRuleKind::DurationAgo { duration } ==> duration.total_nanos() >= 0
}

/// What a dynamic rule looks at, in words.
pub open spec fn dynamic_kind_doc(k: DynamicRuleKind) -> Seq<char> {
    match k {
        DynamicRuleKind::DurationAgo { duration } => "published within the last "@
            + time::human_duration(
            (duration.total_nanos() / 1_000_000_000) as nat,
            (duration.total_nanos() % 1_000_000_000) as nat,
        ),
        DynamicRuleKind::LastNEpisodes { last_n_episodes } => "among the "@ + text::decimal(
            last_n_episodes as nat,
        ) + " most recent episodes"@,
    }
}

/// What a dynamic rule looks at, in words.
pub fn fmt_dynamic_kind(k: &DynamicRuleKind) -> (res: String)
    requires
        window_fits(*k),
    ensures
        res@ == dynamic_kind_doc(*k),
{
    match k {
        DynamicRuleKind::DurationAgo { duration } => {
            let mut s = "published within the last ".to_string();
            s.append(duration.to_std().to_text().as_str());
            s
        },
        DynamicRuleKind::LastNEpisodes { last_n_episodes } => {
            let mut s = "among the ".to_string();
            s.append(text::decimal_text(*last_n_episodes as u64).as_str());
            s.append(" most recent episodes");
            s
        },
    }
}

/// The row of a rule: its priority, its name, what it looks at, and its action.
pub open spec fn rule_row(r: RuleConfig) -> Seq<Seq<SpanDoc>> {
    Seq::empty()
        .push(output::one(text::signed_decimal(r.priority as int), Style::Plain))
        .push(output::one(r.name@, Style::Plain))
        .push(output::one(kind_doc(r.match_), Style::Plain))
        .push(output::one(episode::action_text(r.action), helpers::action_style(r.action)))
}

/// The table of some rules.
pub open spec fn rules_table_doc(rules: Seq<RuleConfig>) -> OutDoc {
    OutDoc::Table(
        Seq::empty()
            .push("PRI"@)
            .push("NAME"@)
            .push("MATCH"@)
            .push("ACTION"@),
        rules.map_values(|r: RuleConfig| rule_row(r)),
    )
}

fn push_rules_table(outs: &mut Vec<Output>, rules: &Vec<RuleConfig>)
    ensures
        output::outs_doc(final(outs)@) == output::outs_doc(old(outs)@).push(
            rules_table_doc(rules@),
        ),
{
    let mut header = output::no_titles();
    output::push_title(&mut header, "PRI");
    output::push_title(&mut header, "NAME");
    output::push_title(&mut header, "MATCH");
    output::push_title(&mut header, "ACTION");
    let mut rows = output::no_rows();
    let ghost mapped = rules@.map_values(|r: RuleConfig| rule_row(r));
    assert(mapped.take(0) =~= Seq::empty());
    for i in 0..rules.len()
        invariant
            mapped == rules@.map_values(|r: RuleConfig| rule_row(r)),
            output::rows_doc(rows@) == mapped.take(i as int),
    {
        let r = &rules[i];
        let mut row = output::no_cells();
        output::push_cell(
            &mut row,
            text::signed_decimal_text(r.priority as i64).as_str(),
            Style::Plain,
        );
        output::push_cell(&mut row, r.name.as_str(), Style::Plain);
        output::push_cell(&mut row, fmt_kind(&r.match_).as_str(), Style::Plain);
        output::push_cell(&mut row, r.action.as_str(), helpers::action_cell(r.action));
        output::push_row(&mut rows, row);
        assert(mapped.take(i + 1) =~= mapped.take(i as int).push(mapped[i as int]));
    }
    assert(mapped.take(mapped.len() as int) =~= mapped);
    output::push_table(outs, header, rows);
}

/// The row of a dynamic rule: its name and what it looks at.
pub open spec fn dynamic_row(r: DynamicRuleConfig) -> Seq<Seq<SpanDoc>> {
    Seq::empty()
        .push(output::one(r.name@, Style::Plain))
        .push(output::one(dynamic_kind_doc(r.match_), Style::Plain))
}

/// The table of some dynamic rules.
pub open spec fn dynamic_table_doc(rules: Seq<DynamicRuleConfig>) -> OutDoc {
    OutDoc::Table(
        Seq::empty().push("NAME"@).push("MATCH"@),
        rules.map_values(|r: DynamicRuleConfig| dynamic_row(r)),
    )
}

/// Whether the windows of all dynamic rules have a length that can be shown.
pub open spec fn windows_fit(rules: Seq<DynamicRuleConfig>) -> bool {
    forall|i: int| 0 <= i < rules.len() ==> window_fits((#[trigger] rules[i]).match_)
}

fn push_dynamic_table(outs: &mut Vec<Output>, rules: &Vec<DynamicRuleConfig>)
    requires
        windows_fit(rules@),
    ensures
        output::outs_doc(final(outs)@) == output::outs_doc(old(outs)@).push(
            dynamic_table_doc(rules@),
        ),
{
    let mut header = output::no_titles();
    output::push_title(&mut header, "NAME");
    output::push_title(&mut header, "MATCH");
    let mut rows = output::no_rows();
    let ghost mapped = rules@.map_values(|r: DynamicRuleConfig| dynamic_row(r));
    assert(mapped.take(0) =~= Seq::empty());
    for i in 0..rules.len()
        invariant
            windows_fit(rules@),
            mapped == rules@.map_values(|r: DynamicRuleConfig| dynamic_row(r)),
            output::rows_doc(rows@) == mapped.take(i as int),
    {
        let r = &rules[i];
        let mut row = output::no_cells();
        output::push_cell(&mut row, r.name.as_str(), Style::Plain);
        output::push_cell(&mut row, fmt_dynamic_kind(&r.match_).as_str(), Style::Plain);
        output::push_row(&mut rows, row);
        assert(mapped.take(i + 1) =~= mapped.take(i as int).push(mapped[i as int]));
    }
    assert(mapped.take(mapped.len() as int) =~= mapped);
    output::push_table(outs, header, rows);
}

/// An indented remark.
pub open spec fn remark(t: Seq<char>) -> OutDoc {
    OutDoc::Line(Seq::empty().push(("\t"@, Style::Plain)).push((t, Style::Dim)))
}

fn push_remark(outs: &mut Vec<Output>, t: &str)
    ensures
        output::outs_doc(final(outs)@) == output::outs_doc(old(outs)@).push(remark(t@)),
{
    let mut line = output::no_spans();
    output::push_span(&mut line, "\t", Style::Plain);
    output::push_span(&mut line, t, Style::Dim);
    output::push_line(outs, line);
}

/// What is shown of some dynamic rules.
pub open spec fn dynamic_part(rules: Seq<DynamicRuleConfig>) -> OutDoc {
    if rules.len() == 0 {
        remark("(none)"@)
    } else {
        dynamic_table_doc(rules)
    }
}

fn push_dynamic_part(outs: &mut Vec<Output>, rules: &Vec<DynamicRuleConfig>)
    requires
        windows_fit(rules@),
    ensures
        output::outs_doc(final(outs)@) == output::outs_doc(old(outs)@).push(dynamic_part(rules@)),
{
    if rules.len() == 0 {
        push_remark(outs, "(none)");
    } else {
        push_dynamic_table(outs, rules);
    }
}

/// What is shown of some rules; `none` is what is said where there are none.
pub open spec fn rules_part(rules: Seq<RuleConfig>, none: Seq<char>) -> OutDoc {
    if rules.len() == 0 {
        remark(none)
    } else {
        rules_table_doc(rules)
    }
}

fn push_rules_part(outs: &mut Vec<Output>, rules: &Vec<RuleConfig>, none: &str)
    ensures
        output::outs_doc(final(outs)@) == output::outs_doc(old(outs)@).push(
            rules_part(rules@, none@),
        ),
{
    if rules.len() == 0 {
        push_remark(outs, none);
    } else {
        push_rules_table(outs, rules);
    }
}

/// The line that names a feed.
pub open spec fn feed_label(feed: FeedConfig) -> OutDoc {
    match feed.display_name {
        Some(n) => OutDoc::Line(
            Seq::empty()
                .push(("Feed:"@, Style::Bold))
                .push((" "@, Style::Plain))
                .push((n@, Style::Plain))
                .push((" "@, Style::Plain))
                .push(("("@ + feed.slug@ + ")"@, Style::Dim)),
        ),
        None => OutDoc::Line(
            Seq::empty()
                .push(("Feed:"@, Style::Bold))
                .push((" "@, Style::Plain))
                .push((feed.slug@, Style::Plain)),
        ),
    }
}

fn push_feed_label(outs: &mut Vec<Output>, feed: &FeedConfig)
    ensures
        output::outs_doc(final(outs)@) == output::outs_doc(old(outs)@).push(feed_label(*feed)),
{
    let mut line = output::no_spans();
    output::push_span(&mut line, "Feed:", Style::Bold);
    output::push_span(&mut line, " ", Style::Plain);
    match &feed.display_name {
        Some(n) => {
            output::push_span(&mut line, n.as_str(), Style::Plain);
            output::push_span(&mut line, " ", Style::Plain);
            let mut slug = "(".to_string();
            slug.append(feed.slug.as_str());
            slug.append(")");
            output::push_span(&mut line, slug.as_str(), Style::Dim);
        },
        None => {
            output::push_span(&mut line, feed.slug.as_str(), Style::Plain);
        },
    }
    output::push_line(outs, line);
}

/// What is shown of the rules of a feed.
pub open spec fn feed_part(feed: FeedConfig) -> Seq<OutDoc> {
    let part = Seq::empty()
        .push(OutDoc::Line(Seq::empty()))
        .push(feed_label(feed))
        .push(rules_part(feed.rules@, "(none — global rules apply)"@))
        .push(OutDoc::Line(output::one("Dynamic rules:"@, Style::Bold)))
        .push(dynamic_part(feed.dynamic@));
    match feed.default_action {
        Some(a) => part.push(
            OutDoc::Line(
                Seq::empty()
                    .push(("  "@, Style::Plain))
                    .push(("catch-all:"@, Style::Dim))
                    .push((" "@, Style::Plain))
                    .push((episode::action_text(a), Style::Plain)),
            ),
        ),
        None => part,
    }
}

fn feed_outputs(feed: &FeedConfig) -> (res: Vec<Output>)
    requires
        windows_fit(feed.dynamic@),
    ensures
        output::outs_doc(res@) == feed_part(*feed),
{
    let mut outs = output::no_outputs();
    output::push_line(&mut outs, output::no_spans());
    push_feed_label(&mut outs, feed);
    push_rules_part(&mut outs, &feed.rules, "(none — global rules apply)");
    output::push_text(&mut outs, "Dynamic rules:", Style::Bold);
    push_dynamic_part(&mut outs, &feed.dynamic);
    if let Some(a) = feed.default_action {
        let mut line = output::no_spans();
        output::push_span(&mut line, "  ", Style::Plain);
        output::push_span(&mut line, "catch-all:", Style::Dim);
        output::push_span(&mut line, " ", Style::Plain);
        output::push_span(&mut line, a.as_str(), Style::Plain);
        output::push_line(&mut outs, line);
    }
    outs
}

/// What is shown of the rules of some feeds.
pub open spec fn feeds_part(feeds: Seq<FeedConfig>) -> Seq<OutDoc>
    decreases feeds.len(),
{
    if feeds.len() == 0 {
        Seq::empty()
    } else {
        feeds_part(feeds.drop_last()) + feed_part(feeds.last())
    }
}

/// All that is shown of the rules of a configuration.
pub open spec fn rules_list_doc(cfg: Config) -> Seq<OutDoc> {
    let global = Seq::empty()
        .push(OutDoc::Line(output::one("Global Dynamic Rules"@, Style::Bold)))
        .push(dynamic_part(cfg.global_dynamics@))
        .push(OutDoc::Line(output::one("Global rules:"@, Style::Bold)))
        .push(rules_part(cfg.global_rules@, "(none)"@));
    let default = Seq::empty()
        .push(("Default (no match):"@, Style::Dim))
        .push((" "@, Style::Plain))
        .push((episode::action_text(cfg.defaults.action_on_no_match), Style::Plain));
    (global + feeds_part(cfg.feeds@)).push(OutDoc::Line(Seq::empty())).push(OutDoc::Line(default))
}

/// Whether all windows of a configuration have a length that can be shown.
pub open spec fn all_windows_fit(cfg: Config) -> bool {
    windows_fit(cfg.global_dynamics@) && forall|i: int|
        0 <= i < cfg.feeds@.len() ==> windows_fit((#[trigger] cfg.feeds@[i]).dynamic@)
}

/// The list of all rules: the global ones, those of each feed, and the default.
pub fn cmd_rules_list(cfg: &Config) -> (res: Vec<Output>)
    requires
        all_windows_fit(*cfg),
    ensures
        output::outs_doc(res@) == rules_list_doc(*cfg),
{
    let mut outs = output::no_outputs();
    output::push_text(&mut outs, "Global Dynamic Rules", Style::Bold);
    push_dynamic_part(&mut outs, &cfg.global_dynamics);
    output::push_text(&mut outs, "Global rules:", Style::Bold);
    push_rules_part(&mut outs, &cfg.global_rules, "(none)");
    let ghost head = output::outs_doc(outs@);
    assert(head + feeds_part(cfg.feeds@.take(0)) =~= head);
    for i in 0..cfg.feeds.len()
        invariant
            all_windows_fit(*cfg),
            output::outs_doc(outs@) == head + feeds_part(cfg.feeds@.take(i as int)),
    {
        assert(windows_fit(cfg.feeds@[i as int].dynamic@));
        assert(cfg.feeds@.take(i + 1).drop_last() =~= cfg.feeds@.take(i as int));
        output::append_outputs(&mut outs, feed_outputs(&cfg.feeds[i]));
        assert(output::outs_doc(outs@) =~= head + feeds_part(cfg.feeds@.take(i + 1)));
    }
    assert(cfg.feeds@.take(cfg.feeds@.len() as int) =~= cfg.feeds@);
    output::push_line(&mut outs, output::no_spans());
    let mut line = output::no_spans();
    output::push_span(&mut line, "Default (no match):", Style::Dim);
    output::push_span(&mut line, " ", Style::Plain);
    output::push_span(&mut line, cfg.defaults.action_on_no_match.as_str(), Style::Plain);
    output::push_line(&mut outs, line);
    outs
}

// ---- Laws ---------------------------------------------------------------------------------------

/// Each kind of rule is told in words with its bound.
pub proof fn law_rules_in_words(k: RuleKind)
    ensures
        k is Always ==> kind_doc(k) == "always"@,
        k matches RuleKind::TitleRegex { pattern } ==> kind_doc(k) == "title ~ /"@ + pattern@ + "/"@,
        k matches RuleKind::DescriptionRegex { pattern } ==> kind_doc(k) == "description ~ /"@
            + pattern@ + "/"@,
        k matches RuleKind::DurationMin { value } ==> kind_doc(k) == "duration >= "@
            + time::human_duration(value.whole_secs(), value.subsec()),
        k matches RuleKind::DurationMax { value } ==> kind_doc(k) == "duration <= "@
            + time::human_duration(value.whole_secs(), value.subsec()),
        k matches RuleKind::PublishedAfter { date } ==> kind_doc(k) == "published after "@
            + time::date_text(date.epoch_secs(), date.subsec()),
        k matches RuleKind::PublishedBefore { date } ==> kind_doc(k) == "published before "@
            + time::date_text(date.epoch_secs(), date.subsec()),
        k matches RuleKind::EpisodeSizeMax { value } ==> kind_doc(k) == "size <= "@
            + config::bytesize_text(value as nat),
{
}

/// A rule is listed with its priority, its name, what it looks at and its action, a dynamic one
/// with its name and its window.
pub proof fn law_row_of_a_rule(r: RuleConfig, d: DynamicRuleConfig)
    ensures
        rule_row(r).len() == 4,
        rule_row(r)[0] == output::one(text::signed_decimal(r.priority as int), Style::Plain),
        rule_row(r)[1] == output::one(r.name@, Style::Plain),
        rule_row(r)[2] == output::one(kind_doc(r.match_), Style::Plain),
        rule_row(r)[3] == output::one(
            episode::action_text(r.action),
            helpers::action_style(r.action),
        ),
        dynamic_row(d).len() == 2,
        dynamic_row(d)[0] == output::one(d.name@, Style::Plain),
        d.match_ matches DynamicRuleKind::LastNEpisodes { last_n_episodes } ==> dynamic_row(d)[1]
            == output::one(
            "among the "@ + text::decimal(last_n_episodes as nat) + " most recent episodes"@,
            Style::Plain,
        ),
        d.match_ matches DynamicRuleKind::DurationAgo { duration } ==> (duration.total_nanos() >= 0
            ==> dynamic_row(d)[1] == output::one(
            "published within the last "@ + time::human_duration(
                (duration.total_nanos() / 1_000_000_000) as nat,
                (duration.total_nanos() % 1_000_000_000) as nat,
            ),
            Style::Plain,
        )),
{
}

/// A list of rules has a row for each, in the order in which they are written, and says so where
/// there is none.
pub proof fn law_every_rule_is_listed(
    rules: Seq<RuleConfig>,
    dynamic: Seq<DynamicRuleConfig>,
    none: Seq<char>,
    i: int,
)
    ensures
        0 <= i < rules.len() ==> (rules_part(rules, none) matches OutDoc::Table(_, rows)
            && rows.len() == rules.len() && rows[i] == rule_row(rules[i])),
        rules.len() == 0 ==> rules_part(rules, none) == remark(none),
        0 <= i < dynamic.len() ==> (dynamic_part(dynamic) matches OutDoc::Table(_, rows)
            && rows.len() == dynamic.len() && rows[i] == dynamic_row(dynamic[i])),
        dynamic.len() == 0 ==> dynamic_part(dynamic) == remark("(none)"@),
{
}

/// The list shows the global rules first, then those of each feed in the order of the
/// configuration, each with its catch-all where it has one, and the default at the end.
pub proof fn law_order_of_the_list(cfg: Config, feeds: Seq<FeedConfig>, feed: FeedConfig)
    ensures
        rules_list_doc(cfg).len() >= 6,
        rules_list_doc(cfg)[1] == dynamic_part(cfg.global_dynamics@),
        rules_list_doc(cfg)[3] == rules_part(cfg.global_rules@, "(none)"@),
        rules_list_doc(cfg).last() matches OutDoc::Line(spans) && spans.len() == 3 && spans[2] == (
            episode::action_text(cfg.defaults.action_on_no_match),
            Style::Plain,
        ),
        rules_list_doc(cfg).subrange(4, rules_list_doc(cfg).len() - 2) == feeds_part(cfg.feeds@),
        feeds_part(Seq::empty()).len() == 0,
        feeds_part(feeds.push(feed)) == feeds_part(feeds) + feed_part(feed),
        feed_part(feed)[2] == rules_part(feed.rules@, "(none — global rules apply)"@),
        feed_part(feed)[4] == dynamic_part(feed.dynamic@),
        feed.default_action is None ==> feed_part(feed).len() == 5,
        feed.default_action matches Some(a) ==> feed_part(feed).len() == 6 && (feed_part(feed)[5]
            matches OutDoc::Line(spans) && spans.len() == 4 && spans[3] == (
            episode::action_text(a),
            Style::Plain,
        )),
{
    assert(feeds.push(feed).drop_last() =~= feeds);
    assert(rules_list_doc(cfg).subrange(4, rules_list_doc(cfg).len() - 2) =~= feeds_part(
        cfg.feeds@,
    ));
}

} // verus!
