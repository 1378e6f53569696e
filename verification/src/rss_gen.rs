//! The documents and cover images of restreamed feeds.
use crate::episode::{Action, Episode, EpisodeState};
use crate::feed::Feed;
use crate::rules::config::FeedConfig;
use crate::server::config;
use crate::server::config::ServerConfig;
use crate::server::rss;
use crate::text;
use crate::weburl;
use crate::weburl::Url;
use vstd::prelude::*;
use vstd::string::*;
use vstd::utf8::*;

verus! {

/// What the generator of documents needs besides the store.
#[derive(Debug)]
pub struct RssContext {
    pub server_cfg: ServerConfig,
    /// Directory of the generated documents.
    pub rss_dir: String,
    /// Directory of the cached cover images, one directory for each feed.
    pub images_dir: String,
}

// ---- Which episodes are shown ---------------------------------------------------------

/// Whether an episode is there or queued.
pub open spec fn is_matched(state: EpisodeState) -> bool {
    state is Complete || state is Dynamic || state == EpisodeState::Matched(Action::Download)
        || state == EpisodeState::Matched(Action::Dynamic)
}

/// The episodes that a restreamed feed shows, in their order.
pub open spec fn shown(eps: Seq<Episode>, only_matched: bool) -> Seq<Episode>
    decreases eps.len(),
{
    if eps.len() == 0 {
        eps
    } else if !only_matched || is_matched(eps.last().state) {
        shown(eps.drop_last(), only_matched).push(eps.last())
    } else {
        shown(eps.drop_last(), only_matched)
    }
}

fn matched(state: &EpisodeState) -> (res: bool)
    ensures
        res == is_matched(*state),
{
    match state {
        EpisodeState::Complete { .. } => true,
        EpisodeState::Dynamic { .. } => true,
        EpisodeState::Matched(a) => *a == Action::Download || *a == Action::Dynamic,
        _ => false,
    }
}

/// The episodes that a restreamed feed shows: all of them, or only those that are there or
/// queued.
pub fn restream_episodes(eps: &Vec<Episode>, only_matched: bool) -> (res: Vec<Episode>)
    ensures
        res@ == shown(eps@, only_matched),
        !only_matched ==> res@ == eps@,
        only_matched ==> res@ == eps@.filter(
            |ep: Episode|
                match ep.state {
                    EpisodeState::Complete { .. } => true,
                    EpisodeState::Dynamic { .. } => true,
                    EpisodeState::Matched(Action::Download) => true,
                    EpisodeState::Matched(Action::Dynamic) => true,
                    _ => false,
                },
        ),
{
    let mut out: Vec<Episode> = Vec::new();
    assert(eps@.take(0) =~= Seq::empty());
    for i in 0..eps.len()
        invariant
            out@ == shown(eps@.take(i as int), only_matched),
    {
        assert(eps@.take(i + 1).drop_last() =~= eps@.take(i as int));
        if !only_matched || matched(&eps[i].state) {
            out.push(eps[i].clone());
        }
    }
    assert(eps@.take(eps@.len() as int) =~= eps@);
    proof {
        law_restream_shows_matched_episodes(eps@);
        law_restream_shows_these_states(eps@);
    }
    out
}

/// A feed of which only the matched episodes are restreamed shows exactly those that are
/// complete, dynamic, or matched to be downloaded or to be kept dynamically, in their order.
pub proof fn law_restream_shows_these_states(eps: Seq<Episode>)
    ensures
        shown(eps, true) == eps.filter(
            |ep: Episode|
                match ep.state {
                    EpisodeState::Complete { .. } => true,
                    EpisodeState::Dynamic { .. } => true,
                    EpisodeState::Matched(Action::Download) => true,
                    EpisodeState::Matched(Action::Dynamic) => true,
                    _ => false,
                },
        ),
    decreases eps.len(),
{
    reveal(Seq::filter);
    if eps.len() > 0 {
        law_restream_shows_these_states(eps.drop_last());
    }
}

/// A feed that is restreamed in full shows every episode; one that is not shows exactly those
/// that are there or queued.
pub proof fn law_restream_shows_matched_episodes(eps: Seq<Episode>)
    ensures
        shown(eps, false) == eps,
        shown(eps, true) == eps.filter(|ep: Episode| is_matched(ep.state)),
    decreases eps.len(),
{
    reveal(Seq::filter);
    if eps.len() > 0 {
        law_restream_shows_matched_episodes(eps.drop_last());
        assert(eps.drop_last().push(eps.last()) =~= eps);
    } else {
        assert(eps.filter(|ep: Episode| is_matched(ep.state)) =~= eps);
    }
}

// ---- Cover images -----------------------------------------------------------------------

/// Whether a text may be the extension of an image: up to five ASCII letters and digits.
pub open spec fn is_short_ext(e: Seq<char>) -> bool {
    encode_utf8(e).len() <= 5 && forall|i: int|
        0 <= i < e.len() ==> text::is_ascii_alphanumeric(#[trigger] e[i])
}

/// What follows the last dot of a path; the whole path where there is none.
pub open spec fn after_last_dot(path: Seq<char>) -> Seq<char> {
    path.skip(text::last_position(path, '.') + 1)
}

/// The extension of a cover image by the path of its address.
pub open spec fn cover_ext(path: Seq<char>) -> Seq<char> {
    if is_short_ext(after_last_dot(path)) {
        after_last_dot(path)
    } else {
        "jpg"@
    }
}

/// The extension of a cover image by the path of its address, else `jpg`.
pub fn cover_extension(path: &str) -> (res: String)
    ensures
        res@ == cover_ext(path@),
{
    let ext = match text::text_after_last(path, '.') {
        Some(e) => e,
        None => path.to_string(),
    };
    assert(ext@ =~= after_last_dot(path@)) by {
        if text::last_position(path@, '.') < 0 {
            text::lemma_no_last_position(path@, '.');
            assert(path@.skip(0) =~= path@);
        }
    }
    if ext.as_str().as_bytes().len() > 5 {
        return "jpg".to_string();
    }
    let v = text::chars_of(ext.as_str());
    for i in 0..v.len()
        invariant
            v@ == ext@,
            ext@ == after_last_dot(path@),
            forall|k: int| 0 <= k < i ==> text::is_ascii_alphanumeric(#[trigger] v@[k]),
    {
        if !text::ascii_alphanumeric(v[i]) {
            assert(!text::is_ascii_alphanumeric(ext@[i as int]));
            return "jpg".to_string();
        }
    }
    ext
}

/// The name of the file that holds a cover image.
pub open spec fn cover_file(ext: Seq<char>) -> Seq<char> {
    "cover."@ + ext
}

/// The name of the file that holds a cover image with the extension `ext`.
pub fn cover_file_name(ext: &str) -> (res: String)
    ensures
        res@ == cover_file(ext@),
{
    let mut s = "cover.".to_string();
    s.append(ext);
    s
}

/// The address of a feed's cover image on the server.
pub open spec fn cover_address(cfg: ServerConfig, slug: Seq<char>, ext: Seq<char>) -> Seq<char> {
    text::skip_right(cfg.base_url@, text::is_char('/')) + "/images/"@ + slug + "/cover."@ + ext
        + config::key_suffix(cfg.auth_token)
}

/// The address of the cover image of the feed `slug` on the server.
pub fn build_cover_url(ctx: &RssContext, slug: &str, ext: &str) -> (res: String)
    ensures
        res@ == cover_address(ctx.server_cfg, slug@, ext@),
{
    let mut s = text::trim_end_char(ctx.server_cfg.base_url.as_str(), '/');
    s.append("/images/");
    s.append(slug);
    s.append("/cover.");
    s.append(ext);
    s.append(ctx.server_cfg.key_query().as_str());
    s
}

/// Whether a cached image can be used again: it is younger than `max_age_secs`. `age_secs` is
/// nothing where there is no image.
pub fn is_fresh(age_secs: Option<u64>, max_age_secs: u64) -> (res: bool)
    ensures
        res <==> age_secs is Some && age_secs->0 < max_age_secs,
{
    match age_secs {
        Some(age) => age < max_age_secs,
        None => false,
    }
}

/// How long a cached image is used again, in seconds: a day.
pub const COVER_MAX_AGE_SECS: u64 = 86400;

/// How the attempt to have a cover image on disk ended.
#[derive(Clone, Copy, Debug, PartialEq, Eq, Structural)]
pub enum CoverOutcome {
    /// The cached image is young enough.
    Fresh,
    /// The image was fetched and written.
    Written,
    /// The server could not be asked for the image. An older image that is on disk stays there.
    FetchFailed,
    /// The directory could not be made, or the image not be read or written, or the server
    /// refused it.
    Unusable,
}

/// Whether there is a cover image to show after an attempt: a young one that was cached, or one
/// that was just written.
pub open spec fn has_cover(outcome: CoverOutcome) -> bool {
    outcome == CoverOutcome::Fresh || outcome == CoverOutcome::Written
}

/// The address of a feed's cover image on the server after an attempt to have it on disk.
/// There is none where the feed has no image or the download failed.
pub fn cache_cover_image(
    slug: &str,
    feed: &Feed,
    ctx: &RssContext,
    outcome: CoverOutcome,
) -> (res: Option<String>)
    ensures
        text::opt_text(res) == match feed.image_url {
            Some(u) => if has_cover(outcome) {
                Some(cover_address(ctx.server_cfg, slug@, cover_ext(u.path_view())))
            } else {
                None
            },
            None => None,
        },
{
    let url = match &feed.image_url {
        Some(u) => u,
        None => {
            return None;
        },
    };
    if outcome == CoverOutcome::Fresh || outcome == CoverOutcome::Written {
        let ext = cover_extension(url.path());
        Some(build_cover_url(ctx, slug, ext.as_str()))
    } else {
        None
    }
}

// ---- Documents --------------------------------------------------------------------------

/// Whether `shown_feed` is the feed with its cover image on the server in place of the one at
/// the origin, where there is one.
pub open spec fn has_cover_of(feed: Feed, cover: Option<Seq<char>>, shown_feed: Feed) -> bool {
    &&& shown_feed == Feed { image_url: shown_feed.image_url, ..feed }
    &&& match cover {
        Some(c) => match weburl::url_parse(c) {
            Ok(u) => shown_feed.image_url matches Some(i) && (i@, i.path_view()) == u,
            Err(_) => shown_feed.image_url == feed.image_url,
        },
        None => shown_feed.image_url == feed.image_url,
    }
}

fn with_cover(feed: &Feed, cover: &Option<String>) -> (res: Feed)
    ensures
        has_cover_of(*feed, text::opt_text(*cover), res),
{
    let mut shown_feed = feed.clone();
    if let Some(c) = cover {
        if let Ok(u) = Url::parse(c.as_str()) {
            shown_feed.image_url = Some(u);
        }
    }
    shown_feed
}

/// The document of a restreamed feed: it shows the episodes that the feed's settings ask for
/// and the cover image on the server.
pub fn generate_rss_for_feed(
    feed_cfg: &FeedConfig,
    feed: &Feed,
    all_episodes: &Vec<Episode>,
    cover_url: &Option<String>,
    ctx: &RssContext,
) -> (res: String)
    requires
        rss::dates_fit(shown(all_episodes@, feed_cfg.restream_only_matched)),
    ensures
        exists|f: Feed|
            #![trigger has_cover_of(*feed, text::opt_text(*cover_url), f)]
            has_cover_of(*feed, text::opt_text(*cover_url), f) && res@ == rss::rss_text(
                f,
                shown(all_episodes@, feed_cfg.restream_only_matched),
                ctx.server_cfg,
                feed_cfg.slug@,
            ),
{
    let episodes = restream_episodes(all_episodes, feed_cfg.restream_only_matched);
    let shown_feed = with_cover(feed, cover_url);
    rss::build_rss(&shown_feed, episodes.as_slice(), &ctx.server_cfg, feed_cfg.slug.as_str())
}

// ---- Laws -------------------------------------------------------------------------------

/// The extension of a cover image is what follows the last dot of its path, where that is at most
/// five ASCII letters and digits, and `jpg` otherwise.
pub proof fn law_extension_of_a_cover(path: Seq<char>, dot: int)
    ensures
        ({
            let e = path.skip(dot + 1);
            (0 <= dot < path.len() && path[dot] == '.' && forall|j: int|
                dot < j < path.len() ==> path[j] != '.') ==> {
                &&& (e.len() <= 5 && forall|i: int|
                    0 <= i < e.len() ==> text::is_ascii_alphanumeric(#[trigger] e[i]))
                    ==> cover_ext(path) == e
                &&& (e.len() > 5 || exists|i: int|
                    0 <= i < e.len() && !text::is_ascii_alphanumeric(#[trigger] e[i]))
                    ==> cover_ext(path) == "jpg"@
            }
        }),
        (forall|j: int| 0 <= j < path.len() ==> path[j] != '.') ==> {
            &&& (path.len() <= 5 && forall|i: int|
                0 <= i < path.len() ==> text::is_ascii_alphanumeric(#[trigger] path[i]))
                ==> cover_ext(path) == path
            &&& (path.len() > 5 || exists|i: int|
                0 <= i < path.len() && !text::is_ascii_alphanumeric(#[trigger] path[i]))
                ==> cover_ext(path) == "jpg"@
        },
{
    text::law_places_of_a_character(path, '.', dot);
    let e = path.skip(dot + 1);
    lemma_short_ext(e);
    lemma_short_ext(path);
    assert(path.skip(0) =~= path);
}

proof fn lemma_short_ext(e: Seq<char>)
    ensures
        is_short_ext(e) <==> e.len() <= 5 && forall|i: int|
            0 <= i < e.len() ==> text::is_ascii_alphanumeric(#[trigger] e[i]),
{
    if forall|i: int| 0 <= i < e.len() ==> text::is_ascii_alphanumeric(#[trigger] e[i]) {
        assert(is_ascii_chars(e)) by {
            assert forall|i: int| 0 <= i < e.len() implies '\0' <= #[trigger] e[i] <= '\u{7f}' by {
                assert(text::is_ascii_alphanumeric(e[i]));
            }
        }
        is_ascii_chars_encode_utf8(e);
    }
}

/// The cover image of a feed stands below the public address, whatever slashes that ends in, under
/// the feed's slug, and carries the server's token.
pub proof fn law_address_of_a_cover(
    cfg: ServerConfig,
    base: Seq<char>,
    slashes: Seq<char>,
    slug: Seq<char>,
    ext: Seq<char>,
)
    requires
        cfg.base_url@ == base + slashes,
        base.len() > 0,
        base.last() != '/',
        forall|i: int| 0 <= i < slashes.len() ==> #[trigger] slashes[i] == '/',
    ensures
        cfg.auth_token is None ==> cover_address(cfg, slug, ext) == base + "/images/"@ + slug
            + "/cover."@ + ext,
        cfg.auth_token matches Some(token) ==> cover_address(cfg, slug, ext) == base + "/images/"@
            + slug + "/cover."@ + ext + ("?key="@ + token@),
        cover_file(ext) == "cover."@ + ext,
{
    lemma_slashes_dropped(base, slashes);
    let plain = base + "/images/"@ + slug + "/cover."@ + ext;
    assert(plain + Seq::<char>::empty() =~= plain);
}

proof fn lemma_slashes_dropped(base: Seq<char>, slashes: Seq<char>)
    requires
        base.len() > 0,
        base.last() != '/',
        forall|i: int| 0 <= i < slashes.len() ==> #[trigger] slashes[i] == '/',
    ensures
        text::skip_right(base + slashes, text::is_char('/')) == base,
    decreases slashes.len(),
{
    if slashes.len() > 0 {
        assert((base + slashes).last() == slashes[slashes.len() - 1]);
        assert((base + slashes).drop_last() =~= base + slashes.drop_last());
        lemma_slashes_dropped(base, slashes.drop_last());
    } else {
        assert(base + slashes =~= base);
    }
}

/// There is a cover image to show after a young one was found or a new one was written, and not
/// after the fetch or the disk failed. A cached one counts as young for a day.
pub proof fn law_when_there_is_a_cover(outcome: CoverOutcome)
    ensures
        has_cover(CoverOutcome::Fresh),
        has_cover(CoverOutcome::Written),
        !has_cover(CoverOutcome::FetchFailed),
        !has_cover(CoverOutcome::Unusable),
        COVER_MAX_AGE_SECS == 24 * 60 * 60,
{
}

/// A document shows the cover on the server where there is one, and else the image at the origin;
/// nothing else of the feed is changed for it.
pub proof fn law_cover_takes_the_place_of_the_image(
    feed: Feed,
    cover: Option<Seq<char>>,
    shown_feed: Feed,
)
    requires
        has_cover_of(feed, cover, shown_feed),
    ensures
        cover is None ==> shown_feed == feed,
        (cover is Some && weburl::url_parse(cover->0) is Ok) ==> (shown_feed.image_url matches Some(
            i,
        ) && (i@, i.path_view()) == weburl::url_parse(cover->0)->Ok_0),
        (cover is Some && weburl::url_parse(cover->0) is Err) ==> shown_feed == feed,
        shown_feed.id == feed.id,
        shown_feed.title == feed.title,
        shown_feed.slug == feed.slug,
        shown_feed.url == feed.url,
{
}

} // verus!
