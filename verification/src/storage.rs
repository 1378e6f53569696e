//! What is stored of feeds and episodes, and how rows are read.
use crate::episode::{Episode, EpisodeState};
use crate::feed::Feed;
use crate::ids::{EpisodeId, FeedId};
use crate::text;
use crate::time::UtcTime;
use crate::weburl;
use crate::weburl::Url;
use vstd::prelude::*;
use vstd::string::*;

verus! {

/// Why the store failed. Errors of the database, the serialiser and the parser of addresses
/// are held as their messages.
#[derive(Debug)]
pub enum StorageError {
    Db(String),
    Json(String),
    Url(String),
    Migrate(String),
}

/// The message of an error.
pub open spec fn storage_error_text(e: StorageError) -> Seq<char> {
    match e {
        StorageError::Db(m) => "database error: "@ + m@,
        StorageError::Json(m) => "serialisation error: "@ + m@,
        StorageError::Url(m) => "url parse error: "@ + m@,
        StorageError::Migrate(m) => "migration error: "@ + m@,
    }
}

impl StorageError {
    /// The message of the error.
    pub fn to_text(&self) -> (res: String)
        ensures
            res@ == storage_error_text(*self),
    {
        match self {
            StorageError::Db(m) => {
                let mut s = "database error: ".to_string();
                s.append(m.as_str());
                s
            },
            StorageError::Json(m) => {
                let mut s = "serialisation error: ".to_string();
                s.append(m.as_str());
                s
            },
            StorageError::Url(m) => {
                let mut s = "url parse error: ".to_string();
                s.append(m.as_str());
                s
            },
            StorageError::Migrate(m) => {
                let mut s = "migration error: ".to_string();
                s.append(m.as_str());
                s
            },
        }
    }
}

// ---- Filters --------------------------------------------------------------------------

/// Which episodes are listed.
#[derive(Debug)]
pub struct EpisodeFilter {
    pub feed_id: Option<FeedId>,
    /// The name of a kind of state, such as `complete` or `failed`.
    pub state_kind: Option<String>,
    pub limit: Option<usize>,
}

impl Default for EpisodeFilter {
    fn default() -> (res: EpisodeFilter)
        ensures
            res == (EpisodeFilter { feed_id: None, state_kind: None, limit: None }),
    {
        EpisodeFilter { feed_id: None, state_kind: None, limit: None }
    }
}

/// Whether an episode is in a state of the kind that a filter asks for.
pub open spec fn has_kind(ep: Episode, kind: Option<Seq<char>>) -> bool {
    kind matches Some(k) ==> crate::episode::kind_text(ep.state) == k
}

/// The episodes in a state of the kind that a filter asks for, in their order.
pub open spec fn of_kind(eps: Seq<Episode>, kind: Option<Seq<char>>) -> Seq<Episode>
    decreases eps.len(),
{
    if eps.len() == 0 {
        eps
    } else if has_kind(eps.last(), kind) {
        of_kind(eps.drop_last(), kind).push(eps.last())
    } else {
        of_kind(eps.drop_last(), kind)
    }
}

/// The episodes that a filter lists of those of its feed.
pub open spec fn filtered(eps: Seq<Episode>, filter: EpisodeFilter) -> Seq<Episode> {
    let kept = of_kind(eps, text::opt_text(filter.state_kind));
    match filter.limit {
        Some(n) => if n < kept.len() {
            kept.take(n as int)
        } else {
            kept
        },
        None => kept,
    }
}

/// Lists the episodes of `eps`, which are those of the filter's feed: first those in a state
/// of another kind are left out, then those beyond the limit.
pub fn list_episodes(eps: &Vec<Episode>, filter: &EpisodeFilter) -> (res: Vec<Episode>)
    ensures
        res@ == filtered(eps@, *filter),
{
    let mut kept: Vec<Episode> = Vec::new();
    let ghost kind = text::opt_text(filter.state_kind);
    assert(eps@.take(0) =~= Seq::empty());
    for i in 0..eps.len()
        invariant
            kind == text::opt_text(filter.state_kind),
            kept@ == of_kind(eps@.take(i as int), kind),
    {
        assert(eps@.take(i + 1).drop_last() =~= eps@.take(i as int));
        let keep = match &filter.state_kind {
            Some(k) => text::same_text(eps[i].state.kind_name(), k.as_str()),
            None => true,
        };
        if keep {
            kept.push(eps[i].clone());
        }
    }
    assert(eps@.take(eps@.len() as int) =~= eps@);
    if let Some(limit) = filter.limit {
        if limit < kept.len() {
            kept.truncate(limit);
        }
    }
    kept
}

/// A list holds no more episodes than its limit, and each of them is in a state of the kind
/// that was asked for.
pub proof fn law_list_respects_filter(eps: Seq<Episode>, filter: EpisodeFilter)
    ensures
        filter.limit matches Some(n) ==> filtered(eps, filter).len() <= n,
        forall|i: int|
            0 <= i < filtered(eps, filter).len() ==> has_kind(
                #[trigger] filtered(eps, filter)[i],
                text::opt_text(filter.state_kind),
            ),
        filter.state_kind is None && filter.limit is None ==> filtered(eps, filter) == eps,
{
    lemma_of_kind(eps, text::opt_text(filter.state_kind));
}

proof fn lemma_of_kind(eps: Seq<Episode>, kind: Option<Seq<char>>)
    ensures
        forall|i: int|
            0 <= i < of_kind(eps, kind).len() ==> has_kind(#[trigger] of_kind(eps, kind)[i], kind),
        kind is None ==> of_kind(eps, kind) == eps,
    decreases eps.len(),
{
    if eps.len() > 0 {
        let earlier = of_kind(eps.drop_last(), kind);
        lemma_of_kind(eps.drop_last(), kind);
        assert(eps.drop_last().push(eps.last()) =~= eps);
        assert forall|i: int| 0 <= i < of_kind(eps, kind).len() implies has_kind(
            #[trigger] of_kind(eps, kind)[i],
            kind,
        ) by {
            if i < earlier.len() {
                assert(of_kind(eps, kind)[i] == earlier[i]);
            }
        }
    }
}

/// The dynamic ones of some episodes, in their order.
pub open spec fn dynamic_ones(eps: Seq<Episode>) -> Seq<Episode>
    decreases eps.len(),
{
    if eps.len() == 0 {
        eps
    } else if eps.last().state is Dynamic {
        dynamic_ones(eps.drop_last()).push(eps.last())
    } else {
        dynamic_ones(eps.drop_last())
    }
}

/// The dynamic ones of the episodes of a feed.
pub fn list_dynamic_episodes(eps: &Vec<Episode>) -> (res: Vec<Episode>)
    ensures
        res@ == dynamic_ones(eps@),
{
    let mut kept: Vec<Episode> = Vec::new();
    assert(eps@.take(0) =~= Seq::empty());
    for i in 0..eps.len()
        invariant
            kept@ == dynamic_ones(eps@.take(i as int)),
    {
        assert(eps@.take(i + 1).drop_last() =~= eps@.take(i as int));
        let dynamic = match &eps[i].state {
            EpisodeState::Dynamic { .. } => true,
            _ => false,
        };
        if dynamic {
            kept.push(eps[i].clone());
        }
    }
    assert(eps@.take(eps@.len() as int) =~= eps@);
    kept
}

// ---- Columns -----------------------------------------------------------------------------

/// The value of a signed column that holds an unsigned number: the number modulo 2^64.
pub open spec fn column_of(n: u64) -> int {
    if n <= i64::MAX {
        n as int
    } else {
        n - 0x1_0000_0000_0000_0000
    }
}

/// The unsigned number that a signed column holds.
pub open spec fn number_of(c: i64) -> int {
    if c >= 0 {
        c as int
    } else {
        c + 0x1_0000_0000_0000_0000
    }
}

/// The value of a signed column that holds `n`.
pub fn to_column(n: u64) -> (res: i64)
    ensures
        res == column_of(n),
{
    if n <= 0x7FFF_FFFF_FFFF_FFFF {
        n as i64
    } else {
        (n as i128 - 0x1_0000_0000_0000_0000) as i64
    }
}

/// The unsigned number that a signed column holds.
pub fn from_column(c: i64) -> (res: u64)
    ensures
        res == number_of(c),
{
    if c >= 0 {
        c as u64
    } else {
        (c as i128 + 0x1_0000_0000_0000_0000) as u64
    }
}

/// A number that is written to a column is read back unchanged.
pub proof fn law_column_round_trip(n: u64)
    ensures
        i64::MIN <= column_of(n) <= i64::MAX,
        number_of(column_of(n) as i64) == n,
{
}

/// The value of a column that holds an optional number.
pub fn opt_to_column(n: Option<u64>) -> (res: Option<i64>)
    ensures
        res is Some <==> n is Some,
        res matches Some(c) ==> c == column_of(n->0),
{
    match n {
        Some(n) => Some(to_column(n)),
        None => None,
    }
}

/// The optional number that a column holds.
pub fn opt_from_column(c: Option<i64>) -> (res: Option<u64>)
    ensures
        res is Some <==> c is Some,
        res matches Some(n) ==> n == number_of(c->0),
{
    match c {
        Some(c) => Some(from_column(c)),
        None => None,
    }
}

/// The path and the digest that are stored beside the state of an episode: those of its file,
/// where it has one.
pub fn state_columns(state: &EpisodeState) -> (res: (Option<String>, Option<String>))
    ensures
        match state {
            EpisodeState::Complete { path, sha256, .. } => res.0 == Some(*path) && res.1 == Some(
                *sha256,
            ),
            EpisodeState::Dynamic { path, sha256, .. } => res.0 == Some(*path) && res.1 == Some(
                *sha256,
            ),
            _ => res.0 is None && res.1 is None,
        },
{
    match state {
        EpisodeState::Complete { path, sha256, .. } => (Some(path.clone()), Some(sha256.clone())),
        EpisodeState::Dynamic { path, sha256, .. } => (Some(path.clone()), Some(sha256.clone())),
        _ => (None, None),
    }
}

// ---- Known episodes ------------------------------------------------------------------------

/// A stored episode after the feed was fetched again: only what the feed may change is taken
/// over. Its state stays, so that an episode never falls back to discovered.
pub open spec fn merged(stored: Episode, fetched: Episode) -> Episode {
    Episode {
        title: fetched.title,
        description: fetched.description,
        enclosure_size: fetched.enclosure_size,
        enclosure_mime: fetched.enclosure_mime,
        image_url: fetched.image_url,
        ..stored
    }
}

/// The episode that is stored when `fetched` comes from its feed, and whether it is new.
pub fn upsert_episode(stored: Option<Episode>, fetched: Episode) -> (res: (Episode, bool))
    ensures
        match stored {
            Some(s) => res.0 == merged(s, fetched) && !res.1,
            None => res.0 == fetched && res.1,
        },
{
    match stored {
        Some(s) => {
            let mut ep = s;
            ep.title = fetched.title;
            ep.description = fetched.description;
            ep.enclosure_size = fetched.enclosure_size;
            ep.enclosure_mime = fetched.enclosure_mime;
            ep.image_url = fetched.image_url;
            (ep, false)
        },
        None => (fetched, true),
    }
}

/// A fetch of the feed never changes the state, the identifiers or the date of an episode that
/// is stored.
pub proof fn law_fetch_keeps_state(stored: Episode, fetched: Episode)
    ensures
        merged(stored, fetched).state == stored.state,
        merged(stored, fetched).id == stored.id,
        merged(stored, fetched).feed_id == stored.feed_id,
        merged(stored, fetched).guid == stored.guid,
        merged(stored, fetched).pub_date == stored.pub_date,
        merged(stored, fetched).enclosure_url == stored.enclosure_url,
        merged(merged(stored, fetched), fetched) == merged(stored, fetched),
{
}

// ---- Rows ------------------------------------------------------------------------------------

/// The columns of a stored feed.
pub struct FeedRow {
    pub id: i64,
    pub url: String,
    pub slug: String,
    pub title: Option<String>,
    pub enabled: i64,
    pub last_fetched_at: Option<UtcTime>,
    pub etag: Option<String>,
    pub last_modified: Option<String>,
    pub image_url: Option<String>,
}

/// Whether an optional address is the one in a column. A text that is no address counts as
/// none.
pub open spec fn is_lenient_url(column: Option<String>, url: Option<Url>) -> bool {
    match column {
        Some(s) => match weburl::url_parse(s@) {
            Ok(u) => url matches Some(i) && (i@, i.path_view()) == u,
            Err(_) => url is None,
        },
        None => url is None,
    }
}

fn lenient_url(column: &Option<String>) -> (res: Option<Url>)
    ensures
        is_lenient_url(*column, res),
{
    match column {
        Some(s) => match Url::parse(s.as_str()) {
            Ok(u) => Some(u),
            Err(_) => None,
        },
        None => None,
    }
}

/// Whether `res` is what a row holds: a feed, or the error of an address that is none.
pub open spec fn is_feed_in(row: FeedRow, res: Result<Feed, StorageError>) -> bool {
    match res {
        Ok(feed) => {
            &&& weburl::url_parse(row.url@) == Ok::<(Seq<char>, Seq<char>), Seq<char>>(
                (feed.url@, feed.url.path_view()),
            )
            &&& is_lenient_url(row.image_url, feed.image_url)
            &&& feed == (Feed {
                id: FeedId(row.id),
                url: feed.url,
                slug: row.slug,
                title: row.title,
                last_fetched_at: row.last_fetched_at,
                etag: row.etag,
                last_modified: row.last_modified,
                enabled: row.enabled != 0,
                image_url: feed.image_url,
            })
        },
        Err(e) => e matches StorageError::Url(m) && weburl::url_parse(row.url@) == Err::<
            (Seq<char>, Seq<char>),
            Seq<char>,
        >(m@),
    }
}

/// The feed in a row. It fails where the feed's address is none.
pub fn row_to_feed(row: FeedRow) -> (res: Result<Feed, StorageError>)
    ensures
        is_feed_in(row, res),
{
    let url = match Url::parse(row.url.as_str()) {
        Ok(u) => u,
        Err(m) => {
            return Err(StorageError::Url(m));
        },
    };
    let image_url = lenient_url(&row.image_url);
    Ok(
        Feed {
            id: FeedId(row.id),
            url,
            slug: row.slug,
            title: row.title,
            last_fetched_at: row.last_fetched_at,
            etag: row.etag,
            last_modified: row.last_modified,
            enabled: row.enabled != 0,
            image_url,
        },
    )
}

fn url_column(url: &Option<Url>) -> (res: Option<String>)
    ensures
        text::opt_text(res) == weburl::opt_url_text(*url),
{
    match url {
        Some(u) => Some(u.as_str().to_string()),
        None => None,
    }
}

/// Whether a row holds a feed as it is stored.
pub open spec fn is_row_of_feed(feed: Feed, row: FeedRow) -> bool {
    &&& row.id == feed.id.0
    &&& row.url@ == feed.url@
    &&& row.slug == feed.slug
    &&& row.title == feed.title
    &&& row.enabled == if feed.enabled {
        1int
    } else {
        0int
    }
    &&& row.last_fetched_at == feed.last_fetched_at
    &&& row.etag == feed.etag
    &&& row.last_modified == feed.last_modified
    &&& text::opt_text(row.image_url) == weburl::opt_url_text(feed.image_url)
}

/// The columns that are stored of a feed.
pub fn feed_to_row(feed: &Feed) -> (res: FeedRow)
    ensures
        is_row_of_feed(*feed, res),
{
    FeedRow {
        id: feed.id.0,
        url: feed.url.as_str().to_string(),
        slug: feed.slug.clone(),
        title: text::copy_opt(&feed.title),
        enabled: if feed.enabled {
            1
        } else {
            0
        },
        last_fetched_at: feed.last_fetched_at,
        etag: text::copy_opt(&feed.etag),
        last_modified: text::copy_opt(&feed.last_modified),
        image_url: url_column(&feed.image_url),
    }
}

/// Whether the text of an address parses to the address again.
pub open spec fn reparses(url: Url) -> bool {
    weburl::url_parse(url@) == Ok::<(Seq<char>, Seq<char>), Seq<char>>((url@, url.path_view()))
}

/// Whether two addresses have the same text and the same path.
pub open spec fn same_url(a: Url, b: Url) -> bool {
    a@ == b@ && a.path_view() == b.path_view()
}

/// Whether two optional addresses have the same text and the same path.
pub open spec fn same_opt_url(a: Option<Url>, b: Option<Url>) -> bool {
    match (a, b) {
        (Some(x), Some(y)) => same_url(x, y),
        (None, None) => true,
        _ => false,
    }
}

/// A feed that is stored is read back, where its addresses parse to themselves.
pub proof fn law_stored_feed_reads_back(feed: Feed, row: FeedRow, res: Result<Feed, StorageError>)
    requires
        is_row_of_feed(feed, row),
        is_feed_in(row, res),
        reparses(feed.url),
        feed.image_url matches Some(u) ==> reparses(u),
    ensures
        res matches Ok(read) && same_url(read.url, feed.url) && same_opt_url(
            read.image_url,
            feed.image_url,
        ) && read == (Feed { url: read.url, image_url: read.image_url, ..feed }),
{
}

/// The columns of a stored episode. The state has been read from its serialised form.
pub struct EpisodeRow {
    pub id: String,
    pub feed_id: i64,
    pub guid: String,
    pub title: String,
    pub description: Option<String>,
    pub pub_date: UtcTime,
    pub duration_secs: Option<i64>,
    pub enclosure_url: String,
    pub enclosure_size: Option<i64>,
    pub enclosure_mime: Option<String>,
    pub state: EpisodeState,
    pub image_url: Option<String>,
}

/// Whether an optional number is the one in a column.
pub open spec fn is_number_of(column: Option<i64>, n: Option<u64>) -> bool {
    match column {
        Some(c) => n matches Some(v) && v == number_of(c),
        None => n is None,
    }
}

/// Whether `res` is what a row holds: an episode, or the error of an address that is none. The
/// position in the feed is not stored and counts as the first.
pub open spec fn is_episode_in(row: EpisodeRow, res: Result<Episode, StorageError>) -> bool {
    match res {
        Ok(ep) => {
            &&& ep.id@ == row.id@
            &&& weburl::url_parse(row.enclosure_url@) == Ok::<(Seq<char>, Seq<char>), Seq<char>>(
                (ep.enclosure_url@, ep.enclosure_url.path_view()),
            )
            &&& is_number_of(row.duration_secs, ep.duration_secs)
            &&& is_number_of(row.enclosure_size, ep.enclosure_size)
            &&& is_lenient_url(row.image_url, ep.image_url)
            &&& ep == (Episode {
                id: ep.id,
                feed_id: FeedId(row.feed_id),
                guid: row.guid,
                title: row.title,
                description: row.description,
                pub_date: row.pub_date,
                duration_secs: ep.duration_secs,
                enclosure_url: ep.enclosure_url,
                enclosure_size: ep.enclosure_size,
                enclosure_mime: row.enclosure_mime,
                state: row.state,
                image_url: ep.image_url,
                episode_no: 0,
            })
        },
        Err(e) => e matches StorageError::Url(m) && weburl::url_parse(row.enclosure_url@) == Err::<
            (Seq<char>, Seq<char>),
            Seq<char>,
        >(m@),
    }
}

/// The episode in a row. It fails where the address of the enclosure is none.
pub fn row_to_episode(row: EpisodeRow) -> (res: Result<Episode, StorageError>)
    ensures
        is_episode_in(row, res),
{
    let enclosure_url = match Url::parse(row.enclosure_url.as_str()) {
        Ok(u) => u,
        Err(m) => {
            return Err(StorageError::Url(m));
        },
    };
    let image_url = lenient_url(&row.image_url);
    Ok(
        Episode {
            id: EpisodeId::from(row.id),
            feed_id: FeedId(row.feed_id),
            guid: row.guid,
            title: row.title,
            description: row.description,
            pub_date: row.pub_date,
            duration_secs: opt_from_column(row.duration_secs),
            enclosure_url,
            enclosure_size: opt_from_column(row.enclosure_size),
            enclosure_mime: row.enclosure_mime,
            state: row.state,
            image_url,
            episode_no: 0,
        },
    )
}

/// Whether an optional number is stored in a column.
pub open spec fn is_column_of(n: Option<u64>, column: Option<i64>) -> bool {
    match n {
        Some(v) => column matches Some(c) && c == column_of(v),
        None => column is None,
    }
}

/// Whether a row holds an episode as it is stored.
pub open spec fn is_row_of_episode(ep: Episode, row: EpisodeRow) -> bool {
    &&& row.id@ == ep.id@
    &&& row.feed_id == ep.feed_id.0
    &&& row.guid == ep.guid
    &&& row.title == ep.title
    &&& row.description == ep.description
    &&& row.pub_date == ep.pub_date
    &&& is_column_of(ep.duration_secs, row.duration_secs)
    &&& row.enclosure_url@ == ep.enclosure_url@
    &&& is_column_of(ep.enclosure_size, row.enclosure_size)
    &&& row.enclosure_mime == ep.enclosure_mime
    &&& row.state == ep.state
    &&& text::opt_text(row.image_url) == weburl::opt_url_text(ep.image_url)
}

/// The columns that are stored of an episode.
pub fn episode_to_row(ep: &Episode) -> (res: EpisodeRow)
    ensures
        is_row_of_episode(*ep, res),
{
    EpisodeRow {
        id: ep.id.as_str().to_string(),
        feed_id: ep.feed_id.0,
        guid: ep.guid.clone(),
        title: ep.title.clone(),
        description: text::copy_opt(&ep.description),
        pub_date: ep.pub_date,
        duration_secs: opt_to_column(ep.duration_secs),
        enclosure_url: ep.enclosure_url.as_str().to_string(),
        enclosure_size: opt_to_column(ep.enclosure_size),
        enclosure_mime: text::copy_opt(&ep.enclosure_mime),
        state: ep.state.clone(),
        image_url: url_column(&ep.image_url),
    }
}

/// An episode that is stored is read back, but for its position in the feed, where its
/// addresses parse to themselves.
pub proof fn law_stored_episode_reads_back(
    ep: Episode,
    row: EpisodeRow,
    res: Result<Episode, StorageError>,
)
    requires
        is_row_of_episode(ep, row),
        is_episode_in(row, res),
        reparses(ep.enclosure_url),
        ep.image_url matches Some(u) ==> reparses(u),
    ensures
        res matches Ok(read) && read.id@ == ep.id@ && same_url(read.enclosure_url, ep.enclosure_url)
            && same_opt_url(read.image_url, ep.image_url) && read == (Episode {
            id: read.id,
            enclosure_url: read.enclosure_url,
            image_url: read.image_url,
            episode_no: 0,
            ..ep
        }),
{
    if let Some(n) = ep.duration_secs {
        law_column_round_trip(n);
    }
    if let Some(n) = ep.enclosure_size {
        law_column_round_trip(n);
    }
}

/// An attempt to download an episode.
#[derive(Debug)]
pub struct DownloadAttempt {
    /// `0` means not yet stored.
    pub id: i64,
    pub episode_id: EpisodeId,
    pub attempt_number: u8,
    pub started_at: UtcTime,
    pub ended_at: Option<UtcTime>,
    pub bytes_received: Option<u64>,
    pub http_status: Option<u16>,
    pub error_kind: Option<String>,
    pub error_detail: Option<String>,
}

/// The columns of a stored attempt.
pub struct AttemptRow {
    pub id: i64,
    pub episode_id: String,
    pub attempt_number: i64,
    pub started_at: UtcTime,
    pub ended_at: Option<UtcTime>,
    pub bytes_received: Option<i64>,
    pub http_status: Option<i64>,
    pub error_kind: Option<String>,
    pub error_detail: Option<String>,
}

/// `n` modulo `m`, not negative.
fn modulo(n: i64, m: i64) -> (res: i64)
    requires
        m > 0,
    ensures
        res == n as int % m as int,
        0 <= res < m,
{
    let wide: i128 = n as i128;
    let by: i128 = m as i128;
    if wide >= 0 {
        (wide % by) as i64
    } else {
        let r: i128 = (-wide) % by;
        proof {
            let a: int = -(n as int);
            let b: int = m as int;
            vstd::arithmetic::div_mod::lemma_fundamental_div_mod(a, b);
            let q = a / b;
            if r == 0 {
                assert((-q) * b == -(b * q)) by (nonlinear_arith);
                vstd::arithmetic::div_mod::lemma_fundamental_div_mod_converse(
                    n as int,
                    b,
                    -(a / b),
                    0,
                );
            } else {
                assert((-q - 1) * b == -(b * q) - b) by (nonlinear_arith);
                vstd::arithmetic::div_mod::lemma_fundamental_div_mod_converse(
                    n as int,
                    b,
                    -(a / b) - 1,
                    b - r,
                );
            }
        }
        if r == 0 {
            0
        } else {
            (by - r) as i64
        }
    }
}

/// The attempt in a row.
pub fn row_to_attempt(row: AttemptRow) -> (res: DownloadAttempt)
    ensures
        is_attempt_in(row, res),
{
    let http_status: Option<u16> = match row.http_status {
        Some(s) => Some(modulo(s, 65536) as u16),
        None => None,
    };
    DownloadAttempt {
        id: row.id,
        episode_id: EpisodeId::from(row.episode_id),
        attempt_number: modulo(row.attempt_number, 256) as u8,
        started_at: row.started_at,
        ended_at: row.ended_at,
        bytes_received: opt_from_column(row.bytes_received),
        http_status,
        error_kind: row.error_kind,
        error_detail: row.error_detail,
    }
}

/// Whether a row holds an attempt as it is stored.
pub open spec fn is_row_of_attempt(attempt: DownloadAttempt, row: AttemptRow) -> bool {
    &&& row.id == attempt.id
    &&& row.episode_id@ == attempt.episode_id@
    &&& row.attempt_number == attempt.attempt_number
    &&& row.started_at == attempt.started_at
    &&& row.ended_at == attempt.ended_at
    &&& is_column_of(attempt.bytes_received, row.bytes_received)
    &&& match attempt.http_status {
        Some(s) => row.http_status == Some(s as i64),
        None => row.http_status is None,
    }
    &&& row.error_kind == attempt.error_kind
    &&& row.error_detail == attempt.error_detail
}

/// The columns that are stored of an attempt.
pub fn attempt_to_row(attempt: &DownloadAttempt) -> (res: AttemptRow)
    ensures
        is_row_of_attempt(*attempt, res),
{
    AttemptRow {
        id: attempt.id,
        episode_id: attempt.episode_id.as_str().to_string(),
        attempt_number: attempt.attempt_number as i64,
        started_at: attempt.started_at,
        ended_at: attempt.ended_at,
        bytes_received: opt_to_column(attempt.bytes_received),
        http_status: match attempt.http_status {
            Some(s) => Some(s as i64),
            None => None,
        },
        error_kind: text::copy_opt(&attempt.error_kind),
        error_detail: text::copy_opt(&attempt.error_detail),
    }
}

/// Whether an attempt is the one in a row. The attempt's number counts modulo 256 and the
/// status modulo 65536.
pub open spec fn is_attempt_in(row: AttemptRow, attempt: DownloadAttempt) -> bool {
    &&& attempt.episode_id@ == row.episode_id@
    &&& attempt.attempt_number == row.attempt_number as int % 256
    &&& is_number_of(row.bytes_received, attempt.bytes_received)
    &&& match row.http_status {
        Some(s) => attempt.http_status matches Some(v) && v == s as int % 65536,
        None => attempt.http_status is None,
    }
    &&& attempt == (DownloadAttempt {
        id: row.id,
        episode_id: attempt.episode_id,
        attempt_number: attempt.attempt_number,
        started_at: row.started_at,
        ended_at: row.ended_at,
        bytes_received: attempt.bytes_received,
        http_status: attempt.http_status,
        error_kind: row.error_kind,
        error_detail: row.error_detail,
    })
}

/// An attempt that is stored is read back.
pub proof fn law_stored_attempt_reads_back(
    attempt: DownloadAttempt,
    row: AttemptRow,
    read: DownloadAttempt,
)
    requires
        is_row_of_attempt(attempt, row),
        is_attempt_in(row, read),
    ensures
        read.episode_id@ == attempt.episode_id@,
        read == (DownloadAttempt { episode_id: read.episode_id, ..attempt }),
{
    if let Some(n) = attempt.bytes_received {
        law_column_round_trip(n);
    }
}

// ---- Laws ------------------------------------------------------------------------------------

/// A list without a kind holds every episode, one with a kind exactly those whose state has
/// that name, in their order; a limit keeps the first ones of them.
pub proof fn law_list_keeps_the_first_of_a_kind(
    eps: Seq<Episode>,
    feed_id: Option<FeedId>,
    kind: Option<String>,
    n: usize,
)
    ensures
        ({
            let all = filtered(eps, EpisodeFilter { feed_id, state_kind: kind, limit: None });
            let some = filtered(eps, EpisodeFilter { feed_id, state_kind: kind, limit: Some(n) });
            &&& kind is None ==> all == eps
            &&& kind matches Some(k) ==> all == eps.filter(
                |ep: Episode| crate::episode::kind_text(ep.state) == k@,
            )
            &&& n >= all.len() ==> some == all
            &&& n < all.len() ==> some == all.take(n as int)
        }),
{
    lemma_of_kind(eps, text::opt_text(kind));
    if let Some(k) = kind {
        lemma_of_kind_is_filter(eps, k@);
    }
}

proof fn lemma_of_kind_is_filter(eps: Seq<Episode>, kind: Seq<char>)
    ensures
        of_kind(eps, Some(kind)) == eps.filter(
            |ep: Episode| crate::episode::kind_text(ep.state) == kind,
        ),
    decreases eps.len(),
{
    reveal(Seq::filter);
    if eps.len() > 0 {
        lemma_of_kind_is_filter(eps.drop_last(), kind);
    }
}

/// The dynamic episodes of a feed are exactly those that are downloaded and kept dynamically,
/// in their order; one that is only matched to be kept so is not among them.
pub proof fn law_dynamic_episodes_are_the_downloaded_ones(eps: Seq<Episode>)
    ensures
        dynamic_ones(eps) == eps.filter(
            |ep: Episode|
                match ep.state {
                    EpisodeState::Dynamic { .. } => true,
                    _ => false,
                },
        ),
    decreases eps.len(),
{
    reveal(Seq::filter);
    if eps.len() > 0 {
        law_dynamic_episodes_are_the_downloaded_ones(eps.drop_last());
    }
}

/// A column holds the number itself where it fits, and else the number less 2^64, which is
/// negative.
pub proof fn law_column_holds_the_number(n: u64, c: i64)
    ensures
        n <= i64::MAX ==> column_of(n) == n,
        n > i64::MAX ==> column_of(n) == n - 0x1_0000_0000_0000_0000 && column_of(n) < 0,
        c >= 0 ==> number_of(c) == c,
        c < 0 ==> number_of(c) == c + 0x1_0000_0000_0000_0000,
{
}

/// What a fetch of the feed changes of a stored episode: title, description, size, type and
/// image are those of the fetched episode, also where it has none; all the rest stays.
pub proof fn law_what_a_fetch_takes_over(stored: Episode, fetched: Episode)
    ensures
        ({
            let m = merged(stored, fetched);
            &&& m.title == fetched.title
            &&& m.description == fetched.description
            &&& m.enclosure_size == fetched.enclosure_size
            &&& m.enclosure_mime == fetched.enclosure_mime
            &&& m.image_url == fetched.image_url
            &&& m.id == stored.id
            &&& m.feed_id == stored.feed_id
            &&& m.guid == stored.guid
            &&& m.pub_date == stored.pub_date
            &&& m.duration_secs == stored.duration_secs
            &&& m.enclosure_url == stored.enclosure_url
            &&& m.state == stored.state
            &&& m.episode_no == stored.episode_no
        }),
{
}

/// A row is read as a feed exactly where its address parses: an image that does not parse is
/// dropped, and any number but 0 means that the feed is enabled.
pub proof fn law_when_a_row_is_a_feed(row: FeedRow, res: Result<Feed, StorageError>)
    requires
        is_feed_in(row, res),
    ensures
        res is Ok <==> weburl::url_parse(row.url@) is Ok,
        res matches Ok(feed) ==> {
            &&& feed.id.0 == row.id
            &&& feed.slug == row.slug
            &&& feed.title == row.title
            &&& feed.enabled <==> row.enabled != 0
            &&& feed.etag == row.etag
            &&& feed.last_modified == row.last_modified
            &&& feed.last_fetched_at == row.last_fetched_at
            &&& feed.image_url is Some <==> (row.image_url matches Some(s) && weburl::url_parse(
                s@,
            ) is Ok)
        },
{
}

/// A row is read as an episode exactly where the address of its enclosure parses: an image that
/// does not parse is dropped, and the state is the stored one.
pub proof fn law_when_a_row_is_an_episode(row: EpisodeRow, res: Result<Episode, StorageError>)
    requires
        is_episode_in(row, res),
    ensures
        res is Ok <==> weburl::url_parse(row.enclosure_url@) is Ok,
        res matches Ok(ep) ==> {
            &&& ep.id@ == row.id@
            &&& ep.feed_id.0 == row.feed_id
            &&& ep.guid == row.guid
            &&& ep.title == row.title
            &&& ep.description == row.description
            &&& ep.pub_date == row.pub_date
            &&& ep.state == row.state
            &&& ep.enclosure_mime == row.enclosure_mime
            &&& ep.episode_no == 0
            &&& ep.duration_secs is Some <==> row.duration_secs is Some
            &&& ep.enclosure_size is Some <==> row.enclosure_size is Some
            &&& row.duration_secs matches Some(c) ==> c >= 0 ==> ep.duration_secs == Some(c as u64)
            &&& row.enclosure_size matches Some(c) ==> c >= 0 ==> ep.enclosure_size == Some(c as u64)
            &&& ep.image_url is Some <==> (row.image_url matches Some(s) && weburl::url_parse(
                s@,
            ) is Ok)
        },
{
}

/// The message of an error says which part of the store failed, and why.
pub proof fn law_messages_name_the_part(m: String)
    ensures
        storage_error_text(StorageError::Db(m)) == "database error: "@ + m@,
        storage_error_text(StorageError::Json(m)) == "serialisation error: "@ + m@,
        storage_error_text(StorageError::Url(m)) == "url parse error: "@ + m@,
        storage_error_text(StorageError::Migrate(m)) == "migration error: "@ + m@,
{
}

} // verus!
