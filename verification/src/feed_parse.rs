//! Fetched feeds: which request is made, and which episodes a document holds.
use crate::episode::{Episode, EpisodeState};
use crate::feed::Feed;
use crate::http;
use crate::http::HttpStatus;
use crate::ids;
use crate::ids::EpisodeId;
use crate::markup;
use crate::text;
use crate::time;
use crate::time::UtcTime;
use crate::weburl;
use crate::weburl::Url;
use feed_rs::model::Feed as Document;
use vstd::prelude::*;
use vstd::string::*;

verus! {

// ---- Documents ----------------------------------------------------------------------

/// What a feed document says of the feed and its entries.
pub struct ParsedFeed {
    pub title: Option<String>,
    /// Address of the feed's logo.
    pub logo: Option<String>,
    /// Address of the feed's icon.
    pub icon: Option<String>,
    pub entries: Vec<FeedEntry>,
}

/// An entry of a feed document.
pub struct FeedEntry {
    pub id: String,
    pub title: Option<String>,
    pub summary: Option<String>,
    /// The body of the entry's content.
    pub body: Option<String>,
    pub published: Option<UtcTime>,
    pub updated: Option<UtcTime>,
    pub media: Vec<EntryMedia>,
    pub links: Vec<EntryLink>,
}

/// A media object of an entry.
pub struct EntryMedia {
    pub duration_secs: Option<u64>,
    /// Addresses of the thumbnails.
    pub thumbnails: Vec<String>,
    pub content: Vec<MediaContent>,
}

/// One form of a media object.
pub struct MediaContent {
    pub url: Option<Url>,
    pub content_type: Option<String>,
    pub size: Option<u64>,
}

/// A link of an entry.
pub struct EntryLink {
    pub href: String,
    pub rel: Option<String>,
    pub media_type: Option<String>,
}

// ---- The parser ---------------------------------------------------------------------

/// The contents of one form of a media object: address and path, type and size.
pub struct ContentDoc {
    pub url: Option<(Seq<char>, Seq<char>)>,
    pub content_type: Option<Seq<char>>,
    pub size: Option<u64>,
}

/// The contents of a media object.
pub struct MediaDoc {
    pub duration_secs: Option<u64>,
    pub thumbnails: Seq<Seq<char>>,
    pub content: Seq<ContentDoc>,
}

/// The contents of an entry.
pub struct EntryDoc {
    /// Nothing where the parser draws an identifier at random.
    pub id: Option<Seq<char>>,
    pub title: Option<Seq<char>>,
    pub summary: Option<Seq<char>>,
    pub body: Option<Seq<char>>,
    pub published: Option<(int, int)>,
    pub updated: Option<(int, int)>,
    pub media: Seq<MediaDoc>,
    /// Target, relation and media type of each link.
    pub links: Seq<(Seq<char>, Option<Seq<char>>, Option<Seq<char>>)>,
}

/// The contents of a feed document.
pub struct FeedDoc {
    pub title: Option<Seq<char>>,
    pub logo: Option<Seq<char>>,
    pub icon: Option<Seq<char>>,
    pub entries: Seq<EntryDoc>,
}

/// `feed_rs::model::Feed`, a parsed feed document.
#[verifier::external_type_specification]
#[verifier::external_body]
pub struct ExDocument(Document);

/// The contents of a parsed feed document.
pub uninterp spec fn document_of(f: Document) -> FeedDoc;

/// What the parser of `feed_rs` makes of bytes that were found at an address: the contents of
/// the document, or the error's message. An entry that has neither an identifier nor a link
/// nor a title gets a random identifier; it has none here.
pub uninterp spec fn feed_document(bytes: Seq<u8>, base: Seq<char>) -> Result<FeedDoc, Seq<char>>;

/// Whether `a` is the entry `b`, with an identifier drawn at random where `b` has none. Only an
/// entry without title and link can be without one.
pub open spec fn same_entry(a: EntryDoc, b: EntryDoc) -> bool {
    &&& a == (EntryDoc { id: a.id, ..b })
    &&& match b.id {
        Some(_) => a.id == b.id,
        None => a.id is Some && b.title is None && b.links.len() == 0,
    }
}

/// Whether `a` is the document `b`, with identifiers drawn at random where `b` has none.
pub open spec fn same_document(a: FeedDoc, b: FeedDoc) -> bool {
    &&& a.title == b.title
    &&& a.logo == b.logo
    &&& a.icon == b.icon
    &&& a.entries.len() == b.entries.len()
    &&& forall|i: int|
        #![trigger a.entries[i]]
        0 <= i < a.entries.len() ==> same_entry(a.entries[i], b.entries[i])
}

/// The parser of `feed_rs`, with the feed's address as the base of relative ones. Its result
/// is a function of the bytes and of that address, but for the identifiers that it draws at
/// random. It panics where the seconds of a duration or a playing time do not fit in a `u64` or
/// are not written in ASCII digits, where categories or media objects lie too deep in one
/// another, and where too many elements are open; only a document that is known to hold none of
/// these is given to it.
#[verifier::external_body]
fn parse_document(bytes: &[u8], base: &str) -> (res: Result<Document, String>)
    requires
        markup::tame(bytes@),
    ensures
        match res {
            Ok(f) => feed_document(bytes@, base@) matches Ok(d) && same_document(document_of(f), d),
            Err(message) => feed_document(bytes@, base@) == Err::<FeedDoc, Seq<char>>(message@),
        },
{
    let parser = feed_rs::parser::Builder::new().base_uri(Some(base)).build();
    match parser.parse(std::io::Cursor::new(bytes)) {
        Ok(f) => Ok(f),
        Err(e) => Err(e.to_string()),
    }
}

/// The title, logo and icon in a `feed_rs::model::Feed`.
#[verifier::external_body]
fn document_head(f: &Document) -> (res: (Option<String>, Option<String>, Option<String>))
    ensures
        text::opt_text(res.0) == document_of(*f).title,
        text::opt_text(res.1) == document_of(*f).logo,
        text::opt_text(res.2) == document_of(*f).icon,
{
    (
        f.title.as_ref().map(|t| t.content.clone()),
        f.logo.as_ref().map(|i| i.uri.clone()),
        f.icon.as_ref().map(|i| i.uri.clone()),
    )
}

/// Identifier, title, summary and content body of each `feed_rs::model::Entry` of a feed.
#[verifier::external_body]
fn entry_texts(f: &Document) -> (res: Vec<
    (String, Option<String>, Option<String>, Option<String>),
>)
    ensures
        res@.len() == document_of(*f).entries.len(),
        forall|i: int|
            #![trigger res@[i]]
            0 <= i < res@.len() ==> {
                let e = document_of(*f).entries[i];
                &&& e.id == Some(res@[i].0@)
                &&& text::opt_text(res@[i].1) == e.title
                &&& text::opt_text(res@[i].2) == e.summary
                &&& text::opt_text(res@[i].3) == e.body
            },
{
    f.entries.iter().map(
        |e| (
            e.id.clone(),
            e.title.as_ref().map(|t| t.content.clone()),
            e.summary.as_ref().map(|t| t.content.clone()),
            e.content.as_ref().and_then(|c| c.body.clone()),
        ),
    ).collect()
}

/// A point in time as two numbers.
pub open spec fn opt_time(o: Option<(i64, u32)>) -> Option<(int, int)> {
    match o {
        Some(t) => Some((t.0 as int, t.1 as int)),
        None => None,
    }
}

/// When each `feed_rs::model::Entry` of a feed was published and updated, in seconds and
/// nanoseconds of the Unix epoch.
#[verifier::external_body]
fn entry_times(f: &Document) -> (res: Vec<(Option<(i64, u32)>, Option<(i64, u32)>)>)
    ensures
        res@.len() == document_of(*f).entries.len(),
        forall|i: int|
            #![trigger res@[i]]
            0 <= i < res@.len() ==> {
                let e = document_of(*f).entries[i];
                &&& opt_time(res@[i].0) == e.published
                &&& opt_time(res@[i].1) == e.updated
                &&& res@[i].0 matches Some(t) ==> time::representable(t.0 as int, t.1 as int)
                &&& res@[i].1 matches Some(t) ==> time::representable(t.0 as int, t.1 as int)
            },
{
    f.entries.iter().map(
        |e| (
            e.published.map(|t| (t.timestamp(), t.timestamp_subsec_nanos())),
            e.updated.map(|t| (t.timestamp(), t.timestamp_subsec_nanos())),
        ),
    ).collect()
}

/// The contents of a link.
pub open spec fn link_doc(l: (String, Option<String>, Option<String>)) -> (
    Seq<char>,
    Option<Seq<char>>,
    Option<Seq<char>>,
) {
    (l.0@, text::opt_text(l.1), text::opt_text(l.2))
}

/// Target, relation and media type of the links of each `feed_rs::model::Entry` of a feed.
#[verifier::external_body]
fn entry_links(f: &Document) -> (res: Vec<
    Vec<(String, Option<String>, Option<String>)>,
>)
    ensures
        res@.len() == document_of(*f).entries.len(),
        forall|i: int|
            #![trigger res@[i]]
            0 <= i < res@.len() ==> res@[i]@.map_values(
                |l: (String, Option<String>, Option<String>)| link_doc(l),
            ) == document_of(*f).entries[i].links,
{
    f.entries.iter().map(
        |e| e.links.iter().map(|l| (l.href.clone(), l.rel.clone(), l.media_type.clone())).collect(),
    ).collect()
}

/// Length in seconds and addresses of the thumbnails of the media objects of each
/// `feed_rs::model::Entry` of a feed.
#[verifier::external_body]
fn entry_media(f: &Document) -> (res: Vec<Vec<(Option<u64>, Vec<String>)>>)
    ensures
        res@.len() == document_of(*f).entries.len(),
        forall|i: int|
            #![trigger res@[i]]
            0 <= i < res@.len() ==> res@[i]@.len() == document_of(*f).entries[i].media.len(),
        forall|i: int, k: int|
            #![trigger res@[i]@[k]]
            0 <= i < res@.len() && 0 <= k < res@[i]@.len() ==> {
                let m = document_of(*f).entries[i].media[k];
                &&& res@[i]@[k].0 == m.duration_secs
                &&& text::texts(res@[i]@[k].1@) == m.thumbnails
            },
{
    f.entries.iter().map(
        |e| e.media.iter().map(
            |m| (
                m.duration.map(|d| d.as_secs()),
                m.thumbnails.iter().map(|t| t.image.uri.clone()).collect(),
            ),
        ).collect(),
    ).collect()
}

/// The contents of one form of a media object.
pub open spec fn content_doc(c: (Option<(String, String)>, Option<String>, Option<u64>)) -> ContentDoc {
    ContentDoc {
        url: match c.0 {
            Some(u) => Some((u.0@, u.1@)),
            None => None,
        },
        content_type: text::opt_text(c.1),
        size: c.2,
    }
}

/// Address, type and size of the forms of the media objects of each `feed_rs::model::Entry` of
/// a feed.
#[verifier::external_body]
fn entry_contents(f: &Document) -> (res: Vec<
    Vec<Vec<(Option<(String, String)>, Option<String>, Option<u64>)>>,
>)
    ensures
        res@.len() == document_of(*f).entries.len(),
        forall|i: int|
            #![trigger res@[i]]
            0 <= i < res@.len() ==> res@[i]@.len() == document_of(*f).entries[i].media.len(),
        forall|i: int, k: int|
            #![trigger res@[i]@[k]]
            0 <= i < res@.len() && 0 <= k < res@[i]@.len() ==> res@[i]@[k]@.map_values(
                |c: (Option<(String, String)>, Option<String>, Option<u64>)| content_doc(c),
            ) == document_of(*f).entries[i].media[k].content,
{
    f.entries.iter().map(
        |e| e.media.iter().map(
            |m| m.content.iter().map(
                |c| (
                    c.url.as_ref().map(|u| (u.as_str().to_string(), u.path().to_string())),
                    c.content_type.as_ref().map(|t| t.to_string()),
                    c.size,
                ),
            ).collect(),
        ).collect(),
    ).collect()
}

// ---- Reading a document -----------------------------------------------------------------

/// The contents of one form of a media object.
pub open spec fn content_of(c: MediaContent) -> ContentDoc {
    ContentDoc {
        url: match c.url {
            Some(u) => Some((u@, u.path_view())),
            None => None,
        },
        content_type: text::opt_text(c.content_type),
        size: c.size,
    }
}

/// The contents of a media object.
pub open spec fn media_of(m: EntryMedia) -> MediaDoc {
    MediaDoc {
        duration_secs: m.duration_secs,
        thumbnails: text::texts(m.thumbnails@),
        content: m.content@.map_values(|c: MediaContent| content_of(c)),
    }
}

/// A point in time as two numbers.
pub open spec fn time_of(o: Option<UtcTime>) -> Option<(int, int)> {
    match o {
        Some(t) => Some((t.epoch_secs(), t.subsec())),
        None => None,
    }
}

/// The contents of an entry.
pub open spec fn entry_of(e: FeedEntry) -> EntryDoc {
    EntryDoc {
        id: Some(e.id@),
        title: text::opt_text(e.title),
        summary: text::opt_text(e.summary),
        body: text::opt_text(e.body),
        published: time_of(e.published),
        updated: time_of(e.updated),
        media: e.media@.map_values(|m: EntryMedia| media_of(m)),
        links: e.links@.map_values(
            |l: EntryLink| (l.href@, text::opt_text(l.rel), text::opt_text(l.media_type)),
        ),
    }
}

/// The contents of a parsed feed.
pub open spec fn parsed_of(p: ParsedFeed) -> FeedDoc {
    FeedDoc {
        title: text::opt_text(p.title),
        logo: text::opt_text(p.logo),
        icon: text::opt_text(p.icon),
        entries: p.entries@.map_values(|e: FeedEntry| entry_of(e)),
    }
}

fn make_links(list: &Vec<(String, Option<String>, Option<String>)>) -> (res: Vec<EntryLink>)
    ensures
        res@.map_values(
            |l: EntryLink| (l.href@, text::opt_text(l.rel), text::opt_text(l.media_type)),
        ) == list@.map_values(|l: (String, Option<String>, Option<String>)| link_doc(l)),
{
    let mut links: Vec<EntryLink> = Vec::new();
    for i in 0..list.len()
        invariant
            links@.len() == i,
            forall|k: int|
                0 <= k < i ==> link_doc(list@[k]) == (
                    (#[trigger] links@[k]).href@,
                    text::opt_text(links@[k].rel),
                    text::opt_text(links@[k].media_type),
                ),
    {
        links.push(
            EntryLink {
                href: list[i].0.clone(),
                rel: text::copy_opt(&list[i].1),
                media_type: text::copy_opt(&list[i].2),
            },
        );
    }
    links
}

fn make_contents(list: &Vec<(Option<(String, String)>, Option<String>, Option<u64>)>) -> (res: Vec<
    MediaContent,
>)
    ensures
        res@.map_values(|c: MediaContent| content_of(c)) == list@.map_values(
            |c: (Option<(String, String)>, Option<String>, Option<u64>)| content_doc(c),
        ),
{
    let mut contents: Vec<MediaContent> = Vec::new();
    for i in 0..list.len()
        invariant
            contents@.len() == i,
            forall|k: int|
                0 <= k < i ==> content_of(#[trigger] contents@[k]) == content_doc(list@[k]),
    {
        let url = match &list[i].0 {
            Some(u) => Some(Url::from_parts(u.0.clone(), u.1.clone())),
            None => None,
        };
        contents.push(
            MediaContent { url, content_type: text::copy_opt(&list[i].1), size: list[i].2 },
        );
    }
    contents
}

fn make_media(
    list: &Vec<(Option<u64>, Vec<String>)>,
    contents: &Vec<Vec<(Option<(String, String)>, Option<String>, Option<u64>)>>,
) -> (res: Vec<EntryMedia>)
    requires
        list@.len() == contents@.len(),
    ensures
        res@.len() == list@.len(),
        forall|k: int|
            #![trigger res@[k]]
            0 <= k < res@.len() ==> media_of(res@[k]) == (MediaDoc {
                duration_secs: list@[k].0,
                thumbnails: text::texts(list@[k].1@),
                content: contents@[k]@.map_values(
                    |c: (Option<(String, String)>, Option<String>, Option<u64>)| content_doc(c),
                ),
            }),
{
    let mut media: Vec<EntryMedia> = Vec::new();
    for i in 0..list.len()
        invariant
            list@.len() == contents@.len(),
            media@.len() == i,
            forall|k: int|
                #![trigger media@[k]]
                0 <= k < i ==> media_of(media@[k]) == (MediaDoc {
                    duration_secs: list@[k].0,
                    thumbnails: text::texts(list@[k].1@),
                    content: contents@[k]@.map_values(
                        |c: (Option<(String, String)>, Option<String>, Option<u64>)| content_doc(c),
                    ),
                }),
    {
        media.push(
            EntryMedia {
                duration_secs: list[i].0,
                thumbnails: text::copy_texts(&list[i].1),
                content: make_contents(&contents[i]),
            },
        );
    }
    media
}

fn make_time(t: Option<(i64, u32)>) -> (res: Option<UtcTime>)
    requires
        t matches Some(p) ==> time::representable(p.0 as int, p.1 as int),
    ensures
        time_of(res) == opt_time(t),
{
    match t {
        Some((secs, nanos)) => UtcTime::from_timestamp(secs, nanos),
        None => None,
    }
}

/// What a document that was found at an address is read as: its contents, or the error's
/// message. One that the parser could not read to its end is refused.
pub open spec fn document_in(bytes: Seq<u8>, base: Seq<char>) -> Result<FeedDoc, Seq<char>> {
    if markup::tame(bytes) {
        feed_document(bytes, base)
    } else {
        Err("numbers or nested elements in the document cannot be read"@)
    }
}

/// The contents of a parsed feed document.
pub fn parsed_feed(f: &Document) -> (res: ParsedFeed)
    ensures
        parsed_of(res) == document_of(*f),
{
    let ghost doc = document_of(*f);
    let (title, logo, icon) = document_head(f);
    let texts = entry_texts(f);
    let times = entry_times(f);
    let links = entry_links(f);
    let media = entry_media(f);
    let contents = entry_contents(f);
    let mut entries: Vec<FeedEntry> = Vec::new();
    for i in 0..texts.len()
        invariant
            texts@.len() == doc.entries.len(),
            times@.len() == doc.entries.len(),
            links@.len() == doc.entries.len(),
            media@.len() == doc.entries.len(),
            contents@.len() == doc.entries.len(),
            forall|k: int|
                #![trigger texts@[k]]
                0 <= k < texts@.len() ==> {
                    let e = doc.entries[k];
                    &&& e.id == Some(texts@[k].0@)
                    &&& text::opt_text(texts@[k].1) == e.title
                    &&& text::opt_text(texts@[k].2) == e.summary
                    &&& text::opt_text(texts@[k].3) == e.body
                },
            forall|k: int|
                #![trigger times@[k]]
                0 <= k < times@.len() ==> {
                    let e = doc.entries[k];
                    &&& opt_time(times@[k].0) == e.published
                    &&& opt_time(times@[k].1) == e.updated
                    &&& times@[k].0 matches Some(t) ==> time::representable(t.0 as int, t.1 as int)
                    &&& times@[k].1 matches Some(t) ==> time::representable(t.0 as int, t.1 as int)
                },
            forall|k: int|
                #![trigger links@[k]]
                0 <= k < links@.len() ==> links@[k]@.map_values(
                    |l: (String, Option<String>, Option<String>)| link_doc(l),
                ) == doc.entries[k].links,
            forall|k: int|
                #![trigger media@[k]]
                0 <= k < media@.len() ==> media@[k]@.len() == doc.entries[k].media.len(),
            forall|k: int, n: int|
                #![trigger media@[k]@[n]]
                0 <= k < media@.len() && 0 <= n < media@[k]@.len() ==> {
                    let m = doc.entries[k].media[n];
                    &&& media@[k]@[n].0 == m.duration_secs
                    &&& text::texts(media@[k]@[n].1@) == m.thumbnails
                },
            forall|k: int|
                #![trigger contents@[k]]
                0 <= k < contents@.len() ==> contents@[k]@.len() == doc.entries[k].media.len(),
            forall|k: int, n: int|
                #![trigger contents@[k]@[n]]
                0 <= k < contents@.len() && 0 <= n < contents@[k]@.len()
                    ==> contents@[k]@[n]@.map_values(
                    |c: (Option<(String, String)>, Option<String>, Option<u64>)| content_doc(c),
                ) == doc.entries[k].media[n].content,
            entries@.len() == i,
            forall|k: int|
                #![trigger entries@[k]]
                0 <= k < i ==> entry_of(entries@[k]) == doc.entries[k],
    {
        let entry = FeedEntry {
            id: texts[i].0.clone(),
            title: text::copy_opt(&texts[i].1),
            summary: text::copy_opt(&texts[i].2),
            body: text::copy_opt(&texts[i].3),
            published: make_time(times[i].0),
            updated: make_time(times[i].1),
            media: make_media(&media[i], &contents[i]),
            links: make_links(&links[i]),
        };
        proof {
            let e = doc.entries[i as int];
            assert(entry_of(entry).media =~= e.media) by {
                assert forall|n: int| 0 <= n < e.media.len() implies media_of(
                    #[trigger] entry.media@[n],
                ) == e.media[n] by {
                    assert(media@[i as int]@[n].0 == e.media[n].duration_secs);
                    assert(contents@[i as int]@[n]@.map_values(
                        |c: (Option<(String, String)>, Option<String>, Option<u64>)| content_doc(c),
                    ) == e.media[n].content);
                }
            }
            assert(entry_of(entry) == e);
        }
        entries.push(entry);
    }
    let parsed = ParsedFeed { title, logo, icon, entries };
    assert(parsed_of(parsed).entries =~= doc.entries);
    parsed
}

/// Reads a feed document that was found at the address `base`; an error is given as its
/// message.
pub fn read_document(bytes: &[u8], base: &str) -> (res: Result<ParsedFeed, String>)
    ensures
        match res {
            Ok(p) => document_in(bytes@, base@) matches Ok(d) && same_document(parsed_of(p), d),
            Err(message) => document_in(bytes@, base@) == Err::<FeedDoc, Seq<char>>(message@),
        },
{
    if !markup::is_tame(bytes) {
        return Err("numbers or nested elements in the document cannot be read".to_string());
    }
    match parse_document(bytes, base) {
        Ok(f) => Ok(parsed_feed(&f)),
        Err(message) => Err(message),
    }
}

// ---- Episodes ---------------------------------------------------------------------------

/// The first form that has an address.
pub open spec fn first_with_url(content: Seq<MediaContent>) -> Option<MediaContent>
    decreases content.len(),
{
    if content.len() == 0 {
        None
    } else if content[0].url is Some {
        Some(content[0])
    } else {
        first_with_url(content.drop_first())
    }
}

/// The first form with an address among all media objects of an entry.
pub open spec fn media_enclosure(media: Seq<EntryMedia>) -> Option<MediaContent>
    decreases media.len(),
{
    if media.len() == 0 {
        None
    } else if first_with_url(media[0].content@) is Some {
        first_with_url(media[0].content@)
    } else {
        media_enclosure(media.drop_first())
    }
}

/// Whether a link leads to an enclosure and its target is an address.
pub open spec fn is_enclosure_link(l: EntryLink) -> bool {
    text::opt_text(l.rel) == Some("enclosure"@) && weburl::url_parse(l.href@) is Ok
}

/// The first link that leads to an enclosure.
pub open spec fn link_enclosure(links: Seq<EntryLink>) -> Option<EntryLink>
    decreases links.len(),
{
    if links.len() == 0 {
        None
    } else if is_enclosure_link(links[0]) {
        Some(links[0])
    } else {
        link_enclosure(links.drop_first())
    }
}

/// Whether an entry has an enclosure.
pub open spec fn has_enclosure(e: FeedEntry) -> bool {
    media_enclosure(e.media@) is Some || link_enclosure(e.links@) is Some
}

/// Whether an entry's enclosure has the given address, size and type. One in a media object
/// comes before one in a link.
pub open spec fn is_enclosure(
    e: FeedEntry,
    url: Url,
    size: Option<u64>,
    mime: Option<String>,
) -> bool {
    match media_enclosure(e.media@) {
        Some(c) => c.url == Some(url) && c.size == size && c.content_type == mime,
        None => match link_enclosure(e.links@) {
            Some(l) => {
                &&& weburl::url_parse(l.href@) == Ok::<(Seq<char>, Seq<char>), Seq<char>>(
                    (url@, url.path_view()),
                )
                &&& size is None
                &&& l.media_type == mime
            },
            None => false,
        },
    }
}

fn content_with_url(content: &Vec<MediaContent>) -> (res: Option<usize>)
    ensures
        match res {
            Some(i) => i < content@.len() && content@[i as int].url is Some && first_with_url(
                content@,
            ) == Some(content@[i as int]),
            None => first_with_url(content@) is None,
        },
{
    let mut i: usize = 0;
    assert(content@.skip(0) =~= content@);
    while i < content.len()
        invariant
            i <= content@.len(),
            first_with_url(content@) == first_with_url(content@.skip(i as int)),
        decreases content.len() - i,
    {
        assert(content@.skip(i as int).drop_first() =~= content@.skip(i + 1));
        if content[i].url.is_some() {
            return Some(i);
        }
        i = i + 1;
    }
    None
}

/// The enclosure of an entry: its address, size and type. The forms of the media objects come
/// first, then the links.
pub fn extract_enclosure(entry: &FeedEntry) -> (res: Option<(Url, Option<u64>, Option<String>)>)
    ensures
        res is Some <==> has_enclosure(*entry),
        res matches Some(e) ==> is_enclosure(*entry, e.0, e.1, e.2),
{
    let mut i: usize = 0;
    assert(entry.media@.skip(0) =~= entry.media@);
    while i < entry.media.len()
        invariant
            i <= entry.media@.len(),
            media_enclosure(entry.media@) == media_enclosure(entry.media@.skip(i as int)),
        decreases entry.media.len() - i,
    {
        assert(entry.media@.skip(i as int).drop_first() =~= entry.media@.skip(i + 1));
        if let Some(k) = content_with_url(&entry.media[i].content) {
            let content = &entry.media[i].content[k];
            if let Some(url) = &content.url {
                return Some((url.clone(), content.size, text::copy_opt(&content.content_type)));
            }
        }
        i = i + 1;
    }
    let mut k: usize = 0;
    assert(entry.links@.skip(0) =~= entry.links@);
    while k < entry.links.len()
        invariant
            k <= entry.links@.len(),
            media_enclosure(entry.media@) is None,
            link_enclosure(entry.links@) == link_enclosure(entry.links@.skip(k as int)),
        decreases entry.links.len() - k,
    {
        assert(entry.links@.skip(k as int).drop_first() =~= entry.links@.skip(k + 1));
        let link = &entry.links[k];
        if let Some(rel) = &link.rel {
            if text::same_text(rel.as_str(), "enclosure") {
                if let Ok(url) = Url::parse(link.href.as_str()) {
                    return Some((url, None, text::copy_opt(&link.media_type)));
                }
            }
        }
        k = k + 1;
    }
    None
}

/// When an entry was published, else when it was updated.
pub open spec fn entry_date(e: FeedEntry) -> Option<UtcTime> {
    if e.published is Some {
        e.published
    } else {
        e.updated
    }
}

/// Whether an entry becomes an episode: it needs an enclosure and a date.
pub open spec fn has_episode(e: FeedEntry) -> bool {
    has_enclosure(e) && entry_date(e) is Some
}

/// Whether an episode is the one that an entry of a feed describes.
pub open spec fn is_episode_of(e: FeedEntry, feed: Feed, ep: Episode) -> bool {
    &&& is_enclosure(e, ep.enclosure_url, ep.enclosure_size, ep.enclosure_mime)
    &&& entry_date(e) == Some(ep.pub_date)
    &&& ep.guid@ == if e.id@.len() > 0 {
        e.id@
    } else {
        ep.enclosure_url@
    }
    &&& ep.id@ == ids::episode_id_text(feed.url@, ep.guid@)
    &&& ep.feed_id == feed.id
    &&& ep.title@ == match e.title {
        Some(t) => t@,
        None => ep.guid@,
    }
    &&& text::opt_text(ep.description) == if e.summary is Some {
        text::opt_text(e.summary)
    } else {
        text::opt_text(e.body)
    }
    &&& ep.duration_secs == if e.media@.len() > 0 {
        e.media@[0].duration_secs
    } else {
        None
    }
    &&& ep.state is Discovered
    &&& if e.media@.len() > 0 && e.media@[0].thumbnails@.len() > 0 && weburl::url_parse(
        e.media@[0].thumbnails@[0]@,
    ) is Ok {
        &&& ep.image_url is Some
        &&& weburl::url_parse(e.media@[0].thumbnails@[0]@) == Ok::<
            (Seq<char>, Seq<char>),
            Seq<char>,
        >((ep.image_url->0@, ep.image_url->0.path_view()))
    } else {
        ep.image_url is None
    }
}

/// The episode that an entry of a feed describes, at the given position. An entry without an
/// enclosure or without a date gives none.
pub fn entry_to_episode(entry: &FeedEntry, feed: &Feed, episode_no: usize) -> (res: Option<Episode>)
    ensures
        res is Some <==> has_episode(*entry),
        res matches Some(ep) ==> is_episode_of(*entry, *feed, ep) && ep.episode_no == episode_no,
{
    let (enclosure_url, enclosure_size, enclosure_mime) = match extract_enclosure(entry) {
        Some(e) => e,
        None => {
            return None;
        },
    };
    let guid = if !entry.id.as_str().is_empty() {
        entry.id.clone()
    } else {
        enclosure_url.as_str().to_string()
    };
    let date = match &entry.published {
        Some(d) => Some(*d),
        None => entry.updated,
    };
    let pub_date = match date {
        Some(d) => d,
        None => {
            return None;
        },
    };
    let id = EpisodeId::from_parts(feed.url.as_str(), guid.as_str());
    let title = match &entry.title {
        Some(t) => t.clone(),
        None => guid.clone(),
    };
    let description = match &entry.summary {
        Some(d) => Some(d.clone()),
        None => text::copy_opt(&entry.body),
    };
    let mut duration_secs: Option<u64> = None;
    let mut image_url: Option<Url> = None;
    if entry.media.len() > 0 {
        let media = &entry.media[0];
        duration_secs = media.duration_secs;
        if media.thumbnails.len() > 0 {
            image_url = match Url::parse(media.thumbnails[0].as_str()) {
                Ok(u) => Some(u),
                Err(_) => None,
            };
        }
    }
    Some(
        Episode {
            id,
            feed_id: feed.id,
            guid,
            title,
            description,
            pub_date,
            duration_secs,
            enclosure_url,
            enclosure_size,
            enclosure_mime,
            state: EpisodeState::Discovered,
            image_url,
            episode_no,
        },
    )
}

/// The entries that become episodes, in their order.
pub open spec fn with_episodes(entries: Seq<FeedEntry>) -> Seq<FeedEntry>
    decreases entries.len(),
{
    if entries.len() == 0 {
        Seq::empty()
    } else if has_episode(entries.last()) {
        with_episodes(entries.drop_last()).push(entries.last())
    } else {
        with_episodes(entries.drop_last())
    }
}

/// Whether a list holds the episodes of a feed's entries in their order, each with its
/// position in the list.
pub open spec fn are_episodes_of(entries: Seq<FeedEntry>, feed: Feed, eps: Seq<Episode>) -> bool {
    &&& eps.len() == with_episodes(entries).len()
    &&& forall|i: int|
        #![trigger eps[i]]
        0 <= i < eps.len() ==> is_episode_of(with_episodes(entries)[i], feed, eps[i])
            && eps[i].episode_no == i
}

/// The episodes of the entries of a feed.
pub fn episodes_of(entries: &Vec<FeedEntry>, feed: &Feed) -> (res: Vec<Episode>)
    ensures
        are_episodes_of(entries@, *feed, res@),
{
    let mut episodes: Vec<Episode> = Vec::new();
    for i in 0..entries.len()
        invariant
            are_episodes_of(entries@.take(i as int), *feed, episodes@),
    {
        let ghost before = episodes@;
        assert(entries@.take(i + 1).drop_last() =~= entries@.take(i as int));
        if let Some(ep) = entry_to_episode(&entries[i], feed, episodes.len()) {
            episodes.push(ep);
            assert forall|k: int| #![trigger episodes@[k]] 0 <= k < episodes@.len() implies is_episode_of(
                with_episodes(entries@.take(i + 1))[k],
                *feed,
                episodes@[k],
            ) && episodes@[k].episode_no == k by {
                if k < before.len() {
                    assert(before[k] == episodes@[k]);
                }
            }
        }
    }
    assert(entries@.take(entries@.len() as int) =~= entries@);
    episodes
}

// ---- Errors --------------------------------------------------------------------------------

/// Why a feed could not be fetched. Errors of the connection and of the parser are held as
/// their messages.
#[derive(Debug)]
pub enum FetchError {
    Http(String),
    HttpStatus(HttpStatus),
    Parse(String),
}

/// The message of an error.
pub open spec fn fetch_error_text(e: FetchError) -> Seq<char> {
    match e {
        FetchError::Http(m) => "HTTP error: "@ + m@,
        FetchError::HttpStatus(s) => "HTTP "@ + http::status_text(s.number()),
        FetchError::Parse(m) => "feed parse error: "@ + m@,
    }
}

impl FetchError {
    /// The message of the error.
    pub fn to_text(&self) -> (res: String)
        ensures
            res@ == fetch_error_text(*self),
    {
        match self {
            FetchError::Http(m) => {
                let mut s = "HTTP error: ".to_string();
                s.append(m.as_str());
                s
            },
            FetchError::HttpStatus(status) => {
                let mut s = "HTTP ".to_string();
                s.append(status.to_text().as_str());
                s
            },
            FetchError::Parse(m) => {
                let mut s = "feed parse error: ".to_string();
                s.append(m.as_str());
                s
            },
        }
    }
}

/// The episodes in a document of a feed.
pub fn parse_bytes(bytes: &[u8], feed: &Feed) -> (res: Result<Vec<Episode>, FetchError>)
    ensures
        match res {
            Ok(eps) => exists|p: ParsedFeed|
                #![trigger parsed_of(p)]
                document_in(bytes@, feed.url@) matches Ok(d) && same_document(parsed_of(p), d)
                    && are_episodes_of(p.entries@, *feed, eps@),
            Err(e) => e matches FetchError::Parse(m) && document_in(bytes@, feed.url@) == Err::<
                FeedDoc,
                Seq<char>,
            >(m@),
        },
{
    match read_document(bytes, feed.url.as_str()) {
        Ok(parsed) => {
            let eps = episodes_of(&parsed.entries, feed);
            assert(same_document(parsed_of(parsed), document_in(bytes@, feed.url@)->Ok_0));
            Ok(eps)
        },
        Err(message) => Err(FetchError::Parse(message)),
    }
}

// ---- Fetching ------------------------------------------------------------------------------

/// What a fetch says of a feed.
pub struct FeedMeta {
    pub title: Option<String>,
    pub etag: Option<String>,
    pub last_modified: Option<String>,
    pub image_url: Option<Url>,
}

/// The headers of a request for a feed: where the last answer had an entity tag or a date, the
/// server is asked for a newer answer only.
pub open spec fn request_headers(feed: Feed) -> Seq<(Seq<char>, Seq<char>)> {
    let tag = match feed.etag {
        Some(t) => seq![("If-None-Match"@, t@)],
        None => Seq::empty(),
    };
    let date = match feed.last_modified {
        Some(d) => seq![("If-Modified-Since"@, d@)],
        None => Seq::empty(),
    };
    tag + date
}

/// The names and values of headers.
pub open spec fn header_texts(headers: Seq<(String, String)>) -> Seq<(Seq<char>, Seq<char>)> {
    headers.map_values(|h: (String, String)| (h.0@, h.1@))
}

/// The headers of a request for `feed`.
pub fn fetch_headers(feed: &Feed) -> (res: Vec<(String, String)>)
    ensures
        header_texts(res@) == request_headers(*feed),
{
    let mut headers: Vec<(String, String)> = Vec::new();
    if let Some(etag) = &feed.etag {
        headers.push(("If-None-Match".to_string(), etag.clone()));
    }
    if let Some(date) = &feed.last_modified {
        headers.push(("If-Modified-Since".to_string(), date.clone()));
    }
    assert(header_texts(headers@) =~= request_headers(*feed));
    headers
}

/// What becomes of a response by its status.
pub enum FetchStep {
    /// Nothing changed since the last answer: the fetch is over.
    NotModified(FeedMeta),
    Failed(FetchError),
    /// The body is read and parsed.
    ReadBody,
}

/// Decides by its status what becomes of a response to a request for `feed`.
pub fn fetch_step(feed: &Feed, status: HttpStatus) -> (res: FetchStep)
    ensures
        match res {
            FetchStep::NotModified(meta) => {
                &&& status.number() == 304
                &&& meta.title is None
                &&& meta.etag == feed.etag
                &&& meta.last_modified == feed.last_modified
                &&& meta.image_url == feed.image_url
            },
            FetchStep::Failed(e) => status.number() != 304 && !status.success() && e
                == FetchError::HttpStatus(status),
            FetchStep::ReadBody => status.success(),
        },
{
    if status.as_u16() == 304 {
        FetchStep::NotModified(
            FeedMeta {
                title: None,
                etag: text::copy_opt(&feed.etag),
                last_modified: text::copy_opt(&feed.last_modified),
                image_url: weburl::copy_opt_url(&feed.image_url),
            },
        )
    } else if !status.is_success() {
        FetchStep::Failed(FetchError::HttpStatus(status))
    } else {
        FetchStep::ReadBody
    }
}

/// Whether an address is the one of a document's image: its logo, else its icon, where that
/// is an address.
pub open spec fn is_image_of(p: ParsedFeed, image: Option<Url>) -> bool {
    let source = if p.logo is Some {
        text::opt_text(p.logo)
    } else {
        text::opt_text(p.icon)
    };
    match source {
        Some(s) => match weburl::url_parse(s) {
            Ok(u) => image matches Some(i) && (i@, i.path_view()) == u,
            Err(_) => image is None,
        },
        None => image is None,
    }
}

fn image_of(p: &ParsedFeed) -> (res: Option<Url>)
    ensures
        is_image_of(*p, res),
{
    let source = match &p.logo {
        Some(s) => Some(s.clone()),
        None => text::copy_opt(&p.icon),
    };
    match source {
        Some(s) => match Url::parse(s.as_str()) {
            Ok(u) => Some(u),
            Err(_) => None,
        },
        None => None,
    }
}

/// Whether a fetch's outcome is the one that a parsed document gives.
pub open spec fn is_outcome_of(
    p: ParsedFeed,
    feed: Feed,
    etag: Option<String>,
    last_modified: Option<String>,
    meta: FeedMeta,
    eps: Seq<Episode>,
) -> bool {
    &&& text::opt_text(meta.title) == text::opt_text(p.title)
    &&& meta.etag == etag
    &&& meta.last_modified == last_modified
    &&& is_image_of(p, meta.image_url)
    &&& are_episodes_of(p.entries@, feed, eps)
}

/// The outcome of a fetch whose response had the given body and headers.
pub fn fetch_body(
    feed: &Feed,
    etag: Option<String>,
    last_modified: Option<String>,
    bytes: &[u8],
) -> (res: Result<(FeedMeta, Vec<Episode>), FetchError>)
    ensures
        match res {
            Ok((meta, eps)) => exists|p: ParsedFeed|
                #![trigger parsed_of(p)]
                document_in(bytes@, feed.url@) matches Ok(d) && same_document(parsed_of(p), d)
                    && is_outcome_of(p, *feed, etag, last_modified, meta, eps@),
            Err(e) => e matches FetchError::Parse(m) && document_in(bytes@, feed.url@) == Err::<
                FeedDoc,
                Seq<char>,
            >(m@),
        },
{
    match read_document(bytes, feed.url.as_str()) {
        Ok(parsed) => {
            let eps = episodes_of(&parsed.entries, feed);
            let meta = FeedMeta {
                title: text::copy_opt(&parsed.title),
                etag,
                last_modified,
                image_url: image_of(&parsed),
            };
            assert(same_document(parsed_of(parsed), document_in(bytes@, feed.url@)->Ok_0));
            Ok((meta, eps))
        },
        Err(message) => Err(FetchError::Parse(message)),
    }
}

// ---- Laws ------------------------------------------------------------------------------------

/// Every entry with an enclosure and a date becomes an episode and no other does, in the
/// order of the document.
pub proof fn law_entries_with_enclosure_and_date_survive(entries: Seq<FeedEntry>)
    ensures
        with_episodes(entries) == entries.filter(|e: FeedEntry| has_episode(e)),
    decreases entries.len(),
{
    reveal(Seq::filter);
    if entries.len() > 0 {
        law_entries_with_enclosure_and_date_survive(entries.drop_last());
    }
}

/// Two episodes of one feed with different identifiers of their own are told apart by the
/// bytes whose digest identifies them.
pub proof fn law_episodes_of_a_feed_are_told_apart(feed: Feed, a: Episode, b: Episode)
    requires
        !feed.url@.contains('\0'),
        a.guid@ != b.guid@,
    ensures
        ids::id_source(feed.url@, a.guid@) != ids::id_source(feed.url@, b.guid@),
{
    if ids::id_source(feed.url@, a.guid@) == ids::id_source(feed.url@, b.guid@) {
        ids::law_id_source_tells_episodes_apart(feed.url@, a.guid@, feed.url@, b.guid@);
    }
}

proof fn lemma_first_content(content: Seq<MediaContent>, k: int)
    requires
        0 <= k < content.len(),
        content[k].url is Some,
        forall|j: int| 0 <= j < k ==> (#[trigger] content[j]).url is None,
    ensures
        first_with_url(content) == Some(content[k]),
    decreases content.len(),
{
    if k > 0 {
        assert(content[0].url is None);
        lemma_first_content(content.drop_first(), k - 1);
    }
}

proof fn lemma_no_content(content: Seq<MediaContent>)
    requires
        forall|j: int| 0 <= j < content.len() ==> (#[trigger] content[j]).url is None,
    ensures
        first_with_url(content) is None,
    decreases content.len(),
{
    if content.len() > 0 {
        assert(content[0].url is None);
        lemma_no_content(content.drop_first());
    }
}

proof fn lemma_first_media(media: Seq<EntryMedia>, m: int)
    requires
        0 <= m < media.len(),
        first_with_url(media[m].content@) is Some,
        forall|j: int| 0 <= j < m ==> first_with_url((#[trigger] media[j]).content@) is None,
    ensures
        media_enclosure(media) == first_with_url(media[m].content@),
    decreases media.len(),
{
    if m > 0 {
        assert(first_with_url(media[0].content@) is None);
        lemma_first_media(media.drop_first(), m - 1);
    }
}

proof fn lemma_no_media(media: Seq<EntryMedia>)
    requires
        forall|j: int| 0 <= j < media.len() ==> first_with_url((#[trigger] media[j]).content@) is None,
    ensures
        media_enclosure(media) is None,
    decreases media.len(),
{
    if media.len() > 0 {
        assert(first_with_url(media[0].content@) is None);
        lemma_no_media(media.drop_first());
    }
}

proof fn lemma_first_link(links: Seq<EntryLink>, i: int)
    requires
        0 <= i < links.len(),
        is_enclosure_link(links[i]),
        forall|j: int| 0 <= j < i ==> !is_enclosure_link(#[trigger] links[j]),
    ensures
        link_enclosure(links) == Some(links[i]),
    decreases links.len(),
{
    if i > 0 {
        assert(!is_enclosure_link(links[0]));
        lemma_first_link(links.drop_first(), i - 1);
    }
}

proof fn lemma_no_link(links: Seq<EntryLink>)
    requires
        forall|j: int| 0 <= j < links.len() ==> !is_enclosure_link(#[trigger] links[j]),
    ensures
        link_enclosure(links) is None,
    decreases links.len(),
{
    if links.len() > 0 {
        assert(!is_enclosure_link(links[0]));
        lemma_no_link(links.drop_first());
    }
}

proof fn lemma_no_address_in_media(e: FeedEntry)
    requires
        forall|m: int, k: int|
            0 <= m < e.media@.len() && 0 <= k < e.media@[m].content@.len() ==> (
            #[trigger] e.media@[m].content@[k]).url is None,
    ensures
        media_enclosure(e.media@) is None,
{
    assert forall|j: int| 0 <= j < e.media@.len() implies first_with_url(
        (#[trigger] e.media@[j]).content@,
    ) is None by {
        lemma_no_content(e.media@[j].content@);
    }
    lemma_no_media(e.media@);
}

/// The audio of an entry whose media objects hold an address is the first of these addresses,
/// with the size and the type that stand beside it, whatever the entry links to.
pub proof fn law_first_media_address_is_the_audio(
    e: FeedEntry,
    m: int,
    k: int,
    url: Url,
    size: Option<u64>,
    mime: Option<String>,
)
    requires
        0 <= m < e.media@.len(),
        0 <= k < e.media@[m].content@.len(),
        e.media@[m].content@[k].url is Some,
        forall|i: int, j: int|
            0 <= i < m && 0 <= j < e.media@[i].content@.len() ==> (
            #[trigger] e.media@[i].content@[j]).url is None,
        forall|j: int| 0 <= j < k ==> (#[trigger] e.media@[m].content@[j]).url is None,
    ensures
        has_enclosure(e),
        is_enclosure(e, url, size, mime) <==> {
            &&& e.media@[m].content@[k].url == Some(url)
            &&& e.media@[m].content@[k].size == size
            &&& e.media@[m].content@[k].content_type == mime
        },
{
    lemma_first_content(e.media@[m].content@, k);
    assert forall|i: int| 0 <= i < m implies first_with_url((#[trigger] e.media@[i]).content@) is None by {
        lemma_no_content(e.media@[i].content@);
    }
    lemma_first_media(e.media@, m);
}

/// The audio of an entry whose media objects hold no address is the target of its first link
/// with the relation `enclosure` whose target is an address. Its size is not known, and its
/// type is the one of the link.
pub proof fn law_first_enclosure_link_is_the_audio(
    e: FeedEntry,
    i: int,
    url: Url,
    size: Option<u64>,
    mime: Option<String>,
)
    requires
        forall|m: int, k: int|
            0 <= m < e.media@.len() && 0 <= k < e.media@[m].content@.len() ==> (
            #[trigger] e.media@[m].content@[k]).url is None,
        0 <= i < e.links@.len(),
        e.links@[i].rel matches Some(rel) && rel@ == "enclosure"@,
        weburl::url_parse(e.links@[i].href@) is Ok,
        forall|j: int|
            0 <= j < i ==> {
                ||| (#[trigger] e.links@[j]).rel is None
                ||| e.links@[j].rel->0@ != "enclosure"@
                ||| weburl::url_parse(e.links@[j].href@) is Err
            },
    ensures
        has_enclosure(e),
        is_enclosure(e, url, size, mime) <==> {
            &&& weburl::url_parse(e.links@[i].href@) == Ok::<(Seq<char>, Seq<char>), Seq<char>>(
                (url@, url.path_view()),
            )
            &&& size is None
            &&& mime == e.links@[i].media_type
        },
{
    lemma_no_address_in_media(e);
    lemma_first_link(e.links@, i);
}

/// A link with another relation than `enclosure`, or with none, is never an episode's audio: an
/// entry without an address in its media objects and without such a link gives no episode.
pub proof fn law_other_links_are_no_audio(
    e: FeedEntry,
    url: Url,
    size: Option<u64>,
    mime: Option<String>,
    feed: Feed,
    ep: Episode,
)
    requires
        forall|m: int, k: int|
            0 <= m < e.media@.len() && 0 <= k < e.media@[m].content@.len() ==> (
            #[trigger] e.media@[m].content@[k]).url is None,
        forall|j: int|
            0 <= j < e.links@.len() ==> {
                ||| (#[trigger] e.links@[j]).rel is None
                ||| e.links@[j].rel->0@ != "enclosure"@
                ||| weburl::url_parse(e.links@[j].href@) is Err
            },
    ensures
        !has_enclosure(e),
        !has_episode(e),
        !is_enclosure(e, url, size, mime),
        !is_episode_of(e, feed, ep),
{
    lemma_no_address_in_media(e);
    lemma_no_link(e.links@);
}

/// An entry becomes an episode exactly where it has an enclosure and a date, be it the one of
/// its publication or the one of its last change.
pub proof fn law_episode_needs_enclosure_and_date(e: FeedEntry)
    ensures
        has_episode(e) <==> has_enclosure(e) && (e.published is Some || e.updated is Some),
{
}

/// What an episode holds of its entry: the date of the publication comes before the one of the
/// last change, the summary before the body, and the audio address stands for an identifier and
/// the identifier for a title that the entry does not have.
pub proof fn law_what_an_episode_holds(e: FeedEntry, feed: Feed, ep: Episode)
    requires
        is_episode_of(e, feed, ep),
    ensures
        is_enclosure(e, ep.enclosure_url, ep.enclosure_size, ep.enclosure_mime),
        e.published matches Some(d) ==> ep.pub_date == d,
        e.published is None ==> e.updated == Some(ep.pub_date),
        e.id@.len() > 0 ==> ep.guid@ == e.id@,
        e.id@.len() == 0 ==> ep.guid@ == ep.enclosure_url@,
        ep.id@ == ids::episode_id_text(feed.url@, ep.guid@),
        ep.feed_id == feed.id,
        e.title matches Some(t) ==> ep.title@ == t@,
        e.title is None ==> ep.title@ == ep.guid@,
        e.summary matches Some(s) ==> (ep.description matches Some(d) && d@ == s@),
        e.summary is None ==> (e.body matches Some(b) ==> (ep.description matches Some(d) && d@
            == b@)),
        e.summary is None && e.body is None ==> ep.description is None,
        e.media@.len() == 0 ==> ep.duration_secs is None && ep.image_url is None,
        e.media@.len() > 0 ==> ep.duration_secs == e.media@[0].duration_secs,
        e.media@.len() > 0 && e.media@[0].thumbnails@.len() == 0 ==> ep.image_url is None,
        e.media@.len() > 0 && e.media@[0].thumbnails@.len() > 0 ==> match weburl::url_parse(
            e.media@[0].thumbnails@[0]@,
        ) {
            Ok(u) => ep.image_url matches Some(i) && (i@, i.path_view()) == u,
            Err(_) => ep.image_url is None,
        },
        ep.state is Discovered,
{
}

/// The episodes of a feed are numbered from 0 in the order of the document, with no gap: entry
/// `i`, where it becomes an episode, gets as its position the number of entries before it that
/// become episodes too.
pub proof fn law_positions_count_earlier_episodes(
    entries: Seq<FeedEntry>,
    feed: Feed,
    eps: Seq<Episode>,
    i: int,
)
    requires
        are_episodes_of(entries, feed, eps),
        0 <= i < entries.len(),
        has_episode(entries[i]),
    ensures
        ({
            let k = entries.take(i).filter(|e: FeedEntry| has_episode(e)).len();
            &&& k < eps.len()
            &&& is_episode_of(entries[i], feed, eps[k as int])
            &&& eps[k as int].episode_no == k
        }),
        eps.len() == entries.filter(|e: FeedEntry| has_episode(e)).len(),
{
    law_entries_with_enclosure_and_date_survive(entries);
    law_entries_with_enclosure_and_date_survive(entries.take(i));
    lemma_with_episodes_at(entries, i);
    let k = with_episodes(entries.take(i)).len() as int;
    assert(eps[k].episode_no == k);
}

proof fn lemma_with_episodes_at(entries: Seq<FeedEntry>, i: int)
    requires
        0 <= i < entries.len(),
        has_episode(entries[i]),
    ensures
        with_episodes(entries.take(i)).len() < with_episodes(entries).len(),
        with_episodes(entries)[with_episodes(entries.take(i)).len() as int] == entries[i],
    decreases entries.len(),
{
    if i == entries.len() - 1 {
        assert(entries.take(i) =~= entries.drop_last());
    } else {
        let rest = entries.drop_last();
        lemma_with_episodes_at(rest, i);
        assert(rest.take(i) =~= entries.take(i));
    }
}

/// A request for a feed carries the entity tag and the date of the last answer, each under its
/// own header and only where there is one.
pub proof fn law_request_carries_what_the_last_answer_said(feed: Feed)
    ensures
        ({
            let h = request_headers(feed);
            &&& feed.etag is None && feed.last_modified is None ==> h.len() == 0
            &&& feed.etag is Some && feed.last_modified is None ==> h.len() == 1 && h[0] == (
                "If-None-Match"@,
                feed.etag->0@,
            )
            &&& feed.etag is None && feed.last_modified is Some ==> h.len() == 1 && h[0] == (
                "If-Modified-Since"@,
                feed.last_modified->0@,
            )
            &&& feed.etag is Some && feed.last_modified is Some ==> h.len() == 2 && h[0] == (
                "If-None-Match"@,
                feed.etag->0@,
            ) && h[1] == ("If-Modified-Since"@, feed.last_modified->0@)
        }),
{
}

/// A feed's image is its logo, and its icon only where it has no logo; what is no address is no
/// image.
pub proof fn law_logo_comes_before_icon(p: ParsedFeed, image: Option<Url>)
    requires
        is_image_of(p, image),
    ensures
        p.logo matches Some(l) ==> match weburl::url_parse(l@) {
            Ok(u) => image matches Some(i) && (i@, i.path_view()) == u,
            Err(_) => image is None,
        },
        p.logo is None ==> (p.icon matches Some(l) ==> match weburl::url_parse(l@) {
            Ok(u) => image matches Some(i) && (i@, i.path_view()) == u,
            Err(_) => image is None,
        }),
        p.logo is None && p.icon is None ==> image is None,
{
}

/// What is kept of a parsed document: its title and images, and of each entry, in order, its
/// texts, its dates, its media objects and its links, each under its own name.
pub proof fn law_what_is_kept_of_a_document(p: ParsedFeed, d: FeedDoc, i: int)
    requires
        same_document(parsed_of(p), d),
        0 <= i < d.entries.len(),
    ensures
        text::opt_text(p.title) == d.title,
        text::opt_text(p.logo) == d.logo,
        text::opt_text(p.icon) == d.icon,
        p.entries@.len() == d.entries.len(),
        ({
            let e = p.entries@[i];
            let x = d.entries[i];
            &&& x.id matches Some(id) ==> e.id@ == id
            &&& x.id is None ==> x.title is None && x.links.len() == 0
            &&& text::opt_text(e.title) == x.title
            &&& text::opt_text(e.summary) == x.summary
            &&& text::opt_text(e.body) == x.body
            &&& e.published is Some <==> x.published is Some
            &&& e.published matches Some(t) ==> x.published == Some((t.epoch_secs(), t.subsec()))
            &&& e.updated is Some <==> x.updated is Some
            &&& e.updated matches Some(t) ==> x.updated == Some((t.epoch_secs(), t.subsec()))
            &&& e.media@.len() == x.media.len()
            &&& e.links@.len() == x.links.len()
        }),
{
    assert(same_entry(parsed_of(p).entries[i], d.entries[i]));
}

/// A link and a form of a media object are kept with what they hold, in their places.
pub proof fn law_what_is_kept_of_links_and_media(e: FeedEntry, n: int, k: int)
    ensures
        0 <= n < e.links@.len() ==> entry_of(e).links[n] == (
            e.links@[n].href@,
            text::opt_text(e.links@[n].rel),
            text::opt_text(e.links@[n].media_type),
        ),
        0 <= n < e.media@.len() ==> entry_of(e).media[n].duration_secs == e.media@[n].duration_secs
            && entry_of(e).media[n].thumbnails.len() == e.media@[n].thumbnails@.len()
            && entry_of(e).media[n].content.len() == e.media@[n].content@.len(),
        0 <= n < e.media@.len() && 0 <= k < e.media@[n].thumbnails@.len() ==> entry_of(
            e,
        ).media[n].thumbnails[k] == e.media@[n].thumbnails@[k]@,
        0 <= n < e.media@.len() && 0 <= k < e.media@[n].content@.len() ==> {
            let c = e.media@[n].content@[k];
            let x = entry_of(e).media[n].content[k];
            &&& x.size == c.size
            &&& x.content_type == text::opt_text(c.content_type)
            &&& c.url is None ==> x.url is None
            &&& c.url matches Some(u) ==> x.url == Some((u@, u.path_view()))
        },
{
}

/// A document that can be read to its end is read by the parser with the feed's address as its
/// base; any other is refused with a message that says so.
pub proof fn law_what_a_document_is_read_as(bytes: Seq<u8>, base: Seq<char>)
    ensures
        markup::tame(bytes) ==> document_in(bytes, base) == feed_document(bytes, base),
        !markup::tame(bytes) ==> document_in(bytes, base) == Err::<FeedDoc, Seq<char>>(
            "numbers or nested elements in the document cannot be read"@,
        ),
{
}

/// A fetch takes the title and the image from the document, the entity tag and the date from the
/// headers of the answer, and the episodes from the entries.
pub proof fn law_what_a_fetch_brings(
    p: ParsedFeed,
    feed: Feed,
    etag: Option<String>,
    last_modified: Option<String>,
    meta: FeedMeta,
    eps: Seq<Episode>,
)
    requires
        is_outcome_of(p, feed, etag, last_modified, meta, eps),
    ensures
        text::opt_text(meta.title) == text::opt_text(p.title),
        meta.etag == etag,
        meta.last_modified == last_modified,
        is_image_of(p, meta.image_url),
        eps.len() == p.entries@.filter(|e: FeedEntry| has_episode(e)).len(),
        forall|i: int|
            0 <= i < eps.len() ==> (#[trigger] eps[i]).episode_no == i && eps[i].feed_id == feed.id
                && eps[i].state is Discovered,
{
    law_entries_with_enclosure_and_date_survive(p.entries@);
}

/// The message of an error says what went wrong.
pub proof fn law_messages_of_fetches(m: String, s: HttpStatus)
    ensures
        fetch_error_text(FetchError::Http(m)) == "HTTP error: "@ + m@,
        fetch_error_text(FetchError::HttpStatus(s)) == "HTTP "@ + http::status_text(s.number()),
        fetch_error_text(FetchError::Parse(m)) == "feed parse error: "@ + m@,
{
}

} // verus!
