//! The RSS document of a restreamed feed.
use crate::episode::Episode;
use crate::feed::Feed;
use crate::server::config;
use crate::server::config::ServerConfig;
use crate::text;
use crate::time;
use vstd::prelude::*;
use vstd::string::*;

verus! {

// ---- Escaping ---------------------------------------------------------------------

/// What stands for a character in an XML text or attribute.
pub open spec fn escaped_char(c: char) -> Seq<char> {
    if c == '&' {
        "&amp;"@
    } else if c == '<' {
        "&lt;"@
    } else if c == '>' {
        "&gt;"@
    } else if c == '"' {
        "&quot;"@
    } else {
        seq![c]
    }
}

/// A text as it stands in an XML text or attribute.
pub open spec fn escaped(s: Seq<char>) -> Seq<char>
    decreases s.len(),
{
    if s.len() == 0 {
        Seq::empty()
    } else {
        escaped_char(s[0]) + escaped(s.drop_first())
    }
}

proof fn lemma_escaped_push(s: Seq<char>, c: char)
    ensures
        escaped(s.push(c)) == escaped(s) + escaped_char(c),
    decreases s.len(),
{
    if s.len() == 0 {
        assert(s.push(c).drop_first() =~= s);
        assert(escaped(s.push(c)) =~= escaped(s) + escaped_char(c));
    } else {
        assert(s.push(c).drop_first() =~= s.drop_first().push(c));
        lemma_escaped_push(s.drop_first(), c);
        assert(escaped(s.push(c)) =~= escaped(s) + escaped_char(c));
    }
}

/// `s` as it stands in an XML text or attribute.
pub fn esc(s: &str) -> (res: String)
    ensures
        res@ == escaped(s@),
{
    let v = text::chars_of(s);
    let mut out = String::new();
    for i in 0..v.len()
        invariant
            v@ == s@,
            out@ == escaped(s@.take(i as int)),
    {
        let c = v[i];
        let ghost before = out@;
        proof {
            assert(s@.take(i + 1) =~= s@.take(i as int).push(c));
            lemma_escaped_push(s@.take(i as int), c);
        }
        if c == '&' {
            out.append("&amp;");
        } else if c == '<' {
            out.append("&lt;");
        } else if c == '>' {
            out.append("&gt;");
        } else if c == '"' {
            out.append("&quot;");
        } else {
            out.push(c);
            assert(out@ =~= before + seq![c]);
        }
    }
    assert(s@.take(s@.len() as int) =~= s@);
    out
}

/// An escaped text holds no angle bracket and no quote, so it cannot end the element or the
/// attribute that it stands in.
pub proof fn law_escaped_text_has_no_markup(s: Seq<char>)
    ensures
        !escaped(s).contains('<'),
        !escaped(s).contains('>'),
        !escaped(s).contains('"'),
    decreases s.len(),
{
    reveal_strlit("&amp;");
    reveal_strlit("&lt;");
    reveal_strlit("&gt;");
    reveal_strlit("&quot;");
    if s.len() > 0 {
        law_escaped_text_has_no_markup(s.drop_first());
        let a = escaped_char(s[0]);
        let b = escaped(s.drop_first());
        assert forall|i: int| 0 <= i < (a + b).len() implies (a + b)[i] != '<' && (a + b)[i] != '>'
            && (a + b)[i] != '"' by {
            if i >= a.len() {
                assert(b.contains(b[i - a.len()]));
            }
        }
    }
}

/// Escaping loses nothing: two texts with the same escaped form are the same.
pub proof fn law_escaping_loses_nothing(a: Seq<char>, b: Seq<char>)
    requires
        escaped(a) == escaped(b),
    ensures
        a == b,
    decreases a.len(),
{
    reveal_strlit("&amp;");
    reveal_strlit("&lt;");
    reveal_strlit("&gt;");
    reveal_strlit("&quot;");
    if a.len() == 0 || b.len() == 0 {
        if a.len() > 0 {
            assert(escaped(a).len() >= escaped_char(a[0]).len());
        }
        if b.len() > 0 {
            assert(escaped(b).len() >= escaped_char(b[0]).len());
        }
        assert(a =~= b);
    } else {
        let p = escaped_char(a[0]);
        let q = escaped_char(b[0]);
        let s = escaped(a);
        assert(s[0] == p[0] && s[0] == q[0]);
        if p.len() > 1 && q.len() > 1 {
            assert(s[1] == p[1] && s[1] == q[1]);
        }
        assert("&amp;"@[0] == '&' && "&amp;"@[1] == 'a');
        assert("&lt;"@[0] == '&' && "&lt;"@[1] == 'l');
        assert("&gt;"@[0] == '&' && "&gt;"@[1] == 'g');
        assert("&quot;"@[0] == '&' && "&quot;"@[1] == 'q');
        assert(a[0] == b[0]);
        assert(escaped(a.drop_first()) =~= s.skip(p.len() as int));
        assert(escaped(b.drop_first()) =~= s.skip(q.len() as int));
        law_escaping_loses_nothing(a.drop_first(), b.drop_first());
        assert(a =~= seq![a[0]] + a.drop_first());
        assert(b =~= seq![b[0]] + b.drop_first());
    }
}

// ---- Durations ----------------------------------------------------------------------

/// A length of time as hours, minutes and seconds; the hours are left out where there are
/// none.
pub open spec fn clock_text(secs: nat) -> Seq<char> {
    let h = secs / 3600;
    let m = (secs % 3600) / 60;
    let s = secs % 60;
    if h > 0 {
        text::decimal(h) + ":"@ + text::two_digits(m) + ":"@ + text::two_digits(s)
    } else {
        text::decimal(m) + ":"@ + text::two_digits(s)
    }
}

/// `secs` seconds as hours, minutes and seconds.
pub fn format_duration(secs: u64) -> (res: String)
    ensures
        res@ == clock_text(secs as nat),
{
    let h = secs / 3600;
    let m = (secs % 3600) / 60;
    let s = secs % 60;
    if h > 0 {
        let mut out = text::decimal_text(h);
        out.append(":");
        out.append(text::two_digit_text(m).as_str());
        out.append(":");
        out.append(text::two_digit_text(s).as_str());
        out
    } else {
        let mut out = text::decimal_text(m);
        out.append(":");
        out.append(text::two_digit_text(s).as_str());
        out
    }
}

// ---- Addresses ------------------------------------------------------------------------

/// The address of a restreamed feed.
pub open spec fn feed_address(config: ServerConfig, slug: Seq<char>) -> Seq<char> {
    config::base_path(config.base_url@) + "rss/"@ + slug + config::key_suffix(config.auth_token)
}

/// The address of the audio of an episode of a restreamed feed.
pub open spec fn audio_address(config: ServerConfig, slug: Seq<char>, id: Seq<char>) -> Seq<char> {
    config::base_path(config.base_url@) + "rss/"@ + slug + "/"@ + id + config::key_suffix(
        config.auth_token,
    )
}

/// The address of the feed `slug` on the server.
pub fn feed_url(config: &ServerConfig, slug: &str) -> (res: String)
    ensures
        res@ == feed_address(*config, slug@),
{
    let mut s = config.base();
    s.append("rss/");
    s.append(slug);
    s.append(config.key_query().as_str());
    s
}

/// The address of the audio of an episode of the feed `slug` on the server.
pub fn audio_url(config: &ServerConfig, slug: &str, id: &str) -> (res: String)
    ensures
        res@ == audio_address(*config, slug@, id@),
{
    let mut s = config.base();
    s.append("rss/");
    s.append(slug);
    s.append("/");
    s.append(id);
    s.append(config.key_query().as_str());
    s
}

// ---- The document -----------------------------------------------------------------------

/// The part of the document before the feed's image.
pub open spec fn channel_head(title: Seq<char>, address: Seq<char>) -> Seq<char> {
    "<?xml version=\"1.0\" encoding=\"UTF-8\"?>\n"@ + "<rss version=\"2.0\""@
        + " xmlns:itunes=\"http://www.itunes.com/dtds/podcast-1.0.dtd\""@
        + " xmlns:content=\"http://purl.org/rss/modules/content/\">\n"@ + "<channel>\n"@
        + "  <title>"@ + escaped(title) + "</title>\n"@ + "  <link>"@ + escaped(address)
        + "</link>\n"@ + "  <description>"@ + escaped(title) + "</description>\n"@
}

/// The feed's image in the document.
pub open spec fn channel_image(title: Seq<char>, address: Seq<char>, image: Seq<char>) -> Seq<char> {
    "  <image>\n"@ + "    <url>"@ + escaped(image) + "</url>\n"@ + "    <title>"@ + escaped(title)
        + "</title>\n"@ + "    <link>"@ + escaped(address) + "</link>\n"@ + "  </image>\n"@
        + "  <itunes:image href=\""@ + escaped(image) + "\"/>\n"@
}

/// The part of an item that its description makes.
pub open spec fn item_description(ep: Episode) -> Seq<char> {
    match ep.description {
        Some(d) => "    <description>"@ + escaped(d@) + "</description>\n"@,
        None => Seq::empty(),
    }
}

/// The part of an item that its duration makes.
pub open spec fn item_duration(ep: Episode) -> Seq<char> {
    match ep.duration_secs {
        Some(secs) => "    <itunes:duration>"@ + clock_text(secs as nat) + "</itunes:duration>\n"@,
        None => Seq::empty(),
    }
}

/// The part of an item that its image makes.
pub open spec fn item_image(ep: Episode) -> Seq<char> {
    match ep.image_url {
        Some(u) => "    <itunes:image href=\""@ + escaped(u@) + "\"/>\n"@,
        None => Seq::empty(),
    }
}

/// The enclosure of an item. It leads to the server, not to the origin.
pub open spec fn item_enclosure(ep: Episode, address: Seq<char>) -> Seq<char> {
    let mime = match ep.enclosure_mime {
        Some(m) => m@,
        None => "audio/mpeg"@,
    };
    let size: nat = match ep.enclosure_size {
        Some(n) => n as nat,
        None => 0,
    };
    "    <enclosure url=\""@ + escaped(address) + "\" length=\""@ + text::decimal(size)
        + "\" type=\""@ + escaped(mime) + "\"/>\n"@
}

/// An episode in the document.
pub open spec fn item_text(ep: Episode, address: Seq<char>) -> Seq<char> {
    "  <item>\n"@ + "    <title>"@ + escaped(ep.title@) + "</title>\n"@
        + "    <guid isPermaLink=\"false\">"@ + escaped(ep.guid@) + "</guid>\n"@ + "    <pubDate>"@
        + time::rfc2822_text(ep.pub_date.epoch_secs(), ep.pub_date.subsec()) + "</pubDate>\n"@
        + item_description(ep) + item_enclosure(ep, address) + item_duration(ep) + item_image(ep)
        + "  </item>\n"@
}

/// The episodes in the document, one after the other.
pub open spec fn items_text(eps: Seq<Episode>, config: ServerConfig, slug: Seq<char>) -> Seq<char>
    decreases eps.len(),
{
    if eps.len() == 0 {
        Seq::empty()
    } else {
        items_text(eps.drop_last(), config, slug) + item_text(
            eps.last(),
            audio_address(config, slug, eps.last().id@),
        )
    }
}

/// The title of a feed, else its slug.
pub open spec fn shown_title(feed: Feed, slug: Seq<char>) -> Seq<char> {
    match feed.title {
        Some(t) => t@,
        None => slug,
    }
}

/// The RSS document of a feed.
pub open spec fn rss_text(
    feed: Feed,
    eps: Seq<Episode>,
    config: ServerConfig,
    slug: Seq<char>,
) -> Seq<char> {
    let title = shown_title(feed, slug);
    let address = feed_address(config, slug);
    let image = match feed.image_url {
        Some(u) => channel_image(title, address, u@),
        None => Seq::empty(),
    };
    channel_head(title, address) + image + items_text(eps, config, slug) + "</channel>\n</rss>\n"@
}

/// Whether every episode was published in the years that an RSS date can name.
pub open spec fn dates_fit(eps: Seq<Episode>) -> bool {
    forall|i: int|
        0 <= i < eps.len() ==> time::four_digit_year((#[trigger] eps[i]).pub_date.epoch_secs())
}

fn head(title: &str, address: &str) -> (res: String)
    ensures
        res@ == channel_head(title@, address@),
{
    let title = esc(title);
    let mut out = "<?xml version=\"1.0\" encoding=\"UTF-8\"?>\n".to_string();
    out.append("<rss version=\"2.0\"");
    out.append(" xmlns:itunes=\"http://www.itunes.com/dtds/podcast-1.0.dtd\"");
    out.append(" xmlns:content=\"http://purl.org/rss/modules/content/\">\n");
    out.append("<channel>\n");
    out.append("  <title>");
    out.append(title.as_str());
    out.append("</title>\n");
    out.append("  <link>");
    out.append(esc(address).as_str());
    out.append("</link>\n");
    out.append("  <description>");
    out.append(title.as_str());
    out.append("</description>\n");
    out
}

fn feed_image(title: &str, address: &str, image: &str) -> (res: String)
    ensures
        res@ == channel_image(title@, address@, image@),
{
    let mut out = "  <image>\n".to_string();
    out.append("    <url>");
    out.append(esc(image).as_str());
    out.append("</url>\n");
    out.append("    <title>");
    out.append(esc(title).as_str());
    out.append("</title>\n");
    out.append("    <link>");
    out.append(esc(address).as_str());
    out.append("</link>\n");
    out.append("  </image>\n");
    out.append("  <itunes:image href=\"");
    out.append(esc(image).as_str());
    out.append("\"/>\n");
    out
}

fn description(ep: &Episode) -> (res: String)
    ensures
        res@ == item_description(*ep),
{
    match &ep.description {
        Some(d) => {
            let mut out = "    <description>".to_string();
            out.append(esc(d.as_str()).as_str());
            out.append("</description>\n");
            out
        },
        None => String::new(),
    }
}

fn enclosure(ep: &Episode, address: &str) -> (res: String)
    ensures
        res@ == item_enclosure(*ep, address@),
{
    let mime: &str = match &ep.enclosure_mime {
        Some(m) => m.as_str(),
        None => "audio/mpeg",
    };
    let size: u64 = match ep.enclosure_size {
        Some(n) => n,
        None => 0,
    };
    let mut out = "    <enclosure url=\"".to_string();
    out.append(esc(address).as_str());
    out.append("\" length=\"");
    out.append(text::decimal_text(size).as_str());
    out.append("\" type=\"");
    out.append(esc(mime).as_str());
    out.append("\"/>\n");
    out
}

fn duration(ep: &Episode) -> (res: String)
    ensures
        res@ == item_duration(*ep),
{
    match ep.duration_secs {
        Some(secs) => {
            let mut out = "    <itunes:duration>".to_string();
            out.append(format_duration(secs).as_str());
            out.append("</itunes:duration>\n");
            out
        },
        None => String::new(),
    }
}

fn episode_image(ep: &Episode) -> (res: String)
    ensures
        res@ == item_image(*ep),
{
    match &ep.image_url {
        Some(u) => {
            let mut out = "    <itunes:image href=\"".to_string();
            out.append(esc(u.as_str()).as_str());
            out.append("\"/>\n");
            out
        },
        None => String::new(),
    }
}

fn item(ep: &Episode, address: &str) -> (res: String)
    requires
        time::four_digit_year(ep.pub_date.epoch_secs()),
    ensures
        res@ == item_text(*ep, address@),
{
    let mut out = "  <item>\n".to_string();
    out.append("    <title>");
    out.append(esc(ep.title.as_str()).as_str());
    out.append("</title>\n");
    out.append("    <guid isPermaLink=\"false\">");
    out.append(esc(ep.guid.as_str()).as_str());
    out.append("</guid>\n");
    out.append("    <pubDate>");
    out.append(ep.pub_date.to_rfc2822().as_str());
    out.append("</pubDate>\n");
    out.append(description(ep).as_str());
    out.append(enclosure(ep, address).as_str());
    out.append(duration(ep).as_str());
    out.append(episode_image(ep).as_str());
    out.append("  </item>\n");
    out
}

/// The RSS document of a feed under the name `slug`. The enclosures lead to the server and
/// carry its token, so that a podcast app can fetch the audio without other credentials.
pub fn build_rss(feed: &Feed, episodes: &[Episode], config: &ServerConfig, slug: &str) -> (res:
    String)
    requires
        dates_fit(episodes@),
    ensures
        res@ == rss_text(*feed, episodes@, *config, slug@),
{
    let title: &str = match &feed.title {
        Some(t) => t.as_str(),
        None => slug,
    };
    let address = feed_url(config, slug);
    let mut out = head(title, address.as_str());
    let ghost start = out@;
    match &feed.image_url {
        Some(u) => {
            out.append(feed_image(title, address.as_str(), u.as_str()).as_str());
        },
        None => {
            assert(out@ =~= start + Seq::<char>::empty());
        },
    }
    let ghost before = out@;
    let mut items = String::new();
    for i in 0..episodes.len()
        invariant
            dates_fit(episodes@),
            items@ == items_text(episodes@.take(i as int), *config, slug@),
    {
        assert(episodes@.take(i + 1).drop_last() =~= episodes@.take(i as int));
        let ep = &episodes[i];
        let audio = audio_url(config, slug, ep.id.as_str());
        items.append(item(ep, audio.as_str()).as_str());
    }
    assert(episodes@.take(episodes@.len() as int) =~= episodes@);
    out.append(items.as_str());
    out.append("</channel>\n</rss>\n");
    out
}

/// Where the server has a token, every address that a document gives out carries it.
pub proof fn law_addresses_carry_the_token(
    config: ServerConfig,
    slug: Seq<char>,
    id: Seq<char>,
    token: String,
)
    requires
        config.auth_token == Some(token),
    ensures
        feed_address(config, slug) == config::base_path(config.base_url@) + "rss/"@ + slug + (
        "?key="@ + token@),
        audio_address(config, slug, id) == config::base_path(config.base_url@) + "rss/"@ + slug
            + "/"@ + id + ("?key="@ + token@),
{
}

/// A document shows every episode that it is given, once and in order, with its audio at the
/// server under the feed's slug and the episode's identifier.
pub proof fn law_document_shows_each_episode(
    eps: Seq<Episode>,
    config: ServerConfig,
    slug: Seq<char>,
    i: int,
)
    requires
        0 <= i < eps.len(),
        config.base_url@.len() > 0,
        config.base_url@.last() == '/',
    ensures
        items_text(eps.take(0), config, slug).len() == 0,
        config.auth_token is None ==> items_text(eps.take(i + 1), config, slug) == items_text(
            eps.take(i),
            config,
            slug,
        ) + item_text(eps[i], config.base_url@ + "rss/"@ + slug + "/"@ + eps[i].id@),
        config.auth_token matches Some(token) ==> items_text(eps.take(i + 1), config, slug)
            == items_text(eps.take(i), config, slug) + item_text(
            eps[i],
            config.base_url@ + "rss/"@ + slug + "/"@ + eps[i].id@ + ("?key="@ + token@),
        ),
{
    assert(eps.take(i + 1).drop_last() =~= eps.take(i));
    let plain = config.base_url@ + "rss/"@ + slug + "/"@ + eps[i].id@;
    assert(plain + Seq::<char>::empty() =~= plain);
}

/// Without a token the addresses of a document carry none. An address of the server without a
/// slash at its end gets one.
pub proof fn law_addresses_without_a_token(config: ServerConfig, slug: Seq<char>, id: Seq<char>)
    requires
        config.auth_token is None,
    ensures
        ({
            let base = if config.base_url@.len() > 0 && config.base_url@.last() == '/' {
                config.base_url@
            } else {
                config.base_url@.push('/')
            };
            &&& feed_address(config, slug) == base + "rss/"@ + slug
            &&& audio_address(config, slug, id) == base + "rss/"@ + slug + "/"@ + id
        }),
{
    let base = config::base_path(config.base_url@);
    assert(base + "rss/"@ + slug + Seq::<char>::empty() =~= base + "rss/"@ + slug);
    assert(base + "rss/"@ + slug + "/"@ + id + Seq::<char>::empty() =~= base + "rss/"@ + slug
        + "/"@ + id);
}

/// What an item of a document says of its episode: the title, the identifier, the date, and
/// then the description, the enclosure, the duration and the image, each left out where it is
/// not known.
pub proof fn law_what_an_item_says(ep: Episode, address: Seq<char>)
    ensures
        item_text(ep, address) == "  <item>\n"@ + "    <title>"@ + escaped(ep.title@)
            + "</title>\n"@ + "    <guid isPermaLink=\"false\">"@ + escaped(ep.guid@) + "</guid>\n"@
            + "    <pubDate>"@ + time::rfc2822_text(
            ep.pub_date.epoch_secs(),
            ep.pub_date.subsec(),
        ) + "</pubDate>\n"@ + item_description(ep) + item_enclosure(ep, address) + item_duration(ep)
            + item_image(ep) + "  </item>\n"@,
        ep.description is None ==> item_description(ep).len() == 0,
        ep.description matches Some(d) ==> item_description(ep) == "    <description>"@ + escaped(
            d@,
        ) + "</description>\n"@,
        ep.duration_secs is None ==> item_duration(ep).len() == 0,
        ep.duration_secs matches Some(secs) ==> item_duration(ep) == "    <itunes:duration>"@
            + clock_text(secs as nat) + "</itunes:duration>\n"@,
        ep.image_url is None ==> item_image(ep).len() == 0,
        ep.image_url matches Some(u) ==> item_image(ep) == "    <itunes:image href=\""@ + escaped(
            u@,
        ) + "\"/>\n"@,
{
}

/// The enclosure of an item leads to the given address, never to the origin. A size that is not
/// known is written as 0, and a type that is not known as `audio/mpeg`.
pub proof fn law_enclosure_of_an_item(ep: Episode, address: Seq<char>)
    ensures
        (ep.enclosure_mime is None && ep.enclosure_size is None) ==> item_enclosure(ep, address)
            == "    <enclosure url=\""@ + escaped(address) + "\" length=\""@ + text::decimal(0)
            + "\" type=\""@ + escaped("audio/mpeg"@) + "\"/>\n"@,
        (ep.enclosure_mime is Some && ep.enclosure_size is None) ==> item_enclosure(ep, address)
            == "    <enclosure url=\""@ + escaped(address) + "\" length=\""@ + text::decimal(0)
            + "\" type=\""@ + escaped(ep.enclosure_mime->0@) + "\"/>\n"@,
        (ep.enclosure_mime is None && ep.enclosure_size is Some) ==> item_enclosure(ep, address)
            == "    <enclosure url=\""@ + escaped(address) + "\" length=\""@ + text::decimal(
            ep.enclosure_size->0 as nat,
        ) + "\" type=\""@ + escaped("audio/mpeg"@) + "\"/>\n"@,
        (ep.enclosure_mime is Some && ep.enclosure_size is Some) ==> item_enclosure(ep, address)
            == "    <enclosure url=\""@ + escaped(address) + "\" length=\""@ + text::decimal(
            ep.enclosure_size->0 as nat,
        ) + "\" type=\""@ + escaped(ep.enclosure_mime->0@) + "\"/>\n"@,
        forall|other: crate::weburl::Url|
            #![trigger item_enclosure(Episode { enclosure_url: other, ..ep }, address)]
            item_enclosure(Episode { enclosure_url: other, ..ep }, address) == item_enclosure(
                ep,
                address,
            ),
{
}

/// The head of a document has the title of the feed, and its slug only where it has no title;
/// the image stands in the document exactly where the feed has one.
pub proof fn law_head_of_a_document(
    feed: Feed,
    eps: Seq<Episode>,
    config: ServerConfig,
    slug: Seq<char>,
)
    ensures
        ({
            let address = feed_address(config, slug);
            let tail = items_text(eps, config, slug) + "</channel>\n</rss>\n"@;
            &&& feed.title is None && feed.image_url is None ==> rss_text(feed, eps, config, slug)
                == channel_head(slug, address) + tail
            &&& feed.title is Some && feed.image_url is None ==> rss_text(feed, eps, config, slug)
                == channel_head(feed.title->0@, address) + tail
            &&& feed.title is None && feed.image_url is Some ==> rss_text(feed, eps, config, slug)
                == channel_head(slug, address) + channel_image(slug, address, feed.image_url->0@)
                + tail
            &&& feed.title is Some && feed.image_url is Some ==> rss_text(feed, eps, config, slug)
                == channel_head(feed.title->0@, address) + channel_image(
                feed.title->0@,
                address,
                feed.image_url->0@,
            ) + tail
        }),
{
    let address = feed_address(config, slug);
    let items = items_text(eps, config, slug);
    let end = "</channel>\n</rss>\n"@;
    let title = shown_title(feed, slug);
    let head = channel_head(title, address);
    assert(head + Seq::<char>::empty() + items + end =~= head + (items + end));
    if feed.image_url is Some {
        let image = channel_image(title, address, feed.image_url->0@);
        assert(head + image + items + end =~= head + image + (items + end));
    }
}

/// The head and the image of a document hold the given title, address and image, escaped.
pub proof fn law_channel_texts(title: Seq<char>, address: Seq<char>, image: Seq<char>)
    ensures
        channel_head(title, address) == "<?xml version=\"1.0\" encoding=\"UTF-8\"?>\n"@
            + "<rss version=\"2.0\""@
            + " xmlns:itunes=\"http://www.itunes.com/dtds/podcast-1.0.dtd\""@
            + " xmlns:content=\"http://purl.org/rss/modules/content/\">\n"@ + "<channel>\n"@
            + "  <title>"@ + escaped(title) + "</title>\n"@ + "  <link>"@ + escaped(address)
            + "</link>\n"@ + "  <description>"@ + escaped(title) + "</description>\n"@,
        channel_image(title, address, image) == "  <image>\n"@ + "    <url>"@ + escaped(image)
            + "</url>\n"@ + "    <title>"@ + escaped(title) + "</title>\n"@ + "    <link>"@
            + escaped(address) + "</link>\n"@ + "  </image>\n"@ + "  <itunes:image href=\""@
            + escaped(image) + "\"/>\n"@,
{
}

/// A length of time is shown as hours, minutes and seconds, the latter two with two digits
/// behind what comes before them; a length below an hour has no hours.
pub proof fn law_clock_shows_the_length(h: nat, m: nat, s: nat)
    requires
        m < 60,
        s < 60,
    ensures
        h > 0 ==> clock_text(h * 3600 + m * 60 + s) == text::decimal(h) + ":"@ + text::two_digits(m)
            + ":"@ + text::two_digits(s),
        clock_text(m * 60 + s) == text::decimal(m) + ":"@ + text::two_digits(s),
{
    let secs = h * 3600 + m * 60 + s;
    assert(secs / 3600 == h);
    assert(secs % 3600 == m * 60 + s);
    assert((secs % 3600) / 60 == m);
    assert(secs % 60 == s);
    let short = m * 60 + s;
    assert(short / 3600 == 0);
    assert((short % 3600) / 60 == m);
    assert(short % 60 == s);
}

/// Escaping goes character by character: the four characters that mean something in XML are
/// written as their entities and every other one as it is.
pub proof fn law_escaping_goes_by_characters(s: Seq<char>, c: char)
    ensures
        escaped(Seq::empty()).len() == 0,
        escaped(s.push(c)) == escaped(s) + (if c == '&' {
            "&amp;"@
        } else if c == '<' {
            "&lt;"@
        } else if c == '>' {
            "&gt;"@
        } else if c == '"' {
            "&quot;"@
        } else {
            seq![c]
        }),
{
    lemma_escaped_push(s, c);
}

} // verus!
