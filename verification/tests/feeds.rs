use duralumin::feed::Feed;
use duralumin::feed_parse::{
    episodes_of, extract_enclosure, fetch_body, fetch_headers, fetch_step, parse_bytes,
    EntryLink, FeedEntry, FetchError, FetchStep,
};
use duralumin::http::HttpStatus;
use duralumin::ids::FeedId;
use duralumin::markup::is_tame;
use duralumin::time::UtcTime;
use duralumin::weburl::Url;

fn feed() -> Feed {
    Feed {
        id: FeedId(1),
        url: Url::parse("https://example.com/rss").unwrap(),
        slug: "test".into(),
        title: Some("Old title".into()),
        last_fetched_at: None,
        etag: None,
        last_modified: None,
        enabled: true,
        image_url: None,
    }
}

const RSS: &str = r#"<?xml version="1.0" encoding="UTF-8"?>
<rss version="2.0" xmlns:itunes="http://www.itunes.com/dtds/podcast-1.0.dtd">
<channel>
  <title>A Podcast</title>
  <link>https://example.com</link>
  <description>About things</description>
  <image><url>https://example.com/logo.png</url><title>A Podcast</title><link>https://example.com</link></image>
  <item>
    <title>Part Two</title>
    <guid>g-2</guid>
    <pubDate>Tue, 02 Jan 2024 10:00:00 GMT</pubDate>
    <description>The second.</description>
    <enclosure url="https://example.com/2.mp3" length="2000" type="audio/mpeg"/>
    <itunes:duration>01:00:00</itunes:duration>
  </item>
  <item>
    <title>Without audio</title>
    <guid>g-x</guid>
    <pubDate>Tue, 02 Jan 2024 09:00:00 GMT</pubDate>
  </item>
  <item>
    <title>Part One</title>
    <guid>g-1</guid>
    <pubDate>Mon, 01 Jan 2024 10:00:00 GMT</pubDate>
    <enclosure url="https://example.com/1.mp3" length="1000" type="audio/mpeg"/>
  </item>
</channel>
</rss>
"#;

const ATOM: &str = r#"<?xml version="1.0" encoding="utf-8"?>
<feed xmlns="http://www.w3.org/2005/Atom">
  <title>Atom Podcast</title>
  <id>urn:feed</id>
  <updated>2024-01-03T00:00:00Z</updated>
  <entry>
    <title>Atom Part</title>
    <id>urn:entry-1</id>
    <updated>2024-01-03T00:00:00Z</updated>
    <link rel="enclosure" type="audio/mpeg" href="https://example.com/atom.mp3"/>
    <link rel="alternate" href="https://example.com/atom.html"/>
  </entry>
</feed>
"#;

#[test]
fn rss_entries_become_episodes() {
    assert!(is_tame(RSS.as_bytes()));
    let episodes = parse_bytes(RSS.as_bytes(), &feed()).unwrap();
    assert_eq!(episodes.len(), 2);
    assert_eq!(episodes[0].title, "Part Two");
    assert_eq!(episodes[0].guid, "g-2");
    assert_eq!(episodes[0].duration_secs, Some(3600));
    assert_eq!(episodes[0].enclosure_size, Some(2000));
    assert_eq!(episodes[0].enclosure_mime.as_deref(), Some("audio/mpeg"));
    assert_eq!(episodes[0].enclosure_url.as_str(), "https://example.com/2.mp3");
    assert_eq!(episodes[0].pub_date.timestamp(), 1_704_189_600);
    assert_eq!(episodes[0].description.as_deref(), Some("The second."));
}

#[test]
fn positions_count_the_entries_that_survive() {
    let episodes = parse_bytes(RSS.as_bytes(), &feed()).unwrap();
    assert_eq!(episodes[0].episode_no, 0);
    assert_eq!(episodes[1].episode_no, 1);
    assert_eq!(episodes[1].title, "Part One");
}

#[test]
fn identifiers_differ_within_a_feed() {
    let a = parse_bytes(RSS.as_bytes(), &feed()).unwrap();
    let b = parse_bytes(RSS.as_bytes(), &feed()).unwrap();
    assert_eq!(a[0].id, b[0].id);
    assert_ne!(a[0].id, a[1].id);
}

#[test]
fn atom_enclosure_links_are_found() {
    let episodes = parse_bytes(ATOM.as_bytes(), &feed()).unwrap();
    assert_eq!(episodes.len(), 1);
    assert_eq!(episodes[0].title, "Atom Part");
    assert_eq!(episodes[0].enclosure_url.as_str(), "https://example.com/atom.mp3");
    assert!(episodes[0].pub_date.timestamp() > 0);
}

#[test]
fn garbage_is_a_parse_error() {
    let err = parse_bytes(b"no feed at all", &feed()).unwrap_err();
    assert!(matches!(err, FetchError::Parse(_)));
    assert!(err.to_text().starts_with("feed parse error: "));
}

const SPACES: &str = "xmlns:itunes='http://www.itunes.com/dtds/podcast-1.0.dtd' \
    xmlns:media='http://search.yahoo.com/mrss/'";

fn item_with(start: &[u8], parts: &[u8]) -> Vec<u8> {
    let mut doc = start.to_vec();
    doc.extend_from_slice(format!("<rss version='2.0' {SPACES}><channel><title>T</title>").as_bytes());
    doc.extend_from_slice(b"<item><guid>g</guid><pubDate>Mon, 01 Jan 2024 00:00:00 GMT</pubDate>");
    doc.extend_from_slice(b"<enclosure url='https://example.com/a.mp3' type='audio/mpeg'/>");
    doc.extend_from_slice(parts);
    doc.extend_from_slice(b"</item></channel></rss>");
    doc
}

fn lasting(text: &[u8]) -> Vec<u8> {
    let mut parts = b"<itunes:duration>".to_vec();
    parts.extend_from_slice(text);
    parts.extend_from_slice(b"</itunes:duration>");
    item_with(b"", &parts)
}

fn secs_of(doc: &[u8]) -> Option<u64> {
    assert!(is_tame(doc));
    let episodes = parse_bytes(doc, &feed()).unwrap();
    assert_eq!(episodes.len(), 1);
    episodes[0].duration_secs
}

#[test]
fn durations_are_read() {
    assert_eq!(secs_of(&lasting(b"3600")), Some(3600));
    assert_eq!(secs_of(&lasting(b"12'30\"")), Some(12));
    assert_eq!(secs_of(&lasting(b"1:02:03.30000000000000000004")), Some(3723));
    assert_eq!(secs_of(&lasting(b"<![CDATA[1:02:03]]>")), Some(3723));
    assert_eq!(secs_of(&lasting(b"at 7, 1:02:03, 99999999999999999999")), Some(3723));
    assert_eq!(secs_of(&lasting(b"5, not 99999999999999999999")), Some(5));
    assert_eq!(secs_of(&lasting(b"18446744073709551615")), Some(u64::MAX));
    assert_eq!(secs_of(&lasting(b"&#49;&#x30;0")), Some(100));
    assert_eq!(secs_of(&lasting(b"&amp;&#49;&what;2")), Some(1));
    assert_eq!(secs_of(&lasting(b"99<!-- -->99<?a b?>99")), Some(999_999));
    assert_eq!(secs_of(&lasting(b"9999999999<!-- -->9999999")), Some(99_999_999_999_999_999));
    assert_eq!(secs_of(&lasting("45\u{a0}min".as_bytes())), Some(45));
    assert_eq!(secs_of(&lasting("45\u{5206}\u{663}".as_bytes())), Some(45));
    assert_eq!(secs_of(&lasting(b"a while")), None);
    assert_eq!(secs_of(&lasting(b"")), None);
}

#[test]
fn wild_durations_are_told_apart() {
    let wild: Vec<&[u8]> = vec![
        b"18446744073709551616",
        b"99999999999999999999",
        b"9999999999999999999999:00:00",
        b"5124095576030432:00:00",
        b"1.99999999999999999999:00:00",
        b"&#57;999999999999999999999",
        b"999999999<!-- -->99999999999",
        b"<![CDATA[9999999999]]>9999999999",
        b"&#x663;",
        "\u{ff11}".as_bytes(),
        "1:\u{ff12}\u{ff13}:45".as_bytes(),
        "5.\u{663}".as_bytes(),
    ];
    for text in wild {
        let doc = lasting(text);
        assert!(!is_tame(&doc));
        let err = parse_bytes(&doc, &feed()).unwrap_err();
        assert_eq!(
            err.to_text(),
            "feed parse error: numbers or nested elements in the document cannot be read"
        );
    }
    let attribute = b"<itunes:duration a='>'>99999999999999999999</itunes:duration>";
    assert!(!is_tame(&item_with(b"", attribute)));
    assert_eq!(secs_of(&lasting(b"5124095576030431:00:00")), Some(5_124_095_576_030_431 * 3600));
}

#[test]
fn only_what_the_parser_reads_matters() {
    let huge = "99999999999999999999";
    let mut parts = format!("<link>{huge}</link><description>{huge}</description>");
    parts.push_str(&format!("<duration>{huge}</duration>"));
    parts.push_str(&format!("<p:duration xmlns:p='urn:p'>{huge}</p:duration>"));
    parts.push_str(&format!("<p:a xmlns:p='urn:p'><itunes:duration>{huge}</itunes:duration></p:a>"));
    parts.push_str(&format!("<itunes:durations>{huge}</itunes:durations><itunes:duration/>"));
    parts.push_str(&format!("<media:thumbnail datetime='{huge}' start='{huge}' url='u'/>"));
    parts.push_str(&format!("<itunes:duration xmlns:itunes='urn:p'>{huge}</itunes:duration>"));
    parts.push_str("<itunes:duration a='\0'>60</itunes:duration>");
    assert_eq!(secs_of(&item_with(b"", parts.as_bytes())), Some(60));
    let entry = format!(
        "<feed xmlns='http://www.w3.org/2005/Atom' {SPACES}><id>i</id><entry><id>e</id>\
         <itunes:duration>{huge}</itunes:duration></entry></feed>"
    );
    assert!(is_tame(entry.as_bytes()));
    assert_eq!(parse_bytes(entry.as_bytes(), &feed()).unwrap().len(), 0);
    assert!(is_tame(b"{\"<duration>\": 99999999999999999999}"));
    assert!(is_tame(b"no feed at all"));
}

#[test]
fn document_types_are_skipped() {
    let types: Vec<&[u8]> = vec![
        b"<!DOCTYPE rss PUBLIC \"-//X//>\" \"u\">",
        b"<!DOCTYPE rss [<!ENTITY a 'b'>]>",
        b"<!DOCTYPE rss [<!ENTITY a '>]<x'><!ELEMENT a (b)><!-- ]> --><?p ]>?><!ATTLIST a b '>'> %p; ] >",
        b"<!DOCTYPE rss SYSTEM '[' [<!NOTATION n PUBLIC \">\"><!X ]> ]>",
    ];
    for start in types {
        let doc = item_with(start, b"<itunes:duration>60</itunes:duration>");
        assert_eq!(secs_of(&doc), Some(60));
        let wild = item_with(start, b"<itunes:duration>99999999999999999999</itunes:duration>");
        assert!(!is_tame(&wild));
    }
}

fn nested(open: &str, close: &str, depth: usize) -> Vec<u8> {
    let mut parts = String::new();
    for _ in 0..depth {
        parts.push_str(open);
    }
    for _ in 0..depth {
        parts.push_str(close);
    }
    item_with(b"", parts.as_bytes())
}

#[test]
fn deep_documents_can_be_read() {
    let doc = nested("<p>", "</p>", 20_000);
    assert!(is_tame(&doc));
    assert_eq!(parse_bytes(&doc, &feed()).unwrap().len(), 1);
    let media = nested("<media:content>", "</media:content>", 100);
    assert!(is_tame(&media));
    assert_eq!(parse_bytes(&media, &feed()).unwrap().len(), 1);
    assert!(!is_tame(&nested("<media:content>", "</media:content>", 101)));
    assert!(!is_tame(&nested("<itunes:category text='a'>", "</itunes:category>", 101)));
    assert!(!is_tame(&nested("<p>", "</p>", 66_000)));
}

#[test]
fn unmatched_tags_count_as_open() {
    let mut doc = String::from("<feed>");
    for _ in 0..65_534 {
        doc.push_str("<a></b>");
    }
    assert!(is_tame(doc.as_bytes()));
    doc.push_str("<a></b>");
    assert!(!is_tame(doc.as_bytes()));
}

#[test]
fn errors_that_are_passed_over_hide_nothing() {
    let huge = "<itunes:duration>99999999999999999999</itunes:duration>";
    let hidden = vec![
        format!("<title><!x</title>{huge}"),
        format!("<category><a>&x</a>{huge}</category>"),
        format!("<title></b></title>{huge}"),
        format!("<category></b>{huge}"),
    ];
    for parts in hidden {
        assert!(!is_tame(&item_with(b"", parts.as_bytes())));
    }
    let fine = item_with(b"", b"<title>Tom & Jerry</title><itunes:duration>60</itunes:duration>");
    assert_eq!(secs_of(&fine), Some(60));
}

#[test]
fn playing_times_are_told_apart() {
    let fine = b"<media:thumbnail url='u' time=\"12:05:35.123\"/><media:text start='1' end='2'>t</media:text>";
    assert_eq!(secs_of(&item_with(b"", fine)), None);
    let wild = vec![
        "<media:thumbnail time=\"99999999999999999999\"/>",
        "<media:thumbnail url='u'time = '99999999999999999999'/>",
        "<media:thumbnail time='&#57;9999999999999999999'/>",
        "<media:text start='99999999999999999999'>t</media:text>",
        "<media:text end='99999999999999999999'>t</media:text>",
        "<media:group><media:text end='99999999999999999999'>t</media:text></media:group>",
        "<media:content><media:thumbnail time='99999999999999999999'/></media:content>",
        "<m:text xmlns:m='http://search.yahoo.com/mrss/' end='99999999999999999999'>t</m:text>",
        "<text xmlns='http://search.yahoo.com/mrss/' end='99999999999999999999'>t</text>",
    ];
    for parts in wild {
        assert!(!is_tame(&item_with(b"", parts.as_bytes())));
    }
}

#[test]
fn other_encodings_do_not_hide_numbers() {
    let start = |label: &str| format!("<?xml version='1.0' encoding='{label}'?>");
    let doc = |label: &str, text: &[u8]| {
        let mut parts = b"<itunes:duration>".to_vec();
        parts.extend_from_slice(text);
        parts.extend_from_slice(b"</itunes:duration>");
        item_with(start(label).as_bytes(), &parts)
    };
    assert_eq!(secs_of(&doc("latin1", b"45\xa0min")), Some(45));
    assert_eq!(secs_of(&doc("iso-8859-1", b"45 a\xf1os")), Some(45));
    assert_eq!(secs_of(&doc("gbk", b"45\xb7\xd6")), Some(45));
    assert_eq!(secs_of(&doc("utf8", "45\u{a0}".as_bytes())), Some(45));
    let wild: Vec<(&str, &[u8])> = vec![
        ("latin1", b"\xa099999999999999999999"),
        ("gbk", b"\xa3\xb1"),
        ("euc-jp", b"1:\xa3\xb1\xa3\xb2:30"),
        ("shift_jis", b"\x82\x50"),
        ("big5", b"\xa2\xb0"),
        ("windows-874", b"\xf1"),
        ("gb18030", b"\x81\x31\x82\x36"),
        ("iso-2022-jp", b"\x1b$B#1\x1b(B"),
    ];
    for (label, text) in wild {
        assert!(!is_tame(&doc(label, text)));
    }
    let hidden = b"<media:thumbnail ti\x1b(Bme='99999999999999999999'/>";
    assert!(!is_tame(&item_with(start("iso-2022-jp").as_bytes(), hidden)));
    assert!(!is_tame(b"\xff\xfe<r\0s\0s\0>"));
}

#[test]
fn no_tame_document_stops_the_parser() {
    let pieces: Vec<&[u8]> = vec![
        b"<itunes:duration>", b"</itunes:duration>", b"<itunes:duration/>", b"99999999999999999999",
        b"<title>", b"</title>", b"<item>", b"</item>", b"<channel>", b"</channel>",
        b"<category>", b"</category>", b"<a>", b"</a>", b"</b>", b"&", b"&#49;", b"&x;", b"\xff",
        b"<!x", b"<![CDATA[", b"]]>", b"<!--", b"-->", b"<?", b"?>", b"<!DOCTYPE [", b"]>", b"<",
        b">", b"/>", b"<media:thumbnail time='", b"'", b"\"", b"<media:text end=\"", b"1:",
        b"<media:content>", b"</media:content>", b"xmlns:itunes=''", b"< ", b"<>", b"</>",
        b"\xef\xbc\x91", b"<rss ", b"</rss>", b"<dc:creator>", b" xmlns='", b"0", b".", b" = ",
    ];
    let mut seed: u64 = 7;
    let mut tame = 0;
    for _ in 0..ROUNDS {
        let mut parts: Vec<u8> = Vec::new();
        for _ in 0..12 {
            seed = seed.wrapping_mul(6364136223846793005).wrapping_add(1442695040888963407);
            parts.extend_from_slice(pieces[(seed >> 33) as usize % pieces.len()]);
        }
        let doc = item_with(b"", &parts);
        if is_tame(&doc) {
            tame += 1;
            let _ = parse_bytes(&doc, &feed());
        }
    }
    assert!(tame > ROUNDS / 10);
}

const ROUNDS: usize = 20_000;

#[test]
fn validators_are_sent_back() {
    let mut f = feed();
    assert_eq!(fetch_headers(&f).len(), 0);
    f.etag = Some("\"abc\"".into());
    f.last_modified = Some("Mon, 01 Jan 2024 00:00:00 GMT".into());
    let headers = fetch_headers(&f);
    assert_eq!(headers.len(), 2);
    assert_eq!(headers[0].1, "\"abc\"");
    assert_eq!(headers[1].1, "Mon, 01 Jan 2024 00:00:00 GMT");
}

#[test]
fn status_decides_what_follows() {
    let f = feed();
    let ok = HttpStatus::from_u16(200).unwrap();
    assert!(matches!(fetch_step(&f, ok), FetchStep::ReadBody));
    let same = HttpStatus::from_u16(304).unwrap();
    match fetch_step(&f, same) {
        FetchStep::NotModified(meta) => assert_eq!(meta.title, None),
        _ => panic!("the feed was not modified"),
    }
    let gone = HttpStatus::from_u16(404).unwrap();
    match fetch_step(&f, gone) {
        FetchStep::Failed(e) => assert_eq!(e.to_text(), "HTTP 404 Not Found"),
        _ => panic!("the request failed"),
    }
}

#[test]
fn body_gives_metadata_and_episodes() {
    let (meta, episodes) =
        fetch_body(&feed(), Some("e".into()), None, RSS.as_bytes()).unwrap();
    assert_eq!(meta.title.as_deref(), Some("A Podcast"));
    assert_eq!(meta.etag.as_deref(), Some("e"));
    assert_eq!(meta.last_modified, None);
    assert_eq!(
        meta.image_url.map(|u| u.as_str().to_string()).as_deref(),
        Some("https://example.com/logo.png")
    );
    assert_eq!(episodes.len(), 2);
}

fn bare_entry() -> FeedEntry {
    FeedEntry {
        id: "id".into(),
        title: None,
        summary: None,
        body: None,
        published: None,
        updated: None,
        media: Vec::new(),
        links: Vec::new(),
    }
}

#[test]
fn entries_need_an_enclosure_and_a_date() {
    let mut entry = bare_entry();
    assert!(extract_enclosure(&entry).is_none());
    entry.links.push(EntryLink {
        href: "https://example.com/a.mp3".into(),
        rel: Some("enclosure".into()),
        media_type: Some("audio/mpeg".into()),
    });
    let found = extract_enclosure(&entry).unwrap();
    assert_eq!(found.0.as_str(), "https://example.com/a.mp3");
    assert_eq!(found.1, None);
    assert_eq!(found.2.as_deref(), Some("audio/mpeg"));
    let undated = vec![entry];
    assert_eq!(episodes_of(&undated, &feed()).len(), 0);
    let mut dated = undated;
    dated[0].updated = UtcTime::from_timestamp(1000, 0);
    assert_eq!(episodes_of(&dated, &feed()).len(), 1);
}

#[test]
fn request_errors_have_texts() {
    assert_eq!(FetchError::Http("refused".into()).to_text(), "HTTP error: refused");
}
