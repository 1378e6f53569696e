use duralumin::ids::{EpisodeId, FeedId};
use sha2::Digest;

#[test]
fn from_parts_is_deterministic() {
    let a = EpisodeId::from_parts("https://example.com/feed", "episode-1");
    let b = EpisodeId::from_parts("https://example.com/feed", "episode-1");
    assert_eq!(a, b);
}

#[test]
fn from_parts_distinguishes_feed_and_guid() {
    let a = EpisodeId::from_parts("https://feed-a.com/rss", "ep-1");
    let b = EpisodeId::from_parts("https://feed-b.com/rss", "ep-1");
    let c = EpisodeId::from_parts("https://feed-a.com/rss", "ep-2");
    assert_ne!(a, b);
    assert_ne!(a, c);
}

#[test]
fn short_is_8_chars() {
    let id = EpisodeId::from_parts("url", "guid");
    assert_eq!(id.short().len(), 8);
}

#[test]
fn identifier_is_the_hash_of_url_and_guid() {
    let id = EpisodeId::from_parts("u", "g");
    let digest = sha2::Sha256::digest(b"u\0g");
    let expected = hex::encode(digest);
    assert_eq!(id.as_str(), expected);
    assert_eq!(id.short(), &expected[..8]);
}

#[test]
fn separator_tells_parts_apart() {
    let a = EpisodeId::from_parts("ab", "c");
    let b = EpisodeId::from_parts("a", "bc");
    assert_ne!(a, b);
}

#[test]
fn identifiers_convert_to_and_from_text() {
    let id = EpisodeId::from(String::from("0123456789abcdef"));
    assert_eq!(id.as_str(), "0123456789abcdef");
    assert_eq!(id.short(), "01234567");
    assert_eq!(String::from(id), "0123456789abcdef");
    assert_eq!(FeedId(7).0, 7);
}
