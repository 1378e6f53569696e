use duralumin::filename::{ext_from_mime, sanitize_title, truncate_utf8};
use duralumin::text::trim_white;

#[test]
fn white_space_is_trimmed_at_both_ends() {
    let listed = |n: u32| {
        (0x9..=0xd).contains(&n)
            || [0x20, 0x85, 0xa0, 0x1680, 0x2028, 0x2029, 0x202f, 0x205f, 0x3000].contains(&n)
            || (0x2000..=0x200a).contains(&n)
    };
    for n in 0..=0x10ffff_u32 {
        if let Some(c) = char::from_u32(n) {
            let text: String = [c, 'a', c].iter().collect();
            let trimmed = trim_white(&text);
            assert_eq!(trimmed == "a", listed(n));
            assert_eq!(trimmed, text.trim());
        }
    }
}

#[test]
fn basic_sanitise() {
    assert_eq!(sanitize_title("Hello, World! (2024)"), "hello-world-2024");
}

#[test]
fn collapses_runs_of_dashes() {
    assert_eq!(sanitize_title("foo   bar---baz"), "foo-bar-baz");
}

#[test]
fn trims_edges() {
    assert_eq!(sanitize_title("  hello  "), "hello");
}

#[test]
fn truncates_at_utf8_boundary() {
    // Each '→' is 3 bytes; 27 of them = 81 bytes — should truncate to 26 (78 bytes).
    let long: String = "→".repeat(27);
    let result = sanitize_title(&long);
    assert!(result.len() <= 80);
    assert!(long.is_char_boundary(result.len()) || result.is_empty());
}

#[test]
fn ext_mime_priority() {
    assert_eq!(ext_from_mime(Some("audio/mpeg"), "https://ex.com/ep.m4a"), "mp3");
}

#[test]
fn ext_url_fallback() {
    assert_eq!(ext_from_mime(None, "https://ex.com/ep.m4a?v=1"), "m4a");
}

#[test]
fn ext_default_fallback() {
    assert_eq!(ext_from_mime(None, "https://ex.com/episode"), "mp3");
}

#[test]
fn truncation_keeps_whole_characters() {
    assert_eq!(truncate_utf8("a→b", 3), "a");
    assert_eq!(truncate_utf8("a→b", 4), "a→");
    assert_eq!(truncate_utf8("a→b", 5), "a→b");
    assert_eq!(truncate_utf8("a→b", 0), "");
}

#[test]
fn upper_case_beyond_ascii_becomes_lower() {
    // The title is put in lower case before other characters become dashes.
    assert_eq!(sanitize_title("ABC"), "abc");
    assert_eq!(sanitize_title("K\u{212A}x"), "kkx");
}

#[test]
fn sanitizing_is_stable() {
    let once = sanitize_title("The *Best* of: 2023 / 2024?!");
    assert_eq!(once, "the-best-of-2023-2024");
    assert_eq!(sanitize_title(&once), once);
}

#[test]
fn mime_parameters_are_ignored() {
    assert_eq!(ext_from_mime(Some("audio/mp4; codecs=aac"), "https://ex.com/x"), "m4a");
    assert_eq!(ext_from_mime(Some("text/html"), "https://ex.com/x.ogg"), "ogg");
}
