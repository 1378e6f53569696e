//! Names of the files that episodes are kept in.
use crate::text;
use vstd::prelude::*;
use vstd::string::*;
use vstd::utf8::*;

verus! {

// ---- Truncation ----------------------------------------------------------------

/// `s` without as many characters at its end as it takes to fit in `max` bytes.
pub open spec fn truncated(s: Seq<char>, max: nat) -> Seq<char>
    decreases s.len(),
{
    if encode_utf8(s).len() <= max || s.len() == 0 {
        s
    } else {
        truncated(s.drop_last(), max)
    }
}

proof fn lemma_encode_concat(a: Seq<char>, b: Seq<char>)
    ensures
        encode_utf8(a + b) == encode_utf8(a) + encode_utf8(b),
    decreases a.len(),
{
    if a.len() == 0 {
        assert(a + b =~= b);
        assert(encode_utf8(a) + encode_utf8(b) =~= encode_utf8(b));
    } else {
        assert((a + b).drop_first() =~= a.drop_first() + b);
        lemma_encode_concat(a.drop_first(), b);
        assert((a + b)[0] == a[0]);
        assert(encode_utf8(a + b) =~= encode_utf8(a) + encode_utf8(b));
    }
}

proof fn lemma_encode_nonempty(s: Seq<char>)
    requires
        s.len() > 0,
    ensures
        encode_utf8(s).len() >= s.len(),
    decreases s.len(),
{
    char_is_scalar(s[0]);
    if s.len() > 1 {
        lemma_encode_nonempty(s.drop_first());
    }
}

/// The text that `k` characters of `s` leave stands at a character boundary.
proof fn lemma_prefix_boundary(s: Seq<char>, k: int)
    requires
        0 <= k <= s.len(),
    ensures
        encode_utf8(s.take(k)).len() <= encode_utf8(s).len(),
        encode_utf8(s).take(encode_utf8(s.take(k)).len() as int) == encode_utf8(s.take(k)),
        is_char_boundary(encode_utf8(s), encode_utf8(s.take(k)).len() as int),
{
    let head = s.take(k);
    let tail = s.skip(k);
    assert(s =~= head + tail);
    lemma_encode_concat(head, tail);
    let bytes = encode_utf8(s);
    let n = encode_utf8(head).len() as int;
    assert(bytes.take(n) =~= encode_utf8(head));
    encode_utf8_valid_utf8(s);
    encode_utf8_valid_utf8(tail);
    encode_utf8_valid_utf8(head);
    if tail.len() == 0 {
        assert(n == bytes.len());
        is_char_boundary_start_end_of_seq(bytes);
    } else {
        lemma_encode_nonempty(tail);
        assert(bytes[n] == encode_utf8(tail)[0]);
        encode_utf8_first_scalar(tail);
        is_char_boundary_iff_not_is_continuation_byte(bytes, n);
        is_char_boundary_start_end_of_seq(encode_utf8(tail));
        is_char_boundary_iff_not_is_continuation_byte(encode_utf8(tail), 0);
    }
}

proof fn lemma_truncated(s: Seq<char>, k: int, max: nat)
    requires
        0 <= k <= s.len(),
        encode_utf8(s.take(k)).len() <= max,
        k < s.len() ==> encode_utf8(s.take(k + 1)).len() > max,
    ensures
        truncated(s, max) == s.take(k),
    decreases s.len(),
{
    if k == s.len() {
        assert(s.take(k) =~= s);
    } else {
        assert(s.take(k + 1) =~= s.take(k + 1).take(k + 1));
        lemma_prefix_boundary(s, k + 1);
        let shorter = s.drop_last();
        assert(shorter.take(k) =~= s.take(k));
        if k + 1 < s.len() {
            assert(shorter.take(k + 1) =~= s.take(k + 1));
        }
        lemma_truncated(shorter, k, max);
    }
}

/// The longest start of `s` that fits in `max_bytes` bytes without cutting a character.
pub fn truncate_utf8(s: &str, max_bytes: usize) -> (res: String)
    ensures
        res@ == truncated(s@, max_bytes as nat),
        encode_utf8(res@).len() <= max_bytes,
        res@ == s@.take(res@.len() as int),
{
    let ghost bytes = encode_utf8(s@);
    if s.as_bytes().len() <= max_bytes {
        assert(s@.take(s@.len() as int) =~= s@);
        return s.to_string();
    }
    let mut end = max_bytes;
    proof {
        encode_utf8_valid_utf8(s@);
        is_char_boundary_start_end_of_seq(bytes);
    }
    while end > 0 && !s.is_char_boundary(end)
        invariant
            end <= max_bytes < bytes.len(),
            bytes == encode_utf8(s@),
            forall|i: int| end < i <= max_bytes ==> !is_char_boundary(bytes, i),
        decreases end,
    {
        end = end - 1;
    }
    let parts = s.split_at(end);
    let head = parts.0;
    proof {
        let rest = parts.1@;
        encode_utf8_decode_utf8(s@);
        lemma_encode_concat(head@, rest);
        assert(bytes =~= encode_utf8(head@) + encode_utf8(rest));
        encode_utf8_decode_utf8(head@ + rest);
        assert(s@ == head@ + rest);
        let k = head@.len() as int;
        assert(s@.take(k) =~= head@);
        if k < s@.len() {
            lemma_prefix_boundary(s@, k + 1);
            let next = s@.take(k + 1);
            assert(next =~= head@ + seq![s@[k]]);
            lemma_encode_concat(head@, seq![s@[k]]);
            lemma_encode_nonempty(seq![s@[k]]);
        }
        lemma_truncated(s@, k, max_bytes as nat);
    }
    head.to_string()
}

// ---- Titles ----------------------------------------------------------------------

/// `s` with a dash in place of each character that is no ASCII letter or digit.
pub open spec fn dashed(s: Seq<char>) -> Seq<char> {
    Seq::new(s.len(), |i: int| if text::is_ascii_alphanumeric(s[i]) { s[i] } else { '-' })
}

/// `s` with each run of dashes replaced by one dash.
pub open spec fn collapsed(s: Seq<char>) -> Seq<char>
    decreases s.len(),
{
    if s.len() == 0 {
        s
    } else if s.last() == '-' && s.len() >= 2 && s[s.len() - 2] == '-' {
        collapsed(s.drop_last())
    } else {
        collapsed(s.drop_last()).push(s.last())
    }
}

/// The file name of an episode whose lower-case title is `lower`.
pub open spec fn sanitized(lower: Seq<char>) -> Seq<char> {
    truncated(text::trimmed(collapsed(dashed(lower)), text::is_char('-')), 80)
}

/// Whether `c` may stand in a file name.
pub open spec fn is_name_char(c: char) -> bool {
    text::is_ascii_lower(c) || text::is_ascii_digit(c) || c == '-'
}

/// Whether `s` holds only characters of file names, no two dashes in a row and none in front.
pub open spec fn is_clean(s: Seq<char>) -> bool {
    &&& forall|i: int| 0 <= i < s.len() ==> is_name_char(#[trigger] s[i])
    &&& forall|i: int| 0 < i < s.len() ==> !(s[i - 1] == '-' && #[trigger] s[i] == '-')
    &&& s.len() > 0 ==> s[0] != '-'
}

fn collapse_dashes(s: &str) -> (res: String)
    ensures
        res@ == collapsed(s@),
{
    let v = text::chars_of(s);
    let mut out = String::new();
    let mut prev = false;
    for i in 0..v.len()
        invariant
            v@ == s@,
            out@ == collapsed(s@.take(i as int)),
            prev == (i > 0 && s@[i - 1] == '-'),
    {
        let c = v[i];
        assert(s@.take(i + 1).drop_last() =~= s@.take(i as int));
        if c == '-' {
            if !prev {
                out.push(c);
            }
            prev = true;
        } else {
            out.push(c);
            prev = false;
        }
    }
    assert(s@.take(s@.len() as int) =~= s@);
    out
}

fn sanitize_lower(lower: &str) -> (res: String)
    ensures
        res@ == sanitized(lower@),
{
    let v = text::chars_of(lower);
    let mut replaced = String::new();
    for i in 0..v.len()
        invariant
            v@ == lower@,
            replaced@ == dashed(lower@).take(i as int),
    {
        let c = v[i];
        replaced.push(if text::ascii_alphanumeric(c) { c } else { '-' });
        assert(dashed(lower@).take(i + 1) =~= dashed(lower@).take(i as int).push(
            dashed(lower@)[i as int],
        ));
    }
    assert(dashed(lower@).take(lower@.len() as int) =~= dashed(lower@));
    let one_dash = collapse_dashes(replaced.as_str());
    let trimmed = text::trim_char(one_dash.as_str(), '-');
    truncate_utf8(trimmed.as_str(), 80)
}

/// The part of a file name that an episode's title gives:
///
/// 1. lower case
/// 2. a dash for any character that is not in `[a-z0-9]`
/// 3. one dash for a run of dashes
/// 4. no dashes at the ends
/// 5. at most 80 bytes
pub fn sanitize_title(title: &str) -> (res: String)
    ensures
        res@ == sanitized(text::lowercase(title@)),
        is_clean(res@),
        encode_utf8(res@).len() <= 80,
{
    let lower = text::to_lower(title);
    let res = sanitize_lower(lower.as_str());
    proof {
        lemma_sanitized_is_clean(lower@);
    }
    res
}

proof fn lemma_collapsed(s: Seq<char>)
    requires
        forall|i: int| 0 <= i < s.len() ==> is_name_char(#[trigger] s[i]),
    ensures
        forall|i: int| 0 <= i < collapsed(s).len() ==> is_name_char(#[trigger] collapsed(s)[i]),
        forall|i: int|
            0 < i < collapsed(s).len() ==> !(collapsed(s)[i - 1] == '-' && #[trigger] collapsed(
                s,
            )[i] == '-'),
        s.len() > 0 ==> collapsed(s).len() > 0 && collapsed(s).last() == s.last(),
    decreases s.len(),
{
    if s.len() > 0 {
        let shorter = s.drop_last();
        lemma_collapsed(shorter);
        let c = collapsed(s);
        let d = collapsed(shorter);
        if !(s.last() == '-' && s.len() >= 2 && s[s.len() - 2] == '-') {
            assert(c == d.push(s.last()));
            assert forall|i: int| 0 <= i < c.len() implies is_name_char(#[trigger] c[i]) by {
                if i < d.len() {
                    assert(c[i] == d[i]);
                }
            }
            assert forall|i: int| 0 < i < c.len() implies !(c[i - 1] == '-' && #[trigger] c[i] == '-') by {
                if i < d.len() {
                    assert(c[i] == d[i]);
                }
            }
        }
    }
}

proof fn lemma_skip_left_is_skip(s: Seq<char>, p: spec_fn(char) -> bool)
    ensures
        exists|k: int| 0 <= k <= s.len() && text::skip_left(s, p) == #[trigger] s.skip(k),
        text::skip_left(s, p).len() > 0 ==> !p(text::skip_left(s, p)[0]),
    decreases s.len(),
{
    if s.len() > 0 && p(s[0]) {
        lemma_skip_left_is_skip(s.drop_first(), p);
        let k = choose|k: int|
            0 <= k <= s.drop_first().len() && text::skip_left(s.drop_first(), p)
                == #[trigger] s.drop_first().skip(k);
        assert(s.drop_first().skip(k) =~= s.skip(k + 1));
    } else {
        assert(s.skip(0) =~= s);
    }
}

proof fn lemma_skip_right_is_take(s: Seq<char>, p: spec_fn(char) -> bool)
    ensures
        exists|k: int| 0 <= k <= s.len() && text::skip_right(s, p) == #[trigger] s.take(k),
        text::skip_right(s, p).len() > 0 ==> !p(text::skip_right(s, p).last()),
    decreases s.len(),
{
    if s.len() > 0 && p(s.last()) {
        lemma_skip_right_is_take(s.drop_last(), p);
        let k = choose|k: int|
            0 <= k <= s.drop_last().len() && text::skip_right(s.drop_last(), p)
                == #[trigger] s.drop_last().take(k);
        assert(s.drop_last().take(k) =~= s.take(k));
    } else {
        assert(s.take(s.len() as int) =~= s);
    }
}

proof fn lemma_truncated_is_take(s: Seq<char>, max: nat)
    ensures
        exists|k: int| 0 <= k <= s.len() && truncated(s, max) == #[trigger] s.take(k),
        encode_utf8(truncated(s, max)).len() <= max,
        encode_utf8(s).len() <= max ==> truncated(s, max) == s,
    decreases s.len(),
{
    if encode_utf8(s).len() <= max || s.len() == 0 {
        assert(s.take(s.len() as int) =~= s);
    } else {
        lemma_truncated_is_take(s.drop_last(), max);
        let k = choose|k: int|
            0 <= k <= s.drop_last().len() && truncated(s.drop_last(), max)
                == #[trigger] s.drop_last().take(k);
        assert(s.drop_last().take(k) =~= s.take(k));
    }
}

proof fn lemma_sanitized_is_clean(lower: Seq<char>)
    requires
        forall|i: int| 0 <= i < lower.len() ==> !text::is_ascii_upper(#[trigger] lower[i]),
    ensures
        is_clean(sanitized(lower)),
        encode_utf8(sanitized(lower)).len() <= 80,
{
    let a = dashed(lower);
    let b = collapsed(a);
    let c = text::skip_left(b, text::is_char('-'));
    let d = text::skip_right(c, text::is_char('-'));
    lemma_collapsed(a);
    lemma_skip_left_is_skip(b, text::is_char('-'));
    lemma_skip_right_is_take(c, text::is_char('-'));
    lemma_truncated_is_take(d, 80);
    assert(is_clean(c));
    assert(is_clean(d));
}

proof fn lemma_collapsed_of_clean(s: Seq<char>)
    requires
        forall|i: int| 0 < i < s.len() ==> !(s[i - 1] == '-' && #[trigger] s[i] == '-'),
    ensures
        collapsed(s) == s,
    decreases s.len(),
{
    if s.len() > 0 {
        lemma_collapsed_of_clean(s.drop_last());
        assert(s.drop_last().push(s.last()) =~= s);
    }
}

/// A file name that was made from a title, and that does not end in a dash, is the file name
/// made from itself. (One ends in a dash where the cut at 80 bytes falls behind a dash.)
pub proof fn law_sanitizing_twice_changes_nothing(lower: Seq<char>)
    requires
        forall|i: int| 0 <= i < lower.len() ==> !text::is_ascii_upper(#[trigger] lower[i]),
        sanitized(lower).len() > 0 ==> sanitized(lower).last() != '-',
    ensures
        text::ascii_lowercase(sanitized(lower)) == sanitized(lower),
        is_ascii_chars(sanitized(lower)),
        sanitized(text::ascii_lowercase(sanitized(lower))) == sanitized(lower),
{
    lemma_sanitized_is_clean(lower);
    let s = sanitized(lower);
    assert(text::ascii_lowercase(s) =~= s);
    assert(dashed(s) =~= s);
    lemma_collapsed_of_clean(s);
    assert(text::skip_left(s, text::is_char('-')) == s);
    assert(text::skip_right(s, text::is_char('-')) == s);
    lemma_truncated_is_take(s, 80);
}

// ---- Extensions --------------------------------------------------------------------

/// The extension that belongs to a MIME type.
pub open spec fn mime_ext(m: Seq<char>) -> Option<Seq<char>> {
    if m == "audio/mpeg"@ || m == "audio/mp3"@ {
        Some("mp3"@)
    } else if m == "audio/mp4"@ || m == "audio/x-m4a"@ || m == "audio/m4a"@ {
        Some("m4a"@)
    } else if m == "audio/ogg"@ {
        Some("ogg"@)
    } else if m == "audio/opus"@ {
        Some("opus"@)
    } else if m == "audio/flac"@ {
        Some("flac"@)
    } else if m == "audio/aac"@ {
        Some("aac"@)
    } else if m == "audio/wav"@ || m == "audio/x-wav"@ {
        Some("wav"@)
    } else {
        None
    }
}

/// Whether an extension is one of those that audio files have.
pub open spec fn is_audio_ext(e: Seq<char>) -> bool {
    e == "mp3"@ || e == "m4a"@ || e == "ogg"@ || e == "opus"@ || e == "flac"@ || e == "aac"@ || e
        == "wav"@
}

/// The MIME type in a header value: what stands before the first semicolon, trimmed.
pub open spec fn mime_type(m: Seq<char>) -> Seq<char> {
    text::trimmed(text::before(m, ';'), text::is_white())
}

/// What follows the last dot of an address without its query, in lower case.
pub open spec fn url_ext(url: Seq<char>) -> Option<Seq<char>> {
    let path = text::before(url, '?');
    let dot = text::last_position(path, '.');
    if dot >= 0 {
        Some(text::ascii_lowercase(path.skip(dot + 1)))
    } else {
        None
    }
}

/// The extension of an episode's file.
pub open spec fn audio_ext(mime: Option<Seq<char>>, url: Seq<char>) -> Seq<char> {
    if mime is Some && mime_ext(mime_type(mime->0)) is Some {
        mime_ext(mime_type(mime->0))->0
    } else if url_ext(url) is Some && is_audio_ext(url_ext(url)->0) {
        url_ext(url)->0
    } else {
        "mp3"@
    }
}

fn ext_of_mime(m: &str) -> (res: Option<&'static str>)
    ensures
        res is Some <==> mime_ext(m@) is Some,
        res is Some ==> res->0@ == mime_ext(m@)->0,
{
    if text::same_text(m, "audio/mpeg") || text::same_text(m, "audio/mp3") {
        Some("mp3")
    } else if text::same_text(m, "audio/mp4") || text::same_text(m, "audio/x-m4a")
        || text::same_text(m, "audio/m4a") {
        Some("m4a")
    } else if text::same_text(m, "audio/ogg") {
        Some("ogg")
    } else if text::same_text(m, "audio/opus") {
        Some("opus")
    } else if text::same_text(m, "audio/flac") {
        Some("flac")
    } else if text::same_text(m, "audio/aac") {
        Some("aac")
    } else if text::same_text(m, "audio/wav") || text::same_text(m, "audio/x-wav") {
        Some("wav")
    } else {
        None
    }
}

fn known_ext(e: &str) -> (res: Option<&'static str>)
    ensures
        res is Some <==> is_audio_ext(e@),
        res is Some ==> res->0@ == e@,
{
    if text::same_text(e, "mp3") {
        Some("mp3")
    } else if text::same_text(e, "m4a") {
        Some("m4a")
    } else if text::same_text(e, "ogg") {
        Some("ogg")
    } else if text::same_text(e, "opus") {
        Some("opus")
    } else if text::same_text(e, "flac") {
        Some("flac")
    } else if text::same_text(e, "aac") {
        Some("aac")
    } else if text::same_text(e, "wav") {
        Some("wav")
    } else {
        None
    }
}

/// The extension of an episode's file, from its MIME type, else from its address, else
/// `"mp3"`.
pub fn ext_from_mime(mime: Option<&str>, url: &str) -> (res: &'static str)
    ensures
        res@ == audio_ext(
            match mime {
                Some(m) => Some(m@),
                None => None,
            },
            url@,
        ),
{
    if let Some(m) = mime {
        let kind = text::trim_white(text::text_before(m, ';').as_str());
        if let Some(ext) = ext_of_mime(kind.as_str()) {
            return ext;
        }
    }
    let path = text::text_before(url, '?');
    if let Some(last) = text::text_after_last(path.as_str(), '.') {
        let lower = text::ascii_lowercase_text(last.as_str());
        if let Some(ext) = known_ext(lower.as_str()) {
            return ext;
        }
    }
    "mp3"
}

/// Every extension that is given is one of those that audio files have.
pub proof fn law_extension_is_audio(mime: Option<Seq<char>>, url: Seq<char>)
    ensures
        is_audio_ext(audio_ext(mime, url)),
{
}

// ---- Laws --------------------------------------------------------------------------

proof fn lemma_dashed_concat(a: Seq<char>, b: Seq<char>)
    ensures
        dashed(a + b) == dashed(a) + dashed(b),
{
    assert(dashed(a + b) =~= dashed(a) + dashed(b));
}

proof fn lemma_collapsed_concat(x: Seq<char>, y: Seq<char>)
    requires
        x.len() == 0 || y.len() == 0 || x.last() != '-' || y[0] != '-',
    ensures
        collapsed(x + y) == collapsed(x) + collapsed(y),
    decreases y.len(),
{
    if y.len() == 0 {
        assert(x + y =~= x);
        assert(collapsed(x) + collapsed(y) =~= collapsed(x));
    } else {
        let s = x + y;
        let z = y.drop_last();
        assert(s.drop_last() =~= x + z);
        assert(s.last() == y.last());
        lemma_collapsed_concat(x, z);
        if y.len() >= 2 {
            assert(s[s.len() - 2] == y[y.len() - 2]);
        } else if x.len() > 0 {
            assert(s[s.len() - 2] == x.last());
        }
        assert(collapsed(x) + collapsed(z).push(y.last()) =~= (collapsed(x) + collapsed(z)).push(
            y.last(),
        ));
    }
}

proof fn lemma_collapsed_dashes(s: Seq<char>)
    requires
        s.len() > 0,
        forall|i: int| 0 <= i < s.len() ==> s[i] == '-',
    ensures
        collapsed(s) == seq!['-'],
    decreases s.len(),
{
    if s.len() > 1 {
        lemma_collapsed_dashes(s.drop_last());
    } else {
        assert(collapsed(s.drop_last()) =~= Seq::<char>::empty());
        assert(collapsed(s) =~= seq!['-']);
    }
}

proof fn lemma_collapsed_shape(s: Seq<char>)
    ensures
        collapsed(s).len() <= s.len(),
        s.len() > 0 ==> collapsed(s).len() > 0 && collapsed(s)[0] == s[0] && collapsed(s).last()
            == s.last(),
        is_ascii_chars(s) ==> is_ascii_chars(collapsed(s)),
    decreases s.len(),
{
    if s.len() > 0 {
        let d = s.drop_last();
        lemma_collapsed_shape(d);
        if is_ascii_chars(s) {
            assert forall|i: int| 0 <= i < d.len() implies (#[trigger] d[i]) as nat == s[i] as nat by {}
            assert(is_ascii_chars(d));
            let c = collapsed(s);
            assert forall|i: int| 0 <= i < c.len() implies '\0' <= #[trigger] c[i] <= '\u{7f}' by {
                if i < collapsed(d).len() {
                    assert(collapsed(d)[i] == c[i]);
                }
            }
        }
    }
}

/// What is left of a text whose first and last characters are letters or digits.
proof fn lemma_sanitized_word(a: Seq<char>)
    requires
        a.len() > 0,
        text::is_ascii_alphanumeric(a[0]),
        text::is_ascii_alphanumeric(a.last()),
    ensures
        sanitized(a) == truncated(collapsed(dashed(a)), 80),
        a.len() <= 80 ==> sanitized(a) == collapsed(dashed(a)),
        is_ascii_chars(collapsed(dashed(a))),
{
    let c = collapsed(dashed(a));
    lemma_collapsed_shape(dashed(a));
    assert(is_ascii_chars(dashed(a)));
    assert(text::skip_left(c, text::is_char('-')) == c);
    assert(text::skip_right(c, text::is_char('-')) == c);
    is_ascii_chars_encode_utf8(c);
}

/// A text of letters and digits is its own file name, cut off behind 80 characters.
pub proof fn law_word_is_its_own_file_name(w: Seq<char>)
    requires
        forall|i: int| 0 <= i < w.len() ==> text::is_ascii_alphanumeric(#[trigger] w[i]),
    ensures
        w.len() <= 80 ==> sanitized(w) == w,
        w.len() > 80 ==> sanitized(w) == w.take(80),
{
    assert(dashed(w) =~= w);
    lemma_collapsed_of_clean(w);
    if w.len() > 0 {
        lemma_sanitized_word(w);
        lemma_truncated_ascii(w, 80);
    } else {
        assert(sanitized(w) =~= w);
    }
}

proof fn lemma_truncated_ascii(s: Seq<char>, max: nat)
    requires
        is_ascii_chars(s),
    ensures
        s.len() <= max ==> truncated(s, max) == s,
        s.len() > max ==> truncated(s, max) == s.take(max as int),
    decreases s.len(),
{
    is_ascii_chars_encode_utf8(s);
    if s.len() > max {
        let d = s.drop_last();
        assert(is_ascii_chars(d));
        lemma_truncated_ascii(d, max);
        if d.len() > max {
            assert(d.take(max as int) =~= s.take(max as int));
        } else {
            assert(d =~= s.take(max as int));
        }
    }
}

/// Whatever stands between two words, as long as it holds no letter and no digit, becomes one
/// dash in the file name; words with nothing between them stay together.
pub proof fn law_one_dash_between_words(a: Seq<char>, sep: Seq<char>, b: Seq<char>)
    requires
        a.len() > 0,
        b.len() > 0,
        text::is_ascii_alphanumeric(a[0]),
        text::is_ascii_alphanumeric(a.last()),
        text::is_ascii_alphanumeric(b[0]),
        text::is_ascii_alphanumeric(b.last()),
        forall|i: int| 0 <= i < sep.len() ==> !text::is_ascii_alphanumeric(#[trigger] sep[i]),
        a.len() + sep.len() + b.len() <= 80,
    ensures
        sep.len() > 0 ==> sanitized(a + sep + b) == sanitized(a) + seq!['-'] + sanitized(b),
        sep.len() == 0 ==> sanitized(a + sep + b) == sanitized(a) + sanitized(b),
{
    let s = a + sep + b;
    assert(s[0] == a[0]);
    assert(s.last() == b.last());
    lemma_sanitized_word(s);
    lemma_sanitized_word(a);
    lemma_sanitized_word(b);
    lemma_dashed_concat(a + sep, b);
    lemma_dashed_concat(a, sep);
    let x = dashed(a);
    let d = dashed(sep);
    let y = dashed(b);
    assert(x.last() == a.last());
    assert(y[0] == b[0]);
    if sep.len() > 0 {
        lemma_collapsed_concat(x, d);
        lemma_collapsed_dashes(d);
        lemma_collapsed_concat(x + d, y);
    } else {
        assert(x + d =~= x);
        lemma_collapsed_concat(x, y);
    }
}

/// What stands before the first and behind the last letter or digit of a title has no part in
/// the file name, and a title without any gives an empty one.
pub proof fn law_file_name_has_no_dashes_at_its_ends(l: Seq<char>, a: Seq<char>, r: Seq<char>)
    requires
        forall|i: int| 0 <= i < l.len() ==> !text::is_ascii_alphanumeric(#[trigger] l[i]),
        forall|i: int| 0 <= i < r.len() ==> !text::is_ascii_alphanumeric(#[trigger] r[i]),
        a.len() > 0,
        text::is_ascii_alphanumeric(a[0]),
        text::is_ascii_alphanumeric(a.last()),
    ensures
        sanitized(l + a + r) == sanitized(a),
        sanitized(l).len() == 0,
{
    lemma_sanitized_word(a);
    lemma_dashed_concat(l + a, r);
    lemma_dashed_concat(l, a);
    let p = dashed(l);
    let x = dashed(a);
    let q = dashed(r);
    assert(x[0] == a[0]);
    assert(x.last() == a.last());
    lemma_collapsed_concat(p, x);
    lemma_collapsed_concat(p + x, q);
    if p.len() > 0 {
        lemma_collapsed_dashes(p);
    }
    if q.len() > 0 {
        lemma_collapsed_dashes(q);
    }
    lemma_collapsed_shape(x);
    text::law_trimming_leaves_the_middle(
        collapsed(p),
        collapsed(x),
        collapsed(q),
        text::is_char('-'),
    );
    lemma_truncated_is_take(Seq::empty(), 80);
}

/// A text is cut off where the next character would not fit: it loses nothing where it fits,
/// and else keeps as many whole characters from its start as fit.
pub proof fn law_cut_off_at_a_character(s: Seq<char>, max: nat)
    ensures
        encode_utf8(s).len() <= max ==> truncated(s, max) == s,
        exists|k: int|
            0 <= k <= s.len() && truncated(s, max) == #[trigger] s.take(k) && encode_utf8(
                s.take(k),
            ).len() <= max && (k < s.len() ==> encode_utf8(s.take(k + 1)).len() > max),
    decreases s.len(),
{
    lemma_truncated_is_take(s, max);
    if encode_utf8(s).len() <= max || s.len() == 0 {
        assert(s.take(s.len() as int) =~= s);
        assert(s.take(s.len() as int) == truncated(s, max));
    } else {
        let d = s.drop_last();
        law_cut_off_at_a_character(d, max);
        let k = choose|k: int|
            0 <= k <= d.len() && truncated(d, max) == #[trigger] d.take(k) && encode_utf8(
                d.take(k),
            ).len() <= max && (k < d.len() ==> encode_utf8(d.take(k + 1)).len() > max);
        assert(d.take(k) =~= s.take(k));
        if k < d.len() {
            assert(d.take(k + 1) =~= s.take(k + 1));
        } else {
            assert(s.take(k + 1) =~= s);
        }
    }
}

/// The extension of a file goes by the type of its content where that is known, whatever the
/// address is; what follows a semicolon in the type does not count, nor do spaces around it.
pub proof fn law_extension_by_type(mime: Seq<char>, url: Seq<char>)
    ensures
        mime_type(mime) == "audio/mpeg"@ || mime_type(mime) == "audio/mp3"@ ==> audio_ext(
            Some(mime),
            url,
        ) == "mp3"@,
        mime_type(mime) == "audio/mp4"@ || mime_type(mime) == "audio/x-m4a"@ || mime_type(mime)
            == "audio/m4a"@ ==> audio_ext(Some(mime), url) == "m4a"@,
        mime_type(mime) == "audio/ogg"@ ==> audio_ext(Some(mime), url) == "ogg"@,
        mime_type(mime) == "audio/opus"@ ==> audio_ext(Some(mime), url) == "opus"@,
        mime_type(mime) == "audio/flac"@ ==> audio_ext(Some(mime), url) == "flac"@,
        mime_type(mime) == "audio/aac"@ ==> audio_ext(Some(mime), url) == "aac"@,
        mime_type(mime) == "audio/wav"@ || mime_type(mime) == "audio/x-wav"@ ==> audio_ext(
            Some(mime),
            url,
        ) == "wav"@,
{
    reveal_strlit("audio/mpeg");
    reveal_strlit("audio/mp3");
    reveal_strlit("audio/mp4");
    reveal_strlit("audio/x-m4a");
    reveal_strlit("audio/m4a");
    reveal_strlit("audio/ogg");
    reveal_strlit("audio/opus");
    reveal_strlit("audio/flac");
    reveal_strlit("audio/aac");
    reveal_strlit("audio/wav");
    reveal_strlit("audio/x-wav");
    let t = mime_type(mime);
    assert("audio/mpeg"@.len() == 10 && "audio/mpeg"@[7] == 'p');
    assert("audio/mp3"@.len() == 9 && "audio/mp3"@[8] == '3');
    assert("audio/mp4"@.len() == 9 && "audio/mp4"@[8] == '4');
    assert("audio/x-m4a"@.len() == 11 && "audio/x-m4a"@[8] == 'm');
    assert("audio/m4a"@.len() == 9 && "audio/m4a"@[8] == 'a' && "audio/m4a"@[6] == 'm');
    assert("audio/ogg"@.len() == 9 && "audio/ogg"@[8] == 'g');
    assert("audio/opus"@.len() == 10 && "audio/opus"@[6] == 'o');
    assert("audio/mpeg"@[6] == 'm');
    assert("audio/flac"@.len() == 10 && "audio/flac"@[6] == 'f');
    assert("audio/aac"@.len() == 9 && "audio/aac"@[8] == 'c');
    assert("audio/wav"@.len() == 9 && "audio/wav"@[8] == 'v');
    assert("audio/x-wav"@.len() == 11 && "audio/x-wav"@[8] == 'w');
}

/// Without a known type the extension goes by the address: what follows the last dot before the
/// query, in lower case, where audio files have that extension, and `mp3` otherwise.
pub proof fn law_extension_by_address(mime: Option<Seq<char>>, url: Seq<char>, dot: int)
    requires
        mime matches Some(m) ==> {
            let t = mime_type(m);
            t != "audio/mpeg"@ && t != "audio/mp3"@ && t != "audio/mp4"@ && t != "audio/x-m4a"@ && t
                != "audio/m4a"@ && t != "audio/ogg"@ && t != "audio/opus"@ && t != "audio/flac"@
                && t != "audio/aac"@ && t != "audio/wav"@ && t != "audio/x-wav"@
        },
    ensures
        ({
            let path = text::before(url, '?');
            &&& (0 <= dot < path.len() && path[dot] == '.' && forall|j: int|
                dot < j < path.len() ==> path[j] != '.') ==> {
                let e = text::ascii_lowercase(path.skip(dot + 1));
                if e == "mp3"@ || e == "m4a"@ || e == "ogg"@ || e == "opus"@ || e == "flac"@ || e
                    == "aac"@ || e == "wav"@ {
                    audio_ext(mime, url) == e
                } else {
                    audio_ext(mime, url) == "mp3"@
                }
            }
            &&& (forall|j: int| 0 <= j < path.len() ==> path[j] != '.') ==> audio_ext(mime, url)
                == "mp3"@
        }),
{
    let path = text::before(url, '?');
    text::law_places_of_a_character(path, '.', dot);
}

/// The type in a header is what stands before its first semicolon, without the spaces around it.
pub proof fn law_type_before_the_semicolon(t: Seq<char>, rest: Seq<char>)
    requires
        t.len() > 0,
        !t.contains(';'),
        !text::white_space(t[0]),
        !text::white_space(t.last()),
    ensures
        mime_type(t) == t,
        mime_type(t + seq![';'] + rest) == t,
        mime_type(seq![' '] + t + seq![' ', ';'] + rest) == t,
{
    let w = text::is_white();
    let none = Seq::<char>::empty();
    assert forall|j: int| 0 <= j < t.len() implies t[j] != ';' by {
        assert(t.contains(t[j]));
    }
    text::law_places_of_a_character(t, ';', 0);
    text::law_trimming_leaves_the_middle(none, t, none, w);
    assert(none + t + none =~= t);
    let s = t + seq![';'] + rest;
    text::law_places_of_a_character(s, ';', t.len() as int);
    assert(s.take(t.len() as int) =~= t);
    let u = seq![' '] + t + seq![' ', ';'] + rest;
    let n = t.len() as int;
    text::law_places_of_a_character(u, ';', n + 2);
    assert(u[n + 2] == ';');
    assert forall|j: int| 0 <= j < n + 2 implies u[j] != ';' by {
        if 0 < j <= n {
            assert(u[j] == t[j - 1]);
        }
    }
    assert(u.take(n + 2) =~= seq![' '] + t + seq![' ']);
    text::law_trimming_leaves_the_middle(seq![' '], t, seq![' '], w);
}

} // verus!
