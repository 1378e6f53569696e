//! Identifiers of episodes and feeds.
use vstd::prelude::*;
use vstd::string::*;
use vstd::utf8::*;

verus! {

// ---- Outside functions -----------------------------------------------------------

/// The SHA-256 digest of a sequence of bytes.
pub uninterp spec fn sha256_of(data: Seq<u8>) -> Seq<u8>;

/// `sha2::Sha256::digest` gives the 32 bytes of the SHA-256 digest of its input.
#[verifier::external_body]
pub(crate) fn sha256(data: &[u8]) -> (res: Vec<u8>)
    ensures
        res@ == sha256_of(data@),
        res@.len() == 32,
{
    <sha2::Sha256 as sha2::Digest>::digest(data).to_vec()
}

/// The lower-case hexadecimal digit of a number below 16.
pub open spec fn hex_digit(d: int) -> char {
    if d < 10 {
        (48 + d) as char
    } else {
        (87 + d) as char
    }
}

/// Two hexadecimal digits for each byte, the higher one first.
pub open spec fn hex_of(data: Seq<u8>) -> Seq<char> {
    Seq::new(
        data.len() * 2,
        |i: int| hex_digit(if i % 2 == 0 { data[i / 2] as int / 16 } else { data[i / 2] as int % 16 }),
    )
}

/// `hex::encode` writes each byte as two lower-case hexadecimal digits.
#[verifier::external_body]
pub(crate) fn hex_text(data: &[u8]) -> (res: String)
    ensures
        res@ == hex_of(data@),
{
    hex::encode(data)
}

// ---- Episodes ----------------------------------------------------------------------

/// The identifier of an episode.
#[derive(Debug, PartialEq, Eq, Hash)]
pub struct EpisodeId {
    text: String,
}

/// The bytes whose digest identifies an episode: the feed's address, a zero byte and the
/// episode's own identifier within the feed.
pub open spec fn id_source(feed_url: Seq<char>, guid: Seq<char>) -> Seq<u8> {
    encode_utf8(feed_url) + seq![0u8] + encode_utf8(guid)
}

/// The identifier of the episode `guid` of the feed at `feed_url`.
pub open spec fn episode_id_text(feed_url: Seq<char>, guid: Seq<char>) -> Seq<char> {
    hex_of(sha256_of(id_source(feed_url, guid)))
}

fn push_bytes(v: &mut Vec<u8>, more: &[u8])
    ensures
        final(v)@ == old(v)@ + more@,
{
    for i in 0..more.len()
        invariant
            v@ == old(v)@ + more@.take(i as int),
    {
        v.push(more[i]);
        assert(more@.take(i + 1) =~= more@.take(i as int).push(more@[i as int]));
    }
    assert(more@.take(more@.len() as int) =~= more@);
}

/// The characters of the first eight bytes of an identifier.
pub open spec fn short_text(id: Seq<char>) -> Seq<char> {
    decode_utf8(encode_utf8(id).take(8))
}

impl EpisodeId {
    /// The characters of the identifier.
    pub closed spec fn view(&self) -> Seq<char> {
        self.text@
    }

    /// Whether the identifier has a short form: eight bytes at which a character ends.
    pub open spec fn has_short(&self) -> bool {
        encode_utf8(self@).len() >= 8 && is_char_boundary(encode_utf8(self@), 8)
    }

    /// The identifier of the episode `guid` of the feed at `feed_url`: 64 hexadecimal digits.
    pub fn from_parts(feed_url: &str, guid: &str) -> (res: EpisodeId)
        ensures
            res@ == episode_id_text(feed_url@, guid@),
            res@.len() == 64,
            is_ascii_chars(res@),
            res.has_short(),
    {
        let mut source: Vec<u8> = Vec::new();
        push_bytes(&mut source, feed_url.as_bytes());
        source.push(0);
        push_bytes(&mut source, guid.as_bytes());
        assert(source@ =~= id_source(feed_url@, guid@));
        let digest = sha256(source.as_slice());
        let text = hex_text(digest.as_slice());
        proof {
            assert(is_ascii_chars(text@));
            lemma_ascii_has_short(text@);
        }
        EpisodeId { text }
    }

    /// The text of the identifier.
    pub fn as_str(&self) -> (res: &str)
        ensures
            res@ == self@,
    {
        self.text.as_str()
    }

    /// Whether the identifier has a short form.
    pub fn has_short_form(&self) -> (res: bool)
        ensures
            res == self.has_short(),
    {
        self.text.as_str().as_bytes().len() >= 8 && self.text.as_str().is_char_boundary(8)
    }

    /// The first eight bytes of the identifier, used to tell file names apart.
    pub fn short(&self) -> (res: &str)
        requires
            self.has_short(),
        ensures
            res@ == short_text(self@),
            is_ascii_chars(self@) ==> res@ == self@.take(8),
    {
        let parts = self.text.as_str().split_at(8);
        proof {
            encode_utf8_decode_utf8(parts.0@);
            assert(encode_utf8(self@).take(8) =~= encode_utf8(parts.0@));
            if is_ascii_chars(self@) {
                is_ascii_chars_encode_utf8(self@);
                let head = self@.take(8);
                assert(is_ascii_chars(head));
                is_ascii_chars_encode_utf8(head);
                assert(encode_utf8(head) =~= encode_utf8(self@).take(8));
                encode_utf8_decode_utf8(head);
                encode_utf8_decode_utf8(parts.0@);
            }
        }
        parts.0
    }
}

proof fn lemma_ascii_has_short(s: Seq<char>)
    requires
        is_ascii_chars(s),
        s.len() >= 8,
    ensures
        encode_utf8(s).len() >= 8,
        is_char_boundary(encode_utf8(s), 8),
{
    is_ascii_chars_encode_utf8(s);
    encode_utf8_valid_utf8(s);
    let bytes = encode_utf8(s);
    if bytes.len() > 8 {
        is_char_boundary_iff_not_is_continuation_byte(bytes, 8);
    } else {
        is_char_boundary_start_end_of_seq(bytes);
    }
}

impl Clone for EpisodeId {
    fn clone(&self) -> (res: EpisodeId)
        ensures
            res == *self,
    {
        EpisodeId { text: self.text.clone() }
    }
}

impl From<String> for EpisodeId {
    fn from(s: String) -> (res: EpisodeId)
        ensures
            res@ == s@,
    {
        EpisodeId { text: s }
    }
}

impl vstd::std_specs::convert::FromSpecImpl<String> for EpisodeId {
    open spec fn obeys_from_spec() -> bool {
        true
    }

    closed spec fn from_spec(s: String) -> EpisodeId {
        EpisodeId { text: s }
    }
}

impl From<EpisodeId> for String {
    fn from(id: EpisodeId) -> (res: String)
        ensures
            res@ == id@,
    {
        id.text
    }
}

impl vstd::std_specs::convert::FromSpecImpl<EpisodeId> for String {
    open spec fn obeys_from_spec() -> bool {
        true
    }

    closed spec fn from_spec(id: EpisodeId) -> String {
        id.text
    }
}

proof fn lemma_zero_byte(s: Seq<char>, i: int)
    requires
        0 <= i < encode_utf8(s).len(),
        encode_utf8(s)[i] == 0,
    ensures
        s.contains('\0'),
    decreases s.len(),
{
    if s.len() > 0 {
        let first = s[0] as u32;
        char_is_scalar(s[0]);
        assert(encode_utf8(s) =~= encode_scalar(first) + encode_utf8(s.drop_first()));
        let head = encode_scalar(first);
        if i < head.len() {
            if has_width_1_encoding(first) {
                assert(first & 0x7F == 0 && first <= 0x7F ==> first == 0) by (bit_vector);
                assert(first <= 0x7F ==> (first & 0x7F) as u8 == first) by (bit_vector);
                assert(first == 0u32);
                char_u32_cast(s[0], first);
                assert(s[0] == '\0');
            } else {
                lemma_wide_scalar_bytes(first, i);
            }
        } else {
            lemma_zero_byte(s.drop_first(), i - head.len());
            let k = choose|k: int| 0 <= k < s.drop_first().len() && s.drop_first()[k] == '\0';
            assert(s[k + 1] == '\0');
        }
    }
}

proof fn lemma_wide_scalar_bytes(v: u32, i: int)
    requires
        is_scalar(v),
        !has_width_1_encoding(v),
        0 <= i < encode_scalar(v).len(),
    ensures
        encode_scalar(v)[i] != 0,
{
    let b = encode_scalar(v)[i];
    assert(0x80u8 | ((v & 0x3F) as u8) != 0) by (bit_vector);
    assert(0x80u8 | (((v >> 6) & 0x3F) as u8) != 0) by (bit_vector);
    assert(0x80u8 | (((v >> 12) & 0x3F) as u8) != 0) by (bit_vector);
    assert(0xC0u8 | (((v >> 6) & 0x1F) as u8) != 0) by (bit_vector);
    assert(0xE0u8 | (((v >> 12) & 0x0F) as u8) != 0) by (bit_vector);
    assert(0xF0u8 | (((v >> 18) & 0x07) as u8) != 0) by (bit_vector);
}

proof fn lemma_cut(a: Seq<u8>, b: Seq<u8>, c: Seq<u8>, d: Seq<u8>)
    requires
        a + seq![0u8] + b == c + seq![0u8] + d,
        forall|i: int| 0 <= i < a.len() ==> a[i] != 0,
        forall|i: int| 0 <= i < c.len() ==> c[i] != 0,
    ensures
        a == c,
        b == d,
{
    let s = a + seq![0u8] + b;
    let t = c + seq![0u8] + d;
    assert(s[a.len() as int] == 0);
    assert(t[c.len() as int] == 0);
    if a.len() < c.len() {
        assert(t[a.len() as int] == c[a.len() as int]);
    } else if c.len() < a.len() {
        assert(s[c.len() as int] == a[c.len() as int]);
    }
    assert(a =~= s.take(a.len() as int));
    assert(c =~= t.take(c.len() as int));
    assert(b =~= s.skip(a.len() as int + 1));
    assert(d =~= t.skip(c.len() as int + 1));
}

/// Two episodes have the same bytes to digest only where they are the same episode of the
/// same feed, for addresses without a zero character.
pub proof fn law_id_source_tells_episodes_apart(
    url_a: Seq<char>,
    guid_a: Seq<char>,
    url_b: Seq<char>,
    guid_b: Seq<char>,
)
    requires
        !url_a.contains('\0'),
        !url_b.contains('\0'),
        id_source(url_a, guid_a) == id_source(url_b, guid_b),
    ensures
        url_a == url_b,
        guid_a == guid_b,
{
    assert forall|i: int| 0 <= i < encode_utf8(url_a).len() implies encode_utf8(url_a)[i] != 0 by {
        if encode_utf8(url_a)[i] == 0 {
            lemma_zero_byte(url_a, i);
        }
    }
    assert forall|i: int| 0 <= i < encode_utf8(url_b).len() implies encode_utf8(url_b)[i] != 0 by {
        if encode_utf8(url_b)[i] == 0 {
            lemma_zero_byte(url_b, i);
        }
    }
    lemma_cut(encode_utf8(url_a), encode_utf8(guid_a), encode_utf8(url_b), encode_utf8(guid_b));
    encode_utf8_decode_utf8(url_a);
    encode_utf8_decode_utf8(url_b);
    encode_utf8_decode_utf8(guid_a);
    encode_utf8_decode_utf8(guid_b);
}

// ---- Feeds -----------------------------------------------------------------------------

/// The number of a feed in the store.
#[derive(Clone, Copy, Debug, PartialEq, Eq, Hash, Structural)]
pub struct FeedId(pub i64);

/// An episode is identified by the digest of its feed's address, a zero byte and its own
/// identifier, in this order, and shown with two hexadecimal digits for each byte.
pub proof fn law_what_identifies_an_episode(feed_url: Seq<char>, guid: Seq<char>, data: Seq<u8>, i: int)
    requires
        0 <= i < data.len(),
    ensures
        episode_id_text(feed_url, guid) == hex_of(
            sha256_of(encode_utf8(feed_url) + seq![0u8] + encode_utf8(guid)),
        ),
        hex_of(data).len() == 2 * data.len(),
        "0123456789abcdef"@[data[i] as int / 16] == hex_of(data)[2 * i],
        "0123456789abcdef"@[data[i] as int % 16] == hex_of(data)[2 * i + 1],
{
    reveal_strlit("0123456789abcdef");
    assert((2 * i) / 2 == i && (2 * i) % 2 == 0);
    assert((2 * i + 1) / 2 == i && (2 * i + 1) % 2 == 1);
    assert(0 <= data[i] as int / 16 < 16);
    assert(0 <= data[i] as int % 16 < 16);
    assert(forall|d: int| 0 <= d < 16 ==> #[trigger] "0123456789abcdef"@[d] == hex_digit(d));
}

} // verus!
