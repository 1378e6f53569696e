//! The markup of a feed document, and which documents the feed parser can read.
//!
//! The parser of `feed_rs` stops with a panic at a duration or a playing time that it cannot
//! read, where a category or a media object holds too many others inside one another, and where
//! more elements are open than its reader can count. Such a document is told from others by its
//! bytes, before it is parsed.
use crate::playtime;
use crate::text;
use vstd::prelude::*;

verus! {

/// How many elements may be open at a time: the reader counts them in a `u16`.
pub const MAX_OPEN: usize = 65535;

/// How many categories, or media objects, may lie in one another: the parser calls itself for
/// each of them.
pub const MAX_NEST: usize = 100;

// ---- Places in a document ---------------------------------------------------------------

/// Whether a byte is white space between the parts of a tag.
pub open spec fn is_blank(b: u8) -> bool {
    b == 9 || b == 10 || b == 13 || b == 32
}

/// Whether a byte is a single or double quote.
pub open spec fn is_quote(b: u8) -> bool {
    b == 34 || b == 39
}

/// Whether the ASCII text `word` stands in `bytes` at index `i`.
pub open spec fn text_at(bytes: Seq<u8>, word: Seq<char>, i: int) -> bool {
    &&& 0 <= i
    &&& i + word.len() <= bytes.len()
    &&& forall|k: int|
        0 <= k < word.len() ==> bytes[i + k] as u32 == (#[trigger] word[k]) as u32
}

/// The index of the first `b` from index `from` on, or the end of the bytes.
pub open spec fn first_byte(bytes: Seq<u8>, b: u8, from: int) -> int
    decreases bytes.len() - from,
{
    if from >= bytes.len() {
        bytes.len() as int
    } else if bytes[from] == b {
        from
    } else {
        first_byte(bytes, b, from + 1)
    }
}

/// The index of the first `word` from index `from` on, or the end of the bytes.
pub open spec fn first_text(bytes: Seq<u8>, word: Seq<char>, from: int) -> int
    decreases bytes.len() - from,
{
    if from >= bytes.len() {
        bytes.len() as int
    } else if text_at(bytes, word, from) {
        from
    } else {
        first_text(bytes, word, from + 1)
    }
}

/// The index of the first blank byte from index `from` on, and before `to`, or `to`.
pub open spec fn first_blank(bytes: Seq<u8>, from: int, to: int) -> int
    decreases to - from,
{
    if from >= to || is_blank(bytes[from]) {
        from
    } else {
        first_blank(bytes, from + 1, to)
    }
}

/// The index of the `>` that ends a tag, read from index `from` on, or the end of the bytes.
/// Inside a quoted value (`quote` is then its quote, and 0 outside) a `>` ends nothing.
pub open spec fn tag_end(bytes: Seq<u8>, from: int, quote: u8) -> int
    decreases bytes.len() - from,
{
    if from >= bytes.len() {
        bytes.len() as int
    } else if quote != 0 {
        tag_end(bytes, from + 1, if bytes[from] == quote {
            0
        } else {
            quote
        })
    } else if bytes[from] == 62 {
        from
    } else {
        tag_end(bytes, from + 1, if is_quote(bytes[from]) {
            bytes[from]
        } else {
            0
        })
    }
}

/// The index behind the last byte before index `i` that is not blank.
pub open spec fn before_blanks(bytes: Seq<u8>, i: int) -> int
    decreases i,
{
    if i > 0 && is_blank(bytes[i - 1]) {
        before_blanks(bytes, i - 1)
    } else {
        i
    }
}

// ---- Document types -------------------------------------------------------------------------

/// The index behind the declaration at the `<` at index `i` of a document type; beyond the end of
/// the bytes where it is not closed.
pub open spec fn declaration_end(bytes: Seq<u8>, i: int) -> int {
    if text_at(bytes, "<?"@, i) {
        first_text(bytes, "?>"@, i + 2) + 2
    } else if text_at(bytes, "<!--"@, i) {
        first_text(bytes, "-->"@, i + 4) + 3
    } else if text_at(bytes, "<!ENTITY"@, i) {
        tag_end(bytes, i + 8, 0) + 1
    } else if text_at(bytes, "<!ATTLIST"@, i) {
        tag_end(bytes, i + 9, 0) + 1
    } else if text_at(bytes, "<!NOTATION"@, i) {
        tag_end(bytes, i + 10, 0) + 1
    } else {
        first_byte(bytes, 62, i + 1) + 1
    }
}

/// The index of the `>` that ends a document type whose declarations are read from index `from`
/// on, or the end of the bytes.
pub open spec fn declarations_end(bytes: Seq<u8>, from: int) -> int
    decreases bytes.len() - from,
{
    proof {
        lemma_declaration(bytes, from);
    }
    if from >= bytes.len() {
        bytes.len() as int
    } else if bytes[from] == 93 {
        first_byte(bytes, 62, from + 1)
    } else if bytes[from] != 60 {
        declarations_end(bytes, from + 1)
    } else if declaration_end(bytes, from) > bytes.len() {
        bytes.len() as int
    } else {
        declarations_end(bytes, declaration_end(bytes, from))
    }
}

/// The index of the `>` that ends a document type, read from index `from` on, or the end of the
/// bytes. `quote` is the quote of the value that is being read, and 0 outside.
pub open spec fn doctype_end(bytes: Seq<u8>, from: int, quote: u8) -> int
    decreases bytes.len() - from,
{
    if from >= bytes.len() {
        bytes.len() as int
    } else if quote != 0 {
        doctype_end(bytes, from + 1, if bytes[from] == quote {
            0
        } else {
            quote
        })
    } else if bytes[from] == 62 {
        from
    } else if bytes[from] == 91 {
        declarations_end(bytes, from + 1)
    } else {
        doctype_end(bytes, from + 1, if is_quote(bytes[from]) {
            bytes[from]
        } else {
            0
        })
    }
}

// ---- Markup -------------------------------------------------------------------------------

/// What the markup at a `<` is.
#[derive(Clone, Copy, Debug, PartialEq, Eq, Structural)]
pub enum Markup {
    Opening,
    Closing,
    /// `<![CDATA[` and the like.
    Section,
    Comment,
    Doctype,
    Instruction,
    /// `<!` before anything else, an error behind which the parser may read on.
    Unknown,
    /// `<` at the end of the document.
    Broken,
}

/// What the markup at the `<` at index `p` is.
pub open spec fn markup_at(bytes: Seq<u8>, p: int) -> Markup {
    if p + 1 >= bytes.len() {
        Markup::Broken
    } else if bytes[p + 1] == 47 {
        Markup::Closing
    } else if bytes[p + 1] == 63 {
        Markup::Instruction
    } else if bytes[p + 1] != 33 {
        Markup::Opening
    } else if p + 2 >= bytes.len() {
        Markup::Unknown
    } else if bytes[p + 2] == 91 {
        Markup::Section
    } else if bytes[p + 2] == 45 {
        Markup::Comment
    } else if bytes[p + 2] == 68 || bytes[p + 2] == 100 {
        Markup::Doctype
    } else {
        Markup::Unknown
    }
}

/// The index behind the markup at the `<` at index `p`; beyond the end of the bytes where the
/// markup is not closed.
pub open spec fn markup_end(bytes: Seq<u8>, p: int) -> int {
    match markup_at(bytes, p) {
        Markup::Opening => tag_end(bytes, p + 1, 0) + 1,
        Markup::Closing => tag_end(bytes, p + 1, 0) + 1,
        Markup::Doctype => doctype_end(bytes, p + 2, 0) + 1,
        Markup::Section => first_text(bytes, "]]>"@, p + 2) + 3,
        Markup::Comment => first_text(bytes, "-->"@, p + 4) + 3,
        Markup::Instruction => first_text(bytes, "?>"@, p + 1) + 2,
        Markup::Unknown => p + 2,
        Markup::Broken => bytes.len() as int + 1,
    }
}

/// Whether markup stands inside a text without ending it.
pub open spec fn is_aside(m: Markup) -> bool {
    m == Markup::Section || m == Markup::Comment || m == Markup::Instruction || m
        == Markup::Doctype
}

proof fn lemma_first_byte(bytes: Seq<u8>, b: u8, from: int)
    ensures
        first_byte(bytes, b, from) <= bytes.len(),
        from <= bytes.len() ==> from <= first_byte(bytes, b, from),
    decreases bytes.len() - from,
{
    if from < bytes.len() && bytes[from] != b {
        lemma_first_byte(bytes, b, from + 1);
    }
}

proof fn lemma_first_text(bytes: Seq<u8>, word: Seq<char>, from: int)
    ensures
        first_text(bytes, word, from) <= bytes.len(),
        from <= bytes.len() ==> from <= first_text(bytes, word, from),
    decreases bytes.len() - from,
{
    if from < bytes.len() && !text_at(bytes, word, from) {
        lemma_first_text(bytes, word, from + 1);
    }
}

proof fn lemma_tag_end(bytes: Seq<u8>, from: int, quote: u8)
    ensures
        tag_end(bytes, from, quote) <= bytes.len(),
        from <= bytes.len() ==> from <= tag_end(bytes, from, quote),
    decreases bytes.len() - from,
{
    if from < bytes.len() {
        if quote != 0 {
            lemma_tag_end(
                bytes,
                from + 1,
                if bytes[from] == quote {
                    0
                } else {
                    quote
                },
            );
        } else if bytes[from] != 62 {
            lemma_tag_end(
                bytes,
                from + 1,
                if is_quote(bytes[from]) {
                    bytes[from]
                } else {
                    0
                },
            );
        }
    }
}

/// A declaration of a document type ends behind its start.
pub proof fn lemma_declaration(bytes: Seq<u8>, i: int)
    ensures
        i < bytes.len() ==> i < declaration_end(bytes, i),
{
    if i < bytes.len() {
        reveal_strlit("<?");
        reveal_strlit("<!--");
        reveal_strlit("<!ENTITY");
        reveal_strlit("<!ATTLIST");
        reveal_strlit("<!NOTATION");
        lemma_first_text(bytes, "?>"@, i + 2);
        lemma_first_text(bytes, "-->"@, i + 4);
        lemma_tag_end(bytes, i + 8, 0);
        lemma_tag_end(bytes, i + 9, 0);
        lemma_tag_end(bytes, i + 10, 0);
        lemma_first_byte(bytes, 62, i + 1);
    }
}

proof fn lemma_declarations_end(bytes: Seq<u8>, from: int)
    ensures
        declarations_end(bytes, from) <= bytes.len(),
        from <= bytes.len() ==> from <= declarations_end(bytes, from),
    decreases bytes.len() - from,
{
    if from < bytes.len() {
        lemma_declaration(bytes, from);
        if bytes[from] == 93 {
            lemma_first_byte(bytes, 62, from + 1);
        } else if bytes[from] != 60 {
            lemma_declarations_end(bytes, from + 1);
        } else if declaration_end(bytes, from) <= bytes.len() {
            lemma_declarations_end(bytes, declaration_end(bytes, from));
        }
    }
}

proof fn lemma_doctype_end(bytes: Seq<u8>, from: int, quote: u8)
    ensures
        doctype_end(bytes, from, quote) <= bytes.len(),
        from <= bytes.len() ==> from <= doctype_end(bytes, from, quote),
    decreases bytes.len() - from,
{
    if from < bytes.len() {
        if quote != 0 {
            lemma_doctype_end(
                bytes,
                from + 1,
                if bytes[from] == quote {
                    0
                } else {
                    quote
                },
            );
        } else if bytes[from] == 91 {
            lemma_declarations_end(bytes, from + 1);
        } else if bytes[from] != 62 {
            lemma_doctype_end(
                bytes,
                from + 1,
                if is_quote(bytes[from]) {
                    bytes[from]
                } else {
                    0
                },
            );
        }
    }
}

/// The first `<` from index `from` on does not stand before it, and its markup ends behind it.
pub proof fn lemma_places(bytes: Seq<u8>, from: int)
    ensures
        from <= bytes.len() ==> from <= first_byte(bytes, 60, from),
        first_byte(bytes, 60, from) < bytes.len() ==> {
            let p = first_byte(bytes, 60, from);
            from <= p && p < markup_end(bytes, p)
        },
{
    let p = first_byte(bytes, 60, from);
    lemma_first_byte(bytes, 60, from);
    lemma_tag_end(bytes, p + 1, 0);
    lemma_doctype_end(bytes, p + 2, 0);
    lemma_first_text(bytes, "]]>"@, p + 2);
    lemma_first_text(bytes, "?>"@, p + 1);
    lemma_first_text(bytes, "-->"@, p + 4);
    if p + 4 > bytes.len() {
        assert(first_text(bytes, "-->"@, p + 4) == bytes.len());
    }
}

// ---- Characters ---------------------------------------------------------------------------

/// The value of a digit of a number to the base 16, or 16 where it is none.
pub open spec fn digit_value(b: u8) -> int {
    if 48 <= b <= 57 {
        b - 48
    } else if 97 <= b <= 102 {
        b - 87
    } else if 65 <= b <= 70 {
        b - 55
    } else {
        16
    }
}

/// Whether a stretch has only digits of numbers to a base.
pub open spec fn all_digits(bytes: Seq<u8>, from: int, to: int, base: int) -> bool {
    forall|k: int| from <= k < to ==> digit_value(#[trigger] bytes[k]) < base
}

/// The number to a base whose digits make up a stretch.
pub open spec fn number_in(bytes: Seq<u8>, from: int, to: int, base: int) -> int
    decreases to - from,
{
    if from >= to {
        0
    } else {
        number_in(bytes, from, to - 1, base) * base + digit_value(bytes[to - 1])
    }
}

/// Whether a number is that of a character other than NUL.
pub open spec fn is_scalar(n: int) -> bool {
    0 < n <= 0x10ffff && !(0xd800 <= n <= 0xdfff)
}

/// The index of the first `;` or `&` of a stretch from index `k` on, or its end.
pub open spec fn reference_end(bytes: Seq<u8>, k: int, to: int) -> int
    decreases to - k,
{
    if k >= to || bytes[k] == 59 || bytes[k] == 38 {
        k
    } else {
        reference_end(bytes, k + 1, to)
    }
}

/// The character that a numeric reference at index `k` of a stretch stands for, and the index
/// behind the reference.
pub open spec fn reference_at(bytes: Seq<u8>, k: int, to: int) -> Option<(u32, int)> {
    if k + 2 < to && bytes[k] == 38 && bytes[k + 1] == 35 {
        let end = reference_end(bytes, k + 2, to);
        let from = if bytes[k + 2] == 120 {
            k + 3
        } else {
            k + 2
        };
        let base: int = if bytes[k + 2] == 120 {
            16
        } else {
            10
        };
        if end < to && bytes[end] == 59 && from < end && all_digits(bytes, from, end, base)
            && is_scalar(number_in(bytes, from, end, base)) {
            Some((number_in(bytes, from, end, base) as u32, end + 1))
        } else {
            None
        }
    } else {
        None
    }
}

/// Whether byte `k` of a stretch goes on with a character of UTF-8.
pub open spec fn goes_on(bytes: Seq<u8>, k: int, to: int) -> bool {
    k < to && 0x80 <= bytes[k] <= 0xbf
}

/// The character at index `k` of a stretch in UTF-8, and the index behind it. A byte that starts
/// no character stands for itself.
pub open spec fn utf8_at(bytes: Seq<u8>, k: int, to: int) -> (u32, int) {
    let b = bytes[k];
    if 0xc2 <= b <= 0xdf && goes_on(bytes, k + 1, to) {
        (((b - 0xc0) * 0x40 + (bytes[k + 1] - 0x80)) as u32, k + 2)
    } else if 0xe0 <= b <= 0xef && goes_on(bytes, k + 1, to) && goes_on(bytes, k + 2, to) {
        (
            ((b - 0xe0) * 0x1000 + (bytes[k + 1] - 0x80) * 0x40 + (bytes[k + 2] - 0x80)) as u32,
            k + 3,
        )
    } else if 0xf0 <= b <= 0xf4 && goes_on(bytes, k + 1, to) && goes_on(bytes, k + 2, to)
        && goes_on(bytes, k + 3, to) {
        (
            ((b - 0xf0) * 0x40000 + (bytes[k + 1] - 0x80) * 0x1000 + (bytes[k + 2] - 0x80) * 0x40 + (
            bytes[k + 3] - 0x80)) as u32,
            k + 4,
        )
    } else {
        (b as u32, k + 1)
    }
}

/// The character at index `k` of a stretch in some other encoding, and the index behind it, as far
/// as digits go: where the bytes can be a digit that is not an ASCII digit, a full-width zero
/// stands for them, and other bytes stand for themselves.
pub open spec fn other_at(bytes: Seq<u8>, k: int, to: int) -> (u32, int) {
    let b = bytes[k];
    if k + 1 < to && ((b == 0xa3 && 0xb0 <= bytes[k + 1] <= 0xb9) || (b == 0xa2 && 0xaf <= bytes[k
        + 1] <= 0xb8) || (b == 0x82 && 0x4f <= bytes[k + 1] <= 0x58)) {
        (0xff10, k + 2)
    } else if k + 3 < to && b >= 0x81 && 48 <= bytes[k + 1] <= 57 && bytes[k + 2] >= 0x81 && 48
        <= bytes[k + 3] <= 57 {
        (0xff10, k + 4)
    } else if 0xf0 <= b <= 0xf9 {
        (0xff10, k + 1)
    } else {
        (b as u32, k + 1)
    }
}

/// The character at index `k` of a stretch, and the index behind it. With `resolve`, numeric
/// references stand for their characters.
pub open spec fn char_at(bytes: Seq<u8>, k: int, to: int, resolve: bool, utf8: bool) -> (
    u32,
    int,
) {
    if resolve && reference_at(bytes, k, to) is Some {
        reference_at(bytes, k, to)->0
    } else if utf8 {
        utf8_at(bytes, k, to)
    } else {
        other_at(bytes, k, to)
    }
}

proof fn lemma_reference_end(bytes: Seq<u8>, k: int, to: int)
    ensures
        k <= reference_end(bytes, k, to),
        k <= to ==> reference_end(bytes, k, to) <= to,
    decreases to - k,
{
    if k < to && bytes[k] != 59 && bytes[k] != 38 {
        lemma_reference_end(bytes, k + 1, to);
    }
}

/// A character ends behind its start.
pub proof fn lemma_char(bytes: Seq<u8>, k: int, to: int, resolve: bool, utf8: bool)
    ensures
        k < to ==> k < char_at(bytes, k, to, resolve, utf8).1 <= to,
{
    lemma_reference_end(bytes, k + 2, to);
}

/// The characters of a stretch from index `k` up to `to`.
pub open spec fn chars_in(bytes: Seq<u8>, k: int, to: int, resolve: bool, utf8: bool) -> Seq<u32>
    decreases to - k,
{
    proof {
        lemma_char(bytes, k, to, resolve, utf8);
    }
    if k >= to {
        Seq::empty()
    } else {
        let c = char_at(bytes, k, to, resolve, utf8);
        seq![c.0] + chars_in(bytes, c.1, to, resolve, utf8)
    }
}

// ---- Texts that can be read ---------------------------------------------------------------

/// Whether a stretch has no byte that shifts to another set of characters.
pub open spec fn never_shifts(bytes: Seq<u8>, from: int, to: int) -> bool {
    forall|k: int| from <= k < to ==> #[trigger] bytes[k] != 27
}

/// Whether the playing time in a stretch can be read.
pub open spec fn stretch_readable(
    bytes: Seq<u8>,
    from: int,
    to: int,
    resolve: bool,
    utf8: bool,
) -> bool {
    &&& playtime::time_fits(chars_in(bytes, from, to, resolve, true))
    &&& !utf8 ==> never_shifts(bytes, from, to) && playtime::time_fits(
        chars_in(bytes, from, to, resolve, false),
    )
}

/// Whether the playing time in a value of an attribute can be read. Its references count only
/// where all of them are known, so that it is read both with and without them.
pub open spec fn value_readable(bytes: Seq<u8>, from: int, to: int, utf8: bool) -> bool {
    stretch_readable(bytes, from, to, true, utf8) && stretch_readable(bytes, from, to, false, utf8)
}

/// The index at which the text that starts at index `from` ends: at a tag.
pub open spec fn text_end(bytes: Seq<u8>, from: int) -> int
    decreases bytes.len() - from,
{
    proof {
        lemma_places(bytes, from);
    }
    let p = first_byte(bytes, 60, from);
    if p >= bytes.len() || !is_aside(markup_at(bytes, p)) {
        p
    } else if markup_end(bytes, p) > bytes.len() {
        bytes.len() as int
    } else {
        text_end(bytes, markup_end(bytes, p))
    }
}

/// The characters of the text that starts at index `from`: those outside markup and those of its
/// sections.
pub open spec fn chars_of_text(bytes: Seq<u8>, from: int, utf8: bool) -> Seq<u32>
    decreases bytes.len() - from,
{
    proof {
        lemma_places(bytes, from);
    }
    let p = first_byte(bytes, 60, from);
    let end = markup_end(bytes, p);
    let before = chars_in(bytes, from, p, true, utf8);
    if p >= bytes.len() || !is_aside(markup_at(bytes, p)) || end > bytes.len() {
        before
    } else if text_at(bytes, "<![CDATA["@, p) {
        before + chars_in(bytes, p + 9, end - 3, false, utf8) + chars_of_text(bytes, end, utf8)
    } else {
        before + chars_of_text(bytes, end, utf8)
    }
}

/// Whether the playing time in the text that starts at index `from` can be read.
pub open spec fn text_readable(bytes: Seq<u8>, from: int, utf8: bool) -> bool {
    &&& playtime::time_fits(chars_of_text(bytes, from, true))
    &&& !utf8 ==> never_shifts(bytes, from, text_end(bytes, from)) && playtime::time_fits(
        chars_of_text(bytes, from, false),
    )
}

// ---- Tags ---------------------------------------------------------------------------------

/// Whether the tag that ends at index `e` closes its own element.
pub open spec fn is_self_closed(bytes: Seq<u8>, e: int) -> bool {
    bytes[e - 1] == 47
}

/// The index behind the name in the opening tag from index `p` to `e`.
pub open spec fn name_end(bytes: Seq<u8>, p: int, e: int) -> int {
    first_blank(
        bytes,
        p + 1,
        if is_self_closed(bytes, e) {
            e - 1
        } else {
            e
        },
    )
}

/// Whether the opening tag `tag` is, behind its prefix, called `word`.
pub open spec fn is_called(bytes: Seq<u8>, tag: (int, int), word: Seq<char>) -> bool {
    let start = name_end(bytes, tag.0, tag.1) - word.len();
    text_at(bytes, word, start) && (start == tag.0 + 1 || (start > tag.0 + 1 && bytes[start - 1]
        == 58))
}

/// The index of the `=` before the quoted value that starts at index `i`, where there is one.
pub open spec fn equals_sign(bytes: Seq<u8>, i: int) -> Option<int> {
    let sign = before_blanks(bytes, i - 1) - 1;
    if 0 < i <= bytes.len() && is_quote(bytes[i - 1]) && 0 <= sign && bytes[sign] == 61 {
        Some(sign)
    } else {
        None
    }
}

/// Whether the name of an attribute can start at index `start`.
pub open spec fn name_can_start(bytes: Seq<u8>, start: int) -> bool {
    0 < start <= bytes.len() && (is_blank(bytes[start - 1]) || is_quote(bytes[start - 1]))
}

/// Whether the value of an attribute called `word` starts at index `i`.
pub open spec fn value_at(bytes: Seq<u8>, word: Seq<char>, i: int) -> bool {
    equals_sign(bytes, i) matches Some(sign) && {
        let start = before_blanks(bytes, sign) - word.len();
        text_at(bytes, word, start) && name_can_start(bytes, start)
    }
}

/// Whether the value of an attribute called `xmlns:` and the prefix from index `from` up to `to`
/// starts at index `i`.
pub open spec fn prefix_value_at(bytes: Seq<u8>, from: int, to: int, i: int) -> bool {
    equals_sign(bytes, i) matches Some(sign) && {
        let end = before_blanks(bytes, sign);
        let start = end - (to - from);
        &&& 6 < start <= end
        &&& bytes.subrange(start, end) == bytes.subrange(from, to)
        &&& text_at(bytes, "xmlns:"@, start - 6)
        &&& name_can_start(bytes, start - 6)
    }
}

/// Whether the value that starts at index `i` is that of the attribute that says which namespace
/// the name from index `from` up to `to` belongs to.
pub open spec fn binds_at(bytes: Seq<u8>, from: int, to: int, i: int) -> bool {
    if first_byte(bytes, 58, from) < to {
        prefix_value_at(bytes, from, first_byte(bytes, 58, from), i)
    } else {
        value_at(bytes, "xmlns"@, i) || value_at(bytes, "xmlns:"@, i)
    }
}

/// Whether the quoted value that starts at index `i` is `word`.
pub open spec fn value_is(bytes: Seq<u8>, word: Seq<char>, i: int) -> bool {
    text_at(bytes, word, i) && i + word.len() < bytes.len() && bytes[i + word.len()] == bytes[i
        - 1]
}

/// Whether something in the tag `by` seems to put the name from index `from` up to `to` into the
/// namespace `space`.
pub open spec fn is_bound_by(
    bytes: Seq<u8>,
    by: (int, int),
    from: int,
    to: int,
    space: Seq<char>,
) -> bool {
    exists|i: int|
        by.0 < i <= by.1 && #[trigger] binds_at(bytes, from, to, i) && value_is(bytes, space, i)
}

/// Whether the tag `tag`, or one of the open elements that it lies in, seems to put its name into
/// the namespace `space`.
pub open spec fn is_bound(
    bytes: Seq<u8>,
    open: Seq<(int, int)>,
    tag: (int, int),
    space: Seq<char>,
) -> bool {
    let from = tag.0 + 1;
    let to = name_end(bytes, tag.0, tag.1);
    ||| is_bound_by(bytes, tag, from, to, space)
    ||| exists|k: int|
        0 <= k < open.len() && is_bound_by(bytes, #[trigger] open[k], from, to, space)
}

/// The index of the first byte from index `i` on, and before `to`, that is not blank, or `to`.
pub open spec fn blanks_end(bytes: Seq<u8>, i: int, to: int) -> int
    decreases to - i,
{
    if i < to && is_blank(bytes[i]) {
        blanks_end(bytes, i + 1, to)
    } else {
        i
    }
}

/// The index of the first `=` or blank byte from index `i` on, and before `to`, or `to`.
pub open spec fn key_end(bytes: Seq<u8>, i: int, to: int) -> int
    decreases to - i,
{
    if i >= to || bytes[i] == 61 || is_blank(bytes[i]) {
        i
    } else {
        key_end(bytes, i + 1, to)
    }
}

/// The places of the name and the value of an attribute.
pub struct Attribute {
    pub name: (int, int),
    pub value: (int, int),
}

/// The attribute that is read from index `i` on in a tag whose contents end at index `to`.
pub open spec fn attribute_at(bytes: Seq<u8>, i: int, to: int) -> Option<Attribute> {
    let start = blanks_end(bytes, i, to);
    let end = key_end(bytes, start + 1, to);
    let sign = blanks_end(bytes, end, to);
    let open = blanks_end(bytes, sign + 1, to);
    let close = first_byte(bytes, bytes[open], open + 1);
    if start < to && end < to && sign < to && bytes[sign] == 61 && open < to && is_quote(bytes[open])
        && open < close < to {
        Some(Attribute { name: (start, end), value: (open + 1, close) })
    } else {
        None
    }
}

/// Whether the name of an attribute from index `a` up to `b` says that its value is the namespace
/// of the name from index `from` up to `to`.
pub open spec fn names_space(bytes: Seq<u8>, from: int, to: int, a: int, b: int) -> bool {
    let colon = first_byte(bytes, 58, from);
    if colon < to {
        b - a == 6 + (colon - from) && text_at(bytes, "xmlns:"@, a) && bytes.subrange(a + 6, b)
            == bytes.subrange(from, colon)
    } else {
        (b - a == 5 && text_at(bytes, "xmlns"@, a)) || (b - a == 6 && text_at(bytes, "xmlns:"@, a))
    }
}

/// The place of the namespace that the attributes read from index `i` on, up to `end`, give the
/// name from index `from` up to `to`: the last of them that gives it one.
pub open spec fn space_from(bytes: Seq<u8>, i: int, end: int, from: int, to: int) -> Option<
    (int, int),
>
    decreases end - i,
{
    proof {
        lemma_attribute(bytes, i, end);
    }
    match attribute_at(bytes, i, end) {
        Some(a) => match space_from(bytes, a.value.1 + 1, end, from, to) {
            Some(space) => Some(space),
            None => if names_space(bytes, from, to, a.name.0, a.name.1) {
                Some(a.value)
            } else {
                None
            },
        },
        None => None,
    }
}

/// The index at which the contents of an opening tag end.
pub open spec fn contents_end(bytes: Seq<u8>, e: int) -> int {
    if is_self_closed(bytes, e) {
        e - 1
    } else {
        e
    }
}

/// The place of the namespace that the tag `by` gives the name from index `from` up to `to`.
pub open spec fn space_by(bytes: Seq<u8>, by: (int, int), from: int, to: int) -> Option<
    (int, int),
> {
    space_from(bytes, name_end(bytes, by.0, by.1), contents_end(bytes, by.1), from, to)
}

/// The place of the namespace that the innermost of the tags gives the name from index `from` up
/// to `to`.
pub open spec fn space_of(bytes: Seq<u8>, tags: Seq<(int, int)>, from: int, to: int) -> Option<
    (int, int),
>
    decreases tags.len(),
{
    if tags.len() == 0 {
        None
    } else {
        match space_by(bytes, tags.last(), from, to) {
            Some(space) => Some(space),
            None => space_of(bytes, tags.drop_last(), from, to),
        }
    }
}

/// Whether the name of the tag `tag`, which lies in the open elements, is in the namespace `space`.
pub open spec fn is_in_space(
    bytes: Seq<u8>,
    open: Seq<(int, int)>,
    tag: (int, int),
    space: Seq<char>,
) -> bool {
    space_of(bytes, open.push(tag), tag.0 + 1, name_end(bytes, tag.0, tag.1)) matches Some(found)
        && found.1 - found.0 == space.len() && text_at(bytes, space, found.0)
}

proof fn lemma_blanks_end(bytes: Seq<u8>, i: int, to: int)
    ensures
        i <= blanks_end(bytes, i, to),
        i <= to ==> blanks_end(bytes, i, to) <= to,
    decreases to - i,
{
    if i < to && is_blank(bytes[i]) {
        lemma_blanks_end(bytes, i + 1, to);
    }
}

proof fn lemma_key_end(bytes: Seq<u8>, i: int, to: int)
    ensures
        i <= key_end(bytes, i, to),
    decreases to - i,
{
    if i < to && bytes[i] != 61 && !is_blank(bytes[i]) {
        lemma_key_end(bytes, i + 1, to);
    }
}

/// An attribute ends behind its start.
pub proof fn lemma_attribute(bytes: Seq<u8>, i: int, to: int)
    ensures
        to <= bytes.len() ==> (attribute_at(bytes, i, to) matches Some(a) ==> i <= a.name.0
            < a.name.1 && a.name.1 < a.value.0 <= a.value.1 < to),
        attribute_at(bytes, i, to) matches Some(a) ==> i <= a.value.1 < to,
{
    let start = blanks_end(bytes, i, to);
    let end = key_end(bytes, start + 1, to);
    let sign = blanks_end(bytes, end, to);
    let open = blanks_end(bytes, sign + 1, to);
    lemma_blanks_end(bytes, i, to);
    lemma_key_end(bytes, start + 1, to);
    lemma_blanks_end(bytes, end, to);
    lemma_blanks_end(bytes, sign + 1, to);
    lemma_first_byte(bytes, bytes[open], open + 1);
}

/// Whether the closing tag from index `p` to `e` names the element `tag`.
pub open spec fn closes(bytes: Seq<u8>, p: int, e: int, tag: (int, int)) -> bool {
    bytes.subrange(p + 2, before_blanks(bytes, e)) == bytes.subrange(
        tag.0 + 1,
        name_end(bytes, tag.0, tag.1),
    )
}

// ---- Elements -------------------------------------------------------------------------------

/// The namespace of the elements of iTunes.
pub open spec fn itunes_space() -> Seq<char> {
    "http://www.itunes.com/dtds/podcast-1.0.dtd"@
}

/// The namespace of the elements of Media RSS.
pub open spec fn media_space() -> Seq<char> {
    "http://search.yahoo.com/mrss/"@
}

/// How far the parser has come: the open elements, by their tags; how many elements were closed by
/// a tag with another name, which go on counting as open; and whether the parser may have lost
/// track of how deep it is.
pub struct Walk {
    pub open: Seq<(int, int)>,
    pub slips: nat,
    pub lost: bool,
}

/// Whether the open elements are those around the parts of an item of RSS.
pub open spec fn in_item(bytes: Seq<u8>, open: Seq<(int, int)>) -> bool {
    open.len() == 3 && is_called(bytes, open[0], "rss"@) && is_called(bytes, open[1], "channel"@)
        && is_called(bytes, open[2], "item"@)
}

/// Whether the open elements are those around the parts of an entry.
pub open spec fn in_entry(bytes: Seq<u8>, open: Seq<(int, int)>) -> bool {
    ||| in_item(bytes, open)
    ||| open.len() == 2 && is_called(bytes, open[0], "feed"@) && is_called(
        bytes,
        open[1],
        "entry"@,
    )
    ||| open.len() == 1 && is_called(bytes, open[0], "entry"@)
}

/// Whether the open elements are those around the parts of a media object: an entry, in it a group
/// or none, and in these any number of contents.
pub open spec fn in_media(bytes: Seq<u8>, open: Seq<(int, int)>) -> bool
    decreases open.len(),
{
    if open.len() > 0 && is_called(bytes, open.last(), "content"@) {
        in_media(bytes, open.drop_last())
    } else if open.len() > 0 && is_called(bytes, open.last(), "group"@) {
        in_entry(bytes, open.drop_last())
    } else {
        in_entry(bytes, open)
    }
}

/// Whether the parser may take an element for one of a namespace.
pub open spec fn belongs(bytes: Seq<u8>, w: Walk, tag: (int, int), space: Seq<char>, utf8: bool) -> bool {
    if !utf8 || w.slips > 0 {
        true
    } else if w.lost {
        is_bound(bytes, w.open, tag, space)
    } else {
        is_in_space(bytes, w.open, tag, space)
    }
}

/// Whether the parser reads the text of an element as a duration.
pub open spec fn is_duration(bytes: Seq<u8>, w: Walk, tag: (int, int), utf8: bool) -> bool {
    &&& is_called(bytes, tag, "duration"@)
    &&& w.lost || w.slips > 0 || in_item(bytes, w.open)
    &&& belongs(bytes, w, tag, itunes_space(), utf8)
}

/// Whether an element is called `name` and the parser reads attributes of it as playing times.
pub open spec fn has_times(
    bytes: Seq<u8>,
    w: Walk,
    tag: (int, int),
    name: Seq<char>,
    utf8: bool,
) -> bool {
    &&& is_called(bytes, tag, name)
    &&& w.lost || w.slips > 0 || in_media(bytes, w.open)
    &&& belongs(bytes, w, tag, media_space(), utf8)
}

/// Whether the attributes called `word` in a tag can be read as playing times.
pub open spec fn times_readable(bytes: Seq<u8>, tag: (int, int), word: Seq<char>, utf8: bool) -> bool {
    forall|i: int|
        tag.0 < i <= tag.1 && #[trigger] value_at(bytes, word, i) ==> value_readable(
            bytes,
            i,
            first_byte(bytes, bytes[i - 1], i),
            utf8,
        )
}

/// Whether a byte in a tag could hide what the tag is called in another encoding.
pub open spec fn hides_name(b: u8) -> bool {
    b == 0 || b == 27
}

/// Whether the opening tag from `tag.0` to `tag.1` and the text behind it can be read.
pub open spec fn tag_readable(bytes: Seq<u8>, w: Walk, tag: (int, int), utf8: bool) -> bool {
    &&& !utf8 ==> forall|k: int| tag.0 < k < tag.1 ==> !hides_name(#[trigger] bytes[k])
    &&& has_times(bytes, w, tag, "thumbnail"@, utf8) ==> times_readable(bytes, tag, "time"@, utf8)
    &&& has_times(bytes, w, tag, "text"@, utf8) ==> times_readable(bytes, tag, "start"@, utf8)
        && times_readable(bytes, tag, "end"@, utf8)
    &&& is_duration(bytes, w, tag, utf8) && !is_self_closed(bytes, tag.1) ==> text_readable(
        bytes,
        tag.1 + 1,
        utf8,
    )
}

/// How many of the innermost open elements, one directly in the other, are called `word`.
pub open spec fn nested(bytes: Seq<u8>, open: Seq<(int, int)>, word: Seq<char>) -> nat
    decreases open.len(),
{
    if open.len() > 0 && is_called(bytes, open.last(), word) {
        nested(bytes, open.drop_last(), word) + 1
    } else {
        0
    }
}

/// Whether the parser passes over an error in an element. The elements that it had read there by
/// then are not counted as open, but counted when they are closed.
pub open spec fn tolerates(bytes: Seq<u8>, tag: (int, int)) -> bool {
    ||| is_called(bytes, tag, "title"@)
    ||| is_called(bytes, tag, "description"@)
    ||| is_called(bytes, tag, "copyright"@)
    ||| is_called(bytes, tag, "rights"@)
    ||| is_called(bytes, tag, "category"@)
    ||| is_called(bytes, tag, "creator"@)
}

// ---- Documents ------------------------------------------------------------------------------

/// How far the parser has come behind an opening tag.
pub open spec fn after_opening(bytes: Seq<u8>, w: Walk, tag: (int, int)) -> Walk {
    Walk {
        open: if is_self_closed(bytes, tag.1) {
            w.open
        } else {
            w.open.push(tag)
        },
        slips: w.slips,
        lost: w.lost || (w.open.len() > 0 && tolerates(bytes, w.open.last())),
    }
}

/// How far the parser has come behind the closing tag from index `p` to `e`.
pub open spec fn after_closing(bytes: Seq<u8>, w: Walk, p: int, e: int) -> Walk {
    if w.open.len() == 0 {
        w
    } else if closes(bytes, p, e, w.open.last()) {
        Walk { open: w.open.drop_last(), ..w }
    } else {
        Walk { open: w.open.drop_last(), slips: w.slips + 1, lost: w.lost }
    }
}

/// Whether a document can be read from index `from` on.
pub open spec fn readable_from(bytes: Seq<u8>, from: int, w: Walk, utf8: bool) -> bool
    decreases bytes.len() - from,
{
    proof {
        lemma_places(bytes, from);
    }
    let p = first_byte(bytes, 60, from);
    let next = markup_end(bytes, p);
    if p >= bytes.len() || next > bytes.len() {
        true
    } else {
        match markup_at(bytes, p) {
            Markup::Opening => {
                let tag = (p, next - 1);
                &&& w.open.len() + w.slips < MAX_OPEN
                &&& nested(bytes, w.open.push(tag), "category"@) <= MAX_NEST
                &&& nested(bytes, w.open.push(tag), "content"@) <= MAX_NEST
                &&& tag_readable(bytes, w, tag, utf8)
                &&& readable_from(bytes, next, after_opening(bytes, w, tag), utf8)
            },
            Markup::Closing => readable_from(
                bytes,
                next,
                after_closing(bytes, w, p, next - 1),
                utf8,
            ),
            _ => readable_from(bytes, next, w, utf8),
        }
    }
}

/// Whether `utf-8` or `utf8` stands at index `i`, in capital or small letters, before a quote.
pub open spec fn is_utf8_label(bytes: Seq<u8>, i: int) -> bool {
    &&& 0 <= i && i + 4 < bytes.len()
    &&& bytes[i] == 117 || bytes[i] == 85
    &&& bytes[i + 1] == 116 || bytes[i + 1] == 84
    &&& bytes[i + 2] == 102 || bytes[i + 2] == 70
    &&& (bytes[i + 3] == 56 && is_quote(bytes[i + 4])) || (i + 5 < bytes.len() && bytes[i + 3] == 45
        && bytes[i + 4] == 56 && is_quote(bytes[i + 5]))
}

/// Whether a document starts like one in UTF-16.
pub open spec fn is_utf16(bytes: Seq<u8>) -> bool {
    ||| bytes.len() >= 2 && bytes[0] == 0xfe && bytes[1] == 0xff
    ||| bytes.len() >= 2 && bytes[0] == 0xff && bytes[1] == 0xfe
    ||| bytes.len() >= 2 && bytes[0] == 0 && bytes[1] == 60
    ||| bytes.len() >= 2 && bytes[0] == 60 && bytes[1] == 0
}

/// Whether a document starts like one in UTF-8 and names no other encoding.
pub open spec fn is_utf8(bytes: Seq<u8>) -> bool {
    !is_utf16(bytes) && forall|i: int| #[trigger]
        value_at(bytes, "encoding"@, i) ==> is_utf8_label(bytes, i)
}

/// Whether a document is made of tags: a `<` stands before any `{`.
pub open spec fn is_markup(bytes: Seq<u8>) -> bool {
    first_byte(bytes, 60, 0) < first_byte(bytes, 123, 0)
}

/// Whether the parser can read a document.
pub open spec fn tame(bytes: Seq<u8>) -> bool {
    is_markup(bytes) ==> readable_from(
        bytes,
        0,
        Walk { open: Seq::empty(), slips: 0, lost: false },
        is_utf8(bytes),
    )
}

// ---- Searching --------------------------------------------------------------------------------

fn blank(b: u8) -> (res: bool)
    ensures
        res == is_blank(b),
{
    b == 9 || b == 10 || b == 13 || b == 32
}

fn quote(b: u8) -> (res: bool)
    ensures
        res == is_quote(b),
{
    b == 34 || b == 39
}

fn found_text(bytes: &[u8], word: &str, i: usize) -> (res: bool)
    requires
        i <= bytes@.len(),
    ensures
        res == text_at(bytes@, word@, i as int),
{
    let w = text::chars_of(word);
    let n = bytes.len();
    if n - i < w.len() {
        return false;
    }
    for k in 0..w.len()
        invariant
            w@ == word@,
            n == bytes@.len(),
            i + w@.len() <= n,
            forall|m: int| 0 <= m < k ==> bytes@[i + m] as u32 == (#[trigger] word@[m]) as u32,
    {
        if bytes[i + k] as u32 != w[k] as u32 {
            assert(word@[k as int] as u32 != bytes@[i + k] as u32);
            return false;
        }
    }
    true
}

/// Whether `word` ends at index `end`; then it starts at index `end - word.len()`.
fn found_text_before(bytes: &[u8], word: &str, end: usize) -> (res: Option<usize>)
    requires
        end <= bytes@.len(),
    ensures
        match res {
            Some(start) => start == end - word@.len() && text_at(bytes@, word@, start as int),
            None => !text_at(bytes@, word@, end - word@.len()),
        },
{
    let len = text::chars_of(word).len();
    if end < len {
        return None;
    }
    if found_text(bytes, word, end - len) {
        Some(end - len)
    } else {
        None
    }
}

fn find_byte(bytes: &[u8], b: u8, from: usize) -> (res: usize)
    requires
        from <= bytes@.len(),
    ensures
        res == first_byte(bytes@, b, from as int),
        from <= res <= bytes@.len(),
        res < bytes@.len() ==> bytes@[res as int] == b,
{
    let mut k = from;
    while k < bytes.len() && bytes[k] != b
        invariant
            from <= k <= bytes@.len(),
            first_byte(bytes@, b, from as int) == first_byte(bytes@, b, k as int),
        decreases bytes.len() - k,
    {
        k = k + 1;
    }
    k
}

fn find_text(bytes: &[u8], word: &str, from: usize) -> (res: usize)
    requires
        from <= bytes@.len(),
    ensures
        res == first_text(bytes@, word@, from as int),
        from <= res <= bytes@.len(),
        res < bytes@.len() ==> res + word@.len() <= bytes@.len(),
{
    let mut k = from;
    while k < bytes.len() && !found_text(bytes, word, k)
        invariant
            from <= k <= bytes@.len(),
            first_text(bytes@, word@, from as int) == first_text(bytes@, word@, k as int),
        decreases bytes.len() - k,
    {
        k = k + 1;
    }
    k
}

fn find_blank(bytes: &[u8], from: usize, to: usize) -> (res: usize)
    requires
        from <= to <= bytes@.len(),
    ensures
        res == first_blank(bytes@, from as int, to as int),
        from <= res <= to,
{
    let mut k = from;
    while k < to && !blank(bytes[k])
        invariant
            from <= k <= to <= bytes@.len(),
            first_blank(bytes@, from as int, to as int) == first_blank(bytes@, k as int, to as int),
        decreases to - k,
    {
        k = k + 1;
    }
    k
}

fn find_tag_end(bytes: &[u8], from: usize) -> (res: usize)
    requires
        from <= bytes@.len(),
    ensures
        res == tag_end(bytes@, from as int, 0),
        from <= res <= bytes@.len(),
{
    let mut k = from;
    let mut open: u8 = 0;
    while k < bytes.len() && !(open == 0 && bytes[k] == 62)
        invariant
            from <= k <= bytes@.len(),
            tag_end(bytes@, from as int, 0) == tag_end(bytes@, k as int, open),
        decreases bytes.len() - k,
    {
        let b = bytes[k];
        if open != 0 {
            if b == open {
                open = 0;
            }
        } else if quote(b) {
            open = b;
        }
        k = k + 1;
    }
    k
}

fn skip_blanks_back(bytes: &[u8], i: usize) -> (res: usize)
    requires
        i <= bytes@.len(),
    ensures
        res == before_blanks(bytes@, i as int),
        res <= i,
{
    let mut k = i;
    while k > 0 && blank(bytes[k - 1])
        invariant
            k <= i <= bytes@.len(),
            before_blanks(bytes@, i as int) == before_blanks(bytes@, k as int),
        decreases k,
    {
        k = k - 1;
    }
    k
}

/// The index behind the declaration at the `<` at index `i`; none where it is not closed.
fn find_declaration_end(bytes: &[u8], i: usize) -> (res: Option<usize>)
    requires
        i < bytes@.len(),
    ensures
        match res {
            Some(end) => end == declaration_end(bytes@, i as int) && i < end <= bytes@.len(),
            None => declaration_end(bytes@, i as int) > bytes@.len(),
        },
{
    proof {
        lemma_declaration(bytes@, i as int);
        reveal_strlit("<?");
        reveal_strlit("<!--");
        reveal_strlit("<!ENTITY");
        reveal_strlit("<!ATTLIST");
        reveal_strlit("<!NOTATION");
        reveal_strlit("?>");
        reveal_strlit("-->");
    }
    let n = bytes.len();
    let (at, len) = if found_text(bytes, "<?", i) {
        (find_text(bytes, "?>", i + 2), 2usize)
    } else if found_text(bytes, "<!--", i) {
        (find_text(bytes, "-->", i + 4), 3usize)
    } else if found_text(bytes, "<!ENTITY", i) {
        (find_tag_end(bytes, i + 8), 1usize)
    } else if found_text(bytes, "<!ATTLIST", i) {
        (find_tag_end(bytes, i + 9), 1usize)
    } else if found_text(bytes, "<!NOTATION", i) {
        (find_tag_end(bytes, i + 10), 1usize)
    } else {
        (find_byte(bytes, 62, i + 1), 1usize)
    };
    if at == n {
        None
    } else {
        Some(at + len)
    }
}

fn find_declarations_end(bytes: &[u8], from: usize) -> (res: usize)
    requires
        from <= bytes@.len(),
    ensures
        res == declarations_end(bytes@, from as int),
        from <= res <= bytes@.len(),
{
    let n = bytes.len();
    let mut k = from;
    while k < n
        invariant
            n == bytes@.len(),
            from <= k <= n,
            declarations_end(bytes@, from as int) == declarations_end(bytes@, k as int),
        decreases n - k,
    {
        if bytes[k] == 93 {
            return find_byte(bytes, 62, k + 1);
        }
        if bytes[k] != 60 {
            k = k + 1;
        } else {
            match find_declaration_end(bytes, k) {
                Some(next) => {
                    k = next;
                },
                None => {
                    return n;
                },
            }
        }
    }
    n
}

fn find_doctype_end(bytes: &[u8], from: usize) -> (res: usize)
    requires
        from <= bytes@.len(),
    ensures
        res == doctype_end(bytes@, from as int, 0),
        from <= res <= bytes@.len(),
{
    let mut k = from;
    let mut open: u8 = 0;
    while k < bytes.len()
        invariant
            from <= k <= bytes@.len(),
            doctype_end(bytes@, from as int, 0) == doctype_end(bytes@, k as int, open),
        decreases bytes.len() - k,
    {
        let b = bytes[k];
        if open != 0 {
            if b == open {
                open = 0;
            }
        } else if b == 62 {
            return k;
        } else if b == 91 {
            return find_declarations_end(bytes, k + 1);
        } else if quote(b) {
            open = b;
        }
        k = k + 1;
    }
    k
}

fn kind_at(bytes: &[u8], p: usize) -> (res: Markup)
    requires
        p < bytes@.len(),
    ensures
        res == markup_at(bytes@, p as int),
{
    let n = bytes.len();
    if n - p < 2 {
        return Markup::Broken;
    }
    let b = bytes[p + 1];
    if b == 47 {
        Markup::Closing
    } else if b == 63 {
        Markup::Instruction
    } else if b != 33 {
        Markup::Opening
    } else if n - p < 3 {
        Markup::Unknown
    } else if bytes[p + 2] == 91 {
        Markup::Section
    } else if bytes[p + 2] == 45 {
        Markup::Comment
    } else if bytes[p + 2] == 68 || bytes[p + 2] == 100 {
        Markup::Doctype
    } else {
        Markup::Unknown
    }
}

/// The index behind the markup at the `<` at index `p`; none where the markup is not closed.
fn find_markup_end(bytes: &[u8], p: usize) -> (res: Option<usize>)
    requires
        p < bytes@.len(),
    ensures
        match res {
            Some(end) => end == markup_end(bytes@, p as int) && p < end <= bytes@.len(),
            None => markup_end(bytes@, p as int) > bytes@.len(),
        },
{
    let n = bytes.len();
    proof {
        reveal_strlit("]]>");
        reveal_strlit("-->");
        reveal_strlit("?>");
    }
    let (at, len) = match kind_at(bytes, p) {
        Markup::Opening | Markup::Closing => (find_tag_end(bytes, p + 1), 1usize),
        Markup::Doctype => (find_doctype_end(bytes, p + 2), 1usize),
        Markup::Section => (find_text(bytes, "]]>", p + 2), 3usize),
        Markup::Comment => {
            if n - p < 4 {
                assert(first_text(bytes@, "-->"@, p + 4) == bytes@.len());
                return None;
            }
            (find_text(bytes, "-->", p + 4), 3usize)
        },
        Markup::Instruction => (find_text(bytes, "?>", p + 1), 2usize),
        Markup::Unknown => {
            return Some(p + 2);
        },
        Markup::Broken => {
            return None;
        },
    };
    if at == n {
        None
    } else {
        Some(at + len)
    }
}

fn find_text_end(bytes: &[u8], from: usize) -> (res: usize)
    requires
        from <= bytes@.len(),
    ensures
        res == text_end(bytes@, from as int),
        from <= res <= bytes@.len(),
{
    let mut k = from;
    loop
        invariant_except_break
            from <= k <= bytes@.len(),
            text_end(bytes@, from as int) == text_end(bytes@, k as int),
        ensures
            from <= k <= bytes@.len(),
            k == text_end(bytes@, from as int),
        decreases bytes@.len() - k,
    {
        let p = find_byte(bytes, 60, k);
        if p == bytes.len() {
            k = p;
            break;
        }
        match kind_at(bytes, p) {
            Markup::Section | Markup::Comment | Markup::Instruction | Markup::Doctype => {},
            _ => {
                k = p;
                break;
            },
        }
        match find_markup_end(bytes, p) {
            Some(next) => {
                k = next;
            },
            None => {
                k = bytes.len();
                break;
            },
        }
    }
    k
}

// ---- Reading characters -----------------------------------------------------------------------

fn value_of_digit(b: u8) -> (res: u32)
    ensures
        res == digit_value(b),
        res <= 16,
{
    if 48 <= b && b <= 57 {
        (b - 48) as u32
    } else if 97 <= b && b <= 102 {
        (b - 87) as u32
    } else if 65 <= b && b <= 70 {
        (b - 55) as u32
    } else {
        16
    }
}

/// The character whose number to a base makes up a stretch, where it is one.
fn read_scalar(bytes: &[u8], from: usize, to: usize, base: u32) -> (res: Option<u32>)
    requires
        from <= to <= bytes@.len(),
        base == 10 || base == 16,
    ensures
        match res {
            Some(n) => all_digits(bytes@, from as int, to as int, base as int) && n == number_in(
                bytes@,
                from as int,
                to as int,
                base as int,
            ) && is_scalar(n as int),
            None => !(all_digits(bytes@, from as int, to as int, base as int) && is_scalar(
                number_in(bytes@, from as int, to as int, base as int),
            )),
        },
{
    let mut n: u32 = 0;
    let mut large = false;
    let mut k = from;
    while k < to
        invariant
            from <= k <= to <= bytes@.len(),
            base == 10 || base == 16,
            all_digits(bytes@, from as int, k as int, base as int),
            n <= 0x10ffff,
            if large {
                number_in(bytes@, from as int, k as int, base as int) > 0x10ffff
            } else {
                n == number_in(bytes@, from as int, k as int, base as int)
            },
        decreases to - k,
    {
        let d = value_of_digit(bytes[k]);
        if d >= base {
            assert(digit_value(bytes@[k as int]) >= base);
            return None;
        }
        proof {
            let before = number_in(bytes@, from as int, k as int, base as int);
            assert(number_in(bytes@, from as int, k + 1, base as int) == before * base + d);
            assert(before * base == if base == 10 {
                before * 10
            } else {
                before * 16
            });
        }
        let next = if base == 10 {
            n * 10 + d
        } else {
            n * 16 + d
        };
        if large || next > 0x10ffff {
            large = true;
        } else {
            n = next;
        }
        k = k + 1;
    }
    if large || n == 0 || (0xd800 <= n && n <= 0xdfff) {
        None
    } else {
        Some(n)
    }
}

fn find_reference_end(bytes: &[u8], k: usize, to: usize) -> (res: usize)
    requires
        k <= to <= bytes@.len(),
    ensures
        res == reference_end(bytes@, k as int, to as int),
        k <= res <= to,
{
    let mut i = k;
    while i < to && bytes[i] != 59 && bytes[i] != 38
        invariant
            k <= i <= to <= bytes@.len(),
            reference_end(bytes@, k as int, to as int) == reference_end(
                bytes@,
                i as int,
                to as int,
            ),
        decreases to - i,
    {
        i = i + 1;
    }
    i
}

fn find_reference(bytes: &[u8], k: usize, to: usize) -> (res: Option<(u32, usize)>)
    requires
        k < to <= bytes@.len(),
    ensures
        match res {
            Some(c) => reference_at(bytes@, k as int, to as int) == Some((c.0, c.1 as int)),
            None => reference_at(bytes@, k as int, to as int) is None,
        },
{
    if to - k <= 2 || bytes[k] != 38 || bytes[k + 1] != 35 {
        return None;
    }
    let end = find_reference_end(bytes, k + 2, to);
    if end == to || bytes[end] != 59 {
        return None;
    }
    let hex = bytes[k + 2] == 120;
    let from: usize = if hex {
        k + 3
    } else {
        k + 2
    };
    if from >= end {
        return None;
    }
    let base: u32 = if hex {
        16
    } else {
        10
    };
    match read_scalar(bytes, from, end, base) {
        Some(n) => Some((n, end + 1)),
        None => None,
    }
}

fn is_going_on(bytes: &[u8], k: usize, to: usize) -> (res: bool)
    requires
        to <= bytes@.len(),
    ensures
        res == goes_on(bytes@, k as int, to as int),
{
    k < to && 0x80 <= bytes[k] && bytes[k] <= 0xbf
}

fn read_utf8(bytes: &[u8], k: usize, to: usize) -> (res: (u32, usize))
    requires
        k < to <= bytes@.len(),
    ensures
        (res.0, res.1 as int) == utf8_at(bytes@, k as int, to as int),
{
    let b = bytes[k];
    if 0xc2 <= b && b <= 0xdf && is_going_on(bytes, k + 1, to) {
        ((b - 0xc0) as u32 * 0x40 + (bytes[k + 1] - 0x80) as u32, k + 2)
    } else if 0xe0 <= b && b <= 0xef && is_going_on(bytes, k + 1, to) && is_going_on(
        bytes,
        k + 2,
        to,
    ) {
        (
            (b - 0xe0) as u32 * 0x1000 + (bytes[k + 1] - 0x80) as u32 * 0x40 + (bytes[k + 2] - 0x80)
                as u32,
            k + 3,
        )
    } else if 0xf0 <= b && b <= 0xf4 && is_going_on(bytes, k + 1, to) && is_going_on(
        bytes,
        k + 2,
        to,
    ) && is_going_on(bytes, k + 3, to) {
        (
            (b - 0xf0) as u32 * 0x40000 + (bytes[k + 1] - 0x80) as u32 * 0x1000 + (bytes[k + 2]
                - 0x80) as u32 * 0x40 + (bytes[k + 3] - 0x80) as u32,
            k + 4,
        )
    } else {
        (b as u32, k + 1)
    }
}

fn read_other(bytes: &[u8], k: usize, to: usize) -> (res: (u32, usize))
    requires
        k < to <= bytes@.len(),
    ensures
        (res.0, res.1 as int) == other_at(bytes@, k as int, to as int),
{
    let b = bytes[k];
    let left = to - k;
    if left > 1 && ((b == 0xa3 && 0xb0 <= bytes[k + 1] && bytes[k + 1] <= 0xb9) || (b == 0xa2
        && 0xaf <= bytes[k + 1] && bytes[k + 1] <= 0xb8) || (b == 0x82 && 0x4f <= bytes[k + 1]
        && bytes[k + 1] <= 0x58)) {
        (0xff10, k + 2)
    } else if left > 3 && b >= 0x81 && 48 <= bytes[k + 1] && bytes[k + 1] <= 57 && bytes[k + 2]
        >= 0x81 && 48 <= bytes[k + 3] && bytes[k + 3] <= 57 {
        (0xff10, k + 4)
    } else if 0xf0 <= b && b <= 0xf9 {
        (0xff10, k + 1)
    } else {
        (b as u32, k + 1)
    }
}

/// Puts the characters of a stretch behind those in `out`.
fn push_chars(bytes: &[u8], from: usize, to: usize, resolve: bool, utf8: bool, out: &mut Vec<u32>)
    requires
        to <= bytes@.len(),
    ensures
        final(out)@ == old(out)@ + chars_in(bytes@, from as int, to as int, resolve, utf8),
{
    let mut k = from;
    while k < to
        invariant
            to <= bytes@.len(),
            out@ + chars_in(bytes@, k as int, to as int, resolve, utf8) == old(out)@ + chars_in(
                bytes@,
                from as int,
                to as int,
                resolve,
                utf8,
            ),
        decreases to - k,
    {
        proof {
            lemma_char(bytes@, k as int, to as int, resolve, utf8);
        }
        let reference = if resolve {
            find_reference(bytes, k, to)
        } else {
            None
        };
        let (c, next) = match reference {
            Some(found) => found,
            None => if utf8 {
                read_utf8(bytes, k, to)
            } else {
                read_other(bytes, k, to)
            },
        };
        assert((c, next as int) == char_at(bytes@, k as int, to as int, resolve, utf8));
        let ghost before = out@;
        out.push(c);
        assert(before + chars_in(bytes@, k as int, to as int, resolve, utf8) =~= out@ + chars_in(
            bytes@,
            next as int,
            to as int,
            resolve,
            utf8,
        ));
        k = next;
    }
    assert(chars_in(bytes@, k as int, to as int, resolve, utf8) =~= Seq::empty());
    assert(out@ + Seq::<u32>::empty() =~= out@);
}

fn read_text(bytes: &[u8], from: usize, utf8: bool) -> (res: Vec<u32>)
    requires
        from <= bytes@.len(),
    ensures
        res@ == chars_of_text(bytes@, from as int, utf8),
{
    let mut out: Vec<u32> = Vec::new();
    let mut k = from;
    proof {
        reveal_strlit("<![CDATA[");
    }
    assert(out@ + chars_of_text(bytes@, from as int, utf8) =~= chars_of_text(
        bytes@,
        from as int,
        utf8,
    ));
    loop
        invariant
            from <= k <= bytes@.len(),
            "<![CDATA["@.len() == 9,
            out@ + chars_of_text(bytes@, k as int, utf8) == chars_of_text(
                bytes@,
                from as int,
                utf8,
            ),
        decreases bytes@.len() - k,
    {
        let p = find_byte(bytes, 60, k);
        let ghost before = out@;
        let ghost head = chars_in(bytes@, k as int, p as int, true, utf8);
        push_chars(bytes, k, p, true, utf8, &mut out);
        assert(out@ == before + head);
        if p == bytes.len() {
            return out;
        }
        match kind_at(bytes, p) {
            Markup::Section | Markup::Comment | Markup::Instruction | Markup::Doctype => {},
            _ => {
                return out;
            },
        }
        match find_markup_end(bytes, p) {
            Some(next) => {
                let ghost rest = chars_of_text(bytes@, next as int, utf8);
                if found_text(bytes, "<![CDATA[", p) {
                    let ghost section = chars_in(bytes@, p + 9, next - 3, false, utf8);
                    proof {
                        lemma_section(bytes@, p as int);
                    }
                    push_chars(bytes, p + 9, next - 3, false, utf8, &mut out);
                    assert(before + (head + section + rest) =~= out@ + rest);
                } else {
                    assert(before + (head + rest) =~= out@ + rest);
                }
                k = next;
            },
            None => {
                return out;
            },
        }
    }
}

/// A section ends behind its opening.
proof fn lemma_section(bytes: Seq<u8>, p: int)
    requires
        0 <= p < bytes.len(),
        text_at(bytes, "<![CDATA["@, p),
    ensures
        markup_at(bytes, p) == Markup::Section,
        p + 2 <= first_text(bytes, "]]>"@, p + 2),
        markup_end(bytes, p) >= 3,
{
    reveal_strlit("<![CDATA[");
    assert("<![CDATA["@[1] == '!');
    assert("<![CDATA["@[2] == '[');
    lemma_first_text(bytes, "]]>"@, p + 2);
}

// ---- Checking -----------------------------------------------------------------------------------

fn is_never_shifting(bytes: &[u8], from: usize, to: usize) -> (res: bool)
    requires
        to <= bytes@.len(),
    ensures
        res == never_shifts(bytes@, from as int, to as int),
{
    let mut k = from;
    while k < to
        invariant
            to <= bytes@.len(),
            from <= k,
            forall|m: int| from <= m < k ==> #[trigger] bytes@[m] != 27,
        decreases to - k,
    {
        if bytes[k] == 27 {
            assert(bytes@[k as int] == 27);
            return false;
        }
        k = k + 1;
    }
    true
}

fn is_stretch_readable(bytes: &[u8], from: usize, to: usize, resolve: bool, utf8: bool) -> (res: bool)
    requires
        to <= bytes@.len(),
    ensures
        res == stretch_readable(bytes@, from as int, to as int, resolve, utf8),
{
    let mut t: Vec<u32> = Vec::new();
    push_chars(bytes, from, to, resolve, true, &mut t);
    assert(t@ =~= chars_in(bytes@, from as int, to as int, resolve, true));
    if !playtime::does_time_fit(&t) {
        return false;
    }
    if utf8 {
        return true;
    }
    let mut other: Vec<u32> = Vec::new();
    push_chars(bytes, from, to, resolve, false, &mut other);
    assert(other@ =~= chars_in(bytes@, from as int, to as int, resolve, false));
    is_never_shifting(bytes, from, to) && playtime::does_time_fit(&other)
}

fn is_text_readable(bytes: &[u8], from: usize, utf8: bool) -> (res: bool)
    requires
        from <= bytes@.len(),
    ensures
        res == text_readable(bytes@, from as int, utf8),
{
    if !playtime::does_time_fit(&read_text(bytes, from, true)) {
        return false;
    }
    utf8 || (is_never_shifting(bytes, from, find_text_end(bytes, from)) && playtime::does_time_fit(
        &read_text(bytes, from, false),
    ))
}

fn find_name_end(bytes: &[u8], tag: (usize, usize)) -> (res: usize)
    requires
        tag.0 < tag.1 < bytes@.len(),
        bytes@[tag.0 as int] == 60,
    ensures
        res == name_end(bytes@, tag.0 as int, tag.1 as int),
        tag.0 < res <= contents_end(bytes@, tag.1 as int) <= tag.1,
{
    if bytes[tag.1 - 1] == 47 {
        find_blank(bytes, tag.0 + 1, tag.1 - 1)
    } else {
        find_blank(bytes, tag.0 + 1, tag.1)
    }
}

/// A tag as two numbers.
pub open spec fn place(tag: (usize, usize)) -> (int, int) {
    (tag.0 as int, tag.1 as int)
}

/// Tags as pairs of numbers.
pub open spec fn places(open: Seq<(usize, usize)>) -> Seq<(int, int)> {
    open.map_values(|tag: (usize, usize)| place(tag))
}

/// Whether places are those of opening tags.
pub open spec fn are_tags(bytes: Seq<u8>, open: Seq<(usize, usize)>) -> bool {
    forall|k: int| 0 <= k < open.len() ==> is_tag(bytes, #[trigger] open[k])
}

/// Whether a place is that of a tag.
pub open spec fn is_tag(bytes: Seq<u8>, tag: (usize, usize)) -> bool {
    tag.0 < tag.1 < bytes.len() && bytes[tag.0 as int] == 60
}

fn called(bytes: &[u8], tag: (usize, usize), word: &str) -> (res: bool)
    requires
        is_tag(bytes@, tag),
    ensures
        res == is_called(bytes@, place(tag), word@),
{
    match found_text_before(bytes, word, find_name_end(bytes, tag)) {
        Some(start) => start == tag.0 + 1 || (start > tag.0 + 1 && bytes[start - 1] == 58),
        None => false,
    }
}

fn find_equals_sign(bytes: &[u8], i: usize) -> (res: Option<usize>)
    requires
        i <= bytes@.len(),
    ensures
        match res {
            Some(sign) => equals_sign(bytes@, i as int) == Some(sign as int) && sign < i,
            None => equals_sign(bytes@, i as int) is None,
        },
{
    if i == 0 || !quote(bytes[i - 1]) {
        return None;
    }
    let behind = skip_blanks_back(bytes, i - 1);
    if behind == 0 || bytes[behind - 1] != 61 {
        return None;
    }
    Some(behind - 1)
}

fn can_name_start(bytes: &[u8], start: usize) -> (res: bool)
    requires
        start <= bytes@.len(),
    ensures
        res == name_can_start(bytes@, start as int),
{
    start > 0 && (blank(bytes[start - 1]) || quote(bytes[start - 1]))
}

fn found_value(bytes: &[u8], word: &str, i: usize) -> (res: bool)
    requires
        i <= bytes@.len(),
    ensures
        res == value_at(bytes@, word@, i as int),
{
    let sign = match find_equals_sign(bytes, i) {
        Some(sign) => sign,
        None => {
            return false;
        },
    };
    match found_text_before(bytes, word, skip_blanks_back(bytes, sign)) {
        Some(start) => can_name_start(bytes, start),
        None => false,
    }
}

fn same_bytes(bytes: &[u8], a: usize, b: usize, len: usize) -> (res: bool)
    requires
        a + len <= bytes@.len(),
        b + len <= bytes@.len(),
    ensures
        res == (bytes@.subrange(a as int, a + len) == bytes@.subrange(b as int, b + len)),
{
    let ghost first = bytes@.subrange(a as int, a + len);
    let ghost second = bytes@.subrange(b as int, b + len);
    let n = bytes.len();
    for k in 0..len
        invariant
            n == bytes@.len(),
            a + len <= n,
            b + len <= n,
            first == bytes@.subrange(a as int, a + len),
            second == bytes@.subrange(b as int, b + len),
            forall|m: int| 0 <= m < k ==> first[m] == second[m],
    {
        assert(first[k as int] == bytes@[a + k]);
        assert(second[k as int] == bytes@[b + k]);
        if bytes[a + k] != bytes[b + k] {
            return false;
        }
    }
    assert(first =~= second);
    true
}

fn found_prefix_value(bytes: &[u8], from: usize, to: usize, i: usize) -> (res: bool)
    requires
        i <= bytes@.len(),
        from <= to <= bytes@.len(),
    ensures
        res == prefix_value_at(bytes@, from as int, to as int, i as int),
{
    let sign = match find_equals_sign(bytes, i) {
        Some(sign) => sign,
        None => {
            return false;
        },
    };
    let end = skip_blanks_back(bytes, sign);
    let len = to - from;
    if end < len || end - len <= 6 {
        return false;
    }
    let start: usize = end - len;
    same_bytes(bytes, start, from, len) && found_text(bytes, "xmlns:", start - 6)
        && can_name_start(bytes, start - 6)
}

fn found_bound_by(
    bytes: &[u8],
    by: (usize, usize),
    from: usize,
    to: usize,
    space: &str,
) -> (res: bool)
    requires
        is_tag(bytes@, by),
        from <= to <= bytes@.len(),
    ensures
        res == is_bound_by(bytes@, place(by), from as int, to as int, space@),
{
    let colon = find_byte(bytes, 58, from);
    let mut i = by.0;
    let len = text::chars_of(space).len();
    while i < by.1
        invariant
            is_tag(bytes@, by),
            from <= to <= bytes@.len(),
            by.0 <= i <= by.1,
            len == space@.len(),
            from <= colon,
            colon == first_byte(bytes@, 58, from as int),
            forall|m: int|
                by.0 < m <= i && #[trigger] binds_at(bytes@, from as int, to as int, m)
                    ==> !value_is(bytes@, space@, m),
        decreases by.1 - i,
    {
        i = i + 1;
        let binds = if colon < to {
            found_prefix_value(bytes, from, colon, i)
        } else {
            found_value(bytes, "xmlns", i) || found_value(bytes, "xmlns:", i)
        };
        assert(binds == binds_at(bytes@, from as int, to as int, i as int));
        if binds && found_text(bytes, space, i) && bytes.len() - i > len && bytes[i + len] == bytes[i
            - 1] {
            assert(value_is(bytes@, space@, i as int));
            return true;
        }
    }
    false
}

fn found_bound(bytes: &[u8], open: &Vec<(usize, usize)>, tag: (usize, usize), space: &str) -> (res:
    bool)
    requires
        is_tag(bytes@, tag),
        are_tags(bytes@, open@),
    ensures
        res == is_bound(bytes@, places(open@), place(tag), space@),
{
    let from: usize = tag.0 + 1;
    let to = find_name_end(bytes, tag);
    if found_bound_by(bytes, tag, from, to, space) {
        return true;
    }
    for k in 0..open.len()
        invariant
            are_tags(bytes@, open@),
            from == tag.0 + 1,
            to == name_end(bytes@, tag.0 as int, tag.1 as int),
            from <= to <= bytes@.len(),
            forall|m: int|
                0 <= m < k ==> !is_bound_by(
                    bytes@,
                    #[trigger] places(open@)[m],
                    from as int,
                    to as int,
                    space@,
                ),
    {
        assert(is_tag(bytes@, open@[k as int]));
        assert(places(open@)[k as int] == place(open@[k as int]));
        if found_bound_by(bytes, open[k], from, to, space) {
            return true;
        }
    }
    false
}

fn skip_blanks(bytes: &[u8], i: usize, to: usize) -> (res: usize)
    requires
        i <= to <= bytes@.len(),
    ensures
        res == blanks_end(bytes@, i as int, to as int),
        i <= res <= to,
{
    let mut k = i;
    while k < to && blank(bytes[k])
        invariant
            i <= k <= to <= bytes@.len(),
            blanks_end(bytes@, i as int, to as int) == blanks_end(bytes@, k as int, to as int),
        decreases to - k,
    {
        k = k + 1;
    }
    k
}

fn find_key_end(bytes: &[u8], i: usize, to: usize) -> (res: usize)
    requires
        i <= to <= bytes@.len(),
    ensures
        res == key_end(bytes@, i as int, to as int),
        i <= res <= to,
{
    let mut k = i;
    while k < to && bytes[k] != 61 && !blank(bytes[k])
        invariant
            i <= k <= to <= bytes@.len(),
            key_end(bytes@, i as int, to as int) == key_end(bytes@, k as int, to as int),
        decreases to - k,
    {
        k = k + 1;
    }
    k
}

/// The places of the name and the value of the attribute that is read from index `i` on.
fn find_attribute(bytes: &[u8], i: usize, to: usize) -> (res: Option<
    ((usize, usize), (usize, usize)),
>)
    requires
        i <= to <= bytes@.len(),
    ensures
        match res {
            Some(a) => attribute_at(bytes@, i as int, to as int) == Some(
                Attribute { name: place(a.0), value: place(a.1) },
            ) && a.0.0 < a.0.1 < a.1.0 <= a.1.1 < to && i <= a.1.1,
            None => attribute_at(bytes@, i as int, to as int) is None,
        },
{
    let start = skip_blanks(bytes, i, to);
    if start == to {
        return None;
    }
    let end = find_key_end(bytes, start + 1, to);
    if end == to {
        return None;
    }
    let sign = skip_blanks(bytes, end, to);
    if sign == to || bytes[sign] != 61 {
        return None;
    }
    let open = skip_blanks(bytes, sign + 1, to);
    if open == to || !quote(bytes[open]) {
        return None;
    }
    let close = find_byte(bytes, bytes[open], open + 1);
    if close >= to {
        return None;
    }
    Some(((start, end), (open + 1, close)))
}

fn found_space_name(bytes: &[u8], from: usize, to: usize, name: (usize, usize)) -> (res: bool)
    requires
        from <= to <= bytes@.len(),
        name.0 <= name.1 <= bytes@.len(),
    ensures
        res == names_space(bytes@, from as int, to as int, name.0 as int, name.1 as int),
{
    let len = name.1 - name.0;
    let colon = find_byte(bytes, 58, from);
    if colon < to {
        let prefix = colon - from;
        len >= 6 && len - 6 == prefix && found_text(bytes, "xmlns:", name.0) && same_bytes(
            bytes,
            name.0 + 6,
            from,
            prefix,
        )
    } else {
        (len == 5 && found_text(bytes, "xmlns", name.0)) || (len == 6 && found_text(
            bytes,
            "xmlns:",
            name.0,
        ))
    }
}

fn find_space_by(bytes: &[u8], by: (usize, usize), from: usize, to: usize) -> (res: Option<
    (usize, usize),
>)
    requires
        is_tag(bytes@, by),
        from <= to <= bytes@.len(),
    ensures
        match res {
            Some(space) => space_by(bytes@, place(by), from as int, to as int) == Some(place(space))
                && space.0 <= space.1 <= bytes@.len(),
            None => space_by(bytes@, place(by), from as int, to as int) is None,
        },
{
    let mut i = find_name_end(bytes, by);
    let end: usize = if bytes[by.1 - 1] == 47 {
        by.1 - 1
    } else {
        by.1
    };
    let mut found: Option<(usize, usize)> = None;
    loop
        invariant
            i <= end < bytes@.len(),
            from <= to <= bytes@.len(),
            found matches Some(space) ==> space.0 <= space.1 <= bytes@.len(),
            space_by(bytes@, place(by), from as int, to as int) == match space_from(
                bytes@,
                i as int,
                end as int,
                from as int,
                to as int,
            ) {
                Some(space) => Some(space),
                None => match found {
                    Some(space) => Some(place(space)),
                    None => None,
                },
            },
        decreases end - i,
    {
        match find_attribute(bytes, i, end) {
            Some((name, value)) => {
                if found_space_name(bytes, from, to, name) {
                    found = Some(value);
                }
                i = value.1 + 1;
            },
            None => {
                return found;
            },
        }
    }
}

fn found_in_space(bytes: &[u8], open: &Vec<(usize, usize)>, tag: (usize, usize), space: &str) -> (res:
    bool)
    requires
        is_tag(bytes@, tag),
        are_tags(bytes@, open@),
    ensures
        res == is_in_space(bytes@, places(open@), place(tag), space@),
{
    let from: usize = tag.0 + 1;
    let to = find_name_end(bytes, tag);
    let ghost all = places(open@);
    assert(all.push(place(tag)).drop_last() =~= all);
    let mut found = find_space_by(bytes, tag, from, to);
    let mut len = open.len();
    assert(all.take(len as int) =~= all);
    while len > 0 && found.is_none()
        invariant
            are_tags(bytes@, open@),
            all == places(open@),
            len <= open@.len(),
            from <= to <= bytes@.len(),
            found matches Some(f) ==> f.0 <= f.1 <= bytes@.len(),
            space_of(bytes@, all.push(place(tag)), from as int, to as int) == match found {
                Some(f) => Some(place(f)),
                None => space_of(bytes@, all.take(len as int), from as int, to as int),
            },
        decreases len,
    {
        assert(is_tag(bytes@, open@[len - 1]));
        assert(all.take(len as int).last() == place(open@[len - 1]));
        assert(all.take(len as int).drop_last() =~= all.take(len - 1));
        found = find_space_by(bytes, open[len - 1], from, to);
        len = len - 1;
    }
    match found {
        Some(f) => f.1 - f.0 == text::chars_of(space).len() && found_text(bytes, space, f.0),
        None => false,
    }
}

fn is_closed_by(bytes: &[u8], p: usize, e: usize, tag: (usize, usize)) -> (res: bool)
    requires
        p + 1 < e < bytes@.len(),
        bytes@[p + 1] == 47,
        is_tag(bytes@, tag),
    ensures
        res == closes(bytes@, p as int, e as int, place(tag)),
{
    let end = skip_blanks_back(bytes, e);
    proof {
        lemma_before_blanks(bytes@, p + 2, e as int);
    }
    let start: usize = p + 2;
    let to = find_name_end(bytes, tag);
    let len: usize = end - start;
    if len != to - (tag.0 + 1) {
        assert(bytes@.subrange(p + 2, end as int).len() != bytes@.subrange(
            tag.0 + 1,
            to as int,
        ).len());
        return false;
    }
    same_bytes(bytes, start, tag.0 + 1, len)
}

proof fn lemma_before_blanks(bytes: Seq<u8>, from: int, i: int)
    requires
        0 < from <= i,
        !is_blank(bytes[from - 1]),
    ensures
        from <= before_blanks(bytes, i) <= i,
    decreases i,
{
    if i > from && is_blank(bytes[i - 1]) {
        lemma_before_blanks(bytes, from, i - 1);
    }
}

// ---- Walking ------------------------------------------------------------------------------------

fn is_in_item(bytes: &[u8], open: &Vec<(usize, usize)>, len: usize) -> (res: bool)
    requires
        are_tags(bytes@, open@),
        len <= open@.len(),
    ensures
        res == in_item(bytes@, places(open@).take(len as int)),
{
    let ghost all = places(open@).take(len as int);
    if len != 3 {
        return false;
    }
    assert(is_tag(bytes@, open@[0]) && is_tag(bytes@, open@[1]) && is_tag(bytes@, open@[2]));
    assert(all[0] == place(open@[0]) && all[1] == place(open@[1]) && all[2] == place(open@[2]));
    called(bytes, open[0], "rss") && called(bytes, open[1], "channel") && called(
        bytes,
        open[2],
        "item",
    )
}

fn is_in_entry(bytes: &[u8], open: &Vec<(usize, usize)>, len: usize) -> (res: bool)
    requires
        are_tags(bytes@, open@),
        len <= open@.len(),
    ensures
        res == in_entry(bytes@, places(open@).take(len as int)),
{
    let ghost all = places(open@).take(len as int);
    if len == 1 {
        assert(is_tag(bytes@, open@[0]));
        assert(all[0] == place(open@[0]));
        called(bytes, open[0], "entry")
    } else if len == 2 {
        assert(is_tag(bytes@, open@[0]) && is_tag(bytes@, open@[1]));
        assert(all[0] == place(open@[0]) && all[1] == place(open@[1]));
        called(bytes, open[0], "feed") && called(bytes, open[1], "entry")
    } else {
        is_in_item(bytes, open, len)
    }
}

fn is_in_media(bytes: &[u8], open: &Vec<(usize, usize)>) -> (res: bool)
    requires
        are_tags(bytes@, open@),
    ensures
        res == in_media(bytes@, places(open@)),
{
    let mut len = open.len();
    let ghost all = places(open@);
    assert(all.take(len as int) =~= all);
    while len > 0
        invariant
            are_tags(bytes@, open@),
            len <= open@.len(),
            all == places(open@),
            in_media(bytes@, all) == in_media(bytes@, all.take(len as int)),
        decreases len,
    {
        let tag = open[len - 1];
        assert(is_tag(bytes@, open@[len - 1]));
        assert(all.take(len as int).last() == place(tag));
        assert(all.take(len as int).drop_last() =~= all.take(len - 1));
        if called(bytes, tag, "content") {
            len = len - 1;
        } else if called(bytes, tag, "group") {
            return is_in_entry(bytes, open, len - 1);
        } else {
            return is_in_entry(bytes, open, len);
        }
    }
    is_in_entry(bytes, open, 0)
}

fn are_times_readable(bytes: &[u8], tag: (usize, usize), word: &str, utf8: bool) -> (res: bool)
    requires
        is_tag(bytes@, tag),
    ensures
        res == times_readable(bytes@, place(tag), word@, utf8),
{
    let mut i = tag.0;
    while i < tag.1
        invariant
            is_tag(bytes@, tag),
            tag.0 <= i <= tag.1,
            forall|m: int|
                tag.0 < m <= i && #[trigger] value_at(bytes@, word@, m) ==> value_readable(
                    bytes@,
                    m,
                    first_byte(bytes@, bytes@[m - 1], m),
                    utf8,
                ),
        decreases tag.1 - i,
    {
        i = i + 1;
        if found_value(bytes, word, i) {
            let end = find_byte(bytes, bytes[i - 1], i);
            if !is_stretch_readable(bytes, i, end, true, utf8) || !is_stretch_readable(
                bytes,
                i,
                end,
                false,
                utf8,
            ) {
                return false;
            }
        }
    }
    true
}

/// How far the parser has come in a document.
struct Position {
    open: Vec<(usize, usize)>,
    slips: usize,
    lost: bool,
}

impl Position {
    spec fn walk(self) -> Walk {
        Walk { open: places(self.open@), slips: self.slips as nat, lost: self.lost }
    }
}

fn is_of_space(bytes: &[u8], at: &Position, tag: (usize, usize), space: &str, utf8: bool) -> (res:
    bool)
    requires
        is_tag(bytes@, tag),
        are_tags(bytes@, at.open@),
    ensures
        res == belongs(bytes@, at.walk(), place(tag), space@, utf8),
{
    if !utf8 || at.slips > 0 {
        true
    } else if at.lost {
        found_bound(bytes, &at.open, tag, space)
    } else {
        found_in_space(bytes, &at.open, tag, space)
    }
}

fn reads_duration(bytes: &[u8], at: &Position, tag: (usize, usize), utf8: bool) -> (res: bool)
    requires
        is_tag(bytes@, tag),
        are_tags(bytes@, at.open@),
    ensures
        res == is_duration(bytes@, at.walk(), place(tag), utf8),
{
    assert(places(at.open@).take(at.open@.len() as int) =~= places(at.open@));
    called(bytes, tag, "duration") && (at.lost || at.slips > 0 || is_in_item(
        bytes,
        &at.open,
        at.open.len(),
    )) && is_of_space(bytes, at, tag, "http://www.itunes.com/dtds/podcast-1.0.dtd", utf8)
}

fn reads_times(bytes: &[u8], at: &Position, tag: (usize, usize), name: &str, utf8: bool) -> (res: bool)
    requires
        is_tag(bytes@, tag),
        are_tags(bytes@, at.open@),
    ensures
        res == has_times(bytes@, at.walk(), place(tag), name@, utf8),
{
    called(bytes, tag, name) && (at.lost || at.slips > 0 || is_in_media(bytes, &at.open))
        && is_of_space(bytes, at, tag, "http://search.yahoo.com/mrss/", utf8)
}

fn is_tag_readable(bytes: &[u8], at: &Position, tag: (usize, usize), utf8: bool) -> (res: bool)
    requires
        is_tag(bytes@, tag),
        are_tags(bytes@, at.open@),
    ensures
        res == tag_readable(bytes@, at.walk(), place(tag), utf8),
{
    if !utf8 {
        let mut k: usize = tag.0 + 1;
        while k < tag.1
            invariant
                !utf8,
                is_tag(bytes@, tag),
                tag.0 < k <= tag.1,
                forall|m: int| tag.0 < m < k ==> !hides_name(#[trigger] bytes@[m]),
            decreases tag.1 - k,
        {
            if bytes[k] == 0 || bytes[k] == 27 {
                assert(hides_name(bytes@[k as int]));
                return false;
            }
            k = k + 1;
        }
    }
    if reads_times(bytes, at, tag, "thumbnail", utf8) && !are_times_readable(
        bytes,
        tag,
        "time",
        utf8,
    ) {
        return false;
    }
    if reads_times(bytes, at, tag, "text", utf8) && !(are_times_readable(bytes, tag, "start", utf8)
        && are_times_readable(bytes, tag, "end", utf8)) {
        return false;
    }
    !reads_duration(bytes, at, tag, utf8) || bytes[tag.1 - 1] == 47 || is_text_readable(
        bytes,
        tag.1 + 1,
        utf8,
    )
}

/// Whether no more than `MAX_NEST` elements called `word` lie directly in one another, `tag` being
/// the innermost of them.
fn is_nested_well(bytes: &[u8], open: &Vec<(usize, usize)>, tag: (usize, usize), word: &str) -> (res:
    bool)
    requires
        is_tag(bytes@, tag),
        are_tags(bytes@, open@),
    ensures
        res == (nested(bytes@, places(open@).push(place(tag)), word@) <= MAX_NEST),
{
    let ghost all = places(open@);
    assert(all.push(place(tag)).drop_last() =~= all);
    if !called(bytes, tag, word) {
        return true;
    }
    let mut count: usize = 1;
    let mut len = open.len();
    assert(all.take(len as int) =~= all);
    while len > 0 && count <= MAX_NEST
        invariant
            are_tags(bytes@, open@),
            len <= open@.len(),
            all == places(open@),
            1 <= count <= MAX_NEST + 1,
            nested(bytes@, all.push(place(tag)), word@) == count + nested(
                bytes@,
                all.take(len as int),
                word@,
            ),
        decreases len,
    {
        assert(is_tag(bytes@, open@[len - 1]));
        assert(all.take(len as int).last() == place(open@[len - 1]));
        assert(all.take(len as int).drop_last() =~= all.take(len - 1));
        if !called(bytes, open[len - 1], word) {
            return count <= MAX_NEST;
        }
        count = count + 1;
        len = len - 1;
    }
    count <= MAX_NEST
}

fn is_tolerant(bytes: &[u8], tag: (usize, usize)) -> (res: bool)
    requires
        is_tag(bytes@, tag),
    ensures
        res == tolerates(bytes@, place(tag)),
{
    called(bytes, tag, "title") || called(bytes, tag, "description") || called(
        bytes,
        tag,
        "copyright",
    ) || called(bytes, tag, "rights") || called(bytes, tag, "category") || called(
        bytes,
        tag,
        "creator",
    )
}

fn names_utf8(bytes: &[u8]) -> (res: bool)
    ensures
        res == is_utf8(bytes@),
{
    let n = bytes.len();
    if n >= 2 && ((bytes[0] == 0xfe && bytes[1] == 0xff) || (bytes[0] == 0xff && bytes[1] == 0xfe)
        || (bytes[0] == 0 && bytes[1] == 60) || (bytes[0] == 60 && bytes[1] == 0)) {
        return false;
    }
    let mut i: usize = 0;
    while i < n
        invariant
            n == bytes@.len(),
            i <= n,
            forall|k: int|
                k < i && #[trigger] value_at(bytes@, "encoding"@, k) ==> is_utf8_label(bytes@, k),
        decreases n - i,
    {
        if i > 0 && quote(bytes[i - 1]) && found_value(bytes, "encoding", i) {
            let label = n - i > 4 && (bytes[i] == 117 || bytes[i] == 85) && (bytes[i + 1] == 116
                || bytes[i + 1] == 84) && (bytes[i + 2] == 102 || bytes[i + 2] == 70) && ((bytes[i
                + 3] == 56 && quote(bytes[i + 4])) || (n - i > 5 && bytes[i + 3] == 45 && bytes[i
                + 4] == 56 && quote(bytes[i + 5])));
            if !label {
                assert(!is_utf8_label(bytes@, i as int));
                return false;
            }
        }
        i = i + 1;
    }
    if found_value(bytes, "encoding", n) {
        assert(!is_utf8_label(bytes@, n as int));
        return false;
    }
    true
}

/// Whether a document can be given to the parser.
pub fn is_tame(bytes: &[u8]) -> (res: bool)
    ensures
        res == tame(bytes@),
{
    if find_byte(bytes, 60, 0) >= find_byte(bytes, 123, 0) {
        return true;
    }
    let utf8 = names_utf8(bytes);
    let mut at = Position { open: Vec::new(), slips: 0, lost: false };
    let mut from: usize = 0;
    assert(places(at.open@) =~= Seq::empty());
    loop
        invariant
            is_markup(bytes@),
            utf8 == is_utf8(bytes@),
            from <= bytes@.len(),
            at.slips <= from,
            are_tags(bytes@, at.open@),
            at.open@.len() <= from,
            tame(bytes@) == readable_from(bytes@, from as int, at.walk(), utf8),
        decreases bytes@.len() - from,
    {
        let p = find_byte(bytes, 60, from);
        if p == bytes.len() {
            return true;
        }
        let next = match find_markup_end(bytes, p) {
            Some(next) => next,
            None => {
                return true;
            },
        };
        let ghost before = at.open@;
        let ghost walk = at.walk();
        proof {
            lemma_tag_end(bytes@, p + 1, 0);
            lemma_tag_end(bytes@, p + 2, 0);
        }
        match kind_at(bytes, p) {
            Markup::Opening => {
                let tag = (p, next - 1);
                if at.open.len() >= MAX_OPEN - at.slips.min(MAX_OPEN) {
                    return false;
                }
                if !is_nested_well(bytes, &at.open, tag, "category") || !is_nested_well(
                    bytes,
                    &at.open,
                    tag,
                    "content",
                ) || !is_tag_readable(bytes, &at, tag, utf8) {
                    return false;
                }
                let depth = at.open.len();
                if depth > 0 {
                    assert(is_tag(bytes@, before[depth - 1]));
                    assert(places(before).last() == place(before[depth - 1]));
                    if is_tolerant(bytes, at.open[depth - 1]) {
                        at.lost = true;
                    }
                }
                if bytes[next - 2] != 47 {
                    at.open.push(tag);
                    assert(places(at.open@) =~= places(before).push(place(tag)));
                }
                assert(at.walk() == after_opening(bytes@, walk, place(tag)));
            },
            Markup::Closing => {
                if let Some(tag) = at.open.pop() {
                    assert(places(at.open@) =~= places(before).drop_last());
                    assert(places(before).last() == place(tag));
                    assert(is_tag(bytes@, before[before.len() - 1]));
                    if !is_closed_by(bytes, p, next - 1, tag) {
                        at.slips = at.slips + 1;
                    }
                }
                assert(at.walk() == after_closing(bytes@, walk, p as int, next - 1));
            },
            _ => {},
        }
        from = next;
    }
}

} // verus!
