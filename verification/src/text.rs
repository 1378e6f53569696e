//! Text helpers shared by the whole crate, stated over sequences of characters.
use vstd::prelude::*;
use vstd::string::*;
use vstd::utf8::*;

verus! {

// ---- What the standard library does ------------------------------------------

/// `String::push` appends the given character to the end of the string.
pub assume_specification[ String::push ](s: &mut String, c: char)
    ensures
        final(s)@ == old(s)@.push(c),
;

/// The text that `str::to_lowercase` gives for a text.
pub uninterp spec fn lowercase(s: Seq<char>) -> Seq<char>;

/// `str::to_lowercase` maps each character by its Unicode lower-case mapping. An ASCII
/// text has its capital letters replaced one for one, and no ASCII capital letter is left
/// in any result.
#[verifier::external_body]
pub(crate) fn to_lower(s: &str) -> (res: String)
    ensures
        res@ == lowercase(s@),
        is_ascii_chars(s@) ==> res@ == ascii_lowercase(s@),
        forall|i: int| 0 <= i < res@.len() ==> !is_ascii_upper(#[trigger] res@[i]),
{
    s.to_lowercase()
}

/// Whether a character has the Unicode property White_Space.
pub open spec fn white_space(c: char) -> bool {
    let n = c as u32;
    ||| 0x9 <= n <= 0xd
    ||| n == 0x20
    ||| n == 0x85
    ||| n == 0xa0
    ||| n == 0x1680
    ||| 0x2000 <= n <= 0x200a
    ||| n == 0x2028
    ||| n == 0x2029
    ||| n == 0x202f
    ||| n == 0x205f
    ||| n == 0x3000
}

/// Whether a character has the Unicode property White_Space.
pub fn is_white_space(c: char) -> (res: bool)
    ensures
        res == white_space(c),
{
    let n = c as u32;
    (0x9 <= n && n <= 0xd) || n == 0x20 || n == 0x85 || n == 0xa0 || n == 0x1680 || (0x2000 <= n
        && n <= 0x200a) || n == 0x2028 || n == 0x2029 || n == 0x202f || n == 0x205f || n == 0x3000
}

/// The text that the `Debug` form of a string shows: quoted, with escapes.
pub uninterp spec fn debug_text(s: Seq<char>) -> Seq<char>;

/// The `Debug` form of a `str` is a function of its characters.
#[verifier::external_body]
pub(crate) fn debug_quote(s: &str) -> (res: String)
    ensures
        res@ == debug_text(s@),
{
    format!("{:?}", s)
}

// ---- Characters ----------------------------------------------------------------

pub open spec fn is_ascii_upper(c: char) -> bool {
    'A' <= c <= 'Z'
}

pub open spec fn is_ascii_lower(c: char) -> bool {
    'a' <= c <= 'z'
}

pub open spec fn is_ascii_digit(c: char) -> bool {
    '0' <= c <= '9'
}

pub open spec fn is_ascii_alphanumeric(c: char) -> bool {
    is_ascii_upper(c) || is_ascii_lower(c) || is_ascii_digit(c)
}

/// The lower-case letter of an ASCII capital letter; any other character itself.
pub open spec fn ascii_lower(c: char) -> char {
    if is_ascii_upper(c) {
        (c as u32 + 32) as char
    } else {
        c
    }
}

/// A text with its ASCII capital letters replaced by lower-case ones.
pub open spec fn ascii_lowercase(s: Seq<char>) -> Seq<char> {
    Seq::new(s.len(), |i: int| ascii_lower(s[i]))
}

pub fn ascii_alphanumeric(c: char) -> (res: bool)
    ensures
        res == is_ascii_alphanumeric(c),
{
    ('A' <= c && c <= 'Z') || ('a' <= c && c <= 'z') || ('0' <= c && c <= '9')
}

pub fn ascii_lower_char(c: char) -> (res: char)
    ensures
        res == ascii_lower(c),
{
    if 'A' <= c && c <= 'Z' {
        let lowered: u8 = (c as u8) + 32;
        lowered as char
    } else {
        c
    }
}

/// The characters of `s`.
pub fn chars_of(s: &str) -> (res: Vec<char>)
    ensures
        res@ == s@,
{
    let mut v: Vec<char> = Vec::new();
    for c in it: s.chars()
        invariant
            v@ == s@.take(it.index() as int),
            it.seq() == s@,
    {
        v.push(c);
    }
    v
}

/// Whether two texts hold the same characters.
pub fn same_text(a: &str, b: &str) -> (res: bool)
    ensures
        res == (a@ == b@),
{
    let v = chars_of(a);
    let w = chars_of(b);
    if v.len() != w.len() {
        return false;
    }
    for i in 0..v.len()
        invariant
            v@ == a@,
            w@ == b@,
            v@.len() == w@.len(),
            forall|k: int| 0 <= k < i ==> v@[k] == w@[k],
    {
        if v[i] != w[i] {
            assert(a@[i as int] != b@[i as int]);
            return false;
        }
    }
    assert(a@ =~= b@);
    true
}

/// `text` after its ASCII capital letters were replaced by lower-case ones.
pub fn ascii_lowercase_text(text: &str) -> (res: String)
    ensures
        res@ == ascii_lowercase(text@),
{
    let v = chars_of(text);
    let mut s = String::new();
    for i in 0..v.len()
        invariant
            v@ == text@,
            s@ == ascii_lowercase(text@).take(i as int),
    {
        s.push(ascii_lower_char(v[i]));
    }
    s
}

// ---- Numbers ---------------------------------------------------------------------

/// The character of a decimal digit.
pub open spec fn digit(d: int) -> char {
    (48 + d) as char
}

/// The decimal notation of a natural number, without leading zeros.
pub open spec fn decimal(n: nat) -> Seq<char>
    decreases n,
{
    if n < 10 {
        seq![digit(n as int)]
    } else {
        decimal(n / 10).push(digit((n % 10) as int))
    }
}

/// The decimal notation of an integer, with a minus sign where it is negative.
pub open spec fn signed_decimal(n: int) -> Seq<char> {
    if n < 0 {
        "-"@ + decimal((-n) as nat)
    } else {
        decimal(n as nat)
    }
}

/// The decimal notation of a number, with a leading zero where it has one digit only.
pub open spec fn two_digits(n: nat) -> Seq<char> {
    if n < 10 {
        "0"@ + decimal(n)
    } else {
        decimal(n)
    }
}

fn digit_char(d: u8) -> (c: char)
    requires
        d < 10,
    ensures
        c == digit(d as int),
{
    (48u8 + d) as char
}

/// The decimal notation of `n`.
pub fn decimal_text(n: u64) -> (res: String)
    ensures
        res@ == decimal(n as nat),
    decreases n,
{
    let last = digit_char((n % 10) as u8);
    let mut s = if n < 10 { String::new() } else { decimal_text(n / 10) };
    s.push(last);
    s
}

/// The decimal notation of `n`.
pub fn signed_decimal_text(n: i64) -> (res: String)
    ensures
        res@ == signed_decimal(n as int),
{
    if n < 0 {
        let mut s = "-".to_string();
        let magnitude: u64 = (0i128 - n as i128) as u64;
        s.append(decimal_text(magnitude).as_str());
        s
    } else {
        decimal_text(n as u64)
    }
}

/// The decimal notation of `n` with at least two digits.
pub fn two_digit_text(n: u64) -> (res: String)
    ensures
        res@ == two_digits(n as nat),
{
    if n < 10 {
        let mut s = "0".to_string();
        s.append(decimal_text(n).as_str());
        s
    } else {
        decimal_text(n)
    }
}

// ---- Looking for a character --------------------------------------------------

/// The index of the first `c` in `s`, or the length of `s` where there is none.
pub open spec fn position(s: Seq<char>, c: char) -> int
    decreases s.len(),
{
    if s.len() == 0 || s[0] == c {
        0
    } else {
        1 + position(s.drop_first(), c)
    }
}

/// The index of the last `c` in `s`, or -1 where there is none.
pub open spec fn last_position(s: Seq<char>, c: char) -> int
    decreases s.len(),
{
    if s.len() == 0 {
        -1
    } else if s.last() == c {
        s.len() - 1
    } else {
        last_position(s.drop_last(), c)
    }
}

/// The part of `s` before its first `c`; the whole of it where there is none.
pub open spec fn before(s: Seq<char>, c: char) -> Seq<char> {
    s.take(position(s, c))
}

proof fn lemma_position(s: Seq<char>, c: char, i: int)
    requires
        0 <= i <= s.len(),
        forall|j: int| 0 <= j < i ==> s[j] != c,
        i < s.len() ==> s[i] == c,
    ensures
        position(s, c) == i,
    decreases s.len(),
{
    if s.len() != 0 && s[0] != c {
        assert forall|j: int| 0 <= j < i - 1 implies s.drop_first()[j] != c by {
            assert(s.drop_first()[j] == s[j + 1]);
        }
        lemma_position(s.drop_first(), c, i - 1);
    }
}

proof fn lemma_last_position(s: Seq<char>, c: char, i: int)
    requires
        -1 <= i < s.len(),
        forall|j: int| i < j < s.len() ==> s[j] != c,
        i >= 0 ==> s[i] == c,
    ensures
        last_position(s, c) == i,
    decreases s.len(),
{
    if s.len() != 0 && s.last() != c {
        lemma_last_position(s.drop_last(), c, i);
    }
}

/// The last position of a character that does not occur is -1.
pub proof fn lemma_no_last_position(s: Seq<char>, c: char)
    ensures
        last_position(s, c) >= -1,
        last_position(s, c) < s.len(),
    decreases s.len(),
{
    if s.len() > 0 {
        lemma_no_last_position(s.drop_last(), c);
    }
}

/// The part of `s` before its first `c`.
pub fn text_before(s: &str, c: char) -> (res: String)
    ensures
        res@ == before(s@, c),
{
    let v = chars_of(s);
    let mut out = String::new();
    let mut i: usize = 0;
    while i < v.len() && v[i] != c
        invariant
            v@ == s@,
            i <= v.len(),
            out@ == s@.take(i as int),
            forall|j: int| 0 <= j < i ==> s@[j] != c,
        decreases v.len() - i,
    {
        out.push(v[i]);
        i = i + 1;
    }
    proof {
        lemma_position(s@, c, i as int);
    }
    out
}

/// The part of `s` after its last `c`; nothing where there is no `c`.
pub fn text_after_last(s: &str, c: char) -> (res: Option<String>)
    ensures
        res is Some <==> last_position(s@, c) >= 0,
        res is Some ==> res->0@ == s@.skip(last_position(s@, c) + 1),
{
    let v = chars_of(s);
    let mut i: usize = v.len();
    while i > 0 && v[i - 1] != c
        invariant
            v@ == s@,
            i <= v.len(),
            forall|j: int| i <= j < s@.len() ==> s@[j] != c,
        decreases i,
    {
        i = i - 1;
    }
    proof {
        lemma_last_position(s@, c, i - 1);
    }
    if i == 0 {
        None
    } else {
        let mut out = String::new();
        let start = i;
        let mut k = i;
        while k < v.len()
            invariant
                v@ == s@,
                start <= k <= v.len(),
                out@ == s@.subrange(start as int, k as int),
            decreases v.len() - k,
        {
            out.push(v[k]);
            k = k + 1;
        }
        assert(s@.subrange(start as int, k as int) =~= s@.skip(start as int));
        Some(out)
    }
}

// ---- Trimming ----------------------------------------------------------------------

/// `s` without the characters that satisfy `p` at its start.
pub open spec fn skip_left(s: Seq<char>, p: spec_fn(char) -> bool) -> Seq<char>
    decreases s.len(),
{
    if s.len() > 0 && p(s[0]) {
        skip_left(s.drop_first(), p)
    } else {
        s
    }
}

/// `s` without the characters that satisfy `p` at its end.
pub open spec fn skip_right(s: Seq<char>, p: spec_fn(char) -> bool) -> Seq<char>
    decreases s.len(),
{
    if s.len() > 0 && p(s.last()) {
        skip_right(s.drop_last(), p)
    } else {
        s
    }
}

/// `s` without the characters that satisfy `p` at both ends.
pub open spec fn trimmed(s: Seq<char>, p: spec_fn(char) -> bool) -> Seq<char> {
    skip_right(skip_left(s, p), p)
}

/// The predicate of being the character `c`.
pub open spec fn is_char(c: char) -> spec_fn(char) -> bool {
    |x: char| x == c
}

/// The predicate of being white space.
pub open spec fn is_white() -> spec_fn(char) -> bool {
    |x: char| white_space(x)
}

proof fn lemma_skip_left(s: Seq<char>, p: spec_fn(char) -> bool, i: int)
    requires
        0 <= i <= s.len(),
        forall|j: int| 0 <= j < i ==> p(#[trigger] s[j]),
        i < s.len() ==> !p(s[i]),
    ensures
        skip_left(s, p) == s.skip(i),
    decreases s.len(),
{
    if s.len() > 0 && p(s[0]) {
        assert forall|j: int| 0 <= j < i - 1 implies p(#[trigger] s.drop_first()[j]) by {
            assert(s.drop_first()[j] == s[j + 1]);
        }
        lemma_skip_left(s.drop_first(), p, i - 1);
        assert(s.drop_first().skip(i - 1) =~= s.skip(i));
    } else {
        assert(s.skip(0) =~= s);
    }
}

proof fn lemma_skip_right(s: Seq<char>, p: spec_fn(char) -> bool, i: int)
    requires
        0 <= i <= s.len(),
        forall|j: int| i <= j < s.len() ==> p(#[trigger] s[j]),
        i > 0 ==> !p(s[i - 1]),
    ensures
        skip_right(s, p) == s.take(i),
    decreases s.len(),
{
    if s.len() > 0 && p(s.last()) {
        lemma_skip_right(s.drop_last(), p, i);
        assert(s.drop_last().take(i) =~= s.take(i));
    } else {
        assert(s.take(s.len() as int) =~= s);
    }
}

fn take_text(v: &Vec<char>, from: usize, to: usize) -> (res: String)
    requires
        from <= to <= v.len(),
    ensures
        res@ == v@.subrange(from as int, to as int),
{
    let mut out = String::new();
    let mut k = from;
    while k < to
        invariant
            from <= k <= to <= v.len(),
            out@ == v@.subrange(from as int, k as int),
        decreases to - k,
    {
        out.push(v[k]);
        k = k + 1;
    }
    out
}

/// `s` without the `c`s at both ends.
pub fn trim_char(s: &str, c: char) -> (res: String)
    ensures
        res@ == trimmed(s@, is_char(c)),
{
    let v = chars_of(s);
    let mut from: usize = 0;
    while from < v.len() && v[from] == c
        invariant
            v@ == s@,
            from <= v.len(),
            forall|j: int| 0 <= j < from ==> s@[j] == c,
        decreases v.len() - from,
    {
        from = from + 1;
    }
    let mut to: usize = v.len();
    while to > from && v[to - 1] == c
        invariant
            v@ == s@,
            from <= to <= v.len(),
            forall|j: int| to <= j < s@.len() ==> s@[j] == c,
        decreases to,
    {
        to = to - 1;
    }
    proof {
        lemma_skip_left(s@, is_char(c), from as int);
        let rest = s@.skip(from as int);
        assert forall|j: int| to - from <= j < rest.len() implies is_char(c)(#[trigger] rest[j]) by {
            assert(rest[j] == s@[j + from]);
        }
        lemma_skip_right(rest, is_char(c), to - from);
        assert(rest.take(to - from) =~= v@.subrange(from as int, to as int));
    }
    take_text(&v, from, to)
}

/// `s` without the `c`s at its end.
pub fn trim_end_char(s: &str, c: char) -> (res: String)
    ensures
        res@ == skip_right(s@, is_char(c)),
{
    let v = chars_of(s);
    let mut to: usize = v.len();
    while to > 0 && v[to - 1] == c
        invariant
            v@ == s@,
            to <= v.len(),
            forall|j: int| to <= j < s@.len() ==> s@[j] == c,
        decreases to,
    {
        to = to - 1;
    }
    proof {
        lemma_skip_right(s@, is_char(c), to as int);
        assert(s@.take(to as int) =~= v@.subrange(0, to as int));
    }
    take_text(&v, 0, to)
}

/// `s` without the white space at both ends.
pub fn trim_white(s: &str) -> (res: String)
    ensures
        res@ == trimmed(s@, is_white()),
{
    let v = chars_of(s);
    let mut from: usize = 0;
    while from < v.len() && is_white_space(v[from])
        invariant
            v@ == s@,
            from <= v.len(),
            forall|j: int| 0 <= j < from ==> white_space(#[trigger] s@[j]),
        decreases v.len() - from,
    {
        from = from + 1;
    }
    let mut to: usize = v.len();
    while to > from && is_white_space(v[to - 1])
        invariant
            v@ == s@,
            from <= to <= v.len(),
            forall|j: int| to <= j < s@.len() ==> white_space(#[trigger] s@[j]),
        decreases to,
    {
        to = to - 1;
    }
    proof {
        lemma_skip_left(s@, is_white(), from as int);
        let rest = s@.skip(from as int);
        assert forall|j: int| to - from <= j < rest.len() implies is_white()(#[trigger] rest[j]) by {
            assert(rest[j] == s@[j + from]);
        }
        lemma_skip_right(rest, is_white(), to - from);
        assert(rest.take(to - from) =~= v@.subrange(from as int, to as int));
    }
    take_text(&v, from, to)
}

// ---- Comparing parts --------------------------------------------------------------

/// Whether `needle` occurs in `hay` at index `i`.
pub open spec fn occurs_at(hay: Seq<char>, needle: Seq<char>, i: int) -> bool {
    0 <= i && i + needle.len() <= hay.len() && hay.subrange(i, i + needle.len()) == needle
}

/// Whether `needle` occurs somewhere in `hay`.
pub open spec fn contains_text(hay: Seq<char>, needle: Seq<char>) -> bool {
    exists|i: int| occurs_at(hay, needle, i)
}

fn found_at(hay: &Vec<char>, needle: &Vec<char>, i: usize) -> (res: bool)
    requires
        i + needle.len() <= hay.len(),
    ensures
        res == occurs_at(hay@, needle@, i as int),
{
    let mut j: usize = 0;
    while j < needle.len()
        invariant
            i + needle.len() <= hay.len(),
            j <= needle.len(),
            forall|k: int| 0 <= k < j ==> hay@[i + k] == needle@[k],
        decreases needle.len() - j,
    {
        if hay[i + j] != needle[j] {
            assert(hay@.subrange(i as int, i + needle.len())[j as int] != needle@[j as int]);
            return false;
        }
        j = j + 1;
    }
    assert(hay@.subrange(i as int, i + needle.len()) =~= needle@);
    true
}

/// Whether `needle` occurs somewhere in `hay`.
pub fn text_contains(hay: &str, needle: &str) -> (res: bool)
    ensures
        res == contains_text(hay@, needle@),
{
    let h = chars_of(hay);
    let n = chars_of(needle);
    if n.len() > h.len() {
        return false;
    }
    let mut i: usize = 0;
    while i <= h.len() - n.len()
        invariant
            h@ == hay@,
            n@ == needle@,
            n.len() <= h.len(),
            i <= h.len() - n.len() + 1,
            forall|k: int| 0 <= k < i ==> !occurs_at(hay@, needle@, k),
        decreases h.len() - n.len() + 1 - i,
    {
        if found_at(&h, &n, i) {
            return true;
        }
        if i == h.len() - n.len() {
            return false;
        }
        i = i + 1;
    }
    false
}

/// What follows `prefix` in `s`, where `s` starts with it.
pub fn strip_prefix_text(s: &str, prefix: &str) -> (res: Option<String>)
    ensures
        res is Some <==> occurs_at(s@, prefix@, 0),
        res is Some ==> s@ == prefix@ + res->0@,
{
    let v = chars_of(s);
    let p = chars_of(prefix);
    if p.len() > v.len() || !found_at(&v, &p, 0) {
        return None;
    }
    let rest = take_text(&v, p.len(), v.len());
    assert(s@ =~= prefix@ + rest@) by {
        assert(s@ =~= s@.subrange(0, p@.len() as int) + s@.subrange(p@.len() as int, s@.len() as int));
    }
    Some(rest)
}

// ---- Columns ------------------------------------------------------------------------

/// `n` spaces.
pub open spec fn spaces(n: nat) -> Seq<char> {
    Seq::new(n, |i: int| ' ')
}

/// `s` followed by as many spaces as bring it to `width` characters.
pub open spec fn padded_right(s: Seq<char>, width: nat) -> Seq<char> {
    if s.len() >= width {
        s
    } else {
        s + spaces((width - s.len()) as nat)
    }
}

/// `s` preceded by as many spaces as bring it to `width` characters.
pub open spec fn padded_left(s: Seq<char>, width: nat) -> Seq<char> {
    if s.len() >= width {
        s
    } else {
        spaces((width - s.len()) as nat) + s
    }
}

fn spaces_text(n: usize) -> (res: String)
    ensures
        res@ == spaces(n as nat),
{
    let mut out = String::new();
    for i in 0..n
        invariant
            out@ == spaces(i as nat),
    {
        out.push(' ');
        assert(out@ =~= spaces((i + 1) as nat));
    }
    out
}

/// `s`, padded with spaces on its right to `width` characters.
pub fn pad_right(s: &str, width: usize) -> (res: String)
    ensures
        res@ == padded_right(s@, width as nat),
{
    let n = s.unicode_len();
    let mut out = s.to_string();
    if n < width {
        out.append(spaces_text(width - n).as_str());
    }
    out
}

/// `s`, padded with spaces on its left to `width` characters.
pub fn pad_left(s: &str, width: usize) -> (res: String)
    ensures
        res@ == padded_left(s@, width as nat),
{
    let n = s.unicode_len();
    if n < width {
        let mut out = spaces_text(width - n);
        out.append(s);
        out
    } else {
        s.to_string()
    }
}

/// The texts of `parts`, one after the other, with `sep` between neighbours.
pub open spec fn joined(parts: Seq<String>, sep: Seq<char>) -> Seq<char>
    decreases parts.len(),
{
    if parts.len() == 0 {
        Seq::empty()
    } else if parts.len() == 1 {
        parts[0]@
    } else {
        joined(parts.drop_last(), sep) + sep + parts.last()@
    }
}

/// The texts of `parts` with `sep` between neighbours.
pub fn join_texts(parts: &Vec<String>, sep: &str) -> (res: String)
    ensures
        res@ == joined(parts@, sep@),
{
    let mut out = String::new();
    for i in 0..parts.len()
        invariant
            out@ == joined(parts@.take(i as int), sep@),
    {
        if i > 0 {
            out.append(sep);
        }
        out.append(parts[i].as_str());
        assert(parts@.take(i + 1).drop_last() =~= parts@.take(i as int));
    }
    assert(parts@.take(parts@.len() as int) =~= parts@);
    out
}

/// Whether `s` is the text of one of `list`.
pub open spec fn lists_text(list: Seq<String>, s: Seq<char>) -> bool {
    exists|i: int| 0 <= i < list.len() && #[trigger] list[i]@ == s
}

/// Whether `s` is one of `list`.
pub fn list_contains(list: &Vec<String>, s: &str) -> (res: bool)
    ensures
        res == lists_text(list@, s@),
{
    for i in 0..list.len()
        invariant
            forall|j: int| 0 <= j < i ==> #[trigger] list@[j]@ != s@,
    {
        if same_text(list[i].as_str(), s) {
            return true;
        }
    }
    false
}

/// The characters of each text of a list.
pub open spec fn texts(list: Seq<String>) -> Seq<Seq<char>> {
    list.map_values(|s: String| s@)
}

/// A copy of a list of texts.
pub fn copy_texts(list: &Vec<String>) -> (res: Vec<String>)
    ensures
        res@ == list@,
{
    let mut out: Vec<String> = Vec::new();
    for i in 0..list.len()
        invariant
            out@ == list@.take(i as int),
    {
        out.push(list[i].clone());
        assert(list@.take(i + 1) =~= list@.take(i as int).push(list@[i as int]));
    }
    assert(list@.take(list@.len() as int) =~= list@);
    out
}

// ---- Options of text ---------------------------------------------------------------

/// The characters of an optional text.
pub open spec fn opt_text(o: Option<String>) -> Option<Seq<char>> {
    match o {
        Some(s) => Some(s@),
        None => None,
    }
}

/// A copy of an optional text.
pub fn copy_opt(o: &Option<String>) -> (res: Option<String>)
    ensures
        res == *o,
{
    match o {
        Some(s) => Some(s.clone()),
        None => None,
    }
}

// ---- Laws ---------------------------------------------------------------------------

/// Which characters count as letters and digits, and how capital letters are lowered.
pub proof fn law_letters_and_digits(c: char)
    ensures
        is_ascii_alphanumeric(c) <==> 48 <= c as u32 <= 57 || 65 <= c as u32 <= 90 || 97 <= c as u32
            <= 122,
        65 <= c as u32 <= 90 ==> ascii_lower(c) as u32 == c as u32 + 32,
        c as u32 > 90 || (c as u32) < 65 ==> ascii_lower(c) == c,
{
}

/// The decimal notation of a number is that of its tenth followed by its last digit.
pub proof fn law_decimal_notation(n: nat, d: nat)
    requires
        d < 10,
    ensures
        decimal(d) == seq![(48 + d) as char],
        n > 0 ==> decimal(10 * n + d) == decimal(n).push((48 + d) as char),
        two_digits(d) == "0"@ + decimal(d),
        n > 0 ==> two_digits(10 * n + d) == decimal(10 * n + d),
        n > 0 ==> signed_decimal(-(n as int)) == "-"@ + decimal(n),
        signed_decimal(n as int) == decimal(n),
{
    if n > 0 {
        assert((10 * n + d) / 10 == n);
        assert((10 * n + d) % 10 == d);
    }
}

/// The place of a character in a text: the first one from the left, the last one from the right.
pub proof fn law_places_of_a_character(s: Seq<char>, c: char, i: int)
    ensures
        0 <= i < s.len() && s[i] == c && (forall|j: int| 0 <= j < i ==> s[j] != c) ==> position(s, c)
            == i && before(s, c) == s.take(i),
        0 <= i < s.len() && s[i] == c && (forall|j: int| i < j < s.len() ==> s[j] != c)
            ==> last_position(s, c) == i,
        (forall|j: int| 0 <= j < s.len() ==> s[j] != c) ==> position(s, c) == s.len()
            && last_position(s, c) == -1 && before(s, c) == s,
    decreases s.len(),
{
    lemma_place_from_the_left(s, c, i);
    lemma_place_from_the_right(s, c, i);
    if position(s, c) == s.len() {
        assert(s.take(s.len() as int) =~= s);
    }
}

proof fn lemma_place_from_the_left(s: Seq<char>, c: char, i: int)
    ensures
        0 <= i < s.len() && s[i] == c && (forall|j: int| 0 <= j < i ==> s[j] != c) ==> position(s, c)
            == i,
        (forall|j: int| 0 <= j < s.len() ==> s[j] != c) ==> position(s, c) == s.len(),
    decreases s.len(),
{
    if s.len() > 0 {
        let rest = s.drop_first();
        lemma_place_from_the_left(rest, c, i - 1);
        assert forall|j: int| 0 <= j < rest.len() implies #[trigger] rest[j] == s[j + 1] by {}
        if i > 0 {
            assert(i < s.len() ==> rest[i - 1] == s[i]);
        }
    }
}

proof fn lemma_place_from_the_right(s: Seq<char>, c: char, i: int)
    ensures
        0 <= i < s.len() && s[i] == c && (forall|j: int| i < j < s.len() ==> s[j] != c)
            ==> last_position(s, c) == i,
        (forall|j: int| 0 <= j < s.len() ==> s[j] != c) ==> last_position(s, c) == -1,
    decreases s.len(),
{
    if s.len() > 0 {
        lemma_place_from_the_right(s.drop_last(), c, i);
        assert(s.last() == s[s.len() - 1]);
    }
}

/// Trimming takes away what is at the ends, and only there: between two runs of characters to
/// take away stays what begins and ends with another one.
pub proof fn law_trimming_leaves_the_middle(
    l: Seq<char>,
    m: Seq<char>,
    r: Seq<char>,
    p: spec_fn(char) -> bool,
)
    requires
        forall|i: int| 0 <= i < l.len() ==> p(#[trigger] l[i]),
        forall|i: int| 0 <= i < r.len() ==> p(#[trigger] r[i]),
        m.len() > 0,
        !p(m[0]),
        !p(m.last()),
    ensures
        trimmed(l + m + r, p) == m,
        trimmed(l, p).len() == 0,
        skip_right(m + r, p) == m,
{
    lemma_skip_left(l + m + r, p, l.len() as int);
    assert((l + m + r).skip(l.len() as int) =~= m + r);
    lemma_drops_run(m, r, p);
    lemma_skip_left(l, p, l.len() as int);
    assert(l.skip(l.len() as int).len() == 0);
}

proof fn lemma_drops_run(m: Seq<char>, r: Seq<char>, p: spec_fn(char) -> bool)
    requires
        forall|i: int| 0 <= i < r.len() ==> p(#[trigger] r[i]),
        m.len() > 0,
        !p(m.last()),
    ensures
        skip_right(m + r, p) == m,
    decreases r.len(),
{
    if r.len() > 0 {
        assert((m + r).last() == r[r.len() - 1]);
        assert((m + r).drop_last() =~= m + r.drop_last());
        lemma_drops_run(m, r.drop_last(), p);
    } else {
        assert(m + r =~= m);
    }
}

/// A text holds another one exactly where it is something before it, it and something behind it.
pub proof fn law_text_inside_a_text(a: Seq<char>, needle: Seq<char>, b: Seq<char>, hay: Seq<char>)
    ensures
        contains_text(a + needle + b, needle),
        contains_text(hay, needle) ==> exists|i: int|
            0 <= i && i + needle.len() <= hay.len() && hay == #[trigger] hay.take(i) + needle
                + hay.skip(i + needle.len()),
        needle.len() > hay.len() ==> !contains_text(hay, needle),
{
    let n = a.len() as int;
    assert((a + needle + b).subrange(n, n + needle.len()) =~= needle);
    assert(occurs_at(a + needle + b, needle, a.len() as int));
    if contains_text(hay, needle) {
        let i = choose|i: int| occurs_at(hay, needle, i);
        assert(hay =~= hay.take(i) + needle + hay.skip(i + needle.len()));
    }
}

/// A padded text has at least the width that was asked for, and the text stands at the side that
/// was not padded; a text that is wide enough stays as it is.
pub proof fn law_padding_reaches_the_width(s: Seq<char>, width: nat, i: int)
    ensures
        s.len() >= width ==> padded_right(s, width) == s && padded_left(s, width) == s,
        s.len() < width ==> {
            &&& padded_right(s, width).len() == width
            &&& padded_left(s, width).len() == width
            &&& padded_right(s, width).take(s.len() as int) == s
            &&& padded_left(s, width).skip(width - s.len()) == s
            &&& s.len() <= i < width ==> padded_right(s, width)[i] == ' '
            &&& 0 <= i < width - s.len() ==> padded_left(s, width)[i] == ' '
        },
{
    if s.len() < width {
        assert(padded_right(s, width).take(s.len() as int) =~= s);
        assert(padded_left(s, width).skip(width - s.len()) =~= s);
    }
}

/// Joined texts stand one after the other with the separator between neighbours, and only there.
pub proof fn law_separator_between_neighbours(parts: Seq<String>, last: String, sep: Seq<char>)
    ensures
        joined(Seq::empty(), sep).len() == 0,
        parts.len() == 0 ==> joined(parts.push(last), sep) == last@,
        parts.len() > 0 ==> joined(parts.push(last), sep) == joined(parts, sep) + sep + last@,
{
    assert(parts.push(last).drop_last() =~= parts);
}

/// White space is what Unicode calls so: the five control characters from tab to carriage return,
/// the spaces of all widths, and the separators of lines and paragraphs.
pub proof fn law_white_space(c: char)
    ensures
        white_space('\t') && white_space('\n') && white_space('\r') && white_space(' '),
        white_space('\u{b}') && white_space('\u{c}') && white_space('\u{85}') && white_space(
            '\u{a0}',
        ),
        white_space('\u{1680}') && white_space('\u{2028}') && white_space('\u{2029}')
            && white_space('\u{202f}') && white_space('\u{205f}') && white_space('\u{3000}'),
        '\u{2000}' <= c <= '\u{200a}' ==> white_space(c),
        '!' <= c <= '~' ==> !white_space(c),
        c < '\t' ==> !white_space(c),
        '\u{3000}' < c ==> !white_space(c),
        '\u{200a}' < c < '\u{2028}' ==> !white_space(c),
        '\u{a0}' < c < '\u{1680}' ==> !white_space(c),
{
}

/// The characters of optional and of listed texts are those of the texts themselves.
pub proof fn law_characters_of_texts(s: String, list: Seq<String>, i: int)
    ensures
        opt_text(None) is None,
        opt_text(Some(s)) == Some(s@),
        texts(list).len() == list.len(),
        0 <= i < list.len() ==> texts(list)[i] == list[i]@ && lists_text(list, list[i]@),
        (forall|k: int| 0 <= k < list.len() ==> (#[trigger] list[k])@ != s@) ==> !lists_text(
            list,
            s@,
        ),
{
    if 0 <= i < list.len() {
        assert(list[i]@ == list[i]@);
    }
}

} // verus!
