//! What both browsers share: short texts, places on the screen, addresses and the clipboard.
use crate::rules::config::FeedConfig;
use crate::server::config;
use crate::server::config::ServerConfig;
use crate::server::rss;
use crate::text;
use crate::time;
use crate::time::UtcTime;
use vstd::arithmetic::div_mod::lemma_fundamental_div_mod_converse;
use vstd::prelude::*;
use vstd::string::*;
use vstd::utf8::*;

verus! {

/// What comes after a session with the browsers.
#[derive(Debug)]
pub enum Action {
    Quit,
    /// The feed with this slug is synced, and the session goes on.
    Sync(String),
}

/// A key that was pressed.
#[derive(Clone, Copy, Debug, PartialEq, Eq, Structural)]
pub enum Key {
    Up,
    Down,
    Home,
    End,
    PageUp,
    PageDown,
    Enter,
    Esc,
    Backspace,
    Char(char),
    Other,
}

/// A colour of the terminal.
#[derive(Clone, Copy, Debug, PartialEq, Eq, Structural)]
pub enum Color {
    Reset,
    Green,
    Cyan,
    DarkGray,
    Yellow,
    Red,
    Blue,
}

// ---- Selection -----------------------------------------------------------------------------

/// The place in a list of `len` entries that is nearest to `idx`; nought where it is empty.
pub open spec fn clamped(idx: int, len: int) -> int {
    if len == 0 {
        0
    } else if idx >= len {
        len - 1
    } else {
        idx
    }
}

/// The place in a list of `len` entries that is nearest to `idx`.
pub fn clamp(idx: usize, len: usize) -> (res: usize)
    ensures
        res == clamped(idx as int, len as int),
{
    if len == 0 {
        0
    } else if idx >= len {
        len - 1
    } else {
        idx
    }
}

/// The place `n` below `idx`, but not below nought.
pub open spec fn up_by(idx: int, n: int) -> int {
    if idx >= n {
        idx - n
    } else {
        0
    }
}

/// The place `n` before `idx`.
pub fn move_up(idx: usize, n: usize) -> (res: usize)
    ensures
        res == up_by(idx as int, n as int),
{
    if idx >= n {
        idx - n
    } else {
        0
    }
}

/// The place in a list of `len` entries that is nearest to `n` behind `idx`.
pub fn move_down(idx: usize, n: usize, len: usize) -> (res: usize)
    ensures
        res == clamped(idx + n, len as int),
{
    match idx.checked_add(n) {
        Some(sum) => clamp(sum, len),
        None => clamp(usize::MAX, len),
    }
}

// ---- Short texts ---------------------------------------------------------------------------

/// How long ago something was, in words.
pub open spec fn ago_text(secs: nat) -> Seq<char> {
    if secs < 120 {
        "just now"@
    } else if secs < 3600 {
        text::decimal(secs / 60) + "m ago"@
    } else if secs < 86400 {
        text::decimal(secs / 3600) + "h ago"@
    } else {
        text::decimal(secs / 86400) + "d ago"@
    }
}

/// The whole seconds from `at` to `now`; nought where `at` is later.
pub open spec fn secs_since(at: UtcTime, now: UtcTime) -> nat {
    let secs = time::quotient(now.since(at), 1_000_000_000);
    if secs < 0 {
        0
    } else {
        secs as nat
    }
}

/// How long before `now` something was, in words.
pub open spec fn time_ago_text(at: Option<UtcTime>, now: UtcTime) -> Seq<char> {
    match at {
        Some(t) => ago_text(secs_since(t, now)),
        None => "never"@,
    }
}

/// How long before `now` something was, in words.
pub fn time_ago(at: &Option<UtcTime>, now: &UtcTime) -> (res: String)
    ensures
        res@ == time_ago_text(*at, *now),
{
    let at = match at {
        Some(t) => t,
        None => {
            return "never".to_string();
        },
    };
    let signed = now.signed_duration_since(at).num_seconds();
    let secs: u64 = if signed < 0 {
        0
    } else {
        signed as u64
    };
    if secs < 120 {
        "just now".to_string()
    } else if secs < 3600 {
        let mut s = text::decimal_text(secs / 60);
        s.append("m ago");
        s
    } else if secs < 86400 {
        let mut s = text::decimal_text(secs / 3600);
        s.append("h ago");
        s
    } else {
        let mut s = text::decimal_text(secs / 86400);
        s.append("d ago");
        s
    }
}

/// A size in words. `gigabytes` is the number of gigabytes with one decimal place, for a size
/// of at least one.
pub open spec fn bytes_text(bytes: Option<u64>, gigabytes: Seq<char>) -> Seq<char> {
    match bytes {
        None => "—"@,
        Some(b) => if b < 1_000_000 {
            text::decimal(b as nat / 1_000) + " KB"@
        } else if b < 1_000_000_000 {
            text::decimal(b as nat / 1_000_000) + " MB"@
        } else {
            gigabytes + " GB"@
        },
    }
}

/// A size in words. `gigabytes` is the number of gigabytes with one decimal place, for a size
/// of at least one.
pub fn format_bytes(bytes: Option<u64>, gigabytes: &str) -> (res: String)
    ensures
        res@ == bytes_text(bytes, gigabytes@),
{
    match bytes {
        None => "—".to_string(),
        Some(b) => if b < 1_000_000 {
            let mut s = text::decimal_text(b / 1_000);
            s.append(" KB");
            s
        } else if b < 1_000_000_000 {
            let mut s = text::decimal_text(b / 1_000_000);
            s.append(" MB");
            s
        } else {
            let mut s = gigabytes.to_string();
            s.append(" GB");
            s
        },
    }
}

/// A length of time in words.
pub open spec fn dur_text(secs: Option<u64>) -> Seq<char> {
    match secs {
        None => "—"@,
        Some(s) => {
            let h = s as nat / 3600;
            let m = (s as nat % 3600) / 60;
            if h > 0 {
                text::decimal(h) + "h "@ + text::two_digits(m) + "m"@
            } else {
                text::decimal(m) + "m"@
            }
        },
    }
}

/// A length of time in words.
pub fn format_dur(secs: Option<u64>) -> (res: String)
    ensures
        res@ == dur_text(secs),
{
    match secs {
        None => "—".to_string(),
        Some(s) => {
            let h = s / 3600;
            let m = (s % 3600) / 60;
            if h > 0 {
                let mut out = text::decimal_text(h);
                out.append("h ");
                out.append(text::two_digit_text(m).as_str());
                out.append("m");
                out
            } else {
                let mut out = text::decimal_text(m);
                out.append("m");
                out
            }
        },
    }
}

/// At most `max` characters of a text; a longer one ends in an ellipsis.
pub open spec fn shortened(s: Seq<char>, max: nat) -> Seq<char> {
    if max == 0 {
        Seq::empty()
    } else if s.len() <= max {
        s
    } else {
        s.take(max - 1).push('…')
    }
}

/// At most `max` characters of a text; a longer one ends in an ellipsis.
pub fn trunc(s: &str, max: usize) -> (res: String)
    ensures
        res@ == shortened(s@, max as nat),
{
    if max == 0 {
        return String::new();
    }
    let chars = text::chars_of(s);
    if chars.len() <= max {
        return s.to_string();
    }
    let mut out = String::new();
    for i in 0..max - 1
        invariant
            1 <= max < chars@.len(),
            chars@ == s@,
            out@ == s@.take(i as int),
    {
        out.push(chars[i]);
        assert(s@.take(i + 1) =~= s@.take(i as int).push(s@[i as int]));
    }
    out.push('…');
    out
}

/// A column: a text that is shortened or filled up with blanks to `width` characters.
pub open spec fn column(s: Seq<char>, width: nat) -> Seq<char> {
    text::padded_right(shortened(s, width), width)
}

/// A column of `width` characters.
pub fn column_text(s: &str, width: usize) -> (res: String)
    ensures
        res@ == column(s@, width as nat),
{
    text::pad_right(trunc(s, width).as_str(), width)
}

/// Columns of one width line up.
pub proof fn law_columns_line_up(s: Seq<char>, width: nat)
    ensures
        column(s, width).len() == width,
        s.len() <= width ==> column(s, width).take(s.len() as int) == s,
{
    if s.len() <= width {
        assert(column(s, width).take(s.len() as int) =~= s);
    }
}

// ---- Addresses -----------------------------------------------------------------------------

/// The public address of the server without the slashes at its end.
pub open spec fn bare_base(srv: ServerConfig) -> Seq<char> {
    text::skip_right(srv.base_url@, text::is_char('/'))
}

/// The address of a restreamed feed.
pub open spec fn restream_address(feed: FeedConfig, srv: ServerConfig) -> Option<Seq<char>> {
    if feed.restream {
        Some(bare_base(srv) + "/rss/"@ + feed.slug@ + config::key_suffix(srv.auth_token))
    } else {
        None
    }
}

/// The address of a restreamed feed, with the token where one is set.
pub fn feed_restream_url(feed: &FeedConfig, srv: &ServerConfig) -> (res: Option<String>)
    ensures
        text::opt_text(res) == restream_address(*feed, *srv),
{
    if !feed.restream {
        return None;
    }
    let mut s = text::trim_end_char(srv.base_url.as_str(), '/');
    s.append("/rss/");
    s.append(feed.slug.as_str());
    s.append(srv.key_query().as_str());
    Some(s)
}

/// The address of the audio of an episode of a restreamed feed.
pub open spec fn episode_address(
    feed: Option<FeedConfig>,
    srv: Option<ServerConfig>,
    slug: Seq<char>,
    id: Seq<char>,
) -> Option<Seq<char>> {
    match (feed, srv) {
        (Some(f), Some(s)) => if f.restream {
            Some(bare_base(s) + "/rss/"@ + slug + "/"@ + id + config::key_suffix(s.auth_token))
        } else {
            None
        },
        _ => None,
    }
}

/// The address of the audio of an episode of a restreamed feed.
pub fn episode_restream_url(
    feed: &Option<FeedConfig>,
    srv: &Option<ServerConfig>,
    slug: &str,
    id: &str,
) -> (res: Option<String>)
    ensures
        text::opt_text(res) == episode_address(*feed, *srv, slug@, id@),
{
    match feed {
        Some(f) => match srv {
            Some(s) => {
                if !f.restream {
                    return None;
                }
                let mut out = text::trim_end_char(s.base_url.as_str(), '/');
                out.append("/rss/");
                out.append(slug);
                out.append("/");
                out.append(id);
                out.append(s.key_query().as_str());
                Some(out)
            },
            None => None,
        },
        None => None,
    }
}

/// The addresses that the browsers show are those that the documents of restreamed feeds give,
/// where the public address of the server does not end in several slashes.
pub proof fn law_browsers_show_the_served_addresses(
    feed: FeedConfig,
    srv: ServerConfig,
    id: Seq<char>,
)
    requires
        feed.restream,
        srv.base_url@.len() > 0,
        srv.base_url@.len() >= 2 ==> srv.base_url@[srv.base_url@.len() - 2] != '/',
    ensures
        restream_address(feed, srv) == Some(rss::feed_address(srv, feed.slug@)),
        episode_address(Some(feed), Some(srv), feed.slug@, id) == Some(
            rss::audio_address(srv, feed.slug@, id),
        ),
{
    reveal_strlit("/rss/");
    reveal_strlit("rss/");
    let base = srv.base_url@;
    let key = config::key_suffix(srv.auth_token);
    if base.last() == '/' {
        reveal_with_fuel(text::skip_right, 3);
        assert(bare_base(srv) =~= base.drop_last());
        assert(base.drop_last() + "/rss/"@ =~= base + "rss/"@);
    } else {
        assert(bare_base(srv) =~= base);
        assert(base + "/rss/"@ =~= base.push('/') + "rss/"@);
    }
}

// ---- Places on the screen --------------------------------------------------------------------

/// A rectangle on the screen.
#[derive(Clone, Copy, Debug, PartialEq, Eq, Structural)]
pub struct Rect {
    pub x: u16,
    pub y: u16,
    pub width: u16,
    pub height: u16,
}

impl Rect {
    /// Whether the far corner of the rectangle still has coordinates.
    pub open spec fn fits(self) -> bool {
        self.x + self.width <= u16::MAX && self.y + self.height <= u16::MAX
    }

    /// Whether `self` lies inside `outer`.
    pub open spec fn inside(self, outer: Rect) -> bool {
        &&& outer.x <= self.x
        &&& outer.y <= self.y
        &&& self.x + self.width <= outer.x + outer.width
        &&& self.y + self.height <= outer.y + outer.height
    }
}

/// How far a piece of length `inner` begins behind the start of one of length `outer` when it
/// is put in its middle.
pub open spec fn margin(inner: int, outer: int) -> int {
    if outer > inner {
        (outer - inner) / 2
    } else {
        0
    }
}

fn half_gap(inner: u16, outer: u16) -> (res: u16)
    ensures
        res == margin(inner as int, outer as int),
        res <= outer,
{
    if outer > inner {
        (outer - inner) / 2
    } else {
        0
    }
}

/// A rectangle of the given size in the middle of `outer`, cut to its size.
pub fn centered_rect(width: u16, height: u16, outer: Rect) -> (res: Rect)
    requires
        outer.fits(),
    ensures
        res.x == outer.x + margin(width as int, outer.width as int),
        res.y == outer.y + margin(height as int, outer.height as int),
        res.width == if width < outer.width {
            width
        } else {
            outer.width
        },
        res.height == if height < outer.height {
            height
        } else {
            outer.height
        },
        res.inside(outer),
{
    Rect {
        x: outer.x + half_gap(width, outer.width),
        y: outer.y + half_gap(height, outer.height),
        width: if width < outer.width {
            width
        } else {
            outer.width
        },
        height: if height < outer.height {
            height
        } else {
            outer.height
        },
    }
}

// ---- The clipboard ---------------------------------------------------------------------------

/// What is said after a text was copied: to the system's clipboard where that worked, else
/// through the terminal where that could be written to.
pub fn copy_to_clipboard(system: bool, terminal: bool) -> (res: &'static str)
    ensures
        res@ == if system {
            "Copied to clipboard"@
        } else if terminal {
            "Copied via terminal (OSC 52 — requires compatible terminal)"@
        } else {
            "No clipboard available — URL printed to stderr"@
        },
{
    if system {
        "Copied to clipboard"
    } else if terminal {
        "Copied via terminal (OSC 52 — requires compatible terminal)"
    } else {
        "No clipboard available — URL printed to stderr"
    }
}

/// The character that stands for six bits in base 64.
pub open spec fn b64_digit(n: int) -> char {
    if n < 26 {
        (n + 'A' as int) as char
    } else if n < 52 {
        (n - 26 + 'a' as int) as char
    } else if n < 62 {
        (n - 52 + '0' as int) as char
    } else if n == 62 {
        '+'
    } else {
        '/'
    }
}

/// The base 64 form of three bytes.
pub open spec fn b64_group(a: u8, b: u8, c: u8) -> Seq<char> {
    seq![
        b64_digit(a as int / 4),
        b64_digit((a as int % 4) * 16 + b as int / 16),
        b64_digit((b as int % 16) * 4 + c as int / 64),
        b64_digit(c as int % 64),
    ]
}

/// The base 64 form of some bytes, filled up to whole groups with equals signs.
pub open spec fn b64_of(data: Seq<u8>) -> Seq<char>
    decreases data.len(),
{
    if data.len() == 0 {
        Seq::empty()
    } else if data.len() == 1 {
        b64_group(data[0], 0, 0).take(2).push('=').push('=')
    } else if data.len() == 2 {
        b64_group(data[0], data[1], 0).take(3).push('=')
    } else {
        b64_group(data[0], data[1], data[2]) + b64_of(data.skip(3))
    }
}

fn b64_char(n: u8) -> (res: char)
    requires
        n < 64,
    ensures
        res == b64_digit(n as int),
{
    if n < 26 {
        (n + 65) as char
    } else if n < 52 {
        (n - 26 + 97) as char
    } else if n < 62 {
        (n - 52 + 48) as char
    } else if n == 62 {
        '+'
    } else {
        '/'
    }
}

fn push_group(out: &mut String, a: u8, b: u8, c: u8, kept: usize)
    requires
        2 <= kept <= 4,
    ensures
        final(out)@ == old(out)@ + b64_group(a, b, c).take(kept as int) + if kept == 4 {
            Seq::empty()
        } else if kept == 3 {
            seq!['=']
        } else {
            seq!['=', '=']
        },
{
    let ghost before = out@;
    out.push(b64_char(a / 4));
    out.push(b64_char((a % 4) * 16 + b / 16));
    if kept > 2 {
        out.push(b64_char((b % 16) * 4 + c / 64));
    } else {
        out.push('=');
    }
    if kept > 3 {
        out.push(b64_char(c % 64));
    } else {
        out.push('=');
    }
    assert(out@ =~= before + b64_group(a, b, c).take(kept as int) + if kept == 4 {
        Seq::empty()
    } else if kept == 3 {
        seq!['=']
    } else {
        seq!['=', '=']
    });
}

/// The base 64 form of some bytes, as RFC 4648 has it.
pub fn b64(data: &[u8]) -> (res: String)
    ensures
        res@ == b64_of(data@),
{
    let mut out = String::new();
    let n = data.len();
    let mut i: usize = 0;
    assert(data@.skip(0) =~= data@);
    while n - i >= 3
        invariant
            n == data@.len(),
            i <= n,
            b64_of(data@) == out@ + b64_of(data@.skip(i as int)),
        decreases n - i,
    {
        let ghost before = out@;
        let ghost rest = data@.skip(i as int);
        push_group(&mut out, data[i], data[i + 1], data[i + 2], 4);
        proof {
            let group = b64_group(rest[0], rest[1], rest[2]);
            assert(group.take(4) =~= group);
            assert(rest.skip(3) =~= data@.skip(i + 3));
            assert(out@ =~= before + group);
            assert(before + (group + b64_of(rest.skip(3))) =~= out@ + b64_of(rest.skip(3)));
        }
        i = i + 3;
    }
    let ghost rest = data@.skip(i as int);
    let ghost before = out@;
    if n - i == 1 {
        push_group(&mut out, data[i], 0, 0, 2);
        assert(out@ =~= before + b64_of(rest));
    } else if n - i == 2 {
        push_group(&mut out, data[i], data[i + 1], 0, 3);
        assert(out@ =~= before + b64_of(rest));
    } else {
        assert(out@ =~= before + b64_of(rest));
    }
    out
}

proof fn lemma_b64_digit_apart(m: int, n: int)
    requires
        0 <= m < 64,
        0 <= n < 64,
        b64_digit(m) == b64_digit(n),
    ensures
        m == n,
        b64_digit(m) != '=',
{
}

proof fn lemma_b64_group_apart(a: Seq<u8>, b: Seq<u8>)
    requires
        a.len() == 3,
        b.len() == 3,
        b64_group(a[0], a[1], a[2]) == b64_group(b[0], b[1], b[2]),
    ensures
        a == b,
{
    let p = b64_group(a[0], a[1], a[2]);
    let q = b64_group(b[0], b[1], b[2]);
    assert(p[0] == q[0] && p[1] == q[1] && p[2] == q[2] && p[3] == q[3]);
    lemma_b64_digit_apart(a[0] as int / 4, b[0] as int / 4);
    lemma_b64_digit_apart(
        (a[0] as int % 4) * 16 + a[1] as int / 16,
        (b[0] as int % 4) * 16 + b[1] as int / 16,
    );
    lemma_b64_digit_apart(
        (a[1] as int % 16) * 4 + a[2] as int / 64,
        (b[1] as int % 16) * 4 + b[2] as int / 64,
    );
    lemma_b64_digit_apart(a[2] as int % 64, b[2] as int % 64);
    assert(a =~= b);
}

/// The base 64 form loses nothing: different bytes have different forms.
pub proof fn law_base64_loses_nothing(a: Seq<u8>, b: Seq<u8>)
    requires
        b64_of(a) == b64_of(b),
    ensures
        a == b,
    decreases a.len(),
{
    let p = b64_of(a);
    lemma_b64_shape(a);
    lemma_b64_shape(b);
    if a.len() >= 3 && b.len() >= 3 {
        let ga = b64_group(a[0], a[1], a[2]);
        let gb = b64_group(b[0], b[1], b[2]);
        assert(p.take(4) =~= ga);
        assert(b64_of(b).take(4) =~= gb);
        assert(p.skip(4) =~= b64_of(a.skip(3)));
        assert(b64_of(b).skip(4) =~= b64_of(b.skip(3)));
        assert(a.take(3)[0] == a[0]);
        lemma_b64_group_apart(a.take(3), b.take(3));
        law_base64_loses_nothing(a.skip(3), b.skip(3));
        assert(a =~= a.take(3) + a.skip(3));
        assert(b =~= b.take(3) + b.skip(3));
    } else if a.len() == 1 && b.len() == 1 {
        let q = b64_of(b);
        assert(p[0] == q[0] && p[1] == q[1]);
        assert(p[0] == b64_digit(a[0] as int / 4));
        assert(p[1] == b64_digit((a[0] as int % 4) * 16));
        assert(q[0] == b64_digit(b[0] as int / 4));
        assert(q[1] == b64_digit((b[0] as int % 4) * 16));
        lemma_b64_digit_apart(a[0] as int / 4, b[0] as int / 4);
        lemma_b64_digit_apart((a[0] as int % 4) * 16, (b[0] as int % 4) * 16);
        assert(a =~= b);
    } else if a.len() == 2 && b.len() == 2 {
        let q = b64_of(b);
        assert(p[0] == q[0] && p[1] == q[1] && p[2] == q[2]);
        lemma_b64_digit_apart(a[0] as int / 4, b[0] as int / 4);
        lemma_b64_digit_apart(
            (a[0] as int % 4) * 16 + a[1] as int / 16,
            (b[0] as int % 4) * 16 + b[1] as int / 16,
        );
        lemma_b64_digit_apart((a[1] as int % 16) * 4, (b[1] as int % 16) * 4);
        assert(a =~= b);
    } else {
        assert(a =~= b);
    }
}

/// Where the equals signs of a base 64 form stand, and how long it is.
proof fn lemma_b64_shape(data: Seq<u8>)
    ensures
        b64_of(data).len() == 4 * ((data.len() + 2) / 3),
        data.len() == 1 ==> b64_of(data)[2] == '=' && b64_of(data)[3] == '=',
        data.len() == 2 ==> b64_of(data)[2] != '=' && b64_of(data)[3] == '=',
        data.len() >= 3 ==> b64_of(data)[2] != '=' && b64_of(data)[3] != '=',
    decreases data.len(),
{
    if data.len() >= 3 {
        lemma_b64_shape(data.skip(3));
        let n = (data[1] as int % 16) * 4 + data[2] as int / 64;
        lemma_b64_digit_apart(n, n);
        lemma_b64_digit_apart(data[2] as int % 64, data[2] as int % 64);
    } else if data.len() == 2 {
        let n = (data[1] as int % 16) * 4;
        lemma_b64_digit_apart(n, n);
    }
}

/// The escape sequence that asks a terminal to copy a text.
pub fn osc52(s: &str) -> (res: String)
    ensures
        res@ == "\u{1b}]52;c;"@ + b64_of(encode_utf8(s@)) + "\u{7}"@,
{
    let mut out = "\u{1b}]52;c;".to_string();
    out.append(b64(s.as_bytes()).as_str());
    out.append("\u{7}");
    out
}

// ---- Laws ------------------------------------------------------------------------------------

/// A place in a list: one that is in it stays, one behind it becomes the last one.
pub proof fn law_nearest_place_in_a_list(idx: int, n: int, len: int)
    requires
        0 <= idx,
        0 <= n,
        0 <= len,
    ensures
        idx < len ==> clamped(idx, len) == idx,
        0 < len <= idx ==> clamped(idx, len) == len - 1,
        clamped(idx, 0) == 0,
        n <= idx ==> up_by(idx, n) == idx - n,
        n > idx ==> up_by(idx, n) == 0,
{
}

/// How long ago something was: below two minutes just now, then whole minutes up to an hour,
/// whole hours up to a day, and whole days.
pub proof fn law_how_long_ago(secs: nat, at: UtcTime, now: UtcTime)
    ensures
        secs < 2 * 60 ==> ago_text(secs) == "just now"@,
        2 * 60 <= secs < 60 * 60 ==> ago_text(secs) == text::decimal(secs / 60) + "m ago"@,
        60 * 60 <= secs < 24 * 60 * 60 ==> ago_text(secs) == text::decimal(secs / (60 * 60))
            + "h ago"@,
        24 * 60 * 60 <= secs ==> ago_text(secs) == text::decimal(secs / (24 * 60 * 60)) + "d ago"@,
        time_ago_text(None, now) == "never"@,
        now.since(at) < 0 ==> time_ago_text(Some(at), now) == "just now"@,
        now.since(at) >= 0 ==> time_ago_text(Some(at), now) == ago_text(
            (now.since(at) / 1_000_000_000) as nat,
        ),
{
    if now.since(at) < 0 {
        let n = -now.since(at);
        vstd::arithmetic::div_mod::lemma_div_pos_is_pos(n, 1_000_000_000);
    } else {
        vstd::arithmetic::div_mod::lemma_div_pos_is_pos(now.since(at), 1_000_000_000);
    }
}

/// A size is shown in the largest unit that it reaches, rounded down; one that is not known as a
/// dash.
pub proof fn law_sizes_in_words(b: u64, gigabytes: Seq<char>)
    ensures
        bytes_text(None, gigabytes) == "—"@,
        b < 1_000_000 ==> bytes_text(Some(b), gigabytes) == text::decimal((b / 1_000) as nat)
            + " KB"@,
        1_000_000 <= b < 1_000_000_000 ==> bytes_text(Some(b), gigabytes) == text::decimal(
            (b / 1_000_000) as nat,
        ) + " MB"@,
        1_000_000_000 <= b ==> bytes_text(Some(b), gigabytes) == gigabytes + " GB"@,
{
}

/// A length of time is shown in hours and minutes, or in minutes alone below an hour; the seconds
/// do not count.
pub proof fn law_lengths_in_words(h: nat, m: nat, s: nat, secs: u64)
    requires
        m < 60,
        s < 60,
        secs == h * 3600 + m * 60 + s,
    ensures
        dur_text(None) == "—"@,
        h > 0 ==> dur_text(Some(secs)) == text::decimal(h) + "h "@ + text::two_digits(m) + "m"@,
        h == 0 ==> dur_text(Some(secs)) == text::decimal(m) + "m"@,
{
    let n = secs as nat;
    assert(n / 3600 == h);
    assert(n % 3600 == m * 60 + s);
    assert((n % 3600) / 60 == m);
}

/// A text that is too long is cut, and an ellipsis takes the last place.
pub proof fn law_long_texts_end_in_an_ellipsis(s: Seq<char>, max: nat)
    ensures
        shortened(s, 0).len() == 0,
        0 < max && s.len() <= max ==> shortened(s, max) == s,
        0 < max < s.len() ==> shortened(s, max).len() == max && shortened(s, max).last() == '…'
            && shortened(s, max).drop_last() == s.take(max - 1),
{
    if 0 < max < s.len() {
        assert(shortened(s, max).drop_last() =~= s.take(max - 1));
    }
}

/// A browser offers an address only of what is restreamed by a server.
pub proof fn law_addresses_only_of_what_is_served(
    feed: FeedConfig,
    srv: ServerConfig,
    slug: Seq<char>,
    id: Seq<char>,
)
    ensures
        restream_address(feed, srv) is Some <==> feed.restream,
        episode_address(Some(feed), Some(srv), slug, id) is Some <==> feed.restream,
        episode_address(None, Some(srv), slug, id) is None,
        episode_address(Some(feed), None, slug, id) is None,
{
}

/// A piece in the middle has the same room on both sides, but for one cell.
pub proof fn law_middle_has_equal_margins(inner: int, outer: int)
    ensures
        0 <= inner <= outer ==> {
            let left = margin(inner, outer);
            let right = outer - inner - left;
            0 <= right - left <= 1
        },
        inner > outer ==> margin(inner, outer) == 0,
{
}

/// The digits of base 64 are the capital letters, the small letters, the figures, plus and slash.
pub proof fn law_base64_digits(n: int)
    requires
        0 <= n < 64,
    ensures
        n < 26 ==> b64_digit(n) as int == 65 + n,
        26 <= n < 52 ==> b64_digit(n) as int == 97 + (n - 26),
        52 <= n < 62 ==> b64_digit(n) as int == 48 + (n - 52),
        b64_digit(62) == '+',
        b64_digit(63) == '/',
{
}

/// Three bytes give the digits of their 24 bits, six at a time.
pub proof fn law_base64_takes_six_bits(a: u8, b: u8, c: u8, rest: Seq<u8>)
    ensures
        ({
            let bits = a as int * 65536 + b as int * 256 + c as int;
            let code = b64_of(seq![a, b, c] + rest);
            &&& code.len() == 4 + b64_of(rest).len()
            &&& code[0] == b64_digit(bits / 262144)
            &&& code[1] == b64_digit((bits / 4096) % 64)
            &&& code[2] == b64_digit((bits / 64) % 64)
            &&& code[3] == b64_digit(bits % 64)
            &&& code.skip(4) == b64_of(rest)
        }),
{
    let data = seq![a, b, c] + rest;
    assert(data.skip(3) =~= rest);
    assert(data[0] == a && data[1] == b && data[2] == c);
    lemma_six_bits(a as int, b as int, c as int);
    let group = b64_group(a, b, c);
    assert((group + b64_of(rest)).skip(4) =~= b64_of(rest));
}

proof fn lemma_six_bits(x: int, y: int, z: int)
    requires
        0 <= x < 256,
        0 <= y < 256,
        0 <= z < 256,
    ensures
        ({
            let bits = x * 65536 + y * 256 + z;
            &&& bits / 262144 == x / 4
            &&& (bits / 4096) % 64 == (x % 4) * 16 + y / 16
            &&& (bits / 64) % 64 == (y % 16) * 4 + z / 64
            &&& bits % 64 == z % 64
        }),
{
    let bits = x * 65536 + y * 256 + z;
    let xq = x / 4;
    let xr = x % 4;
    let yq = y / 16;
    let yr = y % 16;
    let zq = z / 64;
    let zr = z % 64;
    assert(x == 4 * xq + xr && y == 16 * yq + yr && z == 64 * zq + zr);
    lemma_fundamental_div_mod_converse(bits, 262144, xq, xr * 65536 + y * 256 + z);
    lemma_fundamental_div_mod_converse(bits, 4096, x * 16 + yq, yr * 256 + z);
    lemma_fundamental_div_mod_converse(x * 16 + yq, 64, xq, xr * 16 + yq);
    lemma_fundamental_div_mod_converse(bits, 64, x * 1024 + y * 4 + zq, zr);
    lemma_fundamental_div_mod_converse(x * 1024 + y * 4 + zq, 64, x * 16 + yq, yr * 4 + zq);
}

/// One or two bytes at the end give two or three digits, filled up with equals signs.
pub proof fn law_base64_is_filled_up(a: u8, b: u8)
    ensures
        b64_of(Seq::empty()).len() == 0,
        b64_of(seq![a]).len() == 4,
        b64_of(seq![a])[0] == b64_digit(a as int / 4),
        b64_of(seq![a])[1] == b64_digit((a as int % 4) * 16),
        b64_of(seq![a])[2] == '=',
        b64_of(seq![a])[3] == '=',
        b64_of(seq![a, b]).len() == 4,
        b64_of(seq![a, b])[0] == b64_digit(a as int / 4),
        b64_of(seq![a, b])[1] == b64_digit((a as int % 4) * 16 + b as int / 16),
        b64_of(seq![a, b])[2] == b64_digit((b as int % 16) * 4),
        b64_of(seq![a, b])[3] == '=',
{
    assert(seq![a, b][0] == a && seq![a, b][1] == b);
}

} // verus!
