//! The daemon: its lock, its feeds and its server.
use crate::cli::helpers;
use crate::config::Config;
use crate::rules::config::FeedConfig;
use crate::text;
use vstd::prelude::*;
use vstd::string::*;

verus! {

// ---- The lock --------------------------------------------------------------------------

/// The name of the file that holds the number of the running daemon's process.
pub fn pid_file_name() -> (res: &'static str)
    ensures
        res@ == "dura.pid"@,
{
    "dura.pid"
}

/// The value of decimal digits, where there are only such.
pub open spec fn digits_value(s: Seq<char>) -> Option<nat>
    decreases s.len(),
{
    if s.len() == 0 {
        Some(0)
    } else {
        match digits_value(s.drop_last()) {
            Some(n) => if text::is_ascii_digit(s.last()) {
                Some(n * 10 + (s.last() as nat - 48) as nat)
            } else {
                None
            },
            None => None,
        }
    }
}

/// The number that a text holds: decimal digits, with or without a plus sign in front, that
/// fit in a `u32`.
pub open spec fn number_in(s: Seq<char>) -> Option<nat> {
    let digits = if s.len() > 0 && s[0] == '+' {
        s.drop_first()
    } else {
        s
    };
    if digits.len() == 0 {
        None
    } else {
        match digits_value(digits) {
            Some(n) => if n <= u32::MAX {
                Some(n)
            } else {
                None
            },
            None => None,
        }
    }
}

proof fn lemma_digits_prefix(s: Seq<char>, k: int)
    requires
        0 <= k <= s.len(),
        digits_value(s) is Some,
    ensures
        digits_value(s.take(k)) is Some,
        digits_value(s.take(k))->0 <= digits_value(s)->0,
    decreases s.len(),
{
    if k == s.len() {
        assert(s.take(k) =~= s);
    } else {
        assert(s.drop_last().take(k) =~= s.take(k));
        lemma_digits_prefix(s.drop_last(), k);
    }
}

/// The number that a text holds.
pub fn parse_u32(s: &str) -> (res: Option<u32>)
    ensures
        match res {
            Some(n) => number_in(s@) == Some(n as nat),
            None => number_in(s@) is None,
        },
{
    let v = text::chars_of(s);
    let start: usize = if v.len() > 0 && v[0] == '+' {
        1
    } else {
        0
    };
    let ghost digits = s@.skip(start as int);
    proof {
        assert(digits =~= if s@.len() > 0 && s@[0] == '+' {
            s@.drop_first()
        } else {
            s@
        });
    }
    if start == v.len() {
        return None;
    }
    let mut n: u64 = 0;
    let mut i = start;
    assert(digits.take(0) =~= Seq::empty());
    while i < v.len()
        invariant
            v@ == s@,
            start <= i <= v.len(),
            digits == s@.skip(start as int),
            digits.len() > 0,
            number_in(s@) == (match digits_value(digits) {
                Some(n) => if n <= u32::MAX {
                    Some(n)
                } else {
                    None
                },
                None => None,
            }),
            n <= u32::MAX,
            digits_value(digits.take(i - start)) == Some(n as nat),
        decreases v.len() - i,
    {
        let c = v[i];
        let ghost k = i - start;
        proof {
            assert(digits.take(k + 1).drop_last() =~= digits.take(k));
            assert(digits.take(k + 1).last() == c);
        }
        if !('0' <= c && c <= '9') {
            proof {
                if digits_value(digits) is Some {
                    lemma_digits_prefix(digits, k + 1);
                }
            }
            return None;
        }
        let d: u64 = (c as u8 - 48) as u64;
        n = n * 10 + d;
        if n > 0xFFFF_FFFF {
            proof {
                if digits_value(digits) is Some {
                    lemma_digits_prefix(digits, k + 1);
                }
            }
            return None;
        }
        i = i + 1;
    }
    assert(digits.take(digits.len() as int) =~= digits);
    Some(n as u32)
}

/// The number of the process that the lock names: the one in the lock's file, without white
/// space around it, where that is a number and not `own`.
pub open spec fn lock_holder(content: Option<Seq<char>>, own: u32) -> Option<nat> {
    match content {
        Some(c) => match number_in(text::trimmed(c, text::is_white())) {
            Some(n) => if n != own {
                Some(n)
            } else {
                None
            },
            None => None,
        },
        None => None,
    }
}

/// The number of another process that the lock names. `content` is what the lock's file holds,
/// where there is one, and `own` the number of this process.
pub fn other_holder(content: &Option<String>, own: u32) -> (res: Option<u32>)
    ensures
        match res {
            Some(n) => lock_holder(text::opt_text(*content), own) == Some(n as nat),
            None => lock_holder(text::opt_text(*content), own) is None,
        },
{
    match content {
        Some(c) => match parse_u32(text::trim_white(c.as_str()).as_str()) {
            Some(n) => if n != own {
                Some(n)
            } else {
                None
            },
            None => None,
        },
        None => None,
    }
}

/// The message about a daemon that is running already.
pub open spec fn lock_error_text(pid: nat, path: Seq<char>) -> Seq<char> {
    "`dura start` is already running (PID "@ + text::decimal(pid)
        + ").\n  Stop it first, or remove "@ + text::debug_text(path) + " if the file is stale."@
}

/// Proof that no other daemon held the lock; the lock's file is at `path`.
#[derive(Debug)]
pub struct RunLockGuard {
    pub path: String,
}

/// Takes the lock whose file is at `path`. It is refused where the file names another process
/// that is running; `running` is what is known of the process that
/// [`other_holder`] gives.
pub fn acquire_run_lock(path: &str, content: &Option<String>, own: u32, running: bool) -> (res:
    Result<RunLockGuard, String>)
    ensures
        match res {
            Ok(guard) => guard.path@ == path@ && (lock_holder(text::opt_text(*content), own) is None
                || !running),
            Err(message) => running && (lock_holder(text::opt_text(*content), own) matches Some(
                pid,
            ) && message@ == lock_error_text(pid, path@)),
        },
{
    if let Some(pid) = other_holder(content, own) {
        if running {
            let mut s = "`dura start` is already running (PID ".to_string();
            s.append(text::decimal_text(pid as u64).as_str());
            s.append(").\n  Stop it first, or remove ");
            s.append(text::debug_quote(path).as_str());
            s.append(" if the file is stale.");
            return Err(s);
        }
    }
    Ok(RunLockGuard { path: path.to_string() })
}

// ---- The server ---------------------------------------------------------------------------

/// Whether the daemon serves feeds.
#[derive(Clone, Copy, Debug, PartialEq, Eq, Structural)]
pub enum RestreamPlan {
    /// No feed is restreamed.
    Off,
    /// Feeds are restreamed but no server is configured.
    NoServer,
    Serve,
}

/// Whether one of the feeds is restreamed.
pub open spec fn any_restreamed(feeds: Seq<FeedConfig>) -> bool {
    exists|i: int| 0 <= i < feeds.len() && (#[trigger] feeds[i]).restream
}

/// Whether the daemon serves feeds.
pub fn restream_plan(cfg: &Config) -> (res: RestreamPlan)
    ensures
        res == if !any_restreamed(cfg.feeds@) {
            RestreamPlan::Off
        } else if cfg.server is None {
            RestreamPlan::NoServer
        } else {
            RestreamPlan::Serve
        },
{
    for i in 0..cfg.feeds.len()
        invariant
            forall|k: int| 0 <= k < i ==> !(#[trigger] cfg.feeds@[k]).restream,
    {
        if cfg.feeds[i].restream {
            assert(any_restreamed(cfg.feeds@));
            return if cfg.server.is_some() {
                RestreamPlan::Serve
            } else {
                RestreamPlan::NoServer
            };
        }
    }
    RestreamPlan::Off
}

/// The indices of the feeds whose documents the daemon writes when it starts: those that are
/// restreamed and enabled.
pub fn startup_documents(cfg: &Config) -> (res: Vec<usize>)
    ensures
        res@ == helpers::indices_where(
            cfg.feeds@.len() as int,
            |i: int| cfg.feeds@[i].restream && cfg.feeds@[i].enabled,
        ),
{
    let mut out: Vec<usize> = Vec::new();
    let ghost p = |i: int| cfg.feeds@[i].restream && cfg.feeds@[i].enabled;
    for i in 0..cfg.feeds.len()
        invariant
            p == (|i: int| cfg.feeds@[i].restream && cfg.feeds@[i].enabled),
            out@ == helpers::indices_where(i as int, p),
    {
        let chosen = cfg.feeds[i].restream && cfg.feeds[i].enabled;
        assert(p(i as int) == chosen);
        if chosen {
            out.push(i);
        }
    }
    out
}

/// Whether the document of a feed is written after a sync: it is restreamed, and a server is
/// configured.
pub fn writes_document(feed: &FeedConfig, has_server: bool) -> (res: bool)
    ensures
        res == (feed.restream && has_server),
{
    feed.restream && has_server
}

// ---- Laws ---------------------------------------------------------------------------------

/// The value of digits is ten times that of all but the last, and the last one; anything that is
/// no digit spoils it.
pub proof fn law_value_of_digits(s: Seq<char>, c: char)
    ensures
        digits_value(Seq::empty()) == Some(0nat),
        digits_value(s) is Some && 48 <= c as u32 <= 57 ==> digits_value(s.push(c)) == Some(
            (digits_value(s)->0 * 10 + (c as nat - 48)) as nat,
        ),
        digits_value(s) is None || (c as u32) < 48 || c as u32 > 57 ==> digits_value(s.push(c)) is None,
{
    assert(s.push(c).drop_last() =~= s);
}

/// A text is a number where it has digits alone, or digits behind a plus sign, and the number
/// fits in 32 bits.
pub proof fn law_texts_that_are_numbers(s: Seq<char>)
    ensures
        number_in(Seq::empty()) is None,
        number_in(seq!['+']) is None,
        s.len() > 0 && s[0] != '+' ==> number_in(seq!['+'] + s) == number_in(s),
        s.len() > 0 && s[0] != '+' && digits_value(s) is None ==> number_in(s) is None,
        s.len() > 0 && s[0] != '+' && digits_value(s) is Some ==> (if digits_value(s)->0
            <= 4294967295 {
            number_in(s) == digits_value(s)
        } else {
            number_in(s) is None
        }),
{
    assert((seq!['+'] + s).drop_first() =~= s);
    assert(seq!['+'].drop_first() =~= Seq::<char>::empty());
}

/// The lock is held by another process exactly where its file holds a number, spaces around it
/// aside, and that number is not this process's own.
pub proof fn law_who_holds_the_lock(content: Seq<char>, own: u32)
    ensures
        lock_holder(None, own) is None,
        ({
            let n = number_in(text::trimmed(content, text::is_white()));
            &&& n is None ==> lock_holder(Some(content), own) is None
            &&& n is Some && n->0 == own ==> lock_holder(Some(content), own) is None
            &&& n is Some && n->0 != own ==> lock_holder(Some(content), own) == n
        }),
{
}

/// The message about a running daemon names its process and the file of the lock.
pub proof fn law_message_about_a_running_daemon(pid: nat, path: Seq<char>)
    ensures
        lock_error_text(pid, path) == "`dura start` is already running (PID "@ + text::decimal(pid)
            + ").\n  Stop it first, or remove "@ + text::debug_text(path)
            + " if the file is stale."@,
{
}

/// Feeds are served as soon as one of them is restreamed, enabled or not.
pub proof fn law_one_restreamed_feed_is_enough(feeds: Seq<FeedConfig>, i: int)
    ensures
        0 <= i < feeds.len() && feeds[i].restream ==> any_restreamed(feeds),
        (forall|k: int| 0 <= k < feeds.len() ==> !(#[trigger] feeds[k]).restream)
            ==> !any_restreamed(feeds),
{
}

} // verus!
