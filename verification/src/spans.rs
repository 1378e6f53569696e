//! The lengths of time in a text such as `1h 30m`, and how long they are together.
use crate::text;
use vstd::prelude::*;

verus! {

/// The nanoseconds of 2^64 seconds, the first length that is too long for a duration.
pub const LIMIT_NANOS: u128 = 18_446_744_073_709_551_616_000_000_000;

/// The nanoseconds of the longest unit, a year.
pub const LONGEST_UNIT: u64 = 31_557_600_000_000_000;

// ---- Parts of a text ---------------------------------------------------------------------

/// Whether a character can belong to a unit of time.
pub open spec fn is_unit_char(c: char) -> bool {
    'a' <= c <= 'z' || 'A' <= c <= 'Z' || c == 'µ'
}

/// Whether a character can stand in a number: white space in it counts for nothing.
pub open spec fn in_number(c: char) -> bool {
    text::is_ascii_digit(c) || text::white_space(c)
}

/// The index of the first character from index `i` on that is no white space.
pub open spec fn white_end(s: Seq<char>, i: int) -> int
    decreases s.len() - i,
{
    if i < s.len() && text::white_space(s[i]) {
        white_end(s, i + 1)
    } else {
        i
    }
}

/// The index of the first character from index `i` on that cannot stand in a number.
pub open spec fn number_end(s: Seq<char>, i: int) -> int
    decreases s.len() - i,
{
    if i < s.len() && in_number(s[i]) {
        number_end(s, i + 1)
    } else {
        i
    }
}

/// The index of the first character from index `i` on that belongs to no unit.
pub open spec fn unit_end(s: Seq<char>, i: int) -> int
    decreases s.len() - i,
{
    if i < s.len() && is_unit_char(s[i]) {
        unit_end(s, i + 1)
    } else {
        i
    }
}

/// The number whose digits stand from index `i` up to `j`.
pub open spec fn number(s: Seq<char>, i: int, j: int) -> nat
    decreases j - i,
{
    if i >= j {
        0
    } else if text::is_ascii_digit(s[j - 1]) {
        number(s, i, j - 1) * 10 + (s[j - 1] as nat - '0' as nat) as nat
    } else {
        number(s, i, j - 1)
    }
}

/// How many digits stand from index `i` up to `j`.
pub open spec fn digit_count(s: Seq<char>, i: int, j: int) -> nat
    decreases j - i,
{
    if i >= j {
        0
    } else if text::is_ascii_digit(s[j - 1]) {
        digit_count(s, i, j - 1) + 1
    } else {
        digit_count(s, i, j - 1)
    }
}

/// A power of ten.
pub open spec fn ten_to(n: nat) -> nat
    decreases n,
{
    if n == 0 {
        1
    } else {
        10 * ten_to((n - 1) as nat)
    }
}

/// The nanoseconds of a unit. A month has 30.44 days, and a year 365.25.
pub open spec fn unit_nanos(u: Seq<char>) -> Option<u64> {
    if u == "nanos"@ || u == "nsec"@ || u == "ns"@ {
        Some(1)
    } else if u == "usec"@ || u == "us"@ || u == "µs"@ {
        Some(1_000)
    } else if u == "millis"@ || u == "msec"@ || u == "ms"@ {
        Some(1_000_000)
    } else if u == "seconds"@ || u == "second"@ || u == "secs"@ || u == "sec"@ || u == "s"@ {
        Some(1_000_000_000)
    } else if u == "minutes"@ || u == "minute"@ || u == "min"@ || u == "mins"@ || u == "m"@ {
        Some(60_000_000_000)
    } else if u == "hours"@ || u == "hour"@ || u == "hr"@ || u == "hrs"@ || u == "h"@ {
        Some(3_600_000_000_000)
    } else if u == "days"@ || u == "day"@ || u == "d"@ {
        Some(86_400_000_000_000)
    } else if u == "weeks"@ || u == "week"@ || u == "wk"@ || u == "wks"@ || u == "w"@ {
        Some(604_800_000_000_000)
    } else if u == "months"@ || u == "month"@ || u == "M"@ {
        Some(2_630_016_000_000_000)
    } else if u == "years"@ || u == "year"@ || u == "yr"@ || u == "yrs"@ || u == "y"@ {
        Some(31_557_600_000_000_000)
    } else {
        None
    }
}

// ---- Spans ----------------------------------------------------------------------------------

/// The span whose number starts at index `i`: the index behind it, and its length in
/// nanoseconds, rounded down. A number that does not fit in a `u64`, or that has more than
/// nineteen decimals, makes no span.
pub open spec fn span_at(s: Seq<char>, i: int) -> Option<(int, nat)> {
    let a = number_end(s, i);
    let decimals = a < s.len() && s[a] == '.';
    let b = if decimals {
        number_end(s, a + 1)
    } else {
        a
    };
    let c = unit_end(s, b);
    let places = digit_count(s, a + 1, b);
    match unit_nanos(s.subrange(b, c)) {
        Some(unit) => if number(s, i, a) > u64::MAX || (decimals && !(1 <= places <= 19)) || (c
            < s.len() && !in_number(s[c])) {
            None
        } else if decimals {
            Some((c, number(s, i, a) * unit as nat + number(s, a + 1, b) * unit as nat / ten_to(places)))
        } else {
            Some((c, number(s, i, a) * unit as nat))
        },
        None => None,
    }
}

/// Whether the spans from index `i` on, up to some place, and `sum` nanoseconds before them
/// come to 2^64 seconds or more.
pub open spec fn overlong_from(s: Seq<char>, i: int, sum: nat) -> bool
    decreases s.len() - i,
{
    proof {
        lemma_span_behind(s, white_end(s, i));
        lemma_ends(s, i);
    }
    let j = white_end(s, i);
    if i < 0 || j >= s.len() || !text::is_ascii_digit(s[j]) {
        false
    } else {
        match span_at(s, j) {
            Some((c, nanos)) => sum + nanos >= LIMIT_NANOS || overlong_from(s, c, sum + nanos),
            None => false,
        }
    }
}

/// Whether the spans of a text, up to some place, come to 2^64 seconds or more.
pub open spec fn overlong(s: Seq<char>) -> bool {
    overlong_from(s, 0, 0)
}

/// What is read from index `i` on does not end before it.
pub proof fn lemma_ends(s: Seq<char>, i: int)
    ensures
        i <= s.len() ==> {
            &&& i <= white_end(s, i) <= s.len()
            &&& i <= number_end(s, i) <= s.len()
            &&& i <= unit_end(s, i) <= s.len()
        },
    decreases s.len() - i,
{
    if i < s.len() {
        lemma_ends(s, i + 1);
    }
}

/// A span ends behind its start.
pub proof fn lemma_span_behind(s: Seq<char>, i: int)
    ensures
        0 <= i < s.len() && text::is_ascii_digit(s[i]) ==> (span_at(s, i) matches Some(span) ==> i
            < span.0 <= s.len()),
{
    if 0 <= i < s.len() && text::is_ascii_digit(s[i]) {
        lemma_ends(s, i + 1);
        let a = number_end(s, i);
        lemma_ends(s, a);
        if a < s.len() {
            lemma_ends(s, a + 1);
            lemma_ends(s, number_end(s, a + 1));
        }
    }
}

// ---- Adding up ----------------------------------------------------------------------------

fn find_white_end(v: &Vec<char>, i: usize) -> (res: usize)
    requires
        i <= v@.len(),
    ensures
        res == white_end(v@, i as int),
        i <= res <= v@.len(),
{
    let mut k = i;
    while k < v.len() && text::is_white_space(v[k])
        invariant
            i <= k <= v@.len(),
            white_end(v@, i as int) == white_end(v@, k as int),
        decreases v.len() - k,
    {
        k = k + 1;
    }
    k
}

fn find_number_end(v: &Vec<char>, i: usize) -> (res: usize)
    requires
        i <= v@.len(),
    ensures
        res == number_end(v@, i as int),
        i <= res <= v@.len(),
{
    let mut k = i;
    while k < v.len() && (('0' <= v[k] && v[k] <= '9') || text::is_white_space(v[k]))
        invariant
            i <= k <= v@.len(),
            number_end(v@, i as int) == number_end(v@, k as int),
        decreases v.len() - k,
    {
        k = k + 1;
    }
    k
}

fn find_unit_end(v: &Vec<char>, i: usize) -> (res: usize)
    requires
        i <= v@.len(),
    ensures
        res == unit_end(v@, i as int),
        i <= res <= v@.len(),
{
    let mut k = i;
    while k < v.len() && (('a' <= v[k] && v[k] <= 'z') || ('A' <= v[k] && v[k] <= 'Z') || v[k]
        == 'µ')
        invariant
            i <= k <= v@.len(),
            unit_end(v@, i as int) == unit_end(v@, k as int),
        decreases v.len() - k,
    {
        k = k + 1;
    }
    k
}

/// The number whose digits stand from index `i` up to `j`, where it fits in a `u64`, and how many
/// digits it has.
fn read_number(v: &Vec<char>, i: usize, j: usize) -> (res: (Option<u64>, usize))
    requires
        i <= j <= v@.len(),
    ensures
        match res.0 {
            Some(n) => n == number(v@, i as int, j as int),
            None => number(v@, i as int, j as int) > u64::MAX,
        },
        res.1 == digit_count(v@, i as int, j as int),
{
    let mut value: Option<u64> = Some(0);
    let mut count: usize = 0;
    let mut k = i;
    while k < j
        invariant
            i <= k <= j <= v@.len(),
            count <= k - i,
            count == digit_count(v@, i as int, k as int),
            match value {
                Some(n) => n == number(v@, i as int, k as int),
                None => number(v@, i as int, k as int) > u64::MAX,
            },
        decreases j - k,
    {
        let c = v[k];
        if '0' <= c && c <= '9' {
            let d: u64 = c as u64 - '0' as u64;
            value = match value {
                Some(n) => if n <= (u64::MAX - d) / 10 {
                    Some(n * 10 + d)
                } else {
                    None
                },
                None => None,
            };
            count = count + 1;
        }
        k = k + 1;
    }
    (value, count)
}

/// Whether `word` stands from index `b` up to `c`.
fn is_word(v: &Vec<char>, b: usize, c: usize, word: &str) -> (res: bool)
    requires
        b <= c <= v@.len(),
    ensures
        res == (v@.subrange(b as int, c as int) == word@),
{
    let w = text::chars_of(word);
    let ghost found = v@.subrange(b as int, c as int);
    if w.len() != c - b {
        return false;
    }
    for k in 0..w.len()
        invariant
            b + w@.len() == c <= v@.len(),
            found == v@.subrange(b as int, c as int),
            w@ == word@,
            forall|m: int| 0 <= m < k ==> found[m] == w@[m],
    {
        if v[b + k] != w[k] {
            assert(found[k as int] != w@[k as int]);
            return false;
        }
    }
    assert(found =~= word@);
    true
}

fn find_unit(v: &Vec<char>, b: usize, c: usize) -> (res: Option<u64>)
    requires
        b <= c <= v@.len(),
    ensures
        res == unit_nanos(v@.subrange(b as int, c as int)),
        res matches Some(n) ==> 1 <= n <= LONGEST_UNIT,
{
    if is_word(v, b, c, "nanos") || is_word(v, b, c, "nsec") || is_word(v, b, c, "ns") {
        Some(1)
    } else if is_word(v, b, c, "usec") || is_word(v, b, c, "us") || is_word(v, b, c, "µs") {
        Some(1_000)
    } else if is_word(v, b, c, "millis") || is_word(v, b, c, "msec") || is_word(v, b, c, "ms") {
        Some(1_000_000)
    } else if is_word(v, b, c, "seconds") || is_word(v, b, c, "second") || is_word(v, b, c, "secs")
        || is_word(v, b, c, "sec") || is_word(v, b, c, "s") {
        Some(1_000_000_000)
    } else if is_word(v, b, c, "minutes") || is_word(v, b, c, "minute") || is_word(v, b, c, "min")
        || is_word(v, b, c, "mins") || is_word(v, b, c, "m") {
        Some(60_000_000_000)
    } else if is_word(v, b, c, "hours") || is_word(v, b, c, "hour") || is_word(v, b, c, "hr")
        || is_word(v, b, c, "hrs") || is_word(v, b, c, "h") {
        Some(3_600_000_000_000)
    } else if is_word(v, b, c, "days") || is_word(v, b, c, "day") || is_word(v, b, c, "d") {
        Some(86_400_000_000_000)
    } else if is_word(v, b, c, "weeks") || is_word(v, b, c, "week") || is_word(v, b, c, "wk")
        || is_word(v, b, c, "wks") || is_word(v, b, c, "w") {
        Some(604_800_000_000_000)
    } else if is_word(v, b, c, "months") || is_word(v, b, c, "month") || is_word(v, b, c, "M") {
        Some(2_630_016_000_000_000)
    } else if is_word(v, b, c, "years") || is_word(v, b, c, "year") || is_word(v, b, c, "yr")
        || is_word(v, b, c, "yrs") || is_word(v, b, c, "y") {
        Some(31_557_600_000_000_000)
    } else {
        None
    }
}

fn power_of_ten(n: usize) -> (res: u128)
    requires
        n <= 19,
    ensures
        res == ten_to(n as nat),
        1 <= res <= 10_000_000_000_000_000_000,
{
    let mut res: u128 = 1;
    let ghost left: nat = 10_000_000_000_000_000_000;
    proof {
        reveal_with_fuel(ten_to, 20);
        assert(ten_to(19) == left);
    }
    for k in 0..n
        invariant
            n <= 19,
            res == ten_to(k as nat),
            res * ten_to((19 - k) as nat) == 10_000_000_000_000_000_000,
            res >= 1,
    {
        assert(ten_to((19 - k) as nat) == 10 * ten_to((18 - k) as nat));
        assert(ten_to((k + 1) as nat) == 10 * res);
        proof {
            let rest = ten_to((18 - k) as nat);
            assert(res * (10 * rest) == (res * 10) * rest) by (nonlinear_arith);
            lemma_ten_positive((18 - k) as nat);
            assert(res * 10 <= (res * 10) * rest) by (nonlinear_arith)
                requires
                    rest >= 1,
                    res >= 1,
            ;
        }
        res = res * 10;
    }
    proof {
        let rest = ten_to((19 - n) as nat);
        lemma_ten_positive((19 - n) as nat);
        assert(res <= res * rest) by (nonlinear_arith)
            requires
                rest >= 1,
                res >= 1,
        ;
    }
    res
}

proof fn lemma_ten_positive(n: nat)
    ensures
        ten_to(n) >= 1,
    decreases n,
{
    if n > 0 {
        lemma_ten_positive((n - 1) as nat);
    }
}

/// A number of up to nineteen digits is less than the power of ten with as many zeros.
proof fn lemma_number_below(s: Seq<char>, i: int, j: int)
    ensures
        number(s, i, j) < ten_to(digit_count(s, i, j)),
    decreases j - i,
{
    if i < j {
        lemma_number_below(s, i, j - 1);
    }
}

fn find_span(v: &Vec<char>, i: usize) -> (res: Option<(usize, u128)>)
    requires
        i < v@.len(),
    ensures
        match res {
            Some(span) => span_at(v@, i as int) == Some((span.0 as int, span.1 as nat)) && span.0
                <= v@.len() && span.1 <= 0x1000_0000_0000_0000_0000_0000_0000_0000,
            None => span_at(v@, i as int) is None,
        },
{
    let n = v.len();
    let a = find_number_end(v, i);
    let decimals = a < n && v[a] == '.';
    let b = if decimals {
        find_number_end(v, a + 1)
    } else {
        a
    };
    let c = find_unit_end(v, b);
    let unit = match find_unit(v, b, c) {
        Some(unit) => unit as u128,
        None => {
            return None;
        },
    };
    if c < n && !('0' <= v[c] && v[c] <= '9') && !text::is_white_space(v[c]) {
        return None;
    }
    let whole = match read_number(v, i, a).0 {
        Some(whole) => whole as u128,
        None => {
            return None;
        },
    };
    assert(whole * unit <= 0x1_0000_0000_0000_0000 * 31_557_600_000_000_000) by (nonlinear_arith)
        requires
            whole <= 0x1_0000_0000_0000_0000,
            unit <= 31_557_600_000_000_000,
    ;
    if !decimals {
        return Some((c, whole * unit));
    }
    let (part, places) = read_number(v, a + 1, b);
    if places < 1 || places > 19 {
        return None;
    }
    let below = power_of_ten(places);
    proof {
        lemma_number_below(v@, a + 1, b as int);
    }
    let part = match part {
        Some(part) => part as u128,
        None => {
            return None;
        },
    };
    assert(part * unit <= 0x1_0000_0000_0000_0000 * 31_557_600_000_000_000) by (nonlinear_arith)
        requires
            part <= 0x1_0000_0000_0000_0000,
            unit <= 31_557_600_000_000_000,
    ;
    let product: u128 = part * unit;
    let rest: u128 = product / below;
    assert(rest <= product) by (nonlinear_arith)
        requires
            rest == product / below,
            below >= 1,
    ;
    Some((c, whole * unit + rest))
}

/// Whether the spans of a text, up to some place, come to 2^64 seconds or more.
pub fn is_overlong(s: &str) -> (res: bool)
    ensures
        res == overlong(s@),
{
    let v = text::chars_of(s);
    let n = v.len();
    let mut i: usize = 0;
    let mut sum: u128 = 0;
    loop
        invariant
            v@ == s@,
            n == v@.len(),
            i <= n,
            sum < LIMIT_NANOS,
            overlong(s@) == overlong_from(s@, i as int, sum as nat),
        decreases n - i,
    {
        let j = find_white_end(&v, i);
        if j >= n || !('0' <= v[j] && v[j] <= '9') {
            return false;
        }
        proof {
            lemma_span_behind(s@, j as int);
        }
        match find_span(&v, j) {
            Some((c, nanos)) => {
                if sum + nanos >= LIMIT_NANOS {
                    return true;
                }
                sum = sum + nanos;
                i = c;
            },
            None => {
                return false;
            },
        }
    }
}

// ---- Laws -----------------------------------------------------------------------------------

/// Spans are too long together as soon as they come to 2^64 seconds, span by span from the left;
/// what is no span ends them.
pub proof fn law_spans_add_up(s: Seq<char>, i: int, sum: nat)
    requires
        0 <= i < s.len(),
        !text::white_space(s[i]),
    ensures
        !text::is_ascii_digit(s[i]) || span_at(s, i) is None ==> !overlong_from(s, i, sum),
        text::is_ascii_digit(s[i]) ==> (span_at(s, i) matches Some(span) ==> (overlong_from(
            s,
            i,
            sum,
        ) <==> sum + span.1 >= 18446744073709551616 * 1_000_000_000 || overlong_from(
            s,
            span.0,
            sum + span.1,
        ))),
        !overlong(Seq::empty()),
{
    let none = Seq::<char>::empty();
    assert(white_end(none, 0) == 0);
}

/// The number in a run of digits is ten times the one before its last digit, and that digit.
pub proof fn law_number_of_a_span(s: Seq<char>, i: int, j: int)
    requires
        0 <= i < j <= s.len(),
    ensures
        number(s, i, i) == 0,
        '0' <= s[j - 1] <= '9' ==> number(s, i, j) == 10 * number(s, i, j - 1) + (s[j - 1] as int
            - 48),
        '0' <= s[j - 1] <= '9' ==> digit_count(s, i, j) == digit_count(s, i, j - 1) + 1,
        text::white_space(s[j - 1]) ==> number(s, i, j) == number(s, i, j - 1),
{
}

} // verus!
