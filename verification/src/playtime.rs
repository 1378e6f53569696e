//! Playing times in a text, and whether the feed parser can read them.
//!
//! A playing time is looked for anywhere in a text: first one such as `1:02:03.5`, and where there
//! is none, a number of seconds. The parser of `feed_rs` panics where the digits that it finds are
//! not ASCII digits, or where the seconds do not fit in a `u64`.
use vstd::prelude::*;

verus! {

// ---- Digits ----------------------------------------------------------------------------

/// The characters for zero in all scripts that have decimal digits. The other nine digits follow
/// each of them.
pub open spec fn zeros() -> Seq<u32> {
    seq![
        0x30u32, 0x660, 0x6f0, 0x7c0, 0x966, 0x9e6, 0xa66, 0xae6, 0xb66, 0xbe6, 0xc66,
        0xce6, 0xd66, 0xde6, 0xe50, 0xed0, 0xf20, 0x1040, 0x1090, 0x17e0, 0x1810, 0x1946,
        0x19d0, 0x1a80, 0x1a90, 0x1b50, 0x1bb0, 0x1c40, 0x1c50, 0xa620, 0xa8d0, 0xa900,
        0xa9d0, 0xa9f0, 0xaa50, 0xabf0, 0xff10, 0x104a0, 0x10d30, 0x10d40, 0x11066,
        0x110f0, 0x11136, 0x111d0, 0x112f0, 0x11450, 0x114d0, 0x11650, 0x116c0, 0x116d0,
        0x116da, 0x11730, 0x118e0, 0x11950, 0x11bf0, 0x11c50, 0x11d50, 0x11da0, 0x11f50,
        0x16130, 0x16a60, 0x16ac0, 0x16b50, 0x16d70, 0x1ccf0, 0x1d7ce, 0x1d7d8, 0x1d7e2,
        0x1d7ec, 0x1d7f6, 0x1e140, 0x1e2f0, 0x1e4f0, 0x1e5f1, 0x1e950, 0x1fbf0
    ]
}

/// Whether a character is a decimal digit of some script.
pub open spec fn is_decimal(c: u32) -> bool {
    exists|i: int| 0 <= i < zeros().len() && #[trigger] zeros()[i] <= c < zeros()[i] + 10
}

/// The index of the first character from index `i` on that is no decimal digit.
pub open spec fn digits_end(t: Seq<u32>, i: int) -> int
    decreases t.len() - i,
{
    if 0 <= i < t.len() && is_decimal(t[i]) {
        digits_end(t, i + 1)
    } else {
        i
    }
}

/// Whether two decimal digits stand at index `i`.
pub open spec fn is_pair(t: Seq<u32>, i: int) -> bool {
    0 <= i && i + 1 < t.len() && is_decimal(t[i]) && is_decimal(t[i + 1])
}

/// Whether all characters from index `i` up to `j` are ASCII digits.
pub open spec fn all_ascii(t: Seq<u32>, i: int, j: int) -> bool {
    forall|k: int| i <= k < j ==> 48 <= #[trigger] t[k] <= 57
}

/// The number whose ASCII digits stand from index `i` up to `j`.
pub open spec fn number(t: Seq<u32>, i: int, j: int) -> int
    decreases j - i,
{
    if i >= j {
        0
    } else {
        number(t, i, j - 1) * 10 + (t[j - 1] - 48)
    }
}

// ---- Playing times ------------------------------------------------------------------------

/// Whether hours, minutes and seconds with colons between them stand at index `i`.
pub open spec fn clock_at(t: Seq<u32>, i: int) -> bool {
    let h = digits_end(t, i);
    &&& 0 <= i < h
    &&& h < t.len()
    &&& t[h] == 58
    &&& is_pair(t, h + 1)
    &&& h + 3 < t.len()
    &&& t[h + 3] == 58
    &&& is_pair(t, h + 4)
}

/// The first index from index `i` on at which there are hours, minutes and seconds, or the end of
/// the text.
pub open spec fn first_clock(t: Seq<u32>, i: int) -> int
    decreases t.len() - i,
{
    if i >= t.len() {
        t.len() as int
    } else if clock_at(t, i) {
        i
    } else {
        first_clock(t, i + 1)
    }
}

/// The index of the first decimal digit from index `i` on, or the end of the text.
pub open spec fn first_digit(t: Seq<u32>, i: int) -> int
    decreases t.len() - i,
{
    if i >= t.len() {
        t.len() as int
    } else if is_decimal(t[i]) {
        i
    } else {
        first_digit(t, i + 1)
    }
}

/// Whether a fraction of a second stands at index `i`: a point and a digit.
pub open spec fn has_fraction(t: Seq<u32>, i: int) -> bool {
    0 <= i && i + 1 < t.len() && t[i] == 46 && is_decimal(t[i + 1])
}

/// Whether whole seconds, and the fraction that may stand behind them at index `i`, can be read.
pub open spec fn seconds_fit(t: Seq<u32>, i: int, seconds: int) -> bool {
    if has_fraction(t, i) {
        seconds < u64::MAX && all_ascii(t, i + 1, digits_end(t, i + 1))
    } else {
        seconds <= u64::MAX
    }
}

/// Whether the hours, minutes and seconds at index `i` can be read.
pub open spec fn clock_fits(t: Seq<u32>, i: int) -> bool {
    let h = digits_end(t, i);
    let seconds = number(t, i, h) * 3600 + number(t, h + 1, h + 3) * 60 + number(t, h + 4, h + 6);
    &&& all_ascii(t, i, h)
    &&& all_ascii(t, h + 1, h + 3)
    &&& all_ascii(t, h + 4, h + 6)
    &&& seconds_fit(t, h + 6, seconds)
}

/// Whether the number of seconds at index `i` can be read.
pub open spec fn number_fits(t: Seq<u32>, i: int) -> bool {
    let end = digits_end(t, i);
    all_ascii(t, i, end) && seconds_fit(t, end, number(t, i, end))
}

/// Whether the playing time in a text can be read. A text without one can.
pub open spec fn time_fits(t: Seq<u32>) -> bool {
    if first_clock(t, 0) < t.len() {
        clock_fits(t, first_clock(t, 0))
    } else {
        first_digit(t, 0) < t.len() ==> number_fits(t, first_digit(t, 0))
    }
}

// ---- Checking ----------------------------------------------------------------------------

fn decimal(c: u32) -> (res: bool)
    ensures
        res == is_decimal(c),
{
    let table: [u32; 76] = [
        0x30, 0x660, 0x6f0, 0x7c0, 0x966, 0x9e6, 0xa66, 0xae6, 0xb66, 0xbe6, 0xc66,
        0xce6, 0xd66, 0xde6, 0xe50, 0xed0, 0xf20, 0x1040, 0x1090, 0x17e0, 0x1810, 0x1946,
        0x19d0, 0x1a80, 0x1a90, 0x1b50, 0x1bb0, 0x1c40, 0x1c50, 0xa620, 0xa8d0, 0xa900,
        0xa9d0, 0xa9f0, 0xaa50, 0xabf0, 0xff10, 0x104a0, 0x10d30, 0x10d40, 0x11066,
        0x110f0, 0x11136, 0x111d0, 0x112f0, 0x11450, 0x114d0, 0x11650, 0x116c0, 0x116d0,
        0x116da, 0x11730, 0x118e0, 0x11950, 0x11bf0, 0x11c50, 0x11d50, 0x11da0, 0x11f50,
        0x16130, 0x16a60, 0x16ac0, 0x16b50, 0x16d70, 0x1ccf0, 0x1d7ce, 0x1d7d8, 0x1d7e2,
        0x1d7ec, 0x1d7f6, 0x1e140, 0x1e2f0, 0x1e4f0, 0x1e5f1, 0x1e950, 0x1fbf0,
    ];
    assert(table@ =~= zeros());
    let mut k: usize = 0;
    while k < table.len()
        invariant
            table@ == zeros(),
            k <= table@.len(),
            forall|i: int| 0 <= i < k ==> !((#[trigger] zeros()[i]) <= c < zeros()[i] + 10),
        decreases table.len() - k,
    {
        let zero = table[k];
        assert(zero == zeros()[k as int]);
        if zero <= c && c - zero < 10 {
            return true;
        }
        k = k + 1;
    }
    false
}

fn find_digits_end(t: &Vec<u32>, i: usize) -> (res: usize)
    requires
        i <= t@.len(),
    ensures
        res == digits_end(t@, i as int),
        i <= res <= t@.len(),
{
    let mut k = i;
    while k < t.len() && decimal(t[k])
        invariant
            i <= k <= t@.len(),
            digits_end(t@, i as int) == digits_end(t@, k as int),
        decreases t.len() - k,
    {
        k = k + 1;
    }
    k
}

fn found_pair(t: &Vec<u32>, i: usize) -> (res: bool)
    requires
        i <= t@.len(),
    ensures
        res == is_pair(t@, i as int),
{
    t.len() - i >= 2 && decimal(t[i]) && decimal(t[i + 1])
}

fn found_clock(t: &Vec<u32>, i: usize, h: usize) -> (res: bool)
    requires
        h == digits_end(t@, i as int),
        i <= h <= t@.len(),
    ensures
        res == clock_at(t@, i as int),
{
    i < h && h < t.len() && t[h] == 58 && found_pair(t, h + 1) && t.len() - h > 3 && t[h + 3] == 58
        && found_pair(t, h + 4)
}

proof fn lemma_digits_end(t: Seq<u32>, i: int)
    requires
        0 <= i <= t.len(),
    ensures
        i <= digits_end(t, i) <= t.len(),
        digits_end(t, i) < t.len() ==> !is_decimal(t[digits_end(t, i)]),
    decreases t.len() - i,
{
    if i < t.len() && is_decimal(t[i]) {
        lemma_digits_end(t, i + 1);
    }
}

fn find_clock(t: &Vec<u32>) -> (res: usize)
    ensures
        res == first_clock(t@, 0),
        res <= t@.len(),
        res < t@.len() ==> clock_at(t@, res as int),
{
    let n = t.len();
    let mut i: usize = 0;
    let mut h: usize = find_digits_end(t, 0);
    while i < n
        invariant
            n == t@.len(),
            i <= n,
            h <= n,
            i < n ==> i <= h && h == digits_end(t@, i as int),
            first_clock(t@, 0) == first_clock(t@, i as int),
        decreases n - i,
    {
        if found_clock(t, i, h) {
            return i;
        }
        proof {
            lemma_digits_end(t@, i as int);
        }
        i = i + 1;
        if i > h {
            h = find_digits_end(t, i);
        }
    }
    n
}

fn find_digit(t: &Vec<u32>) -> (res: usize)
    ensures
        res == first_digit(t@, 0),
        res <= t@.len(),
{
    let mut i: usize = 0;
    while i < t.len() && !decimal(t[i])
        invariant
            i <= t@.len(),
            first_digit(t@, 0) == first_digit(t@, i as int),
        decreases t.len() - i,
    {
        i = i + 1;
    }
    i
}

fn found_ascii(t: &Vec<u32>, i: usize, j: usize) -> (res: bool)
    requires
        i <= j <= t@.len(),
    ensures
        res == all_ascii(t@, i as int, j as int),
{
    let mut k = i;
    while k < j
        invariant
            i <= k <= j <= t@.len(),
            all_ascii(t@, i as int, k as int),
        decreases j - k,
    {
        if t[k] < 48 || t[k] > 57 {
            return false;
        }
        k = k + 1;
    }
    true
}

/// The number whose digits stand from index `i` up to `j`, where it fits in a `u64`.
fn read_number(t: &Vec<u32>, i: usize, j: usize) -> (res: Option<u64>)
    requires
        i <= j <= t@.len(),
        all_ascii(t@, i as int, j as int),
    ensures
        match res {
            Some(n) => n == number(t@, i as int, j as int),
            None => number(t@, i as int, j as int) > u64::MAX,
        },
{
    let mut value: Option<u64> = Some(0);
    let mut k = i;
    while k < j
        invariant
            i <= k <= j <= t@.len(),
            all_ascii(t@, i as int, j as int),
            match value {
                Some(n) => n == number(t@, i as int, k as int),
                None => number(t@, i as int, k as int) > u64::MAX,
            },
        decreases j - k,
    {
        assert(48 <= t@[k as int] <= 57);
        let d: u64 = (t[k] - 48) as u64;
        value = match value {
            Some(n) => if n <= (u64::MAX - d) / 10 {
                Some(n * 10 + d)
            } else {
                None
            },
            None => None,
        };
        k = k + 1;
    }
    value
}

fn do_seconds_fit(t: &Vec<u32>, i: usize, seconds: u128) -> (res: bool)
    requires
        i <= t@.len(),
    ensures
        res == seconds_fit(t@, i as int, seconds as int),
{
    if t.len() - i >= 2 && t[i] == 46 && decimal(t[i + 1]) {
        let end = find_digits_end(t, i + 1);
        seconds < 0xffff_ffff_ffff_ffff && found_ascii(t, i + 1, end)
    } else {
        seconds <= 0xffff_ffff_ffff_ffff
    }
}

fn does_clock_fit(t: &Vec<u32>, i: usize) -> (res: bool)
    requires
        i < t@.len(),
        clock_at(t@, i as int),
    ensures
        res == clock_fits(t@, i as int),
{
    let n = t.len();
    let h = find_digits_end(t, i);
    assert(h + 6 <= n);
    if !found_ascii(t, i, h) || !found_ascii(t, h + 1, h + 3) || !found_ascii(t, h + 4, h + 6) {
        return false;
    }
    proof {
        lemma_number_bounds(t@, h + 1, h + 3);
        lemma_number_bounds(t@, h + 4, h + 6);
        reveal_with_fuel(number, 4);
    }
    assert(48 <= t@[h + 1] <= 57 && 48 <= t@[h + 2] <= 57);
    assert(48 <= t@[h + 4] <= 57 && 48 <= t@[h + 5] <= 57);
    match (read_number(t, i, h), read_number(t, h + 1, h + 3), read_number(t, h + 4, h + 6)) {
        (Some(hours), Some(minutes), Some(seconds)) => {
            let sum: u128 = hours as u128 * 3600 + minutes as u128 * 60 + seconds as u128;
            do_seconds_fit(t, h + 6, sum)
        },
        _ => false,
    }
}

proof fn lemma_number_bounds(t: Seq<u32>, i: int, j: int)
    requires
        all_ascii(t, i, j),
    ensures
        number(t, i, j) >= 0,
    decreases j - i,
{
    if i < j {
        lemma_number_bounds(t, i, j - 1);
    }
}

fn does_number_fit(t: &Vec<u32>, i: usize) -> (res: bool)
    requires
        i < t@.len(),
    ensures
        res == number_fits(t@, i as int),
{
    let end = find_digits_end(t, i);
    if !found_ascii(t, i, end) {
        return false;
    }
    match read_number(t, i, end) {
        Some(seconds) => do_seconds_fit(t, end, seconds as u128),
        None => false,
    }
}

/// Whether the playing time in a text can be read.
pub fn does_time_fit(t: &Vec<u32>) -> (res: bool)
    ensures
        res == time_fits(t@),
{
    let clock = find_clock(t);
    if clock < t.len() {
        return does_clock_fit(t, clock);
    }
    let digit = find_digit(t);
    digit == t.len() || does_number_fit(t, digit)
}

// ---- Laws ----------------------------------------------------------------------------------

proof fn lemma_ascii_is_decimal(c: u32)
    requires
        48 <= c <= 57,
    ensures
        is_decimal(c),
{
    assert(zeros()[0] == 48);
}

proof fn lemma_ascii_digits_end(t: Seq<u32>, i: int)
    requires
        0 <= i <= t.len(),
        forall|k: int| 0 <= k < t.len() ==> 48 <= #[trigger] t[k] <= 57,
    ensures
        digits_end(t, i) == t.len(),
    decreases t.len() - i,
{
    if i < t.len() {
        lemma_ascii_is_decimal(t[i]);
        lemma_ascii_digits_end(t, i + 1);
    }
}

proof fn lemma_no_clock(t: Seq<u32>, i: int)
    requires
        0 <= i <= t.len(),
        forall|k: int| 0 <= k < t.len() ==> 48 <= #[trigger] t[k] <= 57,
    ensures
        first_clock(t, i) == t.len(),
    decreases t.len() - i,
{
    if i < t.len() {
        lemma_ascii_digits_end(t, i);
        lemma_no_clock(t, i + 1);
    }
}

/// A playing time of ASCII digits alone can be read exactly where its number fits in 64 bits; the
/// number is ten times the one before its last digit, and that digit.
pub proof fn law_plain_seconds(t: Seq<u32>)
    requires
        t.len() > 0,
        forall|k: int| 0 <= k < t.len() ==> 48 <= #[trigger] t[k] <= 57,
    ensures
        time_fits(t) <==> number(t, 0, t.len() as int) <= 18446744073709551615,
        number(t, 0, t.len() as int) == 10 * number(t, 0, t.len() - 1) + (t.last() - 48),
        number(t, 0, 0) == 0,
{
    lemma_no_clock(t, 0);
    lemma_ascii_is_decimal(t[0]);
    lemma_ascii_digits_end(t, 0);
}

/// A text without decimal digits has no playing time that could not be read.
pub proof fn law_text_without_digits(t: Seq<u32>)
    requires
        forall|k: int| 0 <= k < t.len() ==> !is_decimal(#[trigger] t[k]),
    ensures
        time_fits(t),
{
    lemma_nothing_found(t, 0);
}

proof fn lemma_nothing_found(t: Seq<u32>, i: int)
    requires
        0 <= i <= t.len(),
        forall|k: int| 0 <= k < t.len() ==> !is_decimal(#[trigger] t[k]),
    ensures
        first_clock(t, i) == t.len(),
        first_digit(t, i) == t.len(),
    decreases t.len() - i,
{
    if i < t.len() {
        assert(digits_end(t, i) == i);
        lemma_nothing_found(t, i + 1);
    }
}

} // verus!
