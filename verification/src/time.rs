//! Points in time, durations and differences of times, as plain numbers.
use crate::spans;
use crate::text;
use vstd::prelude::*;
use vstd::string::*;

verus! {

// ---- Points in time ------------------------------------------------------------

/// Whether `chrono` can hold the point `nanos` nanoseconds after second `secs` of the Unix
/// epoch. A second whose number ends a minute may be followed by a leap second.
pub open spec fn representable(secs: int, nanos: int) -> bool {
    &&& -8334601228800 <= secs <= 8210266876799
    &&& 0 <= nanos < 2_000_000_000
    &&& nanos >= 1_000_000_000 ==> secs % 60 == 59
}

/// A point in time in UTC.
#[derive(Clone, Copy, Debug, PartialEq, Eq, Structural)]
pub struct UtcTime {
    secs: i64,
    nanos: u32,
}

/// `chrono::DateTime::from_timestamp` gives a value exactly for the years -262143 to 262142
/// and for nanoseconds below one second, or below two where a leap second can stand.
#[verifier::external_body]
fn can_represent(secs: i64, nanos: u32) -> (res: bool)
    ensures
        res == representable(secs as int, nanos as int),
{
    chrono::DateTime::<chrono::Utc>::from_timestamp(secs, nanos).is_some()
}

/// `chrono::Utc::now` reads the system's clock. The moment that it gives is one that `chrono`
/// can represent and never lies within a leap second. Nothing else is said of it: which moment
/// it is rests on the clock, and whether it can lie before 1970 on the platform.
#[verifier::external_body]
fn clock() -> (res: (i64, u32))
    ensures
        representable(res.0 as int, res.1 as int),
        res.1 < 1_000_000_000,
{
    let now = chrono::Utc::now();
    (now.timestamp(), now.timestamp_subsec_nanos())
}

/// The text that the `Display` form of a `chrono::DateTime<Utc>` shows.
pub uninterp spec fn time_text(secs: int, nanos: int) -> Seq<char>;

/// `chrono::DateTime<Utc>` shows itself as a function of the point in time alone.
#[verifier::external_body]
fn show_time(secs: i64, nanos: u32) -> (res: String)
    requires
        representable(secs as int, nanos as int),
    ensures
        res@ == time_text(secs as int, nanos as int),
{
    chrono::DateTime::<chrono::Utc>::from_timestamp(secs, nanos).unwrap().to_string()
}

/// The calendar date of a point in time, as `chrono` formats it by `%Y-%m-%d`.
pub uninterp spec fn date_text(secs: int, nanos: int) -> Seq<char>;

/// `chrono::DateTime::format` with `%Y-%m-%d` writes the calendar date.
#[verifier::external_body]
fn show_date(secs: i64, nanos: u32) -> (res: String)
    requires
        representable(secs as int, nanos as int),
    ensures
        res@ == date_text(secs as int, nanos as int),
{
    let at = chrono::DateTime::<chrono::Utc>::from_timestamp(secs, nanos).unwrap();
    at.format("%Y-%m-%d").to_string()
}

/// Whether a second lies in the years 0 to 9999.
pub open spec fn four_digit_year(secs: int) -> bool {
    -62167219200 <= secs <= 253402300799
}

/// The text that `chrono::DateTime::to_rfc2822` gives for a point in time.
pub uninterp spec fn rfc2822_text(secs: int, nanos: int) -> Seq<char>;

/// `chrono::DateTime::to_rfc2822` writes the date and time of a mail header. It panics
/// outside the years 0 to 9999.
#[verifier::external_body]
fn show_rfc2822(secs: i64, nanos: u32) -> (res: String)
    requires
        representable(secs as int, nanos as int),
        four_digit_year(secs as int),
    ensures
        res@ == rfc2822_text(secs as int, nanos as int),
{
    chrono::DateTime::<chrono::Utc>::from_timestamp(secs, nanos).unwrap().to_rfc2822()
}

/// The nanoseconds from point `b` to point `a`, counting a leap second only where one of the
/// two stands in it and the other later or earlier in the day.
pub open spec fn nanos_between(a_secs: int, a_nanos: int, b_secs: int, b_nanos: int) -> int {
    let a_tod = a_secs % 86400;
    let b_tod = b_secs % 86400;
    let leap: int = if a_tod > b_tod && b_nanos >= 1_000_000_000 {
        1
    } else if a_tod < b_tod && a_nanos >= 1_000_000_000 {
        -1
    } else {
        0
    };
    (a_secs - b_secs + leap) * 1_000_000_000 + (a_nanos - b_nanos)
}

/// `chrono::DateTime::signed_duration_since` gives the difference of two points in time. Its
/// whole seconds and the nanoseconds beyond them are both rounded towards zero.
#[verifier::external_body]
fn difference(a_secs: i64, a_nanos: u32, b_secs: i64, b_nanos: u32) -> (res: (i64, i32))
    requires
        representable(a_secs as int, a_nanos as int),
        representable(b_secs as int, b_nanos as int),
    ensures
        res.0 == quotient(
            nanos_between(a_secs as int, a_nanos as int, b_secs as int, b_nanos as int),
            1_000_000_000,
        ),
        res.0 * 1_000_000_000 + res.1 == nanos_between(
            a_secs as int,
            a_nanos as int,
            b_secs as int,
            b_nanos as int,
        ),
{
    let a = chrono::DateTime::<chrono::Utc>::from_timestamp(a_secs, a_nanos).unwrap();
    let b = chrono::DateTime::<chrono::Utc>::from_timestamp(b_secs, b_nanos).unwrap();
    let d = a.signed_duration_since(b);
    (d.num_seconds(), d.subsec_nanos())
}

impl UtcTime {
    #[verifier::type_invariant]
    spec fn in_range(self) -> bool {
        representable(self.secs as int, self.nanos as int)
    }

    /// The second of the Unix epoch.
    pub closed spec fn epoch_secs(self) -> int {
        self.secs as int
    }

    /// The nanoseconds after that second; above one second within a leap second.
    pub closed spec fn subsec(self) -> int {
        self.nanos as int
    }

    /// Whether `self` is earlier than `other`.
    pub open spec fn before(self, other: UtcTime) -> bool {
        self.epoch_secs() < other.epoch_secs() || (self.epoch_secs() == other.epoch_secs()
            && self.subsec() < other.subsec())
    }

    /// The nanoseconds from `other` to `self`.
    pub open spec fn since(self, other: UtcTime) -> int {
        nanos_between(self.epoch_secs(), self.subsec(), other.epoch_secs(), other.subsec())
    }

    /// The point in time `nanos` nanoseconds after second `secs` of the Unix epoch.
    pub fn from_timestamp(secs: i64, nanos: u32) -> (res: Option<UtcTime>)
        ensures
            res is Some <==> representable(secs as int, nanos as int),
            res is Some ==> res->0.epoch_secs() == secs && res->0.subsec() == nanos,
    {
        if can_represent(secs, nanos) {
            Some(UtcTime { secs, nanos })
        } else {
            None
        }
    }

    /// The present moment. It never lies within a leap second.
    pub fn now() -> (res: UtcTime)
        ensures
            representable(res.epoch_secs(), res.subsec()),
            res.subsec() < 1_000_000_000,
    {
        let (secs, nanos) = clock();
        UtcTime { secs, nanos }
    }

    /// The second of the Unix epoch.
    pub fn timestamp(&self) -> (res: i64)
        ensures
            res == self.epoch_secs(),
    {
        self.secs
    }

    /// The nanoseconds after [`timestamp`](UtcTime::timestamp).
    pub fn timestamp_subsec_nanos(&self) -> (res: u32)
        ensures
            res == self.subsec(),
    {
        self.nanos
    }

    /// Whether `self` is earlier than `other`.
    pub fn is_before(&self, other: &UtcTime) -> (res: bool)
        ensures
            res == self.before(*other),
    {
        self.secs < other.secs || (self.secs == other.secs && self.nanos < other.nanos)
    }

    /// The difference from `other` to `self`.
    pub fn signed_duration_since(&self, other: &UtcTime) -> (res: TimeDelta)
        ensures
            res.total_nanos() == self.since(*other),
    {
        proof {
            use_type_invariant(self);
            use_type_invariant(other);
        }
        let (secs, nanos) = difference(self.secs, self.nanos, other.secs, other.nanos);
        TimeDelta { nanos: secs as i128 * 1_000_000_000 + nanos as i128 }
    }

    /// The point in time as a text with its time zone.
    pub fn to_text(&self) -> (res: String)
        ensures
            res@ == time_text(self.epoch_secs(), self.subsec()),
    {
        proof {
            use_type_invariant(self);
        }
        show_time(self.secs, self.nanos)
    }

    /// The calendar date, year first.
    pub fn date(&self) -> (res: String)
        ensures
            res@ == date_text(self.epoch_secs(), self.subsec()),
    {
        proof {
            use_type_invariant(self);
        }
        show_date(self.secs, self.nanos)
    }

    /// Whether the year of the point in time has at most four digits.
    pub fn has_four_digit_year(&self) -> (res: bool)
        ensures
            res == four_digit_year(self.epoch_secs()),
    {
        -62167219200 <= self.secs && self.secs <= 253402300799
    }

    /// The date and time in the form of a mail header.
    pub fn to_rfc2822(&self) -> (res: String)
        requires
            four_digit_year(self.epoch_secs()),
        ensures
            res@ == rfc2822_text(self.epoch_secs(), self.subsec()),
    {
        proof {
            use_type_invariant(self);
        }
        show_rfc2822(self.secs, self.nanos)
    }
}

/// Of two points in time exactly one is earlier, unless they are the same.
pub proof fn law_times_are_ordered(a: UtcTime, b: UtcTime)
    ensures
        !(a.before(b) && b.before(a)),
        a.before(b) || b.before(a) || a == b,
{
}

// ---- Differences -----------------------------------------------------------------

/// A difference of two points in time.
#[derive(Clone, Copy, Debug, PartialEq, Eq, Structural)]
pub struct TimeDelta {
    nanos: i128,
}

/// `n / d`, rounded towards zero.
pub open spec fn quotient(n: int, d: int) -> int {
    if n >= 0 {
        n / d
    } else {
        -((-n) / d)
    }
}

fn divide(n: i128, d: i128) -> (res: i128)
    requires
        d > 0,
        n > i128::MIN,
    ensures
        res == quotient(n as int, d as int),
{
    if n >= 0 {
        n / d
    } else {
        let q: i128 = (-n) / d;
        proof {
            let m: int = -(n as int);
            let e: int = d as int;
            vstd::arithmetic::div_mod::lemma_div_pos_is_pos(m, e);
        }
        -q
    }
}

/// The nanoseconds of an hour.
pub const HOUR_NANOS: i128 = 3_600_000_000_000;

/// The nanoseconds of a day.
pub const DAY_NANOS: i128 = 86_400_000_000_000;

/// The most nanoseconds that a `chrono::TimeDelta` can hold: as many milliseconds as an `i64`.
pub const MAX_DELTA_NANOS: i128 = 9_223_372_036_854_775_807_000_000;

/// `chrono::TimeDelta::from_std` takes over a duration that is not longer than the longest
/// difference, and otherwise gives an error with the message below.
#[verifier::external_body]
fn delta_from_std(secs: u64, nanos: u32) -> (res: Result<(i64, i32), String>)
    requires
        nanos < 1_000_000_000,
    ensures
        match res {
            Ok(d) => d.0 == secs && d.1 == nanos && secs * 1_000_000_000 + nanos
                <= MAX_DELTA_NANOS,
            Err(message) => secs * 1_000_000_000 + nanos > MAX_DELTA_NANOS && message@
                == "Source duration value is out of range for the target type"@,
        },
{
    match chrono::TimeDelta::from_std(std::time::Duration::new(secs, nanos)) {
        Ok(d) => Ok((d.num_seconds(), d.subsec_nanos())),
        Err(e) => Err(e.to_string()),
    }
}

impl TimeDelta {
    #[verifier::type_invariant]
    spec fn in_range(self) -> bool {
        -MAX_DELTA_NANOS <= self.nanos <= MAX_DELTA_NANOS
    }

    /// The difference in nanoseconds.
    pub closed spec fn total_nanos(self) -> int {
        self.nanos as int
    }

    /// The difference of `nanos` nanoseconds, where it is in range.
    pub fn from_nanos(nanos: i128) -> (res: Option<TimeDelta>)
        ensures
            res is Some <==> -MAX_DELTA_NANOS <= nanos <= MAX_DELTA_NANOS,
            res is Some ==> res->0.total_nanos() == nanos,
    {
        if -MAX_DELTA_NANOS <= nanos && nanos <= MAX_DELTA_NANOS {
            Some(TimeDelta { nanos })
        } else {
            None
        }
    }

    /// The difference that is as long as `duration`; an error is given as its message.
    pub fn from_std(duration: &Duration) -> (res: Result<TimeDelta, String>)
        ensures
            match res {
                Ok(d) => d.total_nanos() == duration.total_nanos() && duration.total_nanos()
                    <= MAX_DELTA_NANOS,
                Err(message) => duration.total_nanos() > MAX_DELTA_NANOS && message@
                    == "Source duration value is out of range for the target type"@,
            },
    {
        match delta_from_std(duration.as_secs(), duration.subsec_nanos()) {
            Ok((secs, nanos)) => Ok(
                TimeDelta { nanos: secs as i128 * 1_000_000_000 + nanos as i128 },
            ),
            Err(message) => Err(message),
        }
    }

    /// Whether `self` is less than `other`.
    pub fn is_less(&self, other: &TimeDelta) -> (res: bool)
        ensures
            res == (self.total_nanos() < other.total_nanos()),
    {
        self.nanos < other.nanos
    }

    /// The difference as a duration.
    pub fn to_std(&self) -> (res: Duration)
        requires
            self.total_nanos() >= 0,
        ensures
            res.total_nanos() == self.total_nanos(),
            res.whole_secs() == self.total_nanos() / 1_000_000_000,
            res.subsec() == self.total_nanos() % 1_000_000_000,
    {
        proof {
            use_type_invariant(self);
        }
        let secs: i128 = self.nanos / 1_000_000_000;
        let nanos: i128 = self.nanos % 1_000_000_000;
        Duration { secs: secs as u64, nanos: nanos as u32 }
    }

    /// The whole hours of the difference, rounded towards zero.
    pub fn num_hours(&self) -> (res: i64)
        ensures
            res == quotient(self.total_nanos(), HOUR_NANOS as int),
    {
        proof {
            use_type_invariant(self);
        }
        divide(self.nanos, HOUR_NANOS) as i64
    }

    /// The whole days of the difference, rounded towards zero.
    pub fn num_days(&self) -> (res: i64)
        ensures
            res == quotient(self.total_nanos(), DAY_NANOS as int),
    {
        proof {
            use_type_invariant(self);
        }
        divide(self.nanos, DAY_NANOS) as i64
    }

    /// The whole seconds of the difference, rounded towards zero.
    pub fn num_seconds(&self) -> (res: i64)
        ensures
            res == quotient(self.total_nanos(), 1_000_000_000),
    {
        proof {
            use_type_invariant(self);
        }
        divide(self.nanos, 1_000_000_000) as i64
    }
}

// ---- Durations ---------------------------------------------------------------------

/// A length of time: whole seconds and nanoseconds below one second.
#[derive(Clone, Copy, Debug, PartialEq, Eq, Structural)]
pub struct Duration {
    secs: u64,
    nanos: u32,
}

/// The text that `humantime::format_duration` shows for a duration.
pub uninterp spec fn human_duration(secs: nat, nanos: nat) -> Seq<char>;

/// `humantime::format_duration` writes a duration as a function of it alone.
#[verifier::external_body]
fn show_duration(secs: u64, nanos: u32) -> (res: String)
    requires
        nanos < 1_000_000_000,
    ensures
        res@ == human_duration(secs as nat, nanos as nat),
{
    humantime::format_duration(std::time::Duration::new(secs, nanos)).to_string()
}

/// The text that the `Debug` form of a `std::time::Duration` shows.
pub uninterp spec fn debug_duration(secs: nat, nanos: nat) -> Seq<char>;

/// `std::time::Duration` has a `Debug` form that is a function of its length.
#[verifier::external_body]
fn show_debug_duration(secs: u64, nanos: u32) -> (res: String)
    requires
        nanos < 1_000_000_000,
    ensures
        res@ == debug_duration(secs as nat, nanos as nat),
{
    format!("{:?}", std::time::Duration::new(secs, nanos))
}

/// What `humantime::parse_duration` gives for a text: whole seconds and nanoseconds, or the
/// error's message.
pub uninterp spec fn human_parse(s: Seq<char>) -> Result<(nat, nat), Seq<char>>;

/// `humantime::parse_duration` reads a duration, a function of its text alone. It panics where
/// the spans up to some place come to exactly 2^64 seconds and the last of them adds up to a
/// whole second with the nanoseconds before it; where they come to 2^64 seconds or more and it
/// does not panic, it gives the error of a number that is too large.
#[verifier::external_body]
fn read_duration(s: &str) -> (res: Result<(u64, u32), String>)
    requires
        !spans::overlong(s@),
    ensures
        match res {
            Ok(d) => human_parse(s@) == Ok::<(nat, nat), Seq<char>>((d.0 as nat, d.1 as nat)) && d.1
                < 1_000_000_000,
            Err(message) => human_parse(s@) == Err::<(nat, nat), Seq<char>>(message@),
        },
{
    match humantime::parse_duration(s) {
        Ok(d) => Ok((d.as_secs(), d.subsec_nanos())),
        Err(e) => Err(e.to_string()),
    }
}

/// The message about a number in a duration that is too large.
pub open spec fn too_large_text() -> Seq<char> {
    "number is too large or cannot be represented without a lack of precision (values below 1ns are not supported)"@
}

/// What a text is read as: whole seconds and nanoseconds, or the error's message. Spans that come
/// to 2^64 seconds or more are too large.
pub open spec fn duration_in(s: Seq<char>) -> Result<(nat, nat), Seq<char>> {
    if spans::overlong(s) {
        Err(too_large_text())
    } else {
        human_parse(s)
    }
}

/// Reads a duration such as `1h 30m`; an error is given as its message.
pub fn parse_duration(s: &str) -> (res: Result<Duration, String>)
    ensures
        match res {
            Ok(d) => duration_in(s@) == Ok::<(nat, nat), Seq<char>>((d.whole_secs(), d.subsec())),
            Err(message) => duration_in(s@) == Err::<(nat, nat), Seq<char>>(message@),
        },
{
    if spans::is_overlong(s) {
        return Err(
            "number is too large or cannot be represented without a lack of precision (values below 1ns are not supported)".to_string(),
        );
    }
    match read_duration(s) {
        Ok((secs, nanos)) => Ok(Duration { secs, nanos }),
        Err(message) => Err(message),
    }
}

/// Reads a duration as a difference of times; an error is given as its message.
pub fn parse_time_delta(s: &str) -> (res: Result<TimeDelta, String>)
    ensures
        match duration_in(s@) {
            Ok(d) => {
                let nanos = d.0 * 1_000_000_000 + d.1;
                if nanos <= MAX_DELTA_NANOS {
                    res is Ok && res->Ok_0.total_nanos() == nanos
                } else {
                    res is Err && res->Err_0@
                        == "Source duration value is out of range for the target type"@
                }
            },
            Err(message) => res is Err && res->Err_0@ == message,
        },
{
    match parse_duration(s) {
        Ok(d) => TimeDelta::from_std(&d),
        Err(message) => Err(message),
    }
}

impl Duration {
    #[verifier::type_invariant]
    spec fn below_a_second(self) -> bool {
        self.nanos < 1_000_000_000
    }

    /// The whole seconds.
    pub closed spec fn whole_secs(self) -> nat {
        self.secs as nat
    }

    /// The nanoseconds after the whole seconds.
    pub closed spec fn subsec(self) -> nat {
        self.nanos as nat
    }

    /// The length in nanoseconds.
    pub open spec fn total_nanos(self) -> nat {
        self.whole_secs() * 1_000_000_000 + self.subsec()
    }

    /// The length in milliseconds, rounded down.
    pub open spec fn millis(self) -> nat {
        self.whole_secs() * 1000 + self.subsec() / 1_000_000
    }

    /// `secs` seconds.
    pub fn from_secs(secs: u64) -> (res: Duration)
        ensures
            res.whole_secs() == secs,
            res.subsec() == 0,
    {
        Duration { secs, nanos: 0 }
    }

    /// `millis` milliseconds.
    pub fn from_millis(millis: u64) -> (res: Duration)
        ensures
            res.whole_secs() == millis / 1000,
            res.subsec() == (millis % 1000) * 1_000_000,
            res.millis() == millis,
    {
        let rest: u32 = (millis % 1000) as u32;
        Duration { secs: millis / 1000, nanos: rest * 1_000_000 }
    }

    /// `secs` seconds and `nanos` nanoseconds.
    pub fn from_parts(secs: u64, nanos: u32) -> (res: Duration)
        requires
            nanos < 1_000_000_000,
        ensures
            res.whole_secs() == secs,
            res.subsec() == nanos,
    {
        Duration { secs, nanos }
    }

    /// The whole seconds.
    pub fn as_secs(&self) -> (res: u64)
        ensures
            res == self.whole_secs(),
    {
        self.secs
    }

    /// The nanoseconds after the whole seconds.
    pub fn subsec_nanos(&self) -> (res: u32)
        ensures
            res == self.subsec(),
            res < 1_000_000_000,
    {
        proof {
            use_type_invariant(self);
        }
        self.nanos
    }

    /// The length in milliseconds, rounded down.
    pub fn as_millis(&self) -> (res: u128)
        ensures
            res == self.millis(),
    {
        self.secs as u128 * 1000 + (self.nanos / 1_000_000) as u128
    }

    /// Whether `self` is at most as long as `other`.
    pub fn at_most(&self, other: &Duration) -> (res: bool)
        ensures
            res == (self.total_nanos() <= other.total_nanos()),
    {
        proof {
            use_type_invariant(self);
            use_type_invariant(other);
        }
        self.secs < other.secs || (self.secs == other.secs && self.nanos <= other.nanos)
    }

    /// The duration with a unit, as in an error's message.
    pub fn to_debug_text(&self) -> (res: String)
        ensures
            res@ == debug_duration(self.whole_secs(), self.subsec()),
    {
        proof {
            use_type_invariant(self);
        }
        show_debug_duration(self.secs, self.nanos)
    }

    /// The duration as a person would write it.
    pub fn to_text(&self) -> (res: String)
        ensures
            res@ == human_duration(self.whole_secs(), self.subsec()),
    {
        proof {
            use_type_invariant(self);
        }
        show_duration(self.secs, self.nanos)
    }
}

// ---- Laws ----------------------------------------------------------------------------

/// Between two points in time that are not within a leap second lie as many nanoseconds as
/// between their places on the epoch's line; the difference the other way round is its negative.
pub proof fn law_time_between(a: UtcTime, b: UtcTime)
    requires
        a.subsec() < 1_000_000_000,
        b.subsec() < 1_000_000_000,
    ensures
        a.since(b) == (a.epoch_secs() * 1_000_000_000 + a.subsec()) - (b.epoch_secs() * 1_000_000_000
            + b.subsec()),
        a.since(b) == -b.since(a),
        a.since(a) == 0,
        a.subsec() >= 0 && b.subsec() >= 0 ==> (b.before(a) <==> a.since(b) > 0),
{
}

/// Rounding towards zero leaves less than one step, on the same side of zero.
pub proof fn law_rounding_towards_zero(n: int, d: int)
    requires
        d > 0,
    ensures
        n >= 0 ==> d * quotient(n, d) <= n < d * quotient(n, d) + d,
        n < 0 ==> d * quotient(n, d) - d < n <= d * quotient(n, d),
        HOUR_NANOS == 60 * 60 * 1_000_000_000,
        DAY_NANOS == 24 * HOUR_NANOS,
{
    let m = if n >= 0 {
        n
    } else {
        -n
    };
    vstd::arithmetic::div_mod::lemma_fundamental_div_mod(m, d);
    vstd::arithmetic::div_mod::lemma_mod_bound(m, d);
    let q = m / d;
    assert(d * (-q) == -(d * q)) by (nonlinear_arith);
}

/// A duration is as long as its seconds and the nanoseconds beyond them, and its milliseconds
/// are rounded down.
pub proof fn law_length_of_a_duration(d: Duration)
    ensures
        d.total_nanos() == d.whole_secs() * 1_000_000_000 + d.subsec(),
        d.millis() == d.total_nanos() / 1_000_000,
{
    let w = d.whole_secs() as int;
    let s = d.subsec() as int;
    assert((w * 1_000_000_000 + s) / 1_000_000 == w * 1000 + s / 1_000_000);
}

/// The years that a mail header can name are 0 to 9999, from their first second to their last.
pub proof fn law_years_of_a_mail_header(secs: int)
    ensures
        four_digit_year(secs) <==> -719_528 * 86_400 <= secs < (2_932_897 * 86_400),
{
}

} // verus!
