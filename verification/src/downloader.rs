//! How one episode is downloaded: attempts, resumption, checks and pauses.
use crate::episode::{Episode, EpisodeState};
use crate::filename;
use crate::http;
use crate::http::HttpStatus;
use crate::ids;
use crate::text;
use crate::time;
use crate::time::{Duration, UtcTime};
use vstd::arithmetic::power2::*;
use vstd::prelude::*;
use vstd::string::*;

verus! {

/// Settings of the downloader.
#[derive(Debug)]
pub struct DownloaderConfig {
    pub concurrent_downloads: u32,
    pub attempt_timeout: Duration,
    pub max_retries: u8,
    pub backoff_base: Duration,
    pub user_agent: String,
    pub accept_invalid_certs: bool,
    /// The most bytes per second for one download; `0` for as many as come.
    pub max_bytes_per_sec: u64,
}

// ---- Errors ---------------------------------------------------------------------------

/// Why a download failed. Errors of the connection and of the disk are held as their messages.
#[derive(Debug)]
pub enum DownloadError {
    Timeout(Duration),
    Http(HttpStatus),
    Io(String),
    SizeMismatch { expected: u64, actual: u64 },
    ChecksumMismatch,
    Network(String),
}

/// The short name of the cause of an error.
pub open spec fn reason_text(e: DownloadError) -> Seq<char> {
    match e {
        DownloadError::Timeout(_) => "timeout"@,
        DownloadError::Http(s) => if s.number() == 404 {
            "http_404"@
        } else {
            "http"@
        },
        DownloadError::Io(_) => "io"@,
        DownloadError::SizeMismatch { .. } => "size_mismatch"@,
        DownloadError::ChecksumMismatch => "checksum_mismatch"@,
        DownloadError::Network(_) => "network"@,
    }
}

/// The message of an error.
pub open spec fn download_error_text(e: DownloadError) -> Seq<char> {
    match e {
        DownloadError::Timeout(d) => "download timed out after "@ + time::debug_duration(
            d.whole_secs(),
            d.subsec(),
        ),
        DownloadError::Http(s) => "HTTP "@ + http::status_text(s.number()),
        DownloadError::Io(m) => "I/O error: "@ + m@,
        DownloadError::SizeMismatch { expected, actual } => "size mismatch: expected ~"@
            + text::decimal(expected as nat) + " bytes, got "@ + text::decimal(actual as nat),
        DownloadError::ChecksumMismatch => "checksum mismatch"@,
        DownloadError::Network(m) => "network error: "@ + m@,
    }
}

impl DownloadError {
    /// The short name of the cause.
    pub fn reason(&self) -> (res: &'static str)
        ensures
            res@ == reason_text(*self),
    {
        match self {
            DownloadError::Timeout(_) => "timeout",
            DownloadError::Http(s) => if s.as_u16() == 404 {
                "http_404"
            } else {
                "http"
            },
            DownloadError::Io(_) => "io",
            DownloadError::SizeMismatch { .. } => "size_mismatch",
            DownloadError::ChecksumMismatch => "checksum_mismatch",
            DownloadError::Network(_) => "network",
        }
    }

    /// The message of the error.
    pub fn to_text(&self) -> (res: String)
        ensures
            res@ == download_error_text(*self),
    {
        match self {
            DownloadError::Timeout(d) => {
                let mut s = "download timed out after ".to_string();
                s.append(d.to_debug_text().as_str());
                s
            },
            DownloadError::Http(status) => {
                let mut s = "HTTP ".to_string();
                s.append(status.to_text().as_str());
                s
            },
            DownloadError::Io(m) => {
                let mut s = "I/O error: ".to_string();
                s.append(m.as_str());
                s
            },
            DownloadError::SizeMismatch { expected, actual } => {
                let mut s = "size mismatch: expected ~".to_string();
                s.append(text::decimal_text(*expected).as_str());
                s.append(" bytes, got ");
                s.append(text::decimal_text(*actual).as_str());
                s
            },
            DownloadError::ChecksumMismatch => "checksum mismatch".to_string(),
            DownloadError::Network(m) => {
                let mut s = "network error: ".to_string();
                s.append(m.as_str());
                s
            },
        }
    }
}

/// A finished download.
#[derive(Debug)]
pub struct DownloadResult {
    pub path: String,
    pub sha256: String,
    pub bytes: u64,
}

// ---- Pauses between attempts -------------------------------------------------------------

/// How many times the base the pause after an attempt is: it doubles with each attempt.
pub open spec fn backoff_factor(attempt: u8) -> nat {
    let doublings: nat = if attempt == 0 {
        0
    } else {
        (attempt - 1) as nat
    };
    if doublings < 64 {
        pow2(doublings)
    } else {
        u64::MAX as nat
    }
}

/// The milliseconds of the pause after an attempt, before they are varied. The base counts
/// modulo 2^64 milliseconds.
pub open spec fn backoff_millis(base: Duration, attempt: u8) -> nat {
    (base.millis() % 0x1_0000_0000_0000_0000nat) * backoff_factor(attempt)
}

/// What the milliseconds of a pause are varied by.
pub open spec fn backoff_jitter(base: Duration, attempt: u8) -> nat {
    let range = backoff_millis(base, attempt) / 4;
    ((attempt * 6364136223846793005) as nat % 0x1_0000_0000_0000_0000nat) % (range * 2 + 1)
}

/// Whether the longest pause after an attempt fits in a `u64` of milliseconds.
pub open spec fn backoff_fits(base: Duration, attempt: u8) -> bool {
    backoff_millis(base, attempt) + backoff_millis(base, attempt) / 4 <= u64::MAX
}

fn power_of_two(n: u32) -> (res: u64)
    requires
        n < 64,
    ensures
        res == pow2(n as nat),
{
    proof {
        lemma2_to64();
    }
    let mut res: u64 = 1;
    for i in 0..n
        invariant
            n < 64,
            res == pow2(i as nat),
    {
        proof {
            lemma_pow2_unfold((i + 1) as nat);
            lemma2_to64_rest();
            if i + 1 < 63 {
                lemma_pow2_strictly_increases((i + 1) as nat, 63);
            }
        }
        res = res * 2;
    }
    res
}

fn factor_of(attempt: u8) -> (res: u64)
    ensures
        res == backoff_factor(attempt),
{
    let doublings: u8 = if attempt == 0 {
        0
    } else {
        attempt - 1
    };
    if doublings < 64 {
        power_of_two(doublings as u32)
    } else {
        u64::MAX
    }
}

/// Whether the longest pause after an attempt can be told in milliseconds.
pub fn can_back_off(base: &Duration, attempt: u8) -> (res: bool)
    ensures
        res == backoff_fits(*base, attempt),
{
    let base_millis: u128 = base.as_millis() % 0x1_0000_0000_0000_0000u128;
    let factor: u128 = factor_of(attempt) as u128;
    proof {
        assert(base_millis * factor <= 0xFFFF_FFFF_FFFF_FFFF * 0xFFFF_FFFF_FFFF_FFFF)
            by (nonlinear_arith)
            requires
                base_millis <= 0xFFFF_FFFF_FFFF_FFFF,
                factor <= 0xFFFF_FFFF_FFFF_FFFF,
        ;
    }
    let millis: u128 = base_millis * factor;
    millis <= 0xFFFF_FFFF_FFFF_FFFF && millis + millis / 4 <= 0xFFFF_FFFF_FFFF_FFFF
}

/// The pause after an attempt: the base, doubled with each attempt, give or take a quarter.
pub fn backoff(base: &Duration, attempt: u8) -> (res: Duration)
    requires
        backoff_fits(*base, attempt),
    ensures
        res.millis() == backoff_millis(*base, attempt) - backoff_millis(*base, attempt) / 4
            + backoff_jitter(*base, attempt),
        4 * res.millis() >= 3 * backoff_millis(*base, attempt),
        4 * res.millis() <= 5 * backoff_millis(*base, attempt),
        res.subsec() % 1_000_000 == 0,
{
    let factor: u64 = factor_of(attempt);
    let base_millis: u64 = (base.as_millis() % 0x1_0000_0000_0000_0000u128) as u64;
    let millis: u64 = base_millis * factor;
    let jitter_range: u64 = millis / 4;
    let seed: u64 = (attempt as u64).wrapping_mul(6364136223846793005);
    let jitter: u64 = seed % (jitter_range * 2 + 1);
    let jittered: u64 = millis - jitter_range + jitter;
    Duration::from_millis(jittered)
}

// ---- Attempts ------------------------------------------------------------------------------

/// What is done next to have an episode downloaded.
pub enum DownloadStep {
    /// An attempt with this number is made.
    Attempt { number: u8 },
    /// The last attempt failed: the state is announced and the next attempt made after a
    /// pause.
    Retry { failed: EpisodeState, delay: Duration, next: u8 },
    /// The download is given up. The state, where there is one, is announced.
    GiveUp { quarantined: Option<EpisodeState>, error: DownloadError },
}

/// The message of a download for which no attempt is allowed.
pub open spec fn no_attempts_text() -> Seq<char> {
    "no attempts made.\nTry setting config:\n[downloader]\nmax_retries ≥ 1"@
}

/// The first step of a download with at most `max` attempts.
pub fn first_step(max: u8) -> (res: DownloadStep)
    ensures
        max > 0 ==> res == (DownloadStep::Attempt { number: 1 }),
        max == 0 ==> (res matches DownloadStep::GiveUp { quarantined, error } && quarantined is None
            && (error matches DownloadError::Io(m) && m@ == no_attempts_text())),
{
    if max == 0 {
        DownloadStep::GiveUp {
            quarantined: None,
            error: DownloadError::Io(
                "no attempts made.\nTry setting config:\n[downloader]\nmax_retries ≥ 1".to_string(),
            ),
        }
    } else {
        DownloadStep::Attempt { number: 1 }
    }
}

/// Whether `step` follows a failed attempt.
pub open spec fn is_step_after_failure(
    config: DownloaderConfig,
    attempt: u8,
    e: DownloadError,
    step: DownloadStep,
) -> bool {
    if attempt < config.max_retries {
        step matches DownloadStep::Retry { failed, delay, next } && {
            &&& failed matches EpisodeState::Failed { last_error, attempts } && last_error@
                == download_error_text(e) && attempts == attempt
            &&& delay.millis() == backoff_millis(config.backoff_base, attempt) - backoff_millis(
                config.backoff_base,
                attempt,
            ) / 4 + backoff_jitter(config.backoff_base, attempt)
            &&& delay.subsec() % 1_000_000 == 0
            &&& next == attempt + 1
        }
    } else {
        step matches DownloadStep::GiveUp { quarantined, error } && {
            &&& error == e
            &&& quarantined matches Some(EpisodeState::Quarantined { reason, last_error }) && reason@
                == reason_text(e) && last_error@ == download_error_text(e)
        }
    }
}

/// The step after an attempt failed: another attempt after a pause, or, where all attempts
/// were made, the episode is quarantined.
pub fn retry_download(config: &DownloaderConfig, attempt: u8, e: DownloadError) -> (res: DownloadStep)
    requires
        attempt < config.max_retries ==> backoff_fits(config.backoff_base, attempt),
    ensures
        is_step_after_failure(*config, attempt, e, res),
{
    if attempt < config.max_retries {
        let delay = backoff(&config.backoff_base, attempt);
        DownloadStep::Retry {
            failed: EpisodeState::Failed { last_error: e.to_text(), attempts: attempt },
            delay,
            next: attempt + 1,
        }
    } else {
        DownloadStep::GiveUp {
            quarantined: Some(
                EpisodeState::Quarantined {
                    reason: e.reason().to_string(),
                    last_error: e.to_text(),
                },
            ),
            error: e,
        }
    }
}

/// The state that is announced when an attempt starts.
pub fn attempt_state(attempt: u8, now: UtcTime) -> (res: EpisodeState)
    ensures
        res == (EpisodeState::Downloading { attempt, started_at: now }),
{
    EpisodeState::Downloading { attempt, started_at: now }
}

/// The attempts that are made from attempt `from` on where every one fails, and the step at
/// which the download ends.
pub open spec fn attempts_from(max: u8, from: u8) -> nat
    decreases max - from,
{
    if from >= max {
        1
    } else {
        1 + attempts_from(max, (from + 1) as u8)
    }
}

/// A download whose attempts all fail makes exactly as many as are allowed, and then
/// quarantines the episode: nothing is retried forever.
pub proof fn law_failing_download_is_quarantined(
    config: DownloaderConfig,
    attempt: u8,
    e: DownloadError,
    step: DownloadStep,
)
    requires
        1 <= attempt <= config.max_retries,
        is_step_after_failure(config, attempt, e, step),
    ensures
        step is Retry <==> attempt < config.max_retries,
        step matches DownloadStep::Retry { next, .. } ==> next == attempt + 1 && next
            <= config.max_retries,
        step matches DownloadStep::GiveUp { quarantined, .. } ==> (quarantined matches Some(s)
            && s is Quarantined),
        attempts_from(config.max_retries, 1) == config.max_retries,
{
    lemma_attempts_from(config.max_retries, 1);
}

proof fn lemma_attempts_from(max: u8, from: u8)
    requires
        1 <= from <= max,
    ensures
        attempts_from(max, from) == max - from + 1,
    decreases max - from,
{
    if from < max {
        lemma_attempts_from(max, (from + 1) as u8);
    }
}

// ---- File names ------------------------------------------------------------------------------

/// The name that an episode's file has: made from its title, and told apart from another file
/// by the episode's identifier where that is needed.
pub open spec fn file_name_text(ep: Episode, taken: bool) -> Seq<char> {
    let stem = filename::sanitized(text::lowercase(ep.title@));
    let ext = filename::audio_ext(text::opt_text(ep.enclosure_mime), ep.enclosure_url@);
    if taken {
        stem + "-"@ + ids::short_text(ep.id@) + "."@ + ext
    } else {
        stem + "."@ + ext
    }
}

/// The name of an episode's file. `taken` tells whether there is a file already that is named
/// by the title alone.
pub fn file_name(episode: &Episode, taken: bool) -> (res: String)
    requires
        taken ==> episode.id.has_short(),
    ensures
        res@ == file_name_text(*episode, taken),
{
    let mime: Option<&str> = match &episode.enclosure_mime {
        Some(m) => Some(m.as_str()),
        None => None,
    };
    let ext = filename::ext_from_mime(mime, episode.enclosure_url.as_str());
    let mut name = filename::sanitize_title(episode.title.as_str());
    if taken {
        name.append("-");
        name.append(episode.id.short());
    }
    name.append(".");
    name.append(ext);
    name
}

/// The name of the file that holds what has come so far of the file `name`.
pub open spec fn part_name(name: Seq<char>) -> Seq<char> {
    name + ".part"@
}

/// The path of the file that holds what has come so far of the file at `final_path`.
pub fn part_path_for(final_path: &str) -> (res: String)
    ensures
        res@ == part_name(final_path@),
{
    let mut s = final_path.to_string();
    s.append(".part");
    s
}

// ---- One attempt --------------------------------------------------------------------------------

/// From which byte on an episode is fetched: behind what is there, where the server can serve
/// ranges (its `Accept-Ranges` header is there and not `none`).
pub open spec fn resume_point(existing_bytes: u64, accept_ranges: Option<String>) -> u64 {
    if existing_bytes > 0 && accept_ranges is Some && accept_ranges->0@ != "none"@ {
        existing_bytes
    } else {
        0
    }
}

/// From which byte on an episode is fetched.
pub fn resume_offset(existing_bytes: u64, accept_ranges: &Option<String>) -> (res: u64)
    ensures
        res == resume_point(existing_bytes, *accept_ranges),
{
    if existing_bytes > 0 {
        match accept_ranges {
            Some(v) => {
                if text::same_text(v.as_str(), "none") {
                    0
                } else {
                    existing_bytes
                }
            },
            None => 0,
        }
    } else {
        0
    }
}

/// The value of the `Range` header of a request, where one is sent.
pub open spec fn range_text(resume_from: u64) -> Option<Seq<char>> {
    if resume_from > 0 {
        Some("bytes="@ + text::decimal(resume_from as nat) + "-"@)
    } else {
        None
    }
}

/// The value of the `Range` header of a request, where one is sent.
pub fn range_header(resume_from: u64) -> (res: Option<String>)
    ensures
        text::opt_text(res) == range_text(resume_from),
{
    if resume_from > 0 {
        let mut s = "bytes=".to_string();
        s.append(text::decimal_text(resume_from).as_str());
        s.append("-");
        Some(s)
    } else {
        None
    }
}

/// What is done with the body of a response.
pub enum BodyPlan {
    /// The server sends everything though only the rest was asked for: what is there is
    /// thrown away.
    Restart,
    /// The body is written to a new file.
    Create,
    /// The body is written behind what is there.
    Append,
    Refuse(DownloadError),
}

/// What is done with the body of a response to a request for the bytes from `resume_from` on.
pub open spec fn plan_of(resume_from: u64, status: HttpStatus) -> BodyPlan {
    if resume_from > 0 && status.number() == 200 {
        BodyPlan::Restart
    } else if !status.success() {
        BodyPlan::Refuse(DownloadError::Http(status))
    } else if resume_from > 0 {
        BodyPlan::Append
    } else {
        BodyPlan::Create
    }
}

/// What is done with the body of a response.
pub fn body_plan(resume_from: u64, status: HttpStatus) -> (res: BodyPlan)
    ensures
        res == plan_of(resume_from, status),
{
    if resume_from > 0 && status.as_u16() == 200 {
        BodyPlan::Restart
    } else if !status.is_success() {
        BodyPlan::Refuse(DownloadError::Http(status))
    } else if resume_from > 0 {
        BodyPlan::Append
    } else {
        BodyPlan::Create
    }
}

/// How many bytes are there before the body is written.
pub fn bytes_before(plan: &BodyPlan, resume_from: u64) -> (res: u64)
    ensures
        res == if *plan is Append {
            resume_from
        } else {
            0
        },
{
    match plan {
        BodyPlan::Append => resume_from,
        _ => 0,
    }
}

/// Whether a file has the size that the feed announced, give or take `tolerance`. A size that
/// is unknown or zero is not checked.
pub open spec fn size_fits(expected: Option<u64>, tolerance: u64, actual: u64) -> bool {
    match expected {
        Some(n) => n > 0 ==> n - tolerance <= actual <= n + tolerance,
        None => true,
    }
}

/// Checks the size of a downloaded file against the one that the feed announced.
pub fn check_size(expected: Option<u64>, tolerance: u64, actual: u64) -> (res: Result<
    (),
    DownloadError,
>)
    requires
        expected matches Some(n) ==> n + tolerance <= u64::MAX,
    ensures
        res is Ok <==> size_fits(expected, tolerance, actual),
        res matches Err(e) ==> expected is Some && e == (DownloadError::SizeMismatch {
            expected: expected->0,
            actual,
        }),
        expected matches Some(n) ==> n > 0 ==> (res is Err <==> actual < n - tolerance || n
            + tolerance < actual),
        expected is None || expected == Some(0u64) ==> res is Ok,
{
    match expected {
        Some(n) => {
            if n > 0 {
                let lo = n.saturating_sub(tolerance);
                let hi = n + tolerance;
                if actual < lo || actual > hi {
                    return Err(DownloadError::SizeMismatch { expected: n, actual });
                }
            }
            Ok(())
        },
        None => Ok(()),
    }
}

/// The hexadecimal SHA-256 digest of the contents of a file.
pub fn file_sha256(content: &[u8]) -> (res: String)
    ensures
        res@ == ids::hex_of(ids::sha256_of(content@)),
        res@.len() == 64,
{
    let digest = ids::sha256(content);
    ids::hex_text(digest.as_slice())
}

// ---- The course of an attempt --------------------------------------------------------------------

/// Where an attempt to download an episode stands.
pub enum AttemptState {
    Start,
    /// It is being looked whether the name of the file is taken.
    AwaitTaken,
    /// It is being looked how much is there of the file `name`.
    AwaitPart { name: String },
    /// The server is being asked whether it serves ranges.
    AwaitRanges { name: String, existing: u64 },
    AwaitResponse { name: String, resume_from: u64 },
    /// The file that holds what has come is being opened; it then holds `before` bytes.
    AwaitOpened { name: String, before: u64 },
    AwaitBody { name: String, before: u64 },
    AwaitDeleted { error: DownloadError },
    AwaitRenamed { name: String, bytes: u64, sha256: String },
    Finished,
}

/// What is done next in an attempt.
pub enum AttemptAction {
    /// A file with this name is looked for.
    LookFor { name: String },
    /// The size of the file that holds what has come is taken; it is 0 where there is none.
    MeasurePart { part: String },
    /// The server is asked for the headers alone.
    AskRanges,
    /// The file is asked for, from a byte on where there is a `Range` header.
    Request { range: Option<String> },
    /// What has come is thrown away and the file `part` made anew.
    Restart { part: String },
    /// The file `part` is made.
    Create { part: String },
    /// The file `part` is opened to write behind what is there.
    Append { part: String },
    /// The body is written to the file, and the digest of the whole file taken.
    Receive,
    DeletePart { part: String },
    Rename { part: String, name: String },
    Succeed { name: String, bytes: u64, sha256: String },
    Fail { error: DownloadError },
    Stop,
}

/// How an action ended. Errors of the connection and of the disk are held as their messages.
pub enum AttemptEvent {
    Begin,
    Looked { taken: bool },
    Measured { size: Result<u64, String> },
    /// The value of the `Accept-Ranges` header.
    RangesKnown { accept: Result<Option<String>, String> },
    Responded { status: Result<HttpStatus, String> },
    Opened { result: Result<(), String> },
    /// How many bytes the body had, and the digest of the whole file.
    Received { result: Result<(u64, String), DownloadError> },
    Deleted,
    Renamed { result: Result<(), String> },
}

/// Whether an attempt fails with an error of the connection.
pub open spec fn fails_by_network(next: AttemptState, action: AttemptAction, message: String) -> bool {
    next is Finished && action == (AttemptAction::Fail { error: DownloadError::Network(message) })
}

/// Whether an attempt fails with an error of the disk.
pub open spec fn fails_by_disk(next: AttemptState, action: AttemptAction, message: String) -> bool {
    next is Finished && action == (AttemptAction::Fail { error: DownloadError::Io(message) })
}

/// Whether the file `name` is asked for from byte `resume_from` on.
pub open spec fn is_request(
    name: Seq<char>,
    resume_from: u64,
    next: AttemptState,
    action: AttemptAction,
) -> bool {
    &&& next matches AttemptState::AwaitResponse { name: n, resume_from: r } && n@ == name && r
        == resume_from
    &&& action matches AttemptAction::Request { range } && text::opt_text(range) == range_text(
        resume_from,
    )
}

/// Whether `next` and `action` follow a response to the request for `name`.
pub open spec fn is_answered(
    name: Seq<char>,
    resume_from: u64,
    status: HttpStatus,
    next: AttemptState,
    action: AttemptAction,
) -> bool {
    match plan_of(resume_from, status) {
        BodyPlan::Restart => {
            &&& next matches AttemptState::AwaitOpened { name: n, before } && n@ == name && before
                == 0
            &&& action matches AttemptAction::Restart { part } && part@ == part_name(name)
        },
        BodyPlan::Create => {
            &&& next matches AttemptState::AwaitOpened { name: n, before } && n@ == name && before
                == 0
            &&& action matches AttemptAction::Create { part } && part@ == part_name(name)
        },
        BodyPlan::Append => {
            &&& next matches AttemptState::AwaitOpened { name: n, before } && n@ == name && before
                == resume_from
            &&& action matches AttemptAction::Append { part } && part@ == part_name(name)
        },
        BodyPlan::Refuse(e) => next is Finished && action == (AttemptAction::Fail { error: e }),
    }
}

/// Whether `next` and `action` follow once `bytes` bytes of the file `name` are there: it gets
/// its name where its size fits, and is deleted where not.
pub open spec fn is_checked(
    ep: Episode,
    tolerance: u64,
    name: Seq<char>,
    bytes: int,
    sha256: String,
    next: AttemptState,
    action: AttemptAction,
) -> bool {
    if size_fits(ep.enclosure_size, tolerance, bytes as u64) {
        &&& next matches AttemptState::AwaitRenamed { name: n, bytes: b, sha256: h } && n@ == name
            && b == bytes && h == sha256
        &&& action matches AttemptAction::Rename { part, name: n } && part@ == part_name(name)
            && n@ == name
    } else {
        &&& next == (AttemptState::AwaitDeleted {
            error: DownloadError::SizeMismatch {
                expected: ep.enclosure_size->0,
                actual: bytes as u64,
            },
        })
        &&& action matches AttemptAction::DeletePart { part } && part@ == part_name(name)
    }
}

/// Whether `next` and `action` follow where an attempt to download `ep` stands at `state` and
/// `event` has happened.
pub open spec fn is_attempt_step(
    ep: Episode,
    tolerance: u64,
    state: AttemptState,
    event: AttemptEvent,
    next: AttemptState,
    action: AttemptAction,
) -> bool {
    match (state, event) {
        (AttemptState::Start, AttemptEvent::Begin) => next is AwaitTaken && (
        action matches AttemptAction::LookFor { name } && name@ == file_name_text(ep, false)),
        (AttemptState::AwaitTaken, AttemptEvent::Looked { taken }) => {
            &&& next matches AttemptState::AwaitPart { name } && name@ == file_name_text(ep, taken)
            &&& action matches AttemptAction::MeasurePart { part } && part@ == part_name(
                file_name_text(ep, taken),
            )
        },
        (AttemptState::AwaitPart { name }, AttemptEvent::Measured { size: Ok(existing) }) => {
            if existing > 0 {
                next == (AttemptState::AwaitRanges { name, existing }) && action is AskRanges
            } else {
                is_request(name@, 0, next, action)
            }
        },
        (AttemptState::AwaitPart { .. }, AttemptEvent::Measured { size: Err(m) }) => fails_by_disk(
            next,
            action,
            m,
        ),
        (
            AttemptState::AwaitRanges { name, existing },
            AttemptEvent::RangesKnown { accept: Ok(accept) },
        ) => is_request(name@, resume_point(existing, accept), next, action),
        (AttemptState::AwaitRanges { .. }, AttemptEvent::RangesKnown { accept: Err(m) }) =>
        fails_by_network(next, action, m),
        (
            AttemptState::AwaitResponse { name, resume_from },
            AttemptEvent::Responded { status: Ok(status) },
        ) => is_answered(name@, resume_from, status, next, action),
        (AttemptState::AwaitResponse { .. }, AttemptEvent::Responded { status: Err(m) }) =>
        fails_by_network(next, action, m),
        (AttemptState::AwaitOpened { name, before }, AttemptEvent::Opened { result: Ok(_) }) => next
            == (AttemptState::AwaitBody { name, before }) && action is Receive,
        (AttemptState::AwaitOpened { .. }, AttemptEvent::Opened { result: Err(m) }) => fails_by_disk(
            next,
            action,
            m,
        ),
        (AttemptState::AwaitBody { name, before }, AttemptEvent::Received { result: Ok(got) }) =>
        is_checked(ep, tolerance, name@, before + got.0, got.1, next, action),
        (AttemptState::AwaitBody { .. }, AttemptEvent::Received { result: Err(e) }) => next is Finished
            && action == (AttemptAction::Fail { error: e }),
        (AttemptState::AwaitDeleted { error }, AttemptEvent::Deleted) => next is Finished && action
            == (AttemptAction::Fail { error }),
        (
            AttemptState::AwaitRenamed { name, bytes, sha256 },
            AttemptEvent::Renamed { result: Ok(_) },
        ) => next is Finished && action == (AttemptAction::Succeed { name, bytes, sha256 }),
        (AttemptState::AwaitRenamed { .. }, AttemptEvent::Renamed { result: Err(m) }) =>
        fails_by_disk(next, action, m),
        _ => next is Finished && action is Stop,
    }
}

fn request(name: String, resume_from: u64) -> (res: (AttemptState, AttemptAction))
    ensures
        is_request(name@, resume_from, res.0, res.1),
{
    let range = range_header(resume_from);
    (AttemptState::AwaitResponse { name, resume_from }, AttemptAction::Request { range })
}

fn answer(name: String, resume_from: u64, status: HttpStatus) -> (res: (
    AttemptState,
    AttemptAction,
))
    ensures
        is_answered(name@, resume_from, status, res.0, res.1),
{
    let part = part_path_for(name.as_str());
    let plan = body_plan(resume_from, status);
    let before = bytes_before(&plan, resume_from);
    match plan {
        BodyPlan::Restart => (
            AttemptState::AwaitOpened { name, before },
            AttemptAction::Restart { part },
        ),
        BodyPlan::Create => (
            AttemptState::AwaitOpened { name, before },
            AttemptAction::Create { part },
        ),
        BodyPlan::Append => (
            AttemptState::AwaitOpened { name, before },
            AttemptAction::Append { part },
        ),
        BodyPlan::Refuse(error) => (AttemptState::Finished, AttemptAction::Fail { error }),
    }
}

fn check(ep: &Episode, tolerance: u64, name: String, bytes: u64, sha256: String) -> (res: (
    AttemptState,
    AttemptAction,
))
    requires
        ep.enclosure_size matches Some(n) ==> n + tolerance <= u64::MAX,
    ensures
        is_checked(*ep, tolerance, name@, bytes as int, sha256, res.0, res.1),
{
    let part = part_path_for(name.as_str());
    match check_size(ep.enclosure_size, tolerance, bytes) {
        Ok(_) => (
            AttemptState::AwaitRenamed { name: name.clone(), bytes, sha256 },
            AttemptAction::Rename { part, name },
        ),
        Err(error) => (AttemptState::AwaitDeleted { error }, AttemptAction::DeletePart { part }),
    }
}

/// The next action of an attempt to download an episode, and where the attempt stands then.
/// `tolerance` is how far the size of the file may be from the one that the feed announced.
pub fn attempt_step(
    ep: &Episode,
    tolerance: u64,
    state: AttemptState,
    event: AttemptEvent,
) -> (res: (AttemptState, AttemptAction))
    requires
        state is AwaitTaken && event == (AttemptEvent::Looked { taken: true }) ==> ep.id.has_short(),
        state matches AttemptState::AwaitBody { before, .. } ==> (event
            matches AttemptEvent::Received { result: Ok(got) } ==> before + got.0 <= u64::MAX && (
        ep.enclosure_size matches Some(n) ==> n + tolerance <= u64::MAX)),
    ensures
        is_attempt_step(*ep, tolerance, state, event, res.0, res.1),
        (state, event) matches (
            AttemptState::AwaitBody { before, .. },
            AttemptEvent::Received { result: Ok(got) },
        ) ==> (ep.enclosure_size matches Some(n) ==> n > 0 ==> {
            &&& n - tolerance <= before + got.0 <= n + tolerance ==> res.1 is Rename
            &&& before + got.0 < n - tolerance || n + tolerance < before + got.0 ==> res.1
                is DeletePart && (res.0 matches AttemptState::AwaitDeleted { error } && error == (
            DownloadError::SizeMismatch { expected: n, actual: (before + got.0) as u64 }))
        }),
{
    match (state, event) {
        (AttemptState::Start, AttemptEvent::Begin) => (
            AttemptState::AwaitTaken,
            AttemptAction::LookFor { name: file_name(ep, false) },
        ),
        (AttemptState::AwaitTaken, AttemptEvent::Looked { taken }) => {
            let name = file_name(ep, taken);
            let part = part_path_for(name.as_str());
            (AttemptState::AwaitPart { name }, AttemptAction::MeasurePart { part })
        },
        (AttemptState::AwaitPart { name }, AttemptEvent::Measured { size }) => match size {
            Ok(existing) => {
                if existing > 0 {
                    (AttemptState::AwaitRanges { name, existing }, AttemptAction::AskRanges)
                } else {
                    request(name, 0)
                }
            },
            Err(m) => (
                AttemptState::Finished,
                AttemptAction::Fail { error: DownloadError::Io(m) },
            ),
        },
        (AttemptState::AwaitRanges { name, existing }, AttemptEvent::RangesKnown { accept }) =>
        match accept {
            Ok(accept) => request(name, resume_offset(existing, &accept)),
            Err(m) => (
                AttemptState::Finished,
                AttemptAction::Fail { error: DownloadError::Network(m) },
            ),
        },
        (AttemptState::AwaitResponse { name, resume_from }, AttemptEvent::Responded { status }) =>
        match status {
            Ok(status) => answer(name, resume_from, status),
            Err(m) => (
                AttemptState::Finished,
                AttemptAction::Fail { error: DownloadError::Network(m) },
            ),
        },
        (AttemptState::AwaitOpened { name, before }, AttemptEvent::Opened { result }) => match result {
            Ok(_) => (AttemptState::AwaitBody { name, before }, AttemptAction::Receive),
            Err(m) => (
                AttemptState::Finished,
                AttemptAction::Fail { error: DownloadError::Io(m) },
            ),
        },
        (AttemptState::AwaitBody { name, before }, AttemptEvent::Received { result }) => match result {
            Ok((received, sha256)) => check(ep, tolerance, name, before + received, sha256),
            Err(error) => (AttemptState::Finished, AttemptAction::Fail { error }),
        },
        (AttemptState::AwaitDeleted { error }, AttemptEvent::Deleted) => (
            AttemptState::Finished,
            AttemptAction::Fail { error },
        ),
        (AttemptState::AwaitRenamed { name, bytes, sha256 }, AttemptEvent::Renamed { result }) =>
        match result {
            Ok(_) => (AttemptState::Finished, AttemptAction::Succeed { name, bytes, sha256 }),
            Err(m) => (
                AttemptState::Finished,
                AttemptAction::Fail { error: DownloadError::Io(m) },
            ),
        },
        _ => (AttemptState::Finished, AttemptAction::Stop),
    }
}

/// A step of an attempt.
pub struct AttemptStep {
    pub event: AttemptEvent,
    pub next: AttemptState,
    pub action: AttemptAction,
}

/// Where an attempt stands before step `i`.
pub open spec fn attempt_before(steps: Seq<AttemptStep>, i: int) -> AttemptState {
    if i <= 0 {
        AttemptState::Start
    } else {
        steps[i - 1].next
    }
}

/// Whether step `i` of an attempt is one that can be taken.
pub open spec fn can_attempt(
    ep: Episode,
    tolerance: u64,
    steps: Seq<AttemptStep>,
    i: int,
) -> bool {
    is_attempt_step(
        ep,
        tolerance,
        attempt_before(steps, i),
        steps[i].event,
        steps[i].next,
        steps[i].action,
    )
}

/// Whether steps are a possible course of an attempt to download an episode.
pub open spec fn is_attempt(ep: Episode, tolerance: u64, steps: Seq<AttemptStep>) -> bool {
    forall|i: int| 0 <= i < steps.len() ==> #[trigger] can_attempt(ep, tolerance, steps, i)
}

/// The bytes of the file after the body was received in step `i`.
pub open spec fn bytes_after(steps: Seq<AttemptStep>, i: int) -> Option<int> {
    match (attempt_before(steps, i), steps[i].event) {
        (
            AttemptState::AwaitBody { before, .. },
            AttemptEvent::Received { result: Ok(got) },
        ) => Some(before + got.0),
        _ => None,
    }
}

/// A file gets its name only after its body was received and its size accepted.
pub proof fn law_renamed_only_after_size_accepted(
    ep: Episode,
    tolerance: u64,
    steps: Seq<AttemptStep>,
    i: int,
)
    requires
        is_attempt(ep, tolerance, steps),
        0 <= i < steps.len(),
        steps[i].action is Rename,
    ensures
        bytes_after(steps, i) matches Some(bytes) && size_fits(
            ep.enclosure_size,
            tolerance,
            bytes as u64,
        ),
{
    assert(can_attempt(ep, tolerance, steps, i));
}

/// A download succeeds only right after the file got its name, with the size that was accepted
/// and the digest of what was received.
pub proof fn law_success_only_after_rename(
    ep: Episode,
    tolerance: u64,
    steps: Seq<AttemptStep>,
    i: int,
)
    requires
        is_attempt(ep, tolerance, steps),
        0 <= i < steps.len(),
        steps[i].action is Succeed,
    ensures
        1 <= i,
        steps[i - 1].action is Rename,
        steps[i - 1].action->Rename_name@ == steps[i].action->Succeed_name@,
        bytes_after(steps, i - 1) matches Some(bytes) && steps[i].action->Succeed_bytes
            == bytes as u64,
        steps[i - 1].event matches AttemptEvent::Received { result: Ok(got) }
            && steps[i].action->Succeed_sha256 == got.1,
{
    assert(can_attempt(ep, tolerance, steps, i));
    if i > 0 {
        assert(can_attempt(ep, tolerance, steps, i - 1));
    }
}

/// Nothing more is done in an attempt that has finished.
pub proof fn law_finished_attempt_stops(
    ep: Episode,
    tolerance: u64,
    steps: Seq<AttemptStep>,
    i: int,
    j: int,
)
    requires
        is_attempt(ep, tolerance, steps),
        0 <= i < j < steps.len(),
        steps[i].next is Finished,
    ensures
        steps[j].next is Finished,
        steps[j].action is Stop,
    decreases j - i,
{
    assert(can_attempt(ep, tolerance, steps, j));
    if i + 1 < j {
        law_finished_attempt_stops(ep, tolerance, steps, i, j - 1);
    }
}

/// A file whose size is refused is deleted: the attempt fails, and nothing is renamed in it.
pub proof fn law_refused_size_is_deleted(
    ep: Episode,
    tolerance: u64,
    steps: Seq<AttemptStep>,
    i: int,
    j: int,
)
    requires
        is_attempt(ep, tolerance, steps),
        0 <= i < j < steps.len(),
        bytes_after(steps, i) matches Some(bytes) && !size_fits(
            ep.enclosure_size,
            tolerance,
            bytes as u64,
        ),
    ensures
        steps[i].action is DeletePart,
        steps[j].next is Finished,
        steps[j].action is Stop || (j == i + 1 && steps[j].action
            == (AttemptAction::Fail { error: steps[i].next->error })),
        steps[i].next->error == (DownloadError::SizeMismatch {
            expected: ep.enclosure_size->0,
            actual: bytes_after(steps, i)->0 as u64,
        }),
{
    assert(can_attempt(ep, tolerance, steps, i));
    assert(can_attempt(ep, tolerance, steps, i + 1));
    if i + 1 < j {
        law_finished_attempt_stops(ep, tolerance, steps, i + 1, j);
    }
}

// ---- Bandwidth -----------------------------------------------------------------------------------

/// How many milliseconds to wait after `bytes` bytes came in `elapsed` milliseconds, so that
/// no more than `cap` bytes come per second; none where there is no cap.
pub fn pause_millis(bytes: u64, elapsed: u64, cap: u64) -> (res: u128)
    ensures
        cap == 0 ==> res == 0,
        cap > 0 ==> bytes * 1000 <= cap * (elapsed + res),
        cap > 0 && res > 0 ==> bytes * 1000 > cap * (elapsed + res - 1),
{
    if cap == 0 {
        return 0;
    }
    let due: u128 = bytes as u128 * 1000;
    let whole: u128 = due / cap as u128;
    let rest: u128 = due % cap as u128;
    let needed: u128 = if rest == 0 {
        whole
    } else {
        whole + 1
    };
    proof {
        let c: int = cap as int;
        assert(due == c * whole + rest) by {
            vstd::arithmetic::div_mod::lemma_fundamental_div_mod(due as int, c);
        }
        assert(c * (whole + 1) == c * whole + c) by (nonlinear_arith);
        assert(c * (whole - 1) == c * whole - c) by (nonlinear_arith);
        if needed <= elapsed {
            assert(c * needed <= c * elapsed) by (nonlinear_arith)
                requires
                    needed <= elapsed,
                    c > 0,
            ;
        }
    }
    if needed <= elapsed as u128 {
        0
    } else {
        needed - elapsed as u128
    }
}

/// A file of a known size is accepted exactly where it differs from the announced size by at
/// most the tolerance, in either direction: whatever is further off is deleted, and the attempt
/// fails with both sizes. Where the announced size is unknown or zero, every file is accepted.
pub proof fn law_size_off_by_more_than_tolerance_is_refused(
    ep: Episode,
    tolerance: u64,
    state: AttemptState,
    event: AttemptEvent,
    next: AttemptState,
    action: AttemptAction,
)
    requires
        is_attempt_step(ep, tolerance, state, event, next, action),
        state is AwaitBody,
        event matches AttemptEvent::Received { result: Ok(got) } && state->AwaitBody_before + got.0
            <= u64::MAX,
    ensures
        ({
            let bytes = state->AwaitBody_before + event->Received_result->Ok_0.0;
            match ep.enclosure_size {
                Some(n) => if n > 0 && (n - bytes > tolerance || bytes - n > tolerance) {
                    &&& next == (AttemptState::AwaitDeleted {
                        error: DownloadError::SizeMismatch { expected: n, actual: bytes as u64 },
                    })
                    &&& action is DeletePart
                } else {
                    action is Rename && next is AwaitRenamed
                },
                None => action is Rename && next is AwaitRenamed,
            }
        }),
        action matches AttemptAction::Rename { part, name } ==> name@
            == state->AwaitBody_name@ && part@ == state->AwaitBody_name@ + ".part"@,
        action matches AttemptAction::DeletePart { part } ==> part@ == state->AwaitBody_name@
            + ".part"@,
        next matches AttemptState::AwaitRenamed { name, bytes, sha256 } ==> name@
            == state->AwaitBody_name@ && bytes == state->AwaitBody_before
            + event->Received_result->Ok_0.0 && sha256 == event->Received_result->Ok_0.1,
{
}

/// Where a download goes on: behind the bytes that are there exactly where the server said that
/// it serves ranges, and from the start otherwise. Only a request that goes on asks for a range,
/// which begins with the byte behind those that are there.
pub proof fn law_where_a_download_goes_on(
    ep: Episode,
    tolerance: u64,
    name: String,
    existing: u64,
    accept: Option<String>,
    next: AttemptState,
    action: AttemptAction,
)
    requires
        is_attempt_step(
            ep,
            tolerance,
            AttemptState::AwaitRanges { name, existing },
            AttemptEvent::RangesKnown { accept: Ok(accept) },
            next,
            action,
        ),
    ensures
        next is AwaitResponse,
        next->AwaitResponse_name@ == name@,
        action is Request,
        existing > 0 && (accept matches Some(a) && a@ != "none"@) ==> {
            &&& next->resume_from == existing
            &&& action->range matches Some(r) && r@ == "bytes="@ + text::decimal(existing as nat)
                + "-"@
        },
        existing == 0 || accept is None || accept->0@ == "none"@ ==> next->resume_from == 0
            && action->range is None,
{
}

/// A file of which nothing is there is asked for at once and in full; otherwise the server is
/// first asked whether it serves ranges.
pub proof fn law_new_file_is_asked_for_in_full(
    ep: Episode,
    tolerance: u64,
    name: String,
    existing: u64,
    next: AttemptState,
    action: AttemptAction,
)
    requires
        is_attempt_step(
            ep,
            tolerance,
            AttemptState::AwaitPart { name },
            AttemptEvent::Measured { size: Ok(existing) },
            next,
            action,
        ),
    ensures
        existing == 0 ==> (next matches AttemptState::AwaitResponse { name: n, resume_from } && n@
            == name@ && resume_from == 0) && (action matches AttemptAction::Request { range }
            && range is None),
        existing > 0 ==> next == (AttemptState::AwaitRanges { name, existing })
            && action is AskRanges,
{
}

/// What is done with the body of an answer: outside 200 to 299 it is refused with its status.
/// The body that answers a request for the rest is written behind what is there, unless the
/// status is 200, which says that the whole file comes: then it starts anew. The body that
/// answers a request for the whole file goes to a new file.
pub proof fn law_what_is_done_with_a_body(
    ep: Episode,
    tolerance: u64,
    name: String,
    resume_from: u64,
    status: HttpStatus,
    next: AttemptState,
    action: AttemptAction,
)
    requires
        is_attempt_step(
            ep,
            tolerance,
            AttemptState::AwaitResponse { name, resume_from },
            AttemptEvent::Responded { status: Ok(status) },
            next,
            action,
        ),
    ensures
        status.number() < 200 || status.number() > 299 ==> next is Finished && action == (
        AttemptAction::Fail { error: DownloadError::Http(status) }),
        200 <= status.number() <= 299 ==> {
            &&& next is AwaitOpened
            &&& next->AwaitOpened_name@ == name@
            &&& resume_from == 0 ==> next->AwaitOpened_before == 0 && (
            action matches AttemptAction::Create { part } && part@ == name@ + ".part"@)
            &&& resume_from > 0 && status.number() == 200 ==> next->AwaitOpened_before == 0 && (
            action matches AttemptAction::Restart { part } && part@ == name@ + ".part"@)
            &&& resume_from > 0 && status.number() != 200 ==> next->AwaitOpened_before
                == resume_from && (action matches AttemptAction::Append { part } && part@ == name@
                + ".part"@)
        },
{
}

/// Whatever goes wrong in an attempt ends it with the error that came, and nothing that went
/// wrong is passed over.
pub proof fn law_errors_end_an_attempt(
    ep: Episode,
    tolerance: u64,
    state: AttemptState,
    event: AttemptEvent,
    next: AttemptState,
    action: AttemptAction,
    m: String,
    e: DownloadError,
)
    requires
        is_attempt_step(ep, tolerance, state, event, next, action),
    ensures
        state is AwaitPart && event == (AttemptEvent::Measured { size: Err(m) }) ==> next is Finished
            && action == (AttemptAction::Fail { error: DownloadError::Io(m) }),
        state is AwaitRanges && event == (AttemptEvent::RangesKnown { accept: Err(m) })
            ==> next is Finished && action == (AttemptAction::Fail {
            error: DownloadError::Network(m),
        }),
        state is AwaitResponse && event == (AttemptEvent::Responded { status: Err(m) })
            ==> next is Finished && action == (AttemptAction::Fail {
            error: DownloadError::Network(m),
        }),
        state is AwaitOpened && event == (AttemptEvent::Opened { result: Err(m) }) ==> next is Finished
            && action == (AttemptAction::Fail { error: DownloadError::Io(m) }),
        state is AwaitBody && event == (AttemptEvent::Received { result: Err(e) }) ==> next is Finished
            && action == (AttemptAction::Fail { error: e }),
        state is AwaitRenamed && event == (AttemptEvent::Renamed { result: Err(m) })
            ==> next is Finished && action == (AttemptAction::Fail { error: DownloadError::Io(m) }),
        (state matches AttemptState::AwaitDeleted { error } && event is Deleted) ==> next is Finished
            && action == (AttemptAction::Fail { error: state->error }),
        (state matches AttemptState::AwaitRenamed { name, bytes, sha256 } && event == (
        AttemptEvent::Renamed { result: Ok(()) })) ==> next is Finished && action == (
        AttemptAction::Succeed {
            name: state->AwaitRenamed_name,
            bytes: state->bytes,
            sha256: state->AwaitRenamed_sha256,
        }),
        (state matches AttemptState::AwaitOpened { name, before } && event == (
        AttemptEvent::Opened { result: Ok(()) })) ==> action is Receive && next == (
        AttemptState::AwaitBody {
            name: state->AwaitOpened_name,
            before: state->AwaitOpened_before,
        }),
{
}

/// The pause after the first attempt is the base, and each further attempt doubles it; the
/// variation takes away or adds a quarter at most.
pub proof fn law_pause_doubles_with_each_attempt(base: Duration, attempt: u8)
    requires
        1 <= attempt < 64,
        base.millis() <= u64::MAX,
    ensures
        backoff_millis(base, 1) == base.millis(),
        backoff_millis(base, 0) == base.millis(),
        backoff_millis(base, (attempt + 1) as u8) == 2 * backoff_millis(base, attempt),
        backoff_jitter(base, attempt) <= 2 * (backoff_millis(base, attempt) / 4),
{
    lemma2_to64();
    lemma_pow2_unfold(attempt as nat);
    let b = base.millis() % 0x1_0000_0000_0000_0000nat;
    assert(b == base.millis());
    assert(b * 1 == b);
    let p = pow2((attempt - 1) as nat);
    assert(b * (2 * p) == 2 * (b * p)) by (nonlinear_arith);
    let range = backoff_millis(base, attempt) / 4;
    let seed = (attempt * 6364136223846793005) as nat % 0x1_0000_0000_0000_0000nat;
    vstd::arithmetic::div_mod::lemma_mod_bound(seed as int, (range * 2 + 1) as int);
}

/// An attempt that fails is tried again exactly while fewer attempts were made than are
/// allowed, under the next number and with what failed; after the last one the episode is
/// quarantined with the error of that attempt.
pub proof fn law_what_follows_a_failed_attempt(
    config: DownloaderConfig,
    attempt: u8,
    e: DownloadError,
    step: DownloadStep,
)
    requires
        is_step_after_failure(config, attempt, e, step),
    ensures
        attempt < config.max_retries ==> {
            &&& step is Retry
            &&& step->next == attempt + 1
            &&& step->failed matches EpisodeState::Failed { last_error, attempts } && last_error@
                == download_error_text(e) && attempts == attempt
            &&& 4 * step->delay.millis() >= 3 * backoff_millis(config.backoff_base, attempt)
            &&& 4 * step->delay.millis() <= 5 * backoff_millis(config.backoff_base, attempt)
        },
        attempt >= config.max_retries ==> {
            &&& step is GiveUp
            &&& step->error == e
            &&& step->quarantined matches Some(EpisodeState::Quarantined { reason, last_error })
                && reason@ == reason_text(e) && last_error@ == download_error_text(e)
        },
{
    let range = backoff_millis(config.backoff_base, attempt) / 4;
    let seed = (attempt * 6364136223846793005) as nat % 0x1_0000_0000_0000_0000nat;
    vstd::arithmetic::div_mod::lemma_mod_bound(seed as int, (range * 2 + 1) as int);
}

/// The name of the cause tells the kinds of errors apart, and a file that is not there from
/// other answers of the server.
pub proof fn law_names_of_causes(e: DownloadError)
    ensures
        e is Timeout ==> reason_text(e) == "timeout"@,
        e matches DownloadError::Http(s) ==> (s.number() == 404 ==> reason_text(e) == "http_404"@)
            && (s.number() != 404 ==> reason_text(e) == "http"@),
        e is Io ==> reason_text(e) == "io"@,
        e is SizeMismatch ==> reason_text(e) == "size_mismatch"@,
        e is ChecksumMismatch ==> reason_text(e) == "checksum_mismatch"@,
        e is Network ==> reason_text(e) == "network"@,
{
}

/// The message of an error holds what the error knows.
pub proof fn law_messages_hold_the_cause(m: String, s: HttpStatus, d: Duration, n: u64, k: u64)
    ensures
        download_error_text(DownloadError::Network(m)) == "network error: "@ + m@,
        download_error_text(DownloadError::Io(m)) == "I/O error: "@ + m@,
        download_error_text(DownloadError::Http(s)) == "HTTP "@ + http::status_text(s.number()),
        download_error_text(DownloadError::SizeMismatch { expected: n, actual: k })
            == "size mismatch: expected ~"@ + text::decimal(n as nat) + " bytes, got "@
            + text::decimal(k as nat),
        download_error_text(DownloadError::ChecksumMismatch) == "checksum mismatch"@,
        download_error_text(DownloadError::Timeout(d)) == "download timed out after "@
            + time::debug_duration(d.whole_secs(), d.subsec()),
{
}

/// The two names that an episode's file can have differ only by a dash and the short form of
/// the episode's identifier, which stand between the title and the extension where another file
/// has the plain name.
pub proof fn law_taken_name_gets_the_identifier(ep: Episode)
    ensures
        exists|stem: Seq<char>, ext: Seq<char>|
            #![trigger stem + "."@ + ext]
            file_name_text(ep, false) == stem + "."@ + ext && file_name_text(ep, true) == stem
                + "-"@ + ids::short_text(ep.id@) + "."@ + ext && ext == filename::audio_ext(
                text::opt_text(ep.enclosure_mime),
                ep.enclosure_url@,
            ) && stem == filename::sanitized(text::lowercase(ep.title@)),
{
    let stem = filename::sanitized(text::lowercase(ep.title@));
    let ext = filename::audio_ext(text::opt_text(ep.enclosure_mime), ep.enclosure_url@);
    assert(file_name_text(ep, false) == stem + "."@ + ext);
}

/// The name under which a file is looked for at the start is the plain one, and the file that
/// is then worked on has the longer name exactly where the plain one was taken.
pub proof fn law_name_of_the_file_worked_on(
    ep: Episode,
    tolerance: u64,
    taken: bool,
    next: AttemptState,
    action: AttemptAction,
)
    ensures
        is_attempt_step(
            ep,
            tolerance,
            AttemptState::Start,
            AttemptEvent::Begin,
            next,
            action,
        ) ==> next is AwaitTaken && (action matches AttemptAction::LookFor { name } && name@
            == file_name_text(ep, false)),
        is_attempt_step(
            ep,
            tolerance,
            AttemptState::AwaitTaken,
            AttemptEvent::Looked { taken },
            next,
            action,
        ) ==> (next matches AttemptState::AwaitPart { name } && name@ == file_name_text(ep, taken))
            && (action matches AttemptAction::MeasurePart { part } && part@ == file_name_text(
            ep,
            taken,
        ) + ".part"@),
{
}

/// What a pause is varied by depends on the number of the attempt alone, spread over twice a
/// quarter of the pause; after more than 64 attempts the pause is as long as can be, and a pause
/// can be told where it fits in 64 bits with a quarter more.
pub proof fn law_how_a_pause_is_varied(base: Duration, attempt: u8, m: nat)
    requires
        m == backoff_millis(base, attempt),
    ensures
        backoff_jitter(base, attempt) == (attempt as nat * 6364136223846793005
            % 18446744073709551616) % (2 * (m / 4) + 1),
        backoff_fits(base, attempt) <==> m + m / 4 <= 18446744073709551615,
        attempt > 64 ==> m == (base.millis() % 18446744073709551616) * 18446744073709551615,
{
}

/// The message of a download for which no attempt is allowed says what to set.
pub proof fn law_message_without_attempts()
    ensures
        no_attempts_text()
            == "no attempts made.\nTry setting config:\n[downloader]\nmax_retries ≥ 1"@,
{
}

} // verus!
