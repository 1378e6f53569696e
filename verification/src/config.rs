//! The configuration, its defaults and its validation.
use crate::downloader;
use crate::episode::Action;
use crate::paths::FilePath;
use crate::rules::config;
use crate::rules::config::{DynamicRuleConfig, FeedConfig, RuleConfig};
use crate::server::config::ServerConfig;
use crate::text;
use crate::time::Duration;
use vstd::prelude::*;
use vstd::string::*;

verus! {

// ---- Defaults -------------------------------------------------------------------------

pub fn default_concurrent_downloads() -> (res: u32)
    ensures
        res == 2,
{
    2
}

/// Twenty minutes.
pub fn default_attempt_timeout() -> (res: Duration)
    ensures
        res.whole_secs() == 1200,
        res.subsec() == 0,
{
    Duration::from_secs(1200)
}

pub fn default_max_retries() -> (res: u8)
    ensures
        res == 3,
{
    3
}

/// Thirty seconds.
pub fn default_backoff_base() -> (res: Duration)
    ensures
        res.whole_secs() == 30,
        res.subsec() == 0,
{
    Duration::from_secs(30)
}

pub fn default_user_agent() -> (res: String)
    ensures
        res@ == "duralumin/0.2.0 (+https://github.com/Muu79/duralumin)"@,
{
    "duralumin/0.2.0 (+https://github.com/Muu79/duralumin)".to_string()
}

pub fn default_accept_invalid_certs() -> (res: bool)
    ensures
        !res,
{
    false
}

/// As many as come.
pub fn default_max_bytes_per_sec() -> (res: u64)
    ensures
        res == 0,
{
    0
}

pub fn default_log_level() -> (res: String)
    ensures
        res@ == "info"@,
{
    "info".to_string()
}

pub fn default_log_format() -> (res: String)
    ensures
        res@ == "pretty"@,
{
    "pretty".to_string()
}

pub fn default_action_on_no_match() -> (res: Action)
    ensures
        res == Action::Skip,
{
    Action::Skip
}

// ---- Types ----------------------------------------------------------------------------------

/// The configuration.
#[derive(Debug)]
pub struct Config {
    pub storage: StorageConfig,
    pub downloader: DownloaderConfig,
    pub defaults: DefaultsConfig,
    pub logging: LoggingConfig,
    pub feeds: Vec<FeedConfig>,
    pub global_rules: Vec<RuleConfig>,
    pub global_dynamics: Vec<DynamicRuleConfig>,
    pub server: Option<ServerConfig>,
}

/// Where things are stored.
#[derive(Debug)]
pub struct StorageConfig {
    /// The base directory.
    pub dir: String,
    /// The root of the downloaded files, where it is not below the base directory.
    pub library_path: Option<String>,
    /// The database, where it is not below the base directory.
    pub state_db: Option<String>,
}

impl StorageConfig {
    /// The root of the downloaded files: `podcasts` below the base directory where nothing
    /// else is said.
    pub fn library(&self) -> (res: FilePath)
        ensures
            res@ == match self.library_path {
                Some(p) => (p@, Seq::<Seq<char>>::empty()),
                None => (self.dir@, seq!["podcasts"@]),
            },
    {
        match &self.library_path {
            Some(p) => FilePath::of(p.as_str()),
            None => {
                let path = FilePath::of(self.dir.as_str()).join("podcasts");
                assert(path@.1 =~= seq!["podcasts"@]);
                path
            },
        }
    }

    /// The database: `db/duralumin.db` below the base directory where nothing else is said.
    pub fn db(&self) -> (res: FilePath)
        ensures
            res@ == match self.state_db {
                Some(p) => (p@, Seq::<Seq<char>>::empty()),
                None => (self.dir@, seq!["db"@, "duralumin.db"@]),
            },
    {
        match &self.state_db {
            Some(p) => FilePath::of(p.as_str()),
            None => {
                let path = FilePath::of(self.dir.as_str()).join("db").join("duralumin.db");
                assert(path@.1 =~= seq!["db"@, "duralumin.db"@]);
                path
            },
        }
    }
}

/// Settings of the downloader.
#[derive(Debug)]
pub struct DownloaderConfig {
    pub concurrent_downloads: u32,
    pub attempt_timeout: Duration,
    pub max_retries: u8,
    pub backoff_base: Duration,
    pub user_agent: String,
    pub accept_invalid_certs: bool,
    /// The most bytes per second for one download; `0` for as many as come.
    pub max_bytes_per_sec: u64,
}

impl Default for DownloaderConfig {
    fn default() -> (res: DownloaderConfig)
        ensures
            res.concurrent_downloads == 2,
            res.attempt_timeout.whole_secs() == 1200,
            res.attempt_timeout.subsec() == 0,
            res.max_retries == 3,
            res.backoff_base.whole_secs() == 30,
            res.backoff_base.subsec() == 0,
            res.user_agent@ == "duralumin/0.2.0 (+https://github.com/Muu79/duralumin)"@,
            !res.accept_invalid_certs,
            res.max_bytes_per_sec == 0,
    {
        DownloaderConfig {
            concurrent_downloads: default_concurrent_downloads(),
            attempt_timeout: default_attempt_timeout(),
            max_retries: default_max_retries(),
            backoff_base: default_backoff_base(),
            user_agent: default_user_agent(),
            accept_invalid_certs: default_accept_invalid_certs(),
            max_bytes_per_sec: default_max_bytes_per_sec(),
        }
    }
}

impl DownloaderConfig {
    /// The settings as the downloader takes them.
    pub fn for_downloader(&self) -> (res: downloader::DownloaderConfig)
        ensures
            res == (downloader::DownloaderConfig {
                concurrent_downloads: self.concurrent_downloads,
                attempt_timeout: self.attempt_timeout,
                max_retries: self.max_retries,
                backoff_base: self.backoff_base,
                user_agent: self.user_agent,
                accept_invalid_certs: self.accept_invalid_certs,
                max_bytes_per_sec: self.max_bytes_per_sec,
            }),
    {
        downloader::DownloaderConfig {
            concurrent_downloads: self.concurrent_downloads,
            attempt_timeout: self.attempt_timeout,
            max_retries: self.max_retries,
            backoff_base: self.backoff_base,
            user_agent: self.user_agent.clone(),
            accept_invalid_certs: self.accept_invalid_certs,
            max_bytes_per_sec: self.max_bytes_per_sec,
        }
    }
}

/// What happens where nothing else is said.
#[derive(Debug)]
pub struct DefaultsConfig {
    pub action_on_no_match: Action,
}

impl Default for DefaultsConfig {
    fn default() -> (res: DefaultsConfig)
        ensures
            res.action_on_no_match == Action::Skip,
    {
        DefaultsConfig { action_on_no_match: default_action_on_no_match() }
    }
}

/// Settings of the log.
#[derive(Debug)]
pub struct LoggingConfig {
    /// One of `error`, `warn`, `info`, `debug` and `trace`.
    pub level: String,
    /// `pretty` for people or `json` for one object per line.
    pub format: String,
}

impl Default for LoggingConfig {
    fn default() -> (res: LoggingConfig)
        ensures
            res.level@ == "info"@,
            res.format@ == "pretty"@,
    {
        LoggingConfig { level: default_log_level(), format: default_log_format() }
    }
}

// ---- Errors -------------------------------------------------------------------------------------

/// Why no configuration could be loaded. Errors of the disk and of the parser are held as
/// their messages.
#[derive(Debug)]
pub enum ConfigError {
    NotFound,
    Io(String, String),
    Toml(String),
    Validation(Vec<String>),
    /// A default configuration was just written to this path.
    Generated(String),
}

/// The message of an error.
pub open spec fn config_error_text(e: ConfigError) -> Seq<char> {
    match e {
        ConfigError::NotFound =>
        "config file not found — use --config <PATH> or set $DURALUMIN_CONFIG"@,
        ConfigError::Io(path, m) => "cannot read "@ + path@ + ": "@ + m@,
        ConfigError::Toml(m) => "TOML parse error: "@ + m@,
        ConfigError::Validation(errors) => "validation failed:\n  "@ + text::joined(
            errors@,
            "\n  "@,
        ),
        ConfigError::Generated(path) => "generated default config at "@ + path@,
    }
}

impl ConfigError {
    /// The message of the error.
    pub fn to_text(&self) -> (res: String)
        ensures
            res@ == config_error_text(*self),
    {
        match self {
            ConfigError::NotFound =>
            "config file not found — use --config <PATH> or set $DURALUMIN_CONFIG".to_string(),
            ConfigError::Io(path, m) => {
                let mut s = "cannot read ".to_string();
                s.append(path.as_str());
                s.append(": ");
                s.append(m.as_str());
                s
            },
            ConfigError::Toml(m) => {
                let mut s = "TOML parse error: ".to_string();
                s.append(m.as_str());
                s
            },
            ConfigError::Validation(errors) => {
                let mut s = "validation failed:\n  ".to_string();
                s.append(text::join_texts(errors, "\n  ").as_str());
                s
            },
            ConfigError::Generated(path) => {
                let mut s = "generated default config at ".to_string();
                s.append(path.as_str());
                s
            },
        }
    }
}

// ---- Names of feeds --------------------------------------------------------------------------------

/// A claim of a feed to a name, or a fault in one.
pub enum Claim {
    EmptySlug,
    EmptyAlias { slug: String },
    Slug { slug: String },
    Alias { slug: String, alias: String },
}

/// The name that is claimed.
pub open spec fn claimed_name(c: Claim) -> Option<Seq<char>> {
    match c {
        Claim::Slug { slug } => Some(slug@),
        Claim::Alias { alias, .. } => Some(alias@),
        _ => None,
    }
}

/// What a claim is called in a message about another one.
pub open spec fn claim_text(c: Claim) -> Seq<char> {
    match c {
        Claim::Slug { slug } => "slug of feed "@ + text::debug_text(slug@),
        Claim::Alias { slug, alias } => "alias "@ + text::debug_text(alias@) + " of feed "@
            + text::debug_text(slug@),
        _ => Seq::empty(),
    }
}

/// The claim that an alias of a feed makes.
pub open spec fn alias_claim(slug: String, alias: String) -> Claim {
    if alias@.len() == 0 {
        Claim::EmptyAlias { slug }
    } else {
        Claim::Alias { slug, alias }
    }
}

/// The claims of a feed: its slug, then its aliases. A feed without a slug makes none.
pub open spec fn claims_of_feed(feed: FeedConfig) -> Seq<Claim> {
    if feed.slug@.len() == 0 {
        seq![Claim::EmptySlug]
    } else {
        seq![Claim::Slug { slug: feed.slug }] + feed.aliases@.map_values(
            |a: String| alias_claim(feed.slug, a),
        )
    }
}

/// The claims of all feeds, in their order.
pub open spec fn claims_of(feeds: Seq<FeedConfig>) -> Seq<Claim>
    decreases feeds.len(),
{
    if feeds.len() == 0 {
        Seq::empty()
    } else {
        claims_of(feeds.drop_last()) + claims_of_feed(feeds.last())
    }
}

/// The last claim to a name.
pub open spec fn last_claim(claims: Seq<Claim>, name: Seq<char>) -> Option<Claim>
    decreases claims.len(),
{
    if claims.len() == 0 {
        None
    } else if claimed_name(claims.last()) == Some(name) {
        Some(claims.last())
    } else {
        last_claim(claims.drop_last(), name)
    }
}

/// What is wrong with a claim that comes after others.
pub open spec fn claim_error(earlier: Seq<Claim>, c: Claim) -> Option<Seq<char>> {
    match c {
        Claim::EmptySlug => Some("feed has an empty slug"@),
        Claim::EmptyAlias { slug } => Some("[feed "@ + slug@ + "] alias must not be empty"@),
        Claim::Slug { slug } => match last_claim(earlier, slug@) {
            Some(other) => Some(
                "feed slug "@ + text::debug_text(slug@) + " conflicts with "@ + claim_text(other),
            ),
            None => None,
        },
        Claim::Alias { slug, alias } => match last_claim(earlier, alias@) {
            Some(other) => Some(
                "[feed "@ + slug@ + "] alias "@ + text::debug_text(alias@) + " conflicts with "@
                    + claim_text(other),
            ),
            None => None,
        },
    }
}

/// What is wrong with some claims, in their order.
pub open spec fn claim_errors(claims: Seq<Claim>) -> Seq<Seq<char>>
    decreases claims.len(),
{
    if claims.len() == 0 {
        Seq::empty()
    } else {
        let earlier = claim_errors(claims.drop_last());
        match claim_error(claims.drop_last(), claims.last()) {
            Some(e) => earlier.push(e),
            None => earlier,
        }
    }
}

/// Messages with the name of their feed in front.
pub open spec fn feed_messages(slug: Seq<char>, messages: Seq<Seq<char>>) -> Seq<Seq<char>> {
    messages.map_values(|m: Seq<char>| "[feed "@ + slug + "] "@ + m)
}

/// What is wrong with the rules of feeds, in their order.
pub open spec fn feed_rule_errors(feeds: Seq<FeedConfig>) -> Seq<Seq<char>>
    decreases feeds.len(),
{
    if feeds.len() == 0 {
        Seq::empty()
    } else {
        feed_rule_errors(feeds.drop_last()) + feed_messages(
            feeds.last().slug@,
            config::rule_errors(feeds.last().rules@),
        )
    }
}

/// All that is wrong with a configuration: first with the names of feeds, then with their
/// rules, then with the global rules.
pub open spec fn all_errors(cfg: Config) -> Seq<Seq<char>> {
    claim_errors(claims_of(cfg.feeds@)) + feed_rule_errors(cfg.feeds@) + config::rule_errors(
        cfg.global_rules@,
    ).map_values(|m: Seq<char>| "[global] "@ + m)
}

fn make_claims(feeds: &Vec<FeedConfig>) -> (res: Vec<Claim>)
    ensures
        res@ == claims_of(feeds@),
{
    let mut claims: Vec<Claim> = Vec::new();
    for i in 0..feeds.len()
        invariant
            claims@ == claims_of(feeds@.take(i as int)),
    {
        let feed = &feeds[i];
        let ghost before = claims@;
        assert(feeds@.take(i + 1).drop_last() =~= feeds@.take(i as int));
        if feed.slug.as_str().is_empty() {
            claims.push(Claim::EmptySlug);
            assert(claims@ =~= before + claims_of_feed(*feed));
        } else {
            claims.push(Claim::Slug { slug: feed.slug.clone() });
            let ghost mapped = feed.aliases@.map_values(|a: String| alias_claim(feed.slug, a));
            for k in 0..feed.aliases.len()
                invariant
                    mapped == feed.aliases@.map_values(|a: String| alias_claim(feed.slug, a)),
                    claims@ == before + seq![Claim::Slug { slug: feed.slug }] + mapped.take(
                        k as int,
                    ),
            {
                let alias = &feed.aliases[k];
                if alias.as_str().is_empty() {
                    claims.push(Claim::EmptyAlias { slug: feed.slug.clone() });
                } else {
                    claims.push(Claim::Alias { slug: feed.slug.clone(), alias: alias.clone() });
                }
                assert(mapped.take(k + 1) =~= mapped.take(k as int).push(mapped[k as int]));
                assert(claims@ =~= before + seq![Claim::Slug { slug: feed.slug }] + mapped.take(
                    k + 1,
                ));
            }
            assert(mapped.take(mapped.len() as int) =~= mapped);
            assert(claims@ =~= before + claims_of_feed(*feed));
        }
    }
    assert(feeds@.take(feeds@.len() as int) =~= feeds@);
    claims
}

fn describe_claim(c: &Claim) -> (res: String)
    ensures
        res@ == claim_text(*c),
{
    match c {
        Claim::Slug { slug } => {
            let mut s = "slug of feed ".to_string();
            s.append(text::debug_quote(slug.as_str()).as_str());
            s
        },
        Claim::Alias { slug, alias } => {
            let mut s = "alias ".to_string();
            s.append(text::debug_quote(alias.as_str()).as_str());
            s.append(" of feed ");
            s.append(text::debug_quote(slug.as_str()).as_str());
            s
        },
        _ => String::new(),
    }
}

/// The index of the last of the first `n` claims to a name.
fn find_claim(claims: &Vec<Claim>, n: usize, name: &str) -> (res: Option<usize>)
    requires
        n <= claims@.len(),
    ensures
        match res {
            Some(i) => i < n && last_claim(claims@.take(n as int), name@) == Some(claims@[i as int]),
            None => last_claim(claims@.take(n as int), name@) is None,
        },
{
    let mut i: usize = n;
    while i > 0
        invariant
            i <= n <= claims@.len(),
            last_claim(claims@.take(n as int), name@) == last_claim(claims@.take(i as int), name@),
        decreases i,
    {
        assert(claims@.take(i as int).drop_last() =~= claims@.take(i - 1));
        let same = match &claims[i - 1] {
            Claim::Slug { slug } => text::same_text(slug.as_str(), name),
            Claim::Alias { alias, .. } => text::same_text(alias.as_str(), name),
            _ => false,
        };
        if same {
            return Some(i - 1);
        }
        i = i - 1;
    }
    None
}

fn check_claim(claims: &Vec<Claim>, i: usize) -> (res: Option<String>)
    requires
        i < claims@.len(),
    ensures
        text::opt_text(res) == claim_error(claims@.take(i as int), claims@[i as int]),
{
    match &claims[i] {
        Claim::EmptySlug => Some("feed has an empty slug".to_string()),
        Claim::EmptyAlias { slug } => {
            let mut s = "[feed ".to_string();
            s.append(slug.as_str());
            s.append("] alias must not be empty");
            Some(s)
        },
        Claim::Slug { slug } => match find_claim(claims, i, slug.as_str()) {
            Some(k) => {
                let mut s = "feed slug ".to_string();
                s.append(text::debug_quote(slug.as_str()).as_str());
                s.append(" conflicts with ");
                s.append(describe_claim(&claims[k]).as_str());
                Some(s)
            },
            None => None,
        },
        Claim::Alias { slug, alias } => match find_claim(claims, i, alias.as_str()) {
            Some(k) => {
                let mut s = "[feed ".to_string();
                s.append(slug.as_str());
                s.append("] alias ");
                s.append(text::debug_quote(alias.as_str()).as_str());
                s.append(" conflicts with ");
                s.append(describe_claim(&claims[k]).as_str());
                Some(s)
            },
            None => None,
        },
    }
}

fn check_claims(claims: &Vec<Claim>) -> (res: Vec<String>)
    ensures
        text::texts(res@) == claim_errors(claims@),
{
    let mut errors: Vec<String> = Vec::new();
    for i in 0..claims.len()
        invariant
            text::texts(errors@) == claim_errors(claims@.take(i as int)),
    {
        let ghost before = errors@;
        assert(claims@.take(i + 1).drop_last() =~= claims@.take(i as int));
        if let Some(e) = check_claim(claims, i) {
            errors.push(e);
            assert(text::texts(errors@) =~= text::texts(before).push(e@));
        }
    }
    assert(claims@.take(claims@.len() as int) =~= claims@);
    errors
}

/// Appends each of `messages` to `errors`, with `prefix` in front.
fn push_messages(errors: &mut Vec<String>, prefix: &str, messages: &Vec<String>)
    ensures
        text::texts(final(errors)@) == text::texts(old(errors)@) + text::texts(messages@).map_values(
            |m: Seq<char>| prefix@ + m,
        ),
{
    let ghost mapped = text::texts(messages@).map_values(|m: Seq<char>| prefix@ + m);
    for i in 0..messages.len()
        invariant
            mapped == text::texts(messages@).map_values(|m: Seq<char>| prefix@ + m),
            text::texts(errors@) == text::texts(old(errors)@) + mapped.take(i as int),
    {
        let ghost before = errors@;
        let mut s = prefix.to_string();
        s.append(messages[i].as_str());
        errors.push(s);
        proof {
            assert(text::texts(errors@) =~= text::texts(before).push(s@));
            assert(mapped[i as int] == s@);
            assert(mapped.take(i + 1) =~= mapped.take(i as int).push(mapped[i as int]));
            assert(text::texts(errors@) =~= text::texts(old(errors)@) + mapped.take(i + 1));
        }
    }
    assert(mapped.take(mapped.len() as int) =~= mapped);
}

/// Checks a configuration: slugs and aliases must be there and unique over all feeds, and
/// the patterns of all rules must compile. The error holds all that is wrong.
pub fn validate(cfg: &Config) -> (res: Result<(), ConfigError>)
    ensures
        res is Ok <==> all_errors(*cfg).len() == 0,
        res matches Err(e) ==> (e matches ConfigError::Validation(errors) && text::texts(errors@)
            == all_errors(*cfg)),
{
    let claims = make_claims(&cfg.feeds);
    let mut errors = check_claims(&claims);
    let ghost name_errors = text::texts(errors@);
    assert(name_errors + feed_rule_errors(cfg.feeds@.take(0)) =~= name_errors);
    for i in 0..cfg.feeds.len()
        invariant
            text::texts(errors@) == name_errors + feed_rule_errors(cfg.feeds@.take(i as int)),
    {
        let feed = &cfg.feeds[i];
        let messages = config::validate_rules(feed.rules.as_slice());
        let mut prefix = "[feed ".to_string();
        prefix.append(feed.slug.as_str());
        prefix.append("] ");
        push_messages(&mut errors, prefix.as_str(), &messages);
        proof {
            assert(cfg.feeds@.take(i + 1).drop_last() =~= cfg.feeds@.take(i as int));
            assert(text::texts(messages@).map_values(|m: Seq<char>| prefix@ + m) =~= feed_messages(
                feed.slug@,
                config::rule_errors(feed.rules@),
            ));
            assert(text::texts(errors@) =~= name_errors + feed_rule_errors(cfg.feeds@.take(i + 1)));
        }
    }
    assert(cfg.feeds@.take(cfg.feeds@.len() as int) =~= cfg.feeds@);
    let messages = config::validate_rules(cfg.global_rules.as_slice());
    push_messages(&mut errors, "[global] ", &messages);
    assert(text::texts(errors@) =~= all_errors(*cfg));
    assert(errors@.len() == text::texts(errors@).len());
    if errors.len() == 0 {
        Ok(())
    } else {
        Err(ConfigError::Validation(errors))
    }
}

// ---- Looking up names -----------------------------------------------------------------------------

/// Whether a feed is called by a name: its slug or one of its aliases.
pub open spec fn is_called(feed: FeedConfig, name: Seq<char>) -> bool {
    feed.slug@ == name || text::lists_text(feed.aliases@, name)
}

/// The slug of the first feed that is called by a name; the name itself where there is none.
pub open spec fn resolved(feeds: Seq<FeedConfig>, name: Seq<char>) -> Seq<char>
    decreases feeds.len(),
{
    if feeds.len() == 0 {
        name
    } else if is_called(feeds[0], name) {
        feeds[0].slug@
    } else {
        resolved(feeds.drop_first(), name)
    }
}

/// The slug of the feed that is called `input`; `input` itself where there is none.
pub fn resolve_slug(cfg: &Config, input: &str) -> (res: String)
    ensures
        res@ == resolved(cfg.feeds@, input@),
{
    let mut i: usize = 0;
    assert(cfg.feeds@.skip(0) =~= cfg.feeds@);
    while i < cfg.feeds.len()
        invariant
            i <= cfg.feeds@.len(),
            resolved(cfg.feeds@, input@) == resolved(cfg.feeds@.skip(i as int), input@),
        decreases cfg.feeds.len() - i,
    {
        let feed = &cfg.feeds[i];
        assert(cfg.feeds@.skip(i as int).drop_first() =~= cfg.feeds@.skip(i + 1));
        if text::same_text(feed.slug.as_str(), input) || text::list_contains(&feed.aliases, input) {
            return feed.slug.clone();
        }
        i = i + 1;
    }
    input.to_string()
}

/// Whether a name is claimed by one of some claims.
pub open spec fn is_claimed(claims: Seq<Claim>, name: Seq<char>) -> bool {
    exists|i: int| 0 <= i < claims.len() && claimed_name(#[trigger] claims[i]) == Some(name)
}

proof fn lemma_last_claim(claims: Seq<Claim>, name: Seq<char>)
    ensures
        last_claim(claims, name) is Some <==> is_claimed(claims, name),
    decreases claims.len(),
{
    if claims.len() > 0 {
        let rest = claims.drop_last();
        lemma_last_claim(rest, name);
        if is_claimed(rest, name) {
            let i = choose|i: int|
                0 <= i < rest.len() && claimed_name(#[trigger] rest[i]) == Some(name);
            assert(claims[i] == rest[i]);
        }
        if is_claimed(claims, name) && claimed_name(claims.last()) != Some(name) {
            let i = choose|i: int|
                0 <= i < claims.len() && claimed_name(#[trigger] claims[i]) == Some(name);
            assert(rest[i] == claims[i]);
        }
        if claimed_name(claims.last()) == Some(name) {
            assert(claimed_name(claims[claims.len() - 1]) == Some(name));
        }
    }
}

#[verifier::spinoff_prover]
#[verifier::rlimit(40)]
proof fn lemma_claim_errors_prefix(a: Seq<Claim>, b: Seq<Claim>)
    requires
        claim_errors(a + b).len() == 0,
    ensures
        claim_errors(a).len() == 0,
        forall|i: int|
            0 <= i < b.len() ==> claim_error(a + b.take(i), #[trigger] b[i]) is None,
    decreases b.len(),
{
    if b.len() == 0 {
        assert(a + b =~= a);
    } else {
        let all = a + b;
        assert(all.drop_last() =~= a + b.drop_last());
        assert(all.last() == b.last());
        lemma_claim_errors_prefix(a, b.drop_last());
        assert forall|i: int| 0 <= i < b.len() implies claim_error(
            a + b.take(i),
            #[trigger] b[i],
        ) is None by {
            if i < b.len() - 1 {
                assert(b.drop_last()[i] == b[i]);
                assert(b.drop_last().take(i) =~= b.take(i));
            } else {
                assert(b.take(i) =~= b.drop_last());
            }
        }
    }
}

proof fn lemma_called_is_claimed(feed: FeedConfig, name: Seq<char>)
    requires
        feed.slug@.len() > 0,
        name.len() > 0,
        is_called(feed, name),
    ensures
        is_claimed(claims_of_feed(feed), name),
{
    let claims = claims_of_feed(feed);
    if feed.slug@ == name {
        assert(claimed_name(claims[0]) == Some(name));
    } else {
        let k = choose|k: int| 0 <= k < feed.aliases@.len() && #[trigger] feed.aliases@[k]@ == name;
        assert(claims[k + 1] == alias_claim(feed.slug, feed.aliases@[k]));
        assert(claimed_name(claims[k + 1]) == Some(name));
    }
}

proof fn lemma_feed_claims(feeds: Seq<FeedConfig>, i: int, name: Seq<char>)
    requires
        0 <= i < feeds.len(),
        is_claimed(claims_of_feed(feeds[i]), name),
    ensures
        is_claimed(claims_of(feeds), name),
    decreases feeds.len(),
{
    let a = claims_of(feeds.drop_last());
    let b = claims_of_feed(feeds.last());
    if i == feeds.len() - 1 {
        let k = choose|k: int| 0 <= k < b.len() && claimed_name(#[trigger] b[k]) == Some(name);
        assert((a + b)[a.len() + k] == b[k]);
    } else {
        lemma_feed_claims(feeds.drop_last(), i, name);
        let k = choose|k: int| 0 <= k < a.len() && claimed_name(#[trigger] a[k]) == Some(name);
        assert((a + b)[k] == a[k]);
    }
}

#[verifier::spinoff_prover]
#[verifier::rlimit(40)]
proof fn lemma_names_are_distinct(feeds: Seq<FeedConfig>, i: int, j: int, name: Seq<char>)
    requires
        claim_errors(claims_of(feeds)).len() == 0,
        0 <= i < j < feeds.len(),
    ensures
        !(is_called(feeds[i], name) && is_called(feeds[j], name)),
    decreases feeds.len(),
{
    let rest = feeds.drop_last();
    let a = claims_of(rest);
    let b = claims_of_feed(feeds.last());
    lemma_claim_errors_prefix(a, b);
    if j < feeds.len() - 1 {
        lemma_names_are_distinct(rest, i, j, name);
    } else if is_called(feeds[i], name) && is_called(feeds[j], name) {
        lemma_no_empty_names(feeds, i);
        lemma_no_empty_names(feeds, j);
        assert(name.len() > 0) by {
            if feeds[i].slug@ != name {
                let k = choose|k: int|
                    0 <= k < feeds[i].aliases@.len() && #[trigger] feeds[i].aliases@[k]@ == name;
                assert(feeds[i].aliases@[k]@.len() > 0);
            }
        }
        assert(rest[i] == feeds[i]);
        lemma_called_is_claimed(feeds[i], name);
        lemma_feed_claims(rest, i, name);
        lemma_called_is_claimed(feeds[j], name);
        let k = choose|k: int| 0 <= k < b.len() && claimed_name(#[trigger] b[k]) == Some(name);
        let earlier = a + b.take(k);
        assert(claim_error(earlier, b[k]) is None);
        let m = choose|m: int| 0 <= m < a.len() && claimed_name(#[trigger] a[m]) == Some(name);
        assert(earlier[m] == a[m]);
        lemma_last_claim(earlier, name);
    }
}

#[verifier::spinoff_prover]
#[verifier::rlimit(40)]
proof fn lemma_no_empty_names(feeds: Seq<FeedConfig>, i: int)
    requires
        claim_errors(claims_of(feeds)).len() == 0,
        0 <= i < feeds.len(),
    ensures
        feeds[i].slug@.len() > 0,
        forall|k: int|
            0 <= k < feeds[i].aliases@.len() ==> (#[trigger] feeds[i].aliases@[k])@.len() > 0,
    decreases feeds.len(),
{
    let rest = feeds.drop_last();
    let a = claims_of(rest);
    let b = claims_of_feed(feeds.last());
    lemma_claim_errors_prefix(a, b);
    if i < feeds.len() - 1 {
        lemma_no_empty_names(rest, i);
    } else {
        let feed = feeds[i];
        if feed.slug@.len() == 0 {
            assert(claim_error(a + b.take(0), b[0]) is None);
        }
        assert forall|k: int| 0 <= k < feed.aliases@.len() implies (
        #[trigger] feed.aliases@[k])@.len() > 0 by {
            if feed.slug@.len() > 0 {
                assert(b[k + 1] == alias_claim(feed.slug, feed.aliases@[k]));
                assert(claim_error(a + b.take(k + 1), b[k + 1]) is None);
            }
        }
    }
}

/// In a valid configuration no two feeds are called by the same name, and none by an empty
/// one.
pub proof fn law_names_are_unique(cfg: Config)
    requires
        all_errors(cfg).len() == 0,
    ensures
        forall|i: int, j: int, name: Seq<char>|
            #![trigger is_called(cfg.feeds@[i], name), is_called(cfg.feeds@[j], name)]
            0 <= i < j < cfg.feeds@.len() ==> !(is_called(cfg.feeds@[i], name) && is_called(
                cfg.feeds@[j],
                name,
            )),
        forall|i: int| 0 <= i < cfg.feeds@.len() ==> (#[trigger] cfg.feeds@[i]).slug@.len() > 0,
{
    let feeds = cfg.feeds@;
    assert forall|i: int, j: int, name: Seq<char>|
        #![trigger is_called(feeds[i], name), is_called(feeds[j], name)]
        0 <= i < j < feeds.len() implies !(is_called(feeds[i], name) && is_called(
        feeds[j],
        name,
    )) by {
        lemma_names_are_distinct(feeds, i, j, name);
    }
    assert forall|i: int| 0 <= i < feeds.len() implies (#[trigger] feeds[i]).slug@.len() > 0 by {
        lemma_no_empty_names(feeds, i);
    }
}

proof fn lemma_resolved(feeds: Seq<FeedConfig>, i: int, name: Seq<char>)
    requires
        0 <= i < feeds.len(),
        is_called(feeds[i], name),
        forall|k: int| 0 <= k < i ==> !is_called(#[trigger] feeds[k], name),
    ensures
        resolved(feeds, name) == feeds[i].slug@,
    decreases feeds.len(),
{
    if i > 0 {
        assert(!is_called(feeds[0], name));
        let rest = feeds.drop_first();
        assert forall|k: int| 0 <= k < i - 1 implies !is_called(#[trigger] rest[k], name) by {
            assert(rest[k] == feeds[k + 1]);
        }
        lemma_resolved(rest, i - 1, name);
    }
}

/// In a valid configuration every alias stands for its feed as its slug does, and a slug
/// stands for itself.
pub proof fn law_aliases_stand_for_their_feed(cfg: Config, i: int, name: Seq<char>)
    requires
        all_errors(cfg).len() == 0,
        0 <= i < cfg.feeds@.len(),
        is_called(cfg.feeds@[i], name),
    ensures
        resolved(cfg.feeds@, name) == cfg.feeds@[i].slug@,
        resolved(cfg.feeds@, cfg.feeds@[i].slug@) == cfg.feeds@[i].slug@,
{
    law_names_are_unique(cfg);
    let feeds = cfg.feeds@;
    assert forall|k: int| 0 <= k < i implies !is_called(#[trigger] feeds[k], name) by {
        assert(is_called(feeds[i], name));
    }
    lemma_resolved(feeds, i, name);
    assert forall|k: int| 0 <= k < i implies !is_called(#[trigger] feeds[k], feeds[i].slug@) by {
        assert(is_called(feeds[i], feeds[i].slug@));
    }
    lemma_resolved(feeds, i, feeds[i].slug@);
}

// ---- Where the configuration is --------------------------------------------------------------------

/// What the environment says of directories.
pub struct Directories {
    pub windows: bool,
    pub appdata: Option<String>,
    pub xdg_config_home: Option<String>,
    pub home: Option<String>,
}

/// The directory of configurations, by what the environment says.
pub open spec fn config_home_of(dirs: Directories) -> (Seq<char>, Seq<Seq<char>>) {
    match dirs.xdg_config_home {
        Some(x) => (x@, Seq::empty()),
        None => if dirs.windows && dirs.appdata is Some {
            (dirs.appdata->0@, Seq::empty())
        } else if !dirs.windows && dirs.home is Some {
            (dirs.home->0@, seq![".config"@])
        } else {
            (".config"@, Seq::empty())
        },
    }
}

/// The directory of configurations: `$XDG_CONFIG_HOME`, else `%APPDATA%` on Windows and
/// `$HOME/.config` elsewhere, else `.config`.
pub fn config_home(dirs: &Directories) -> (res: FilePath)
    ensures
        res@ == config_home_of(*dirs),
{
    if let Some(x) = &dirs.xdg_config_home {
        return FilePath::of(x.as_str());
    }
    if dirs.windows {
        if let Some(a) = &dirs.appdata {
            return FilePath::of(a.as_str());
        }
    } else {
        if let Some(h) = &dirs.home {
            let path = FilePath::of(h.as_str()).join(".config");
            assert(path@.1 =~= seq![".config"@]);
            return path;
        }
    }
    FilePath::of(".config")
}

/// Where a default configuration is written: below the user's directory of configurations,
/// or in the working directory where there is none.
pub fn bootstrap_path(dirs: &Directories) -> (res: FilePath)
    ensures
        res@ == if dirs.windows {
            match dirs.appdata {
                Some(a) => (a@, seq!["duralumin"@, "config.toml"@]),
                None => ("duralumin.toml"@, Seq::<Seq<char>>::empty()),
            }
        } else {
            match dirs.xdg_config_home {
                Some(x) => (x@, seq!["duralumin"@, "config.toml"@]),
                None => match dirs.home {
                    Some(h) => (h@, seq![".config"@, "duralumin"@, "config.toml"@]),
                    None => ("duralumin.toml"@, Seq::empty()),
                },
            }
        },
{
    let base = if dirs.windows {
        match &dirs.appdata {
            Some(a) => Some(FilePath::of(a.as_str())),
            None => None,
        }
    } else {
        match &dirs.xdg_config_home {
            Some(x) => Some(FilePath::of(x.as_str())),
            None => match &dirs.home {
                Some(h) => Some(FilePath::of(h.as_str()).join(".config")),
                None => None,
            },
        }
    };
    match base {
        Some(dir) => {
            let path = dir.join("duralumin").join("config.toml");
            proof {
                let e = Seq::<Seq<char>>::empty();
                assert(e.push("duralumin"@).push("config.toml"@) =~= seq![
                    "duralumin"@,
                    "config.toml"@,
                ]);
                assert(e.push(".config"@).push("duralumin"@).push("config.toml"@) =~= seq![
                    ".config"@,
                    "duralumin"@,
                    "config.toml"@,
                ]);
            }
            path
        },
        None => FilePath::of("duralumin.toml"),
    }
}

/// Which of the usual configuration files there are.
pub struct Candidates {
    /// `duralumin/config.toml` below the directory of configurations.
    pub in_home: bool,
    /// The system-wide file; looked for on Linux only.
    pub in_etc: bool,
    /// `duralumin.toml` in the working directory.
    pub local: bool,
}

/// The configuration file: the one that is asked for, else the one in the environment, else
/// the first of the usual ones that is there.
pub fn resolve_path(
    override_path: &Option<String>,
    env_path: &Option<String>,
    dirs: &Directories,
    linux: bool,
    there: &Candidates,
) -> (res: Result<FilePath, ConfigError>)
    ensures
        match res {
            Ok(path) => if override_path is Some {
                path@ == (override_path->0@, Seq::<Seq<char>>::empty())
            } else if env_path is Some {
                path@ == (env_path->0@, Seq::<Seq<char>>::empty())
            } else if there.in_home {
                path@ == (
                    config_home_of(*dirs).0,
                    config_home_of(*dirs).1.push("duralumin/config.toml"@),
                )
            } else if linux && there.in_etc {
                path@ == ("/etc/duralumin/config.toml"@, Seq::<Seq<char>>::empty())
            } else {
                there.local && path@ == ("duralumin.toml"@, Seq::<Seq<char>>::empty())
            },
            Err(e) => e is NotFound && override_path is None && env_path is None && !there.in_home
                && !(linux && there.in_etc) && !there.local,
        },
{
    if let Some(p) = override_path {
        return Ok(FilePath::of(p.as_str()));
    }
    if let Some(p) = env_path {
        return Ok(FilePath::of(p.as_str()));
    }
    if there.in_home {
        return Ok(config_home(dirs).join("duralumin/config.toml"));
    }
    if linux && there.in_etc {
        return Ok(FilePath::of("/etc/duralumin/config.toml"));
    }
    if there.local {
        return Ok(FilePath::of("duralumin.toml"));
    }
    Err(ConfigError::NotFound)
}

// ---- The log ------------------------------------------------------------------------------

/// The level of the log: the one that is asked for, else for the daemon the configured one,
/// else `warn`.
pub fn log_level(asked: &Option<String>, is_daemon: bool, logging: &LoggingConfig) -> (res: String)
    ensures
        res@ == match asked {
            Some(l) => l@,
            None => if is_daemon {
                logging.level@
            } else {
                "warn"@
            },
        },
{
    match asked {
        Some(l) => l.clone(),
        None => if is_daemon {
            logging.level.clone()
        } else {
            "warn".to_string()
        },
    }
}

/// The form of the log.
#[derive(Clone, Copy, Debug, PartialEq, Eq, Structural)]
pub enum LogFormat {
    Pretty,
    Json,
}

/// The form of the log: the one that is asked for, else the configured one.
pub fn log_format(asked: Option<LogFormat>, logging: &LoggingConfig) -> (res: LogFormat)
    ensures
        res == match asked {
            Some(f) => f,
            None => if logging.format@ == "json"@ {
                LogFormat::Json
            } else {
                LogFormat::Pretty
            },
        },
{
    match asked {
        Some(f) => f,
        None => if text::same_text(logging.format.as_str(), "json") {
            LogFormat::Json
        } else {
            LogFormat::Pretty
        },
    }
}

// ---- Laws ------------------------------------------------------------------------------------

proof fn lemma_claim_errors_none(a: Seq<Claim>, b: Seq<Claim>)
    requires
        claim_errors(a).len() == 0,
        forall|i: int| 0 <= i < b.len() ==> claim_error(a + b.take(i), #[trigger] b[i]) is None,
    ensures
        claim_errors(a + b).len() == 0,
    decreases b.len(),
{
    if b.len() == 0 {
        assert(a + b =~= a);
    } else {
        let all = a + b;
        let c = b.drop_last();
        assert(all.drop_last() =~= a + c);
        assert(all.last() == b[b.len() - 1]);
        assert(b.take(b.len() - 1) =~= c);
        assert forall|i: int| 0 <= i < c.len() implies claim_error(a + c.take(i), #[trigger] c[i]) is None by {
            assert(c[i] == b[i]);
            assert(c.take(i) =~= b.take(i));
        }
        lemma_claim_errors_none(a, c);
    }
}

proof fn lemma_claimed_is_called(feeds: Seq<FeedConfig>, name: Seq<char>)
    requires
        is_claimed(claims_of(feeds), name),
    ensures
        exists|i: int| 0 <= i < feeds.len() && is_called(#[trigger] feeds[i], name),
    decreases feeds.len(),
{
    if feeds.len() > 0 {
        let rest = feeds.drop_last();
        let a = claims_of(rest);
        let b = claims_of_feed(feeds.last());
        let k = choose|k: int|
            0 <= k < (a + b).len() && claimed_name(#[trigger] (a + b)[k]) == Some(name);
        if k < a.len() {
            assert(claimed_name(a[k]) == Some(name));
            lemma_claimed_is_called(rest, name);
            let i = choose|i: int| 0 <= i < rest.len() && is_called(#[trigger] rest[i], name);
            assert(is_called(feeds[i], name));
        } else {
            let feed = feeds.last();
            let m = k - a.len();
            assert(claimed_name(b[m]) == Some(name));
            if m > 0 {
                assert(b[m] == alias_claim(feed.slug, feed.aliases@[m - 1]));
            }
            assert(is_called(feeds[feeds.len() - 1], name));
        }
    }
}

#[verifier::spinoff_prover]
#[verifier::rlimit(40)]
proof fn lemma_faultless_names(feeds: Seq<FeedConfig>)
    requires
        forall|i: int| 0 <= i < feeds.len() ==> (#[trigger] feeds[i]).slug@.len() > 0,
        forall|i: int, k: int|
            0 <= i < feeds.len() && 0 <= k < feeds[i].aliases@.len() ==> (
            #[trigger] feeds[i].aliases@[k])@.len() > 0,
        forall|i: int, j: int|
            0 <= i < j < feeds.len() ==> (#[trigger] feeds[i]).slug@ != (#[trigger] feeds[j]).slug@,
        forall|i: int, j: int, k: int|
            0 <= i < feeds.len() && 0 <= j < feeds.len() && 0 <= k < feeds[j].aliases@.len() ==> (
            #[trigger] feeds[i]).slug@ != (#[trigger] feeds[j].aliases@[k])@,
        forall|i: int, j: int, k: int, m: int|
            0 <= i < feeds.len() && 0 <= j < feeds.len() && 0 <= k < feeds[i].aliases@.len() && 0
                <= m < feeds[j].aliases@.len() && (i != j || k != m) ==> (
            #[trigger] feeds[i].aliases@[k])@ != (#[trigger] feeds[j].aliases@[m])@,
    ensures
        claim_errors(claims_of(feeds)).len() == 0,
    decreases feeds.len(),
{
    if feeds.len() > 0 {
        let rest = feeds.drop_last();
        let n = feeds.len() - 1;
        assert forall|i: int| 0 <= i < rest.len() implies #[trigger] rest[i] == feeds[i] by {}
        lemma_faultless_names(rest);
        let a = claims_of(rest);
        let feed = feeds[n];
        let b = claims_of_feed(feed);
        assert forall|i: int| 0 <= i < b.len() implies claim_error(a + b.take(i), #[trigger] b[i]) is None by {
            let earlier = a + b.take(i);
            let name = if i == 0 {
                feed.slug@
            } else {
                feed.aliases@[i - 1]@
            };
            if i > 0 {
                assert(b[i] == alias_claim(feed.slug, feed.aliases@[i - 1]));
                assert(feeds[n].aliases@[i - 1]@.len() > 0);
            }
            assert(claimed_name(b[i]) == Some(name));
            lemma_last_claim(earlier, name);
            if is_claimed(earlier, name) {
                let k = choose|k: int|
                    0 <= k < earlier.len() && claimed_name(#[trigger] earlier[k]) == Some(name);
                if k < a.len() {
                    assert(claimed_name(a[k]) == Some(name));
                    lemma_claimed_is_called(rest, name);
                    let j = choose|j: int|
                        0 <= j < rest.len() && is_called(#[trigger] rest[j], name);
                    assert(rest[j] == feeds[j]);
                    if feeds[j].slug@ != name {
                        let m = choose|m: int|
                            0 <= m < feeds[j].aliases@.len() && #[trigger] feeds[j].aliases@[m]@
                                == name;
                        assert(feeds[j].aliases@[m]@ == name);
                        if i == 0 {
                            assert(feeds[n].slug@ != feeds[j].aliases@[m]@);
                        } else {
                            assert(feeds[j].aliases@[m]@ != feeds[n].aliases@[i - 1]@);
                        }
                    } else if i > 0 {
                        assert(feeds[j].slug@ != feeds[n].aliases@[i - 1]@);
                    }
                } else {
                    let m = k - a.len();
                    assert(earlier[k] == b[m]);
                    if m > 0 {
                        assert(b[m] == alias_claim(feed.slug, feed.aliases@[m - 1]));
                        assert(feeds[n].aliases@[m - 1]@ != feeds[n].aliases@[i - 1]@);
                    } else {
                        assert(feeds[n].slug@ != feeds[n].aliases@[i - 1]@);
                    }
                }
            }
        }
        lemma_claim_errors_none(a, b);
    }
}

proof fn lemma_no_earlier_claim(earlier: Seq<Claim>, slug: String, alias: String, i: int)
    requires
        claim_error(earlier, Claim::Alias { slug, alias }) is None,
        0 <= i < earlier.len(),
    ensures
        claimed_name(earlier[i]) != Some(alias@),
{
    lemma_last_claim(earlier, alias@);
}

#[verifier::spinoff_prover]
#[verifier::rlimit(40)]
proof fn lemma_names_of_one_feed(a: Seq<Claim>, feed: FeedConfig, k: int, m: int)
    requires
        forall|i: int|
            0 <= i < claims_of_feed(feed).len() ==> claim_error(
                a + claims_of_feed(feed).take(i),
                #[trigger] claims_of_feed(feed)[i],
            ) is None,
        feed.slug@.len() > 0,
        0 <= k < feed.aliases@.len(),
        feed.aliases@[k]@.len() > 0,
        0 <= m < k ==> feed.aliases@[m]@.len() > 0,
    ensures
        feed.slug@ != feed.aliases@[k]@,
        0 <= m < k ==> feed.aliases@[m]@ != feed.aliases@[k]@,
{
    let b = claims_of_feed(feed);
    let n = a.len() as int;
    let earlier = a + b.take(k + 1);
    assert(b[k + 1] == alias_claim(feed.slug, feed.aliases@[k]));
    assert(b[k + 1] == (Claim::Alias { slug: feed.slug, alias: feed.aliases@[k] }));
    assert(claim_error(earlier, b[k + 1]) is None);
    assert(earlier[n] == b[0]);
    assert(b[0] == (Claim::Slug { slug: feed.slug }));
    lemma_no_earlier_claim(earlier, feed.slug, feed.aliases@[k], n);
    if 0 <= m < k {
        assert(b[m + 1] == alias_claim(feed.slug, feed.aliases@[m]));
        assert(earlier[n + m + 1] == b[m + 1]);
        lemma_no_earlier_claim(earlier, feed.slug, feed.aliases@[k], n + m + 1);
    }
}

#[verifier::spinoff_prover]
#[verifier::rlimit(40)]
proof fn lemma_own_names_are_distinct(feeds: Seq<FeedConfig>, j: int, k: int, m: int)
    requires
        claim_errors(claims_of(feeds)).len() == 0,
        0 <= j < feeds.len(),
        0 <= k < feeds[j].aliases@.len(),
    ensures
        feeds[j].slug@ != feeds[j].aliases@[k]@,
        0 <= m < k ==> feeds[j].aliases@[m]@ != feeds[j].aliases@[k]@,
    decreases feeds.len(),
{
    let rest = feeds.drop_last();
    let a = claims_of(rest);
    let b = claims_of_feed(feeds.last());
    lemma_claim_errors_prefix(a, b);
    if j < feeds.len() - 1 {
        assert(rest[j] == feeds[j]);
        lemma_own_names_are_distinct(rest, j, k, m);
    } else {
        lemma_no_empty_names(feeds, j);
        assert(feeds[j].aliases@[k]@.len() > 0);
        if 0 <= m < k {
            assert(feeds[j].aliases@[m]@.len() > 0);
        }
        lemma_names_of_one_feed(a, feeds[j], k, m);
    }
}

/// The names of feeds are in order exactly where no slug and no alias is empty and no two of
/// all slugs and aliases are the same, be it in one feed or in two.
pub proof fn law_names_in_order(feeds: Seq<FeedConfig>)
    ensures
        claim_errors(claims_of(feeds)).len() == 0 <==> {
            &&& forall|i: int| 0 <= i < feeds.len() ==> (#[trigger] feeds[i]).slug@.len() > 0
            &&& forall|i: int, k: int|
                0 <= i < feeds.len() && 0 <= k < feeds[i].aliases@.len() ==> (
                #[trigger] feeds[i].aliases@[k])@.len() > 0
            &&& forall|i: int, j: int|
                0 <= i < j < feeds.len() ==> (#[trigger] feeds[i]).slug@ != (
                #[trigger] feeds[j]).slug@
            &&& forall|i: int, j: int, k: int|
                0 <= i < feeds.len() && 0 <= j < feeds.len() && 0 <= k < feeds[j].aliases@.len()
                    ==> (#[trigger] feeds[i]).slug@ != (#[trigger] feeds[j].aliases@[k])@
            &&& forall|i: int, j: int, k: int, m: int|
                0 <= i < feeds.len() && 0 <= j < feeds.len() && 0 <= k < feeds[i].aliases@.len()
                    && 0 <= m < feeds[j].aliases@.len() && (i != j || k != m) ==> (
                #[trigger] feeds[i].aliases@[k])@ != (#[trigger] feeds[j].aliases@[m])@
        },
{
    if claim_errors(claims_of(feeds)).len() == 0 {
        assert forall|i: int| 0 <= i < feeds.len() implies (#[trigger] feeds[i]).slug@.len() > 0 by {
            lemma_no_empty_names(feeds, i);
        }
        assert forall|i: int, k: int|
            0 <= i < feeds.len() && 0 <= k < feeds[i].aliases@.len() implies (
        #[trigger] feeds[i].aliases@[k])@.len() > 0 by {
            lemma_no_empty_names(feeds, i);
        }
        assert forall|i: int, j: int| 0 <= i < j < feeds.len() implies (#[trigger] feeds[i]).slug@
            != (#[trigger] feeds[j]).slug@ by {
            lemma_names_are_distinct(feeds, i, j, feeds[i].slug@);
        }
        assert forall|i: int, j: int, k: int|
            0 <= i < feeds.len() && 0 <= j < feeds.len() && 0 <= k < feeds[j].aliases@.len() implies (
        #[trigger] feeds[i]).slug@ != (#[trigger] feeds[j].aliases@[k])@ by {
            if i == j {
                lemma_own_names_are_distinct(feeds, j, k, 0);
            } else if i < j {
                lemma_names_are_distinct(feeds, i, j, feeds[i].slug@);
            } else {
                lemma_names_are_distinct(feeds, j, i, feeds[i].slug@);
            }
        }
        assert forall|i: int, j: int, k: int, m: int|
            0 <= i < feeds.len() && 0 <= j < feeds.len() && 0 <= k < feeds[i].aliases@.len() && 0
                <= m < feeds[j].aliases@.len() && (i != j || k != m) implies (
        #[trigger] feeds[i].aliases@[k])@ != (#[trigger] feeds[j].aliases@[m])@ by {
            if i == j {
                if k < m {
                    lemma_own_names_are_distinct(feeds, j, m, k);
                } else {
                    lemma_own_names_are_distinct(feeds, j, k, m);
                }
            } else if i < j {
                lemma_names_are_distinct(feeds, i, j, feeds[i].aliases@[k]@);
            } else {
                lemma_names_are_distinct(feeds, j, i, feeds[i].aliases@[k]@);
            }
        }
    } else if {
        &&& forall|i: int| 0 <= i < feeds.len() ==> (#[trigger] feeds[i]).slug@.len() > 0
        &&& forall|i: int, k: int|
            0 <= i < feeds.len() && 0 <= k < feeds[i].aliases@.len() ==> (
            #[trigger] feeds[i].aliases@[k])@.len() > 0
        &&& forall|i: int, j: int|
            0 <= i < j < feeds.len() ==> (#[trigger] feeds[i]).slug@ != (#[trigger] feeds[j]).slug@
        &&& forall|i: int, j: int, k: int|
            0 <= i < feeds.len() && 0 <= j < feeds.len() && 0 <= k < feeds[j].aliases@.len() ==> (
            #[trigger] feeds[i]).slug@ != (#[trigger] feeds[j].aliases@[k])@
        &&& forall|i: int, j: int, k: int, m: int|
            0 <= i < feeds.len() && 0 <= j < feeds.len() && 0 <= k < feeds[i].aliases@.len() && 0
                <= m < feeds[j].aliases@.len() && (i != j || k != m) ==> (
            #[trigger] feeds[i].aliases@[k])@ != (#[trigger] feeds[j].aliases@[m])@
    } {
        lemma_faultless_names(feeds);
    }
}

proof fn lemma_feed_rule_errors(feeds: Seq<FeedConfig>)
    ensures
        feed_rule_errors(feeds).len() == 0 <==> forall|i: int|
            0 <= i < feeds.len() ==> config::rule_errors((#[trigger] feeds[i]).rules@).len() == 0,
    decreases feeds.len(),
{
    if feeds.len() > 0 {
        let rest = feeds.drop_last();
        lemma_feed_rule_errors(rest);
        assert(feeds.last() == feeds[feeds.len() - 1]);
        if feed_rule_errors(feeds).len() == 0 {
            assert forall|i: int| 0 <= i < feeds.len() implies config::rule_errors(
                (#[trigger] feeds[i]).rules@,
            ).len() == 0 by {
                if i < rest.len() {
                    assert(rest[i] == feeds[i]);
                }
            }
        } else if feed_rule_errors(rest).len() > 0 {
            let i = choose|i: int|
                0 <= i < rest.len() && config::rule_errors((#[trigger] rest[i]).rules@).len() != 0;
            assert(feeds[i] == rest[i]);
        }
    }
}

/// A configuration is accepted exactly where the names of its feeds are in order and the
/// patterns of all rules, those of the feeds and the global ones, compile.
pub proof fn law_when_a_configuration_is_accepted(cfg: Config)
    ensures
        all_errors(cfg).len() == 0 <==> {
            &&& claim_errors(claims_of(cfg.feeds@)).len() == 0
            &&& forall|i: int|
                0 <= i < cfg.feeds@.len() ==> config::rule_errors(
                    (#[trigger] cfg.feeds@[i]).rules@,
                ).len() == 0
            &&& config::rule_errors(cfg.global_rules@).len() == 0
        },
        all_errors(cfg).len() == claim_errors(claims_of(cfg.feeds@)).len() + feed_rule_errors(
            cfg.feeds@,
        ).len() + config::rule_errors(cfg.global_rules@).len(),
{
    lemma_feed_rule_errors(cfg.feeds@);
}

/// A name stands for the first feed that has it as its slug or among its aliases, and for
/// itself where no feed has it.
pub proof fn law_what_a_name_stands_for(feeds: Seq<FeedConfig>, name: Seq<char>, i: int)
    ensures
        0 <= i < feeds.len() && (feeds[i].slug@ == name || exists|k: int|
            0 <= k < feeds[i].aliases@.len() && (#[trigger] feeds[i].aliases@[k])@ == name) && (
        forall|j: int|
            0 <= j < i ==> (#[trigger] feeds[j]).slug@ != name && forall|k: int|
                0 <= k < feeds[j].aliases@.len() ==> (#[trigger] feeds[j].aliases@[k])@ != name)
            ==> resolved(feeds, name) == feeds[i].slug@,
        (forall|j: int|
            0 <= j < feeds.len() ==> (#[trigger] feeds[j]).slug@ != name && forall|k: int|
                0 <= k < feeds[j].aliases@.len() ==> (#[trigger] feeds[j].aliases@[k])@ != name)
            ==> resolved(feeds, name) == name,
    decreases feeds.len(),
{
    if feeds.len() > 0 {
        let rest = feeds.drop_first();
        law_what_a_name_stands_for(rest, name, i - 1);
        assert forall|j: int| 0 <= j < rest.len() implies #[trigger] rest[j] == feeds[j + 1] by {}
        assert(feeds[0] == feeds[0]);
        if i > 0 && i < feeds.len() {
            assert(rest[i - 1] == feeds[i]);
        }
    }
}

/// The directory of configurations: what the environment names comes first on every system,
/// then the usual place of the system, then one in the working directory.
pub proof fn law_directory_of_configurations(dirs: Directories)
    ensures
        dirs.xdg_config_home matches Some(x) ==> config_home_of(dirs).0 == x@ && config_home_of(
            dirs,
        ).1.len() == 0,
        (dirs.xdg_config_home is None && dirs.windows && dirs.appdata is Some) ==> config_home_of(
            dirs,
        ).0 == dirs.appdata->0@ && config_home_of(dirs).1.len() == 0,
        (dirs.xdg_config_home is None && !dirs.windows && dirs.home is Some) ==> config_home_of(
            dirs,
        ).0 == dirs.home->0@ && config_home_of(dirs).1.len() == 1 && config_home_of(dirs).1[0]
            == ".config"@,
        (dirs.xdg_config_home is None && (if dirs.windows {
            dirs.appdata is None
        } else {
            dirs.home is None
        })) ==> config_home_of(dirs).0 == ".config"@ && config_home_of(dirs).1.len() == 0,
{
}

/// The faults of names as they are told: each names the feed, and a clash also the claim that
/// came before.
pub proof fn law_how_faults_of_names_are_told(earlier: Seq<Claim>, slug: String, alias: String)
    ensures
        claim_error(earlier, Claim::EmptySlug) == Some("feed has an empty slug"@),
        claim_error(earlier, Claim::EmptyAlias { slug }) == Some(
            "[feed "@ + slug@ + "] alias must not be empty"@,
        ),
        claim_error(earlier.push(Claim::Slug { slug: alias }), Claim::Slug { slug: alias }) == Some(
            "feed slug "@ + text::debug_text(alias@) + " conflicts with "@ + ("slug of feed "@
                + text::debug_text(alias@)),
        ),
        claim_error(earlier.push(Claim::Slug { slug: alias }), Claim::Alias { slug, alias }) == Some(
            "[feed "@ + slug@ + "] alias "@ + text::debug_text(alias@) + " conflicts with "@ + (
            "slug of feed "@ + text::debug_text(alias@)),
        ),
        claim_error(earlier.push(Claim::Alias { slug, alias }), Claim::Slug { slug: alias }) == Some(
            "feed slug "@ + text::debug_text(alias@) + " conflicts with "@ + ("alias "@
                + text::debug_text(alias@) + " of feed "@ + text::debug_text(slug@)),
        ),
{
}

/// A fault of a rule is told with the name of its feed in front, one of a global rule with a word
/// for that; the faults of names come first, then those of the feeds' rules, then the global ones.
pub proof fn law_how_faults_of_rules_are_told(cfg: Config, feeds: Seq<FeedConfig>, feed: FeedConfig)
    ensures
        feed_rule_errors(Seq::empty()).len() == 0,
        feed_rule_errors(feeds.push(feed)) == feed_rule_errors(feeds) + config::rule_errors(
            feed.rules@,
        ).map_values(|m: Seq<char>| "[feed "@ + feed.slug@ + "] "@ + m),
        all_errors(cfg) == claim_errors(claims_of(cfg.feeds@)) + feed_rule_errors(cfg.feeds@)
            + config::rule_errors(cfg.global_rules@).map_values(
            |m: Seq<char>| "[global] "@ + m,
        ),
{
    assert(feeds.push(feed).drop_last() =~= feeds);
    assert(feed_messages(feed.slug@, config::rule_errors(feed.rules@)) =~= config::rule_errors(
        feed.rules@,
    ).map_values(|m: Seq<char>| "[feed "@ + feed.slug@ + "] "@ + m));
}

/// The messages of the errors of a configuration.
pub proof fn law_messages_of_configurations(path: String, m: String, errors: Vec<String>)
    ensures
        config_error_text(ConfigError::NotFound)
            == "config file not found — use --config <PATH> or set $DURALUMIN_CONFIG"@,
        config_error_text(ConfigError::Io(path, m)) == "cannot read "@ + path@ + ": "@ + m@,
        config_error_text(ConfigError::Toml(m)) == "TOML parse error: "@ + m@,
        config_error_text(ConfigError::Validation(errors)) == "validation failed:\n  "@
            + text::joined(errors@, "\n  "@),
        config_error_text(ConfigError::Generated(path)) == "generated default config at "@ + path@,
{
}

} // verus!
