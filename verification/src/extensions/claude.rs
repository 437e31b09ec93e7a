//! How much of a subscription to the assistant is used: where it keeps its
//! credentials, and what its usage service answers.

use crate::json::{json_text, parse_json, Json, JsonNumber};
use crate::path::{join_path, join_path_seq};
use crate::text::{
    concat, concat3, decimal, decimal_reads_back, hex_seq, hex_string, hex_tells_bytes_apart,
    parse_unsigned, parse_unsigned_seq, same, strip_prefix, strip_prefix_seq, trim, trim_seq,
};
use vstd::prelude::*;
use vstd::string::StrSliceExecFns;

verus! {

broadcast use vstd::string::group_string_axioms;

// ---------------------------------------------------------------------------
// The config directory
// ---------------------------------------------------------------------------

/// `path` with a leading `~` as the home directory, where that is known.
pub open spec fn expanded(path: Seq<char>, home: Option<Seq<char>>) -> Seq<char> {
    match home {
        Some(dir) => match strip_prefix_seq(path, "~/"@) {
            Some(rest) => join_path_seq(dir, rest),
            None => if path == "~"@ {
                dir
            } else {
                path
            },
        },
        None => path,
    }
}

/// Puts the home directory in the place of a leading `~`.
pub fn expand_tilde(path: &str, home: Option<&str>) -> (r: String)
    ensures
        r@ == expanded(path@, home.deep_view()),
{
    if let Some(dir) = home {
        if let Some(rest) = strip_prefix(path, "~/") {
            return join_path(dir, rest.as_str());
        }
        if same(path, "~") {
            return dir.to_owned();
        }
    }
    path.to_owned()
}

/// A configured directory: the text that was configured, and whether there is
/// such a directory.
#[derive(Clone, Debug, PartialEq, Eq)]
pub struct ConfiguredDir {
    pub path: String,
    pub exists: bool,
}

/// The directory that was configured, where it names one that exists.
pub open spec fn usable(dir: Option<ConfiguredDir>, home: Option<Seq<char>>) -> Option<Seq<char>> {
    match dir {
        Some(d) => if d.path@.len() > 0 && d.exists {
            Some(expanded(d.path@, home))
        } else {
            None
        },
        None => None,
    }
}

fn existing_path(dir: &Option<ConfiguredDir>, home: Option<&str>) -> (r: Option<String>)
    ensures
        r.deep_view() == usable(*dir, home.deep_view()),
{
    match dir {
        Some(d) => if !d.path.as_str().is_empty() && d.exists {
            Some(expand_tilde(d.path.as_str(), home))
        } else {
            None
        },
        None => None,
    }
}

/// The names that the assistant goes by.
#[derive(Clone, Debug, PartialEq, Eq)]
pub struct AssistantNames {
    /// Its directory below the home directory, with a leading dot.
    pub dir_name: String,
    /// The keychain service that it keeps its credentials under.
    pub service: String,
    /// The extension that shows its usage.
    pub extension: String,
    /// The label of the requests for its usage.
    pub label: String,
    /// Its name in headings.
    pub heading: String,
    /// The host of its web site.
    pub site: String,
}

/// The config directory: the one in the settings, else the one in the
/// environment, else the assistant's own below the home directory.
pub fn resolve_claude_dir(
    settings: &Option<ConfiguredDir>,
    environment: &Option<ConfiguredDir>,
    home: Option<&str>,
    names: &AssistantNames,
) -> (r: String)
    ensures
        r@ == (match usable(*settings, home.deep_view()) {
            Some(dir) => dir,
            None => match usable(*environment, home.deep_view()) {
                Some(dir) => dir,
                None => join_path_seq(
                    match home.deep_view() {
                        Some(dir) => dir,
                        None => "."@,
                    },
                    names.dir_name@,
                ),
            },
        }),
{
    if let Some(dir) = existing_path(settings, home) {
        return dir;
    }
    if let Some(dir) = existing_path(environment, home) {
        return dir;
    }
    join_path(
        match home {
            Some(dir) => dir,
            None => ".",
        },
        names.dir_name.as_str(),
    )
}

// ---------------------------------------------------------------------------
// The keychain
// ---------------------------------------------------------------------------

/// The SHA-256 digest of bytes.
pub uninterp spec fn sha256(bytes: Seq<u8>) -> Seq<u8>;

/// `sha2::Sha256::digest`: the SHA-256 digest, which is 32 bytes long.
#[verifier::external_body]
fn sha256_digest(bytes: &Vec<u8>) -> (r: Vec<u8>)
    ensures
        r@ == sha256(bytes@),
        r@.len() == 32,
{
    <sha2::Sha256 as sha2::Digest>::digest(bytes).to_vec()
}

/// The service that the credentials of another directory than the default one are
/// kept under: with the first eight digits of the digest of its path.
pub open spec fn suffixed_service(dir: Seq<char>, base: Seq<char>) -> Seq<char> {
    base + "-"@ + hex_seq(sha256(vstd::utf8::encode_utf8(dir)), 4)
}

/// The service of a directory by its digest.
pub fn suffixed_keychain_service_name(dir: &str, names: &AssistantNames) -> (r: String)
    ensures
        r@ == suffixed_service(dir@, names.service@),
{
    let digest: Vec<u8> = sha256_digest(&dir.as_bytes_vec());
    concat3(names.service.as_str(), "-", hex_string(&digest, 4).as_str())
}

/// The service of a directory.
pub open spec fn service_model(
    dir: Seq<char>,
    default_dir: Option<Seq<char>>,
    base: Seq<char>,
) -> Seq<char> {
    if default_dir == Some(dir) {
        base
    } else {
        suffixed_service(dir, base)
    }
}

/// The service that the credentials of a directory are kept under. Both
/// directories are given in canonical form.
pub fn keychain_service_name(dir: &str, default_dir: Option<&str>, names: &AssistantNames) -> (r:
    String)
    ensures
        r@ == service_model(dir@, default_dir.deep_view(), names.service@),
{
    match default_dir {
        Some(default) if same(default, dir) => names.service.clone(),
        _ => suffixed_keychain_service_name(dir, names),
    }
}

/// The services to look under, the likelier first: that of the directory, and
/// where this is the default one also the one by its digest.
pub fn keychain_service_names(dir: &str, default_dir: Option<&str>, names: &AssistantNames) -> (r:
    Vec<String>)
    ensures
        ({
            let primary = service_model(dir@, default_dir.deep_view(), names.service@);
            let suffixed = suffixed_service(dir@, names.service@);
            r.deep_view() == (if primary == suffixed {
                seq![primary]
            } else {
                seq![primary, suffixed]
            })
        }),
{
    let primary: String = keychain_service_name(dir, default_dir, names);
    let suffixed: String = suffixed_keychain_service_name(dir, names);
    let mut r: Vec<String> = Vec::new();
    let ghost first = primary@;
    let ghost second = suffixed@;
    if same(primary.as_str(), suffixed.as_str()) {
        r.push(primary);
        assert(r.deep_view() == seq![first]);
    } else {
        r.push(primary);
        r.push(suffixed);
        assert(r.deep_view() == seq![first, second]);
    }
    r
}

// ---------------------------------------------------------------------------
// The access token
// ---------------------------------------------------------------------------

/// The value under a key, or `null`.
pub open spec fn field_or_null(document: Json, key: Seq<char>) -> Json {
    match document.field(key) {
        Some(value) => value,
        None => Json::Null,
    }
}

/// The token in a credentials document: trimmed, not empty, and not expired.
pub open spec fn access_token(document: Json, now_ms: u64) -> Option<Seq<char>> {
    let oauth = field_or_null(document, "claudeAiOauth"@);
    match oauth.field_text("accessToken"@) {
        Some(text) => {
            let token = trim_seq(text);
            let expired = match field_or_null(oauth, "expiresAt"@).unsigned() {
                Some(at) => at <= now_ms,
                None => false,
            };
            if token.len() == 0 || expired {
                None
            } else {
                Some(token)
            }
        },
        None => None,
    }
}

/// Reads the token out of a credentials document.
pub fn token_of(document: &Json, now_ms: u64) -> (r: Option<String>)
    ensures
        r.deep_view() == access_token(*document, now_ms),
{
    let null: Json = Json::Null;
    let oauth: &Json = match document.get("claudeAiOauth") {
        Some(oauth) => oauth,
        None => &null,
    };
    let token: String = match oauth.get_str("accessToken") {
        Some(text) => trim(text),
        None => return None,
    };
    if token.as_str().is_empty() {
        return None;
    }
    let expires_at: Option<u64> = match oauth.get("expiresAt") {
        Some(value) => value.as_u64(),
        None => None,
    };
    if let Some(at) = expires_at {
        if at <= now_ms {
            return None;
        }
    }
    Some(token)
}

/// Reads the token out of a credentials file.
pub fn extract_access_token(json: &str, now_ms: u64) -> (r: Option<String>)
    ensures
        r.deep_view() == (match json_text(json@) {
            Some(document) => access_token(document, now_ms),
            None => None,
        }),
{
    match parse_json(json) {
        Some(document) => token_of(&document, now_ms),
        None => None,
    }
}

// ---------------------------------------------------------------------------
// The usage
// ---------------------------------------------------------------------------

/// The length of the short period, in milliseconds: five hours.
pub const FIVE_HOUR_MS: i64 = 5 * 3600 * 1000;

/// The length of the long period, in milliseconds: seven days.
pub const SEVEN_DAY_MS: i64 = 7 * 86400 * 1000;

/// What the service says of one limit.
#[derive(Clone, Debug, PartialEq, Eq)]
pub struct Tier {
    /// The share that is used, in percent; `None` counts as 0.
    pub utilization: Option<JsonNumber>,
    /// When the limit is lifted.
    pub resets_at: Option<String>,
}

/// What the service says of paid extra usage.
#[derive(Clone, Copy, Debug, PartialEq, Eq)]
pub struct ExtraUsage {
    pub is_enabled: bool,
    pub monthly_limit: Option<JsonNumber>,
    pub used_credits: Option<JsonNumber>,
    pub utilization: Option<JsonNumber>,
}

/// All that the service says.
#[derive(Clone, Debug, PartialEq, Eq)]
pub struct UsageData {
    pub five_hour: Option<Tier>,
    pub seven_day: Option<Tier>,
    pub seven_day_sonnet: Option<Tier>,
    pub seven_day_opus: Option<Tier>,
    pub extra_usage: Option<ExtraUsage>,
}

/// A number under a key.
pub open spec fn number_field(document: Json, key: Seq<char>) -> Option<JsonNumber> {
    match document.field(key) {
        Some(Json::Number(n)) => Some(n),
        _ => None,
    }
}

fn get_number(document: &Json, key: &str) -> (r: Option<JsonNumber>)
    ensures
        r == number_field(*document, key@),
{
    match document.get(key) {
        Some(Json::Number(n)) => Some(*n),
        _ => None,
    }
}

/// Whether a tier says what the document under `key` does.
pub open spec fn is_tier(tier: Option<Tier>, document: Json, key: Seq<char>) -> bool {
    match document.field(key) {
        Some(found) => {
            &&& tier matches Some(t)
            &&& t.utilization == number_field(found, "utilization"@)
            &&& t.resets_at.deep_view() == found.field_text("resets_at"@)
        },
        None => tier is None,
    }
}

fn parse_tier(document: &Json, key: &str) -> (r: Option<Tier>)
    ensures
        is_tier(r, *document, key@),
{
    match document.get(key) {
        Some(found) => Some(
            Tier {
                utilization: get_number(found, "utilization"),
                resets_at: match found.get_str("resets_at") {
                    Some(text) => Some(text.to_owned()),
                    None => None,
                },
            },
        ),
        None => None,
    }
}

/// Whether `r` says what the document does.
pub open spec fn is_usage(r: UsageData, document: Json) -> bool {
    &&& is_tier(r.five_hour, document, "five_hour"@)
    &&& is_tier(r.seven_day, document, "seven_day"@)
    &&& is_tier(r.seven_day_sonnet, document, "seven_day_sonnet"@)
    &&& is_tier(r.seven_day_opus, document, "seven_day_opus"@)
    &&& r.extra_usage == (match document.field("extra_usage"@) {
        Some(extra) => Some(
            ExtraUsage {
                is_enabled: field_or_null(extra, "is_enabled"@).truth() == Some(true),
                monthly_limit: number_field(extra, "monthly_limit"@),
                used_credits: number_field(extra, "used_credits"@),
                utilization: number_field(extra, "utilization"@),
            },
        ),
        None => None,
    })
}

/// Reads what the service says.
pub fn parse_usage(document: &Json) -> (r: UsageData)
    ensures
        is_usage(r, *document),
{
    let extra_usage: Option<ExtraUsage> = match document.get("extra_usage") {
        Some(extra) => Some(
            ExtraUsage {
                is_enabled: match extra.get("is_enabled") {
                    Some(value) => match value.as_bool() {
                        Some(b) => b,
                        None => false,
                    },
                    None => false,
                },
                monthly_limit: get_number(extra, "monthly_limit"),
                used_credits: get_number(extra, "used_credits"),
                utilization: get_number(extra, "utilization"),
            },
        ),
        None => None,
    };
    UsageData {
        five_hour: parse_tier(document, "five_hour"),
        seven_day: parse_tier(document, "seven_day"),
        seven_day_sonnet: parse_tier(document, "seven_day_sonnet"),
        seven_day_opus: parse_tier(document, "seven_day_opus"),
        extra_usage,
    }
}

/// What a request for the usage came to.
#[derive(Debug, PartialEq, Eq)]
pub enum FetchOutcome {
    /// The document that the service sent.
    Fetched(Json),
    /// Too many requests: not again before `retry_secs`.
    RateLimited { retry_secs: u64 },
    Failed,
}

/// The wait that a service asks for where it does not say how long, in seconds.
pub const DEFAULT_RETRY_AFTER_SECS: u64 = 600;

/// The wait that a `retry-after` header asks for.
pub open spec fn retry_secs_model(header: Option<Seq<char>>) -> nat {
    match header {
        Some(text) => match parse_unsigned_seq(text, u64::MAX as nat) {
            Some(n) => n,
            None => DEFAULT_RETRY_AFTER_SECS as nat,
        },
        None => DEFAULT_RETRY_AFTER_SECS as nat,
    }
}

/// Reads the answer to a request for the usage.
pub fn read_response(status: u16, retry_after: Option<&str>, body: &str) -> (r: FetchOutcome)
    ensures
        if status == 429 {
            r matches FetchOutcome::RateLimited { retry_secs } && retry_secs == retry_secs_model(
                retry_after.deep_view(),
            )
        } else if 200 <= status < 300 {
            match json_text(body@) {
                Some(document) => r == FetchOutcome::Fetched(document),
                None => r is Failed,
            }
        } else {
            r is Failed
        },
{
    if status == 429 {
        let retry_secs: u64 = match retry_after {
            Some(text) => match parse_unsigned(text, u64::MAX) {
                Some(n) => n,
                None => DEFAULT_RETRY_AFTER_SECS,
            },
            None => DEFAULT_RETRY_AFTER_SECS,
        };
        return FetchOutcome::RateLimited { retry_secs };
    }
    if !(200 <= status && status < 300) {
        return FetchOutcome::Failed;
    }
    match parse_json(body) {
        Some(document) => FetchOutcome::Fetched(document),
        None => FetchOutcome::Failed,
    }
}

// ---------------------------------------------------------------------------
// Times
// ---------------------------------------------------------------------------

/// The milliseconds since the epoch of a timestamp.
pub uninterp spec fn timestamp_ms(text: Seq<char>) -> Option<i64>;

/// `jiff::Timestamp`'s `FromStr` and `as_millisecond`: the milliseconds since
/// the epoch of an RFC 3339 timestamp, which go by the name `timestamp_ms`. They
/// lie within the years that the crate knows.
#[verifier::external_body]
fn parse_timestamp_ms(text: &str) -> (r: Option<i64>)
    ensures
        r == timestamp_ms(text@),
{
    text.parse::<jiff::Timestamp>().ok().map(|t| t.as_millisecond())
}

/// The part of a period that is over, when `reset` ends it.
pub open spec fn elapsed_model(reset: int, now: int, period: int) -> int {
    let remaining = if reset > now {
        reset - now
    } else {
        0
    };
    if remaining < period {
        period - remaining
    } else {
        0
    }
}

/// The milliseconds of a period that are over at `now`, when it ends at `reset`.
pub fn elapsed_in_period(reset: i64, now: i64, period: i64) -> (r: i64)
    requires
        period >= 0,
    ensures
        r == elapsed_model(reset as int, now as int, period as int),
        0 <= r <= period,
{
    if reset <= now {
        return period;
    }
    let remaining: i128 = reset as i128 - now as i128;
    if remaining < period as i128 {
        (period as i128 - remaining) as i64
    } else {
        0
    }
}

/// The milliseconds of a period that are over at `now`, when it ends at the
/// time that a timestamp tells.
pub fn time_elapsed_ms(resets_at: &str, now: i64, period: i64) -> (r: Option<i64>)
    requires
        period >= 0,
    ensures
        match timestamp_ms(resets_at@) {
            Some(reset) => r matches Some(ms) && ms == elapsed_model(
                reset as int,
                now as int,
                period as int,
            ),
            None => r is None,
        },
{
    match parse_timestamp_ms(resets_at) {
        Some(reset) => Some(elapsed_in_period(reset, now, period)),
        None => None,
    }
}

/// How the time of a reset is told.
#[derive(Clone, Copy, Debug, PartialEq, Eq, Structural)]
pub enum ResetFormat {
    /// The time of day alone.
    Time,
    /// `today` and the time of day.
    Today,
    /// `tomorrow` and the time of day.
    Tomorrow,
    /// The day of the week and the time of day.
    Weekday,
    /// The date and the time of day.
    Date,
}

/// How the time of a reset is told that lies `days` days ahead; `None` where
/// that is unknown.
pub open spec fn format_of(include_date: bool, days: Option<i32>) -> ResetFormat {
    if !include_date {
        ResetFormat::Time
    } else {
        match days {
            Some(n) => if n == 0 {
                ResetFormat::Today
            } else if n == 1 {
                ResetFormat::Tomorrow
            } else if 2 <= n <= 6 {
                ResetFormat::Weekday
            } else {
                ResetFormat::Date
            },
            None => ResetFormat::Date,
        }
    }
}

/// How the time of a reset is told.
pub fn reset_format(include_date: bool, days: Option<i32>) -> (r: ResetFormat)
    ensures
        r == format_of(include_date, days),
{
    if !include_date {
        return ResetFormat::Time;
    }
    match days {
        Some(n) => if n == 0 {
            ResetFormat::Today
        } else if n == 1 {
            ResetFormat::Tomorrow
        } else if 2 <= n && n <= 6 {
            ResetFormat::Weekday
        } else {
            ResetFormat::Date
        },
        None => ResetFormat::Date,
    }
}

/// A time where the reader is, in the forms that it can be told in.
#[derive(Clone, Debug, PartialEq, Eq)]
pub struct LocalTime {
    /// The time of day and the zone.
    pub time: String,
    /// The day of the week and the time.
    pub weekday: String,
    /// The date and the time.
    pub date: String,
    /// The days from today, where they are known.
    pub days: Option<i32>,
}

/// How the time of a reset is told; one that could not be read stands for itself.
pub open spec fn reset_time_text(
    ts: Seq<char>,
    include_date: bool,
    local: Option<LocalTime>,
) -> Seq<char> {
    match local {
        Some(at) => match format_of(include_date, at.days) {
            ResetFormat::Time => at.time@,
            ResetFormat::Today => "today, "@ + at.time@,
            ResetFormat::Tomorrow => "tomorrow, "@ + at.time@,
            ResetFormat::Weekday => at.weekday@,
            ResetFormat::Date => at.date@,
        },
        None => ts,
    }
}

/// The time of a reset for the reader. `local` is the time that `ts` stands for,
/// where it could be read.
pub fn format_reset_time(ts: &str, include_date: bool, local: &Option<LocalTime>) -> (r: String)
    ensures
        r@ == reset_time_text(ts@, include_date, *local),
{
    match local {
        Some(at) => match reset_format(include_date, at.days) {
            ResetFormat::Time => at.time.clone(),
            ResetFormat::Today => concat("today, ", at.time.as_str()),
            ResetFormat::Tomorrow => concat("tomorrow, ", at.time.as_str()),
            ResetFormat::Weekday => at.weekday.clone(),
            ResetFormat::Date => at.date.clone(),
        },
        None => ts.to_owned(),
    }
}

// ---------------------------------------------------------------------------
// Waking the poll
// ---------------------------------------------------------------------------

/// The least age of the data for a hover to fetch it again, in seconds.
pub const HOVER_REFETCH_SECS: u64 = 60;

/// Whether the poll was already woken since the last success.
#[derive(Clone, Copy, Debug, PartialEq, Eq)]
pub struct WakeGate {
    pub sent: bool,
}

impl WakeGate {
    /// Wakes the poll, once until the next success.
    pub fn wake(&mut self) -> (r: bool)
        ensures
            r == !old(self).sent,
            final(self).sent,
    {
        let first: bool = !self.sent;
        self.sent = true;
        first
    }

    /// Wakes the poll where the data is old, or where there is none. `age_secs`
    /// is the age of the last success.
    pub fn request_fresh_fetch(&mut self, age_secs: Option<u64>) -> (r: bool)
        ensures
            ({
                let stale = match age_secs {
                    Some(age) => age >= HOVER_REFETCH_SECS,
                    None => true,
                };
                &&& r == (stale && !old(self).sent)
                &&& final(self).sent == (stale || old(self).sent)
            }),
    {
        let stale: bool = match age_secs {
            Some(age) => age >= HOVER_REFETCH_SECS,
            None => true,
        };
        if !stale {
            return false;
        }
        self.wake()
    }

    /// A request succeeded.
    pub fn succeeded(&mut self)
        ensures
            !final(self).sent,
    {
        self.sent = false;
    }
}

// ---------------------------------------------------------------------------
// Laws
// ---------------------------------------------------------------------------

/// A path below the home directory is found there, and every other path is as it
/// was written; without a home directory all are.
pub proof fn only_tildes_are_expanded(path: Seq<char>, rest: Seq<char>, home: Seq<char>)
    ensures
        expanded("~/"@ + rest, Some(home)) == join_path_seq(home, rest),
        expanded("~"@, Some(home)) == home,
        !"~"@.is_prefix_of(path) ==> expanded(path, Some(home)) == path,
        expanded(path, None) == path,
{
    reveal_strlit("~/");
    reveal_strlit("~");
    let prefix = "~/"@;
    assert(prefix.is_prefix_of(prefix + rest));
    assert((prefix + rest).skip(prefix.len() as int) == rest);
    assert(prefix.len() == 2 && prefix[0] == '~' && "~"@.len() == 1 && "~"@[0] == '~');
    if prefix.is_prefix_of(path) {
        assert(path[0] == prefix[0]);
        assert("~"@.is_prefix_of(path));
    }
    assert(!prefix.is_prefix_of("~"@));
    if path == "~"@ {
        assert("~"@.is_prefix_of(path));
    }
}

/// A directory is used just where one is configured and exists.
pub proof fn missing_directories_are_passed_over(dir: ConfiguredDir, home: Option<Seq<char>>)
    ensures
        usable(None, home) is None,
        usable(Some(dir), home) is Some <==> dir.exists && dir.path@.len() > 0,
        usable(Some(dir), home) matches Some(path) ==> path == expanded(dir.path@, home),
{
}

/// A token is used until it expires and no longer: the same credentials give it
/// before that time and nothing from then on. Credentials that tell no time do not
/// expire, and an empty token is none.
pub proof fn expired_tokens_are_not_used(
    document: Json,
    oauth: Json,
    token: Seq<char>,
    expires_at: u64,
    now_ms: u64,
)
    requires
        document.field("claudeAiOauth"@) == Some(oauth),
        oauth.field_text("accessToken"@) == Some(token),
        trim_seq(token).len() > 0,
    ensures
        oauth.field("expiresAt"@) is Some && oauth.field("expiresAt"@)->0.unsigned() == Some(
            expires_at,
        ) ==> access_token(document, now_ms) == (if now_ms < expires_at {
            Some(trim_seq(token))
        } else {
            None
        }),
        oauth.field("expiresAt"@) is None ==> access_token(document, now_ms) == Some(
            trim_seq(token),
        ),
{
}

/// Where there is no token in the credentials, or a blank one, none is used.
pub proof fn missing_tokens_are_not_used(document: Json, oauth: Json, now_ms: u64)
    ensures
        document.field("claudeAiOauth"@) is None ==> access_token(document, now_ms) is None,
        document.field("claudeAiOauth"@) == Some(oauth) && (oauth.field_text("accessToken"@) is None
            || trim_seq(oauth.field_text("accessToken"@)->0).len() == 0) ==> access_token(
            document,
            now_ms,
        ) is None,
{
}

/// Each limit is read from its own place: its share, and when it is lifted. A limit
/// that is not told is left out.
pub proof fn limits_are_read_from_their_places(r: UsageData, document: Json, found: Json, n: JsonNumber)
    requires
        is_usage(r, document),
        found.field("utilization"@) == Some(Json::Number(n)),
    ensures
        document.field("five_hour"@) == Some(found) ==> (r.five_hour matches Some(tier)
            && tier.utilization == Some(n) && tier.resets_at.deep_view() == found.field_text(
            "resets_at"@,
        )),
        document.field("seven_day"@) == Some(found) ==> (r.seven_day matches Some(tier)
            && tier.utilization == Some(n) && tier.resets_at.deep_view() == found.field_text(
            "resets_at"@,
        )),
        document.field("seven_day_sonnet"@) == Some(found) ==> (r.seven_day_sonnet matches Some(
            tier,
        ) && tier.utilization == Some(n) && tier.resets_at.deep_view() == found.field_text(
            "resets_at"@,
        )),
        document.field("seven_day_opus"@) == Some(found) ==> (r.seven_day_opus matches Some(tier)
            && tier.utilization == Some(n) && tier.resets_at.deep_view() == found.field_text(
            "resets_at"@,
        )),
        document.field("extra_usage"@) == Some(found) ==> (r.extra_usage matches Some(extra)
            && extra.utilization == Some(n)),
        document.field("five_hour"@) is None <==> r.five_hour is None,
        document.field("seven_day"@) is None <==> r.seven_day is None,
        document.field("seven_day_sonnet"@) is None <==> r.seven_day_sonnet is None,
        document.field("seven_day_opus"@) is None <==> r.seven_day_opus is None,
        document.field("extra_usage"@) is None <==> r.extra_usage is None,
{
}

/// A service that says how long to wait is given that long, and one that does not
/// say ten minutes.
pub proof fn asked_waits_are_kept(secs: nat)
    requires
        secs <= u64::MAX,
    ensures
        retry_secs_model(Some(decimal(secs))) == secs,
        retry_secs_model(None) == 600,
{
    decimal_reads_back(secs, u64::MAX as nat);
}

/// What has passed of a period and what is left make the whole of it. All of it has
/// passed once the limit is lifted, none before it began, and never does less pass
/// as time goes on.
pub proof fn elapsed_and_remaining_make_the_period(reset: int, now: int, later: int, period: int)
    requires
        period >= 0,
        now <= later,
    ensures
        reset - period <= now <= reset ==> elapsed_model(reset, now, period) + (reset - now)
            == period,
        now >= reset ==> elapsed_model(reset, now, period) == period,
        now <= reset - period ==> elapsed_model(reset, now, period) == 0,
        elapsed_model(reset, now, period) <= elapsed_model(reset, later, period),
{
}

/// A time is told by its day only where the date is asked for, and by a name only
/// within the next week; a time that could not be read stands as it was written.
pub proof fn near_days_have_names(ts: Seq<char>, at: LocalTime)
    ensures
        reset_time_text(ts, false, Some(at)) == at.time@,
        at.days == Some(0i32) ==> reset_time_text(ts, true, Some(at)) == "today, "@ + at.time@,
        at.days == Some(1i32) ==> reset_time_text(ts, true, Some(at)) == "tomorrow, "@ + at.time@,
        at.days is Some && 2 <= at.days->0 < 7 ==> reset_time_text(ts, true, Some(at))
            == at.weekday@,
        at.days is None || at.days->0 < 0 || at.days->0 >= 7 ==> reset_time_text(
            ts,
            true,
            Some(at),
        ) == at.date@,
        reset_time_text(ts, true, None) == ts,
{
}

/// Every directory but the default one has a service of its own: its name begins
/// with that of the assistant and tells the directory by eight digits.
pub proof fn directories_have_their_own_service(
    dir: Seq<char>,
    default_dir: Option<Seq<char>>,
    base: Seq<char>,
)
    ensures
        default_dir == Some(dir) ==> service_model(dir, default_dir, base) == base,
        default_dir != Some(dir) ==> (base + "-"@).is_prefix_of(
            service_model(dir, default_dir, base),
        ),
        default_dir != Some(dir) ==> service_model(dir, default_dir, base).len() == base.len() + 9,
{
    reveal_strlit("-");
    reveal_with_fuel(hex_seq, 5);
    assert("-"@.len() == 1);
    assert((base + "-"@).is_prefix_of(suffixed_service(dir, base)));
}

/// Two directories share a service only where the digests of their paths begin alike.
pub proof fn services_tell_directories_apart(a: Seq<char>, b: Seq<char>, base: Seq<char>)
    requires
        sha256(vstd::utf8::encode_utf8(a)).len() == 32,
        sha256(vstd::utf8::encode_utf8(b)).len() == 32,
        suffixed_service(a, base) == suffixed_service(b, base),
    ensures
        sha256(vstd::utf8::encode_utf8(a)).take(4) == sha256(vstd::utf8::encode_utf8(b)).take(4),
{
    let prefix = base + "-"@;
    let x = hex_seq(sha256(vstd::utf8::encode_utf8(a)), 4);
    let y = hex_seq(sha256(vstd::utf8::encode_utf8(b)), 4);
    assert((prefix + x).skip(prefix.len() as int) == x);
    assert((prefix + y).skip(prefix.len() as int) == y);
    hex_tells_bytes_apart(
        sha256(vstd::utf8::encode_utf8(a)),
        sha256(vstd::utf8::encode_utf8(b)),
        4,
    );
}

/// Extra usage is read field by field: whether it is enabled, its limit, and what was used.
pub proof fn extra_usage_is_read(r: UsageData, document: Json, extra: Json, n: JsonNumber)
    requires
        is_usage(r, document),
        document.field("extra_usage"@) == Some(extra),
    ensures
        r.extra_usage matches Some(found) && {
            &&& extra.field("monthly_limit"@) == Some(Json::Number(n)) ==> found.monthly_limit
                == Some(n)
            &&& extra.field("used_credits"@) == Some(Json::Number(n)) ==> found.used_credits
                == Some(n)
            &&& extra.field("is_enabled"@) == Some(Json::Bool(true)) ==> found.is_enabled
            &&& extra.field("is_enabled"@) is None ==> !found.is_enabled
            &&& extra.field("is_enabled"@) == Some(Json::Bool(false)) ==> !found.is_enabled
        },
{
}

} // verus!
