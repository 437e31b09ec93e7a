//! How much of a Codex subscription is used.

use crate::extensions::numbers::{round_number, rounded};
use crate::json::{
    json_bytes_outcome, json_text, parse_json, parse_json_bytes, Json, JsonNumber,
};
use crate::text::{
    concat, concat3, decimal, decimal_string, join_seq, join_splits_back, same, split, split_seq,
};
use vstd::prelude::*;

verus! {

broadcast use vstd::string::group_string_axioms;

/// The public id of the Codex client.
pub open spec fn client_id() -> Seq<char> {
    "app_EMoamEEZ73f0CkXaXp7hrann"@
}

// ---------------------------------------------------------------------------
// Limits
// ---------------------------------------------------------------------------

/// What the service says of one limit.
#[derive(Clone, Copy, Debug, PartialEq, Eq)]
pub struct RateLimitWindow {
    pub used_percent: u64,
    pub window_seconds: u64,
    /// When the limit is lifted, in seconds since the epoch; 0 where unknown.
    pub reset_at: u64,
    /// The seconds of the window that are over, where that is known.
    pub elapsed_seconds: Option<u64>,
}

/// What the service says of credits.
#[derive(Clone, Copy, Debug, PartialEq, Eq)]
pub struct CreditsInfo {
    pub has_credits: bool,
    pub unlimited: bool,
    /// `None` counts as 0.
    pub balance: Option<JsonNumber>,
}

/// All that the service says.
#[derive(Clone, Debug, PartialEq, Eq)]
pub struct UsageData {
    pub plan_type: String,
    pub primary_window: Option<RateLimitWindow>,
    pub secondary_window: Option<RateLimitWindow>,
    pub review_primary: Option<RateLimitWindow>,
    pub credits: Option<CreditsInfo>,
}

/// A [`UsageData`] with its text as a sequence.
pub struct UsageModel {
    pub plan_type: Seq<char>,
    pub primary_window: Option<RateLimitWindow>,
    pub secondary_window: Option<RateLimitWindow>,
    pub review_primary: Option<RateLimitWindow>,
    pub credits: Option<CreditsInfo>,
}

impl DeepView for UsageData {
    type V = UsageModel;

    open spec fn deep_view(&self) -> UsageModel {
        UsageModel {
            plan_type: self.plan_type@,
            primary_window: self.primary_window,
            secondary_window: self.secondary_window,
            review_primary: self.review_primary,
            credits: self.credits,
        }
    }
}

/// A whole number under a key.
pub open spec fn count_field(document: Json, key: Seq<char>) -> Option<u64> {
    match document.field(key) {
        Some(value) => value.unsigned(),
        None => None,
    }
}

fn get_count(document: &Json, key: &str) -> (r: Option<u64>)
    ensures
        r == count_field(*document, key@),
{
    match document.get(key) {
        Some(value) => value.as_u64(),
        None => None,
    }
}

/// The length of a window: in seconds where told so, else from its minutes, else
/// 0.
pub open spec fn window_seconds_of(document: Json) -> nat {
    match count_field(document, "limit_window_seconds"@) {
        Some(n) => n as nat,
        None => match count_field(document, "window_minutes"@) {
            Some(n) => if n * 60 <= u64::MAX {
                (n * 60) as nat
            } else {
                u64::MAX as nat
            },
            None => 0,
        },
    }
}

/// The part of a window that is over, where both its length and its end are
/// known.
pub open spec fn elapsed_of(window: nat, reset_at: nat, now: nat) -> Option<nat> {
    if window > 0 && reset_at > 0 {
        let remaining: int = if reset_at > now {
            reset_at - now
        } else {
            0
        };
        Some(
            if window > remaining {
                (window - remaining) as nat
            } else {
                0
            },
        )
    } else {
        None
    }
}

/// Whether a window says what a document does at `now`; a document without a
/// used share describes no window.
pub open spec fn is_window(window: Option<RateLimitWindow>, document: Json, now: u64) -> bool {
    match document.field("used_percent"@) {
        Some(Json::Number(n)) => {
            let reset_at = match count_field(document, "reset_at"@) {
                Some(at) => at,
                None => 0,
            };
            &&& window matches Some(w)
            &&& w.used_percent == rounded(n)
            &&& w.window_seconds == window_seconds_of(document)
            &&& w.reset_at == reset_at
            &&& match elapsed_of(window_seconds_of(document), reset_at as nat, now as nat) {
                Some(n) => w.elapsed_seconds matches Some(e) && e == n,
                None => w.elapsed_seconds is None,
            }
        },
        _ => window is None,
    }
}

/// Reads one limit.
pub fn parse_window(document: &Json, now: u64) -> (r: Option<RateLimitWindow>)
    ensures
        is_window(r, *document, now),
{
    let used_percent: u64 = match document.get("used_percent") {
        Some(Json::Number(n)) => round_number(*n),
        _ => return None,
    };
    let window_seconds: u64 = match get_count(document, "limit_window_seconds") {
        Some(n) => n,
        None => match get_count(document, "window_minutes") {
            Some(n) => if n <= u64::MAX / 60 {
                n * 60
            } else {
                u64::MAX
            },
            None => 0,
        },
    };
    let reset_at: u64 = match get_count(document, "reset_at") {
        Some(at) => at,
        None => 0,
    };
    let elapsed_seconds: Option<u64> = if window_seconds > 0 && reset_at > 0 {
        let remaining: u64 = if reset_at > now {
            reset_at - now
        } else {
            0
        };
        Some(
            if window_seconds > remaining {
                window_seconds - remaining
            } else {
                0
            },
        )
    } else {
        None
    };
    Some(RateLimitWindow { used_percent, window_seconds, reset_at, elapsed_seconds })
}

/// Whether a window says what the object under `outer` and `inner` does; it is
/// `None` where there is no such object.
pub open spec fn is_window_at(
    window: Option<RateLimitWindow>,
    document: Json,
    key: Seq<char>,
    now: u64,
) -> bool {
    match document.field(key) {
        Some(Json::Object(members)) => is_window(window, Json::Object(members), now),
        _ => window is None,
    }
}

fn window_at(document: Option<&Json>, key: &str, now: u64) -> (r: Option<RateLimitWindow>)
    ensures
        match document {
            Some(d) => is_window_at(r, *d, key@, now),
            None => r is None,
        },
{
    match document {
        Some(d) => match d.get(key) {
            Some(value) => match value {
                Json::Object(_) => parse_window(value, now),
                _ => None,
            },
            None => None,
        },
        None => None,
    }
}

/// The credits in a document, where they are an object.
pub open spec fn credits_of(document: Json) -> Option<CreditsInfo> {
    match document.field("credits"@) {
        Some(Json::Object(members)) => {
            let credits = Json::Object(members);
            Some(
                CreditsInfo {
                    has_credits: truth_field(credits, "has_credits"@),
                    unlimited: truth_field(credits, "unlimited"@),
                    balance: match credits.field("balance"@) {
                        Some(Json::Number(n)) => Some(n),
                        _ => None,
                    },
                },
            )
        },
        _ => None,
    }
}

/// Whether the value under a key is `true`.
pub open spec fn truth_field(document: Json, key: Seq<char>) -> bool {
    match document.field(key) {
        Some(value) => value.truth() == Some(true),
        None => false,
    }
}

fn get_truth(document: &Json, key: &str) -> (r: bool)
    ensures
        r == truth_field(*document, key@),
{
    match document.get(key) {
        Some(value) => match value.as_bool() {
            Some(b) => b,
            None => false,
        },
        None => false,
    }
}

fn read_credits(document: &Json) -> (r: Option<CreditsInfo>)
    ensures
        r == credits_of(*document),
{
    match document.get("credits") {
        Some(credits) => match credits {
            Json::Object(_) => Some(
                CreditsInfo {
                    has_credits: get_truth(credits, "has_credits"),
                    unlimited: get_truth(credits, "unlimited"),
                    balance: match credits.get("balance") {
                        Some(Json::Number(n)) => Some(*n),
                        _ => None,
                    },
                },
            ),
            _ => None,
        },
        None => None,
    }
}

/// Whether `r` is what the service's answer says at `now`.
pub open spec fn is_response_usage(r: UsageData, document: Json, now: u64) -> bool {
    &&& r.plan_type@ == (match document.field_text("plan_type"@) {
        Some(plan) => plan,
        None => "unknown"@,
    })
    &&& match document.field("rate_limit"@) {
        Some(limits) => is_window_at(r.primary_window, limits, "primary_window"@, now)
            && is_window_at(r.secondary_window, limits, "secondary_window"@, now),
        None => r.primary_window is None && r.secondary_window is None,
    }
    &&& match document.field("code_review_rate_limit"@) {
        Some(limits) => is_window_at(r.review_primary, limits, "primary_window"@, now),
        None => r.review_primary is None,
    }
    &&& r.credits == credits_of(document)
}

/// Reads the service's answer.
pub fn usage_from_response(document: &Json, now: u64) -> (r: UsageData)
    ensures
        is_response_usage(r, *document, now),
{
    UsageData {
        plan_type: match document.get_str("plan_type") {
            Some(plan) => plan.to_owned(),
            None => "unknown".to_owned(),
        },
        primary_window: window_at(document.get("rate_limit"), "primary_window", now),
        secondary_window: window_at(document.get("rate_limit"), "secondary_window", now),
        review_primary: window_at(document.get("code_review_rate_limit"), "primary_window", now),
        credits: read_credits(document),
    }
}

// ---------------------------------------------------------------------------
// The plan in the token
// ---------------------------------------------------------------------------

/// The bytes that a text spells in the URL-safe base64 without padding.
pub uninterp spec fn base64_bytes(text: Seq<char>) -> Option<Seq<u8>>;

/// `base64`'s `URL_SAFE_NO_PAD` engine, `decode`: the bytes, or `None` where the
/// text is not in that encoding.
#[verifier::external_body]
fn decode_base64(text: &str) -> (r: Option<Vec<u8>>)
    ensures
        match r {
            Some(bytes) => base64_bytes(text@) == Some(bytes@),
            None => base64_bytes(text@) is None,
        },
{
    base64::Engine::decode(&base64::engine::general_purpose::URL_SAFE_NO_PAD, text).ok()
}

/// The plan that the claims of a token name.
pub open spec fn plan_of_claims(claims: Json) -> Option<Seq<char>> {
    match claims.field("https://api.openai.com/auth"@) {
        Some(auth) => auth.field_text("chatgpt_plan_type"@),
        None => None,
    }
}

/// The plan that the claims of a token name.
pub fn plan_type_from_claims(claims: &Json) -> (r: Option<String>)
    ensures
        r.deep_view() == plan_of_claims(*claims),
{
    match claims.get("https://api.openai.com/auth") {
        Some(auth) => match auth.get_str("chatgpt_plan_type") {
            Some(plan) => Some(plan.to_owned()),
            None => None,
        },
        None => None,
    }
}

/// The claims in a token: its second part, decoded.
pub open spec fn claims_of(token: Seq<char>) -> Option<Json> {
    let parts = split_seq(token, "."@);
    if parts.len() < 2 {
        None
    } else {
        match base64_bytes(parts[1]) {
            Some(bytes) => match json_bytes_outcome(bytes) {
                Ok(claims) => Some(claims),
                Err(_) => None,
            },
            None => None,
        }
    }
}

/// The plan that a token names.
pub open spec fn plan_of_token(token: Seq<char>) -> Option<Seq<char>> {
    match claims_of(token) {
        Some(claims) => plan_of_claims(claims),
        None => None,
    }
}

/// The plan that a token names.
pub fn plan_type_from_access_token(access_token: &str) -> (r: Option<String>)
    ensures
        r.deep_view() == plan_of_token(access_token@),
{
    proof {
        reveal_strlit(".");
    }
    let parts: Vec<String> = split(access_token, ".");
    if parts.len() < 2 {
        return None;
    }
    assert(parts.deep_view()[1] == parts@[1]@);
    let bytes: Vec<u8> = match decode_base64(parts[1].as_str()) {
        Some(bytes) => bytes,
        None => return None,
    };
    match parse_json_bytes(&bytes) {
        Ok(claims) => plan_type_from_claims(&claims),
        Err(_) => None,
    }
}

// ---------------------------------------------------------------------------
// Local sessions
// ---------------------------------------------------------------------------

/// The limits in a line of a session, where it tells of them.
pub open spec fn limits_of(line: Json) -> Option<Json> {
    if line.field_text("type"@) != Some("event_msg"@) {
        None
    } else {
        match line.field("payload"@) {
            Some(payload) => if payload.field_text("type"@) != Some("token_count"@) {
                None
            } else {
                match payload.field("rate_limits"@) {
                    Some(Json::Object(members)) => Some(Json::Object(members)),
                    _ => None,
                }
            },
            None => None,
        }
    }
}

/// Whether `r` is what the limits in a session say at `now`.
pub open spec fn is_session_usage(
    r: UsageData,
    limits: Json,
    token: Seq<char>,
    now: u64,
) -> bool {
    &&& r.plan_type@ == (match limits.field_text("plan_type"@) {
        Some(plan) => plan,
        None => match plan_of_token(token) {
            Some(plan) => plan,
            None => "unknown"@,
        },
    })
    &&& is_window_at(r.primary_window, limits, "primary"@, now)
    &&& is_window_at(r.secondary_window, limits, "secondary"@, now)
    &&& r.review_primary is None
    &&& r.credits == credits_of(limits)
}

/// Whether limits hold a window.
pub open spec fn has_window(limits: Json) -> bool {
    window_is_there(limits, "primary"@) || window_is_there(limits, "secondary"@)
}

/// Whether there is a window under a key.
pub open spec fn window_is_there(limits: Json, key: Seq<char>) -> bool {
    match limits.field(key) {
        Some(Json::Object(members)) => Json::Object(members).field("used_percent"@) matches Some(
            Json::Number(_),
        ),
        _ => false,
    }
}

/// The last of the first `n` lines that tells of a window, with its limits.
pub open spec fn last_limits(lines: Seq<Seq<char>>, n: int) -> Option<Json>
    decreases n,
{
    if n <= 0 {
        None
    } else {
        let limits = match json_text(lines[n - 1]) {
            Some(line) => limits_of(line),
            None => None,
        };
        match limits {
            Some(l) => if has_window(l) {
                Some(l)
            } else {
                last_limits(lines, n - 1)
            },
            None => last_limits(lines, n - 1),
        }
    }
}

fn is_text(text: Option<&str>, wanted: &str) -> (r: bool)
    ensures
        r == (text.deep_view() == Some(wanted@)),
{
    match text {
        Some(t) => same(t, wanted),
        None => false,
    }
}

fn read_limits(line: &Json) -> (r: Option<&Json>)
    ensures
        match r {
            Some(limits) => limits_of(*line) == Some(*limits),
            None => limits_of(*line) is None,
        },
{
    if !is_text(line.get_str("type"), "event_msg") {
        return None;
    }
    match line.get("payload") {
        Some(payload) => {
            if !is_text(payload.get_str("type"), "token_count") {
                return None;
            }
            match payload.get("rate_limits") {
                Some(limits) => match limits {
                    Json::Object(_) => Some(limits),
                    _ => None,
                },
                None => None,
            }
        },
        None => None,
    }
}

fn usage_from_limits(limits: &Json, token: &str, now: u64) -> (r: Option<UsageData>)
    ensures
        match r {
            Some(usage) => has_window(*limits) && is_session_usage(usage, *limits, token@, now),
            None => !has_window(*limits),
        },
{
    let primary_window: Option<RateLimitWindow> = window_at(Some(limits), "primary", now);
    let secondary_window: Option<RateLimitWindow> = window_at(Some(limits), "secondary", now);
    if primary_window.is_none() && secondary_window.is_none() {
        return None;
    }
    let plan_type: String = match limits.get_str("plan_type") {
        Some(plan) => plan.to_owned(),
        None => match plan_type_from_access_token(token) {
            Some(plan) => plan,
            None => "unknown".to_owned(),
        },
    };
    Some(
        UsageData {
            plan_type,
            primary_window,
            secondary_window,
            review_primary: None,
            credits: read_credits(limits),
        },
    )
}

/// The usage that a session file tells last; `None` where it tells of none.
pub fn usage_from_session(lines: &Vec<String>, access_token: &str, now: u64) -> (r: Option<
    UsageData,
>)
    ensures
        match last_limits(lines.deep_view(), lines@.len() as int) {
            Some(limits) => r matches Some(usage) && is_session_usage(
                usage,
                limits,
                access_token@,
                now,
            ),
            None => r is None,
        },
{
    let ghost all = lines.deep_view();
    let mut latest: Option<UsageData> = None;
    let mut i: usize = 0;
    while i < lines.len()
        invariant
            i <= lines@.len(),
            all == lines.deep_view(),
            match last_limits(all, i as int) {
                Some(limits) => latest matches Some(usage) && is_session_usage(
                    usage,
                    limits,
                    access_token@,
                    now,
                ),
                None => latest is None,
            },
        decreases lines@.len() - i,
    {
        assert(all[i as int] == lines@[i as int]@);
        if let Some(line) = parse_json(lines[i].as_str()) {
            if let Some(limits) = read_limits(&line) {
                if let Some(usage) = usage_from_limits(limits, access_token, now) {
                    latest = Some(usage);
                }
            }
        }
        i = i + 1;
    }
    latest
}

// ---------------------------------------------------------------------------
// Requests
// ---------------------------------------------------------------------------

/// The credentials of the Codex client.
#[derive(Clone, Debug, PartialEq, Eq)]
pub struct CodexAuth {
    pub access_token: String,
    pub refresh_token: String,
    pub account_id: String,
}

/// Reads the credentials; `None` unless all three are there.
pub fn read_codex_auth(document: &Json) -> (r: Option<CodexAuth>)
    ensures
        ({
            let tokens = match document.field("tokens"@) {
                Some(t) => t,
                None => Json::Null,
            };
            match (
                tokens.field_text("access_token"@),
                tokens.field_text("refresh_token"@),
                tokens.field_text("account_id"@),
            ) {
                (Some(access), Some(refresh), Some(account)) => r matches Some(auth)
                    && auth.access_token@ == access && auth.refresh_token@ == refresh
                    && auth.account_id@ == account,
                _ => r is None,
            }
        }),
{
    let tokens: &Json = match document.get("tokens") {
        Some(tokens) => tokens,
        None => return None,
    };
    match (
        tokens.get_str("access_token"),
        tokens.get_str("refresh_token"),
        tokens.get_str("account_id"),
    ) {
        (Some(access), Some(refresh), Some(account)) => Some(
            CodexAuth {
                access_token: access.to_owned(),
                refresh_token: refresh.to_owned(),
                account_id: account.to_owned(),
            },
        ),
        _ => None,
    }
}

/// The form that asks for a new access token.
pub fn refresh_form(auth: &CodexAuth) -> (r: String)
    ensures
        r@ == "grant_type=refresh_token&client_id="@ + client_id() + "&refresh_token="@
            + auth.refresh_token@,
{
    let mut r: String = concat3(
        "grant_type=refresh_token&client_id=",
        "app_EMoamEEZ73f0CkXaXp7hrann",
        "&refresh_token=",
    );
    r.push_str(auth.refresh_token.as_str());
    r
}

/// Whether `stored` is the document of credentials with new tokens in it. Where
/// `document` holds no tokens, it stays as it is.
pub open spec fn holds_tokens(
    stored: Json,
    document: Json,
    access: Seq<char>,
    refresh: Option<Seq<char>>,
) -> bool {
    match document.field("tokens"@) {
        Some(Json::Object(members)) => {
            let before = Json::Object(members);
            &&& forall|k: Seq<char>| k != "tokens"@ ==> #[trigger] stored.field(k)
                == document.field(k)
            &&& stored.field("tokens"@) matches Some(tokens)
            &&& tokens.field_text("access_token"@) == Some(access)
            &&& refresh is Some ==> tokens.field_text("refresh_token"@) == refresh
            &&& forall|k: Seq<char>|
                k != "access_token"@ && (refresh is None || k != "refresh_token"@)
                    ==> #[trigger] tokens.field(k) == before.field(k)
        },
        _ => stored == document,
    }
}

/// Puts new tokens into the document of credentials.
pub fn store_tokens(document: Json, access: &str, refresh: Option<&str>) -> (r: Json)
    ensures
        holds_tokens(r, document, access@, refresh.deep_view()),
{
    proof {
        reveal_strlit("access_token");
        reveal_strlit("refresh_token");
    }
    assert("access_token"@ != "refresh_token"@) by {
        assert("access_token"@[0] != "refresh_token"@[0]);
    }
    let is_object: bool = match document.get("tokens") {
        Some(Json::Object(_)) => true,
        _ => false,
    };
    if !is_object {
        return document;
    }
    let (rest, found): (Json, Option<Json>) = document.take("tokens");
    let tokens: Json = match found {
        Some(tokens) => tokens,
        None => return rest,
    };
    let renewed: Json = tokens.set("access_token", Json::Text(access.to_owned()));
    let complete: Json = match refresh {
        Some(token) => renewed.set("refresh_token", Json::Text(token.to_owned())),
        None => renewed,
    };
    rest.set("tokens", complete)
}

/// The access token of an answer, and the refresh token where it brings one.
pub fn read_new_tokens(answer: &Json) -> (r: Option<(String, Option<String>)>)
    ensures
        match answer.field_text("access_token"@) {
            Some(access) => {
                &&& r matches Some((token, refresh))
                &&& token@ == access
                &&& refresh.deep_view() == answer.field_text("refresh_token"@)
            },
            None => r is None,
        },
{
    match answer.get_str("access_token") {
        Some(access) => Some(
            (
                access.to_owned(),
                match answer.get_str("refresh_token") {
                    Some(refresh) => Some(refresh.to_owned()),
                    None => None,
                },
            ),
        ),
        None => None,
    }
}

/// Credentials that were renewed read back as the new ones, and the account
/// stays.
pub proof fn stored_tokens_are_read_back(
    stored: Json,
    document: Json,
    access: Seq<char>,
    refresh: Option<Seq<char>>,
)
    requires
        holds_tokens(stored, document, access, refresh),
        document.field("tokens"@) matches Some(tokens) && tokens is Object,
    ensures
        stored.field("tokens"@) matches Some(tokens) && {
            let before = document.field("tokens"@)->0;
            &&& tokens.field_text("access_token"@) == Some(access)
            &&& tokens.field_text("refresh_token"@) == (if refresh is Some {
                refresh
            } else {
                before.field_text("refresh_token"@)
            })
            &&& tokens.field_text("account_id"@) == before.field_text("account_id"@)
        },
{
    reveal_strlit("access_token");
    reveal_strlit("refresh_token");
    reveal_strlit("account_id");
    assert("access_token"@[0] != "refresh_token"@[0]);
    assert("account_id"@.len() != "access_token"@.len());
    assert("account_id"@.len() != "refresh_token"@.len());
}

// ---------------------------------------------------------------------------
// What is shown
// ---------------------------------------------------------------------------

/// How close a limit is.
#[derive(Clone, Copy, Debug, PartialEq, Eq, Structural)]
pub enum Severity {
    Normal,
    Warning,
    Critical,
}

/// How close a limit is, by the share that is used.
pub open spec fn severity_of(percent: u64) -> Severity {
    if percent > 80 {
        Severity::Critical
    } else if percent > 60 {
        Severity::Warning
    } else {
        Severity::Normal
    }
}

/// How close a limit is, by the share that is used.
pub fn abs_severity(percent: u64) -> (r: Severity)
    ensures
        r == severity_of(percent),
{
    if percent > 80 {
        Severity::Critical
    } else if percent > 60 {
        Severity::Warning
    } else {
        Severity::Normal
    }
}

/// What is told of a pace.
pub open spec fn pace_text(pace: Severity) -> Option<Seq<char>> {
    match pace {
        Severity::Critical => Some("Slow down to last the period"@),
        Severity::Warning => Some("Ahead of pace"@),
        Severity::Normal => None,
    }
}

/// What is told of a pace.
pub fn pace_message(pace: Severity) -> (r: Option<&'static str>)
    ensures
        r.deep_view() == pace_text(pace),
{
    match pace {
        Severity::Critical => Some("Slow down to last the period"),
        Severity::Warning => Some("Ahead of pace"),
        Severity::Normal => None,
    }
}

/// `n`, held between two bounds.
pub open spec fn held_between(n: nat, low: nat, high: nat) -> nat {
    if n < low {
        low
    } else if n > high {
        high
    } else {
        n
    }
}

/// The segments that a usage bar is cut into: hours up to a day, days beyond.
pub open spec fn segments_model(window_seconds: nat) -> nat {
    if window_seconds <= 3600 {
        1
    } else if window_seconds <= 86400 {
        held_between(window_seconds / 3600, 2, 12)
    } else {
        held_between(window_seconds / 86400, 2, 14)
    }
}

/// The segments that a usage bar is cut into.
pub fn segments_for_window(window_seconds: u64) -> (r: u32)
    ensures
        r == segments_model(window_seconds as nat),
        1 <= r <= 14,
{
    if window_seconds <= 3600 {
        return 1;
    }
    let (n, high): (u64, u64) = if window_seconds <= 86400 {
        (window_seconds / 3600, 12)
    } else {
        (window_seconds / 86400, 14)
    };
    if n < 2 {
        2
    } else if n > high {
        high as u32
    } else {
        n as u32
    }
}

/// The name of a window by its length.
pub open spec fn window_label(window_seconds: nat) -> Seq<char> {
    if window_seconds <= 3600 {
        "1h"@
    } else if window_seconds <= 18000 {
        "5h"@
    } else if window_seconds <= 86400 {
        "1d"@
    } else if window_seconds <= 604800 {
        "7d"@
    } else {
        "30d"@
    }
}

/// The name of a window by its length.
pub fn format_window_label(window_seconds: u64) -> (r: &'static str)
    ensures
        r@ == window_label(window_seconds as nat),
{
    if window_seconds <= 3600 {
        "1h"
    } else if window_seconds <= 18000 {
        "5h"
    } else if window_seconds <= 86400 {
        "1d"
    } else if window_seconds <= 604800 {
        "7d"
    } else {
        "30d"
    }
}

/// How long it is until a reset: the two largest units, or `now`; empty where
/// the reset is unknown.
pub open spec fn reset_text(reset_at: nat, now: nat) -> Seq<char> {
    if reset_at == 0 {
        ""@
    } else if reset_at <= now {
        "now"@
    } else {
        let remaining = (reset_at - now) as nat;
        let hours = remaining / 3600;
        let minutes = (remaining % 3600) / 60;
        if hours > 24 {
            decimal(hours / 24) + "d "@ + decimal(hours % 24) + "h"@
        } else if hours > 0 {
            decimal(hours) + "h "@ + decimal(minutes) + "m"@
        } else {
            decimal(minutes) + "m"@
        }
    }
}

fn two_units(a: u64, first: &str, b: u64, second: &str) -> (r: String)
    ensures
        r@ == decimal(a as nat) + first@ + decimal(b as nat) + second@,
{
    let mut r: String = concat(decimal_string(a).as_str(), first);
    r.push_str(decimal_string(b).as_str());
    r.push_str(second);
    r
}

/// How long it is until a reset.
pub fn format_reset_time(reset_at: u64, now: u64) -> (r: String)
    ensures
        r@ == reset_text(reset_at as nat, now as nat),
{
    if reset_at == 0 {
        return "".to_owned();
    }
    if reset_at <= now {
        return "now".to_owned();
    }
    let remaining: u64 = reset_at - now;
    let hours: u64 = remaining / 3600;
    let minutes: u64 = (remaining % 3600) / 60;
    if hours > 24 {
        two_units(hours / 24, "d ", hours % 24, "h")
    } else if hours > 0 {
        two_units(hours, "h ", minutes, "m")
    } else {
        concat(decimal_string(minutes).as_str(), "m")
    }
}

/// The label of a window's row: `Rate Limit (5h)`.
pub fn window_row_label(label: &str, window: &RateLimitWindow) -> (r: String)
    ensures
        r@ == label@ + " ("@ + window_label(window.window_seconds as nat) + ")"@,
{
    let mut r: String = concat3(label, " (", format_window_label(window.window_seconds));
    r.push_str(")");
    r
}

/// A window is read as it was told: its share, its length in seconds or in minutes,
/// and when its limit is lifted.
pub proof fn windows_are_read_as_told(
    window: Option<RateLimitWindow>,
    document: Json,
    now: u64,
    percent: u64,
    length: u64,
    reset_at: u64,
)
    requires
        is_window(window, document, now),
        document.field("used_percent"@) == Some(Json::Number(JsonNumber::Unsigned(percent))),
        count_field(document, "reset_at"@) == Some(reset_at),
    ensures
        window matches Some(w) && {
            &&& w.used_percent == percent
            &&& w.reset_at == reset_at
            &&& count_field(document, "limit_window_seconds"@) == Some(length)
                ==> w.window_seconds == length
            &&& count_field(document, "limit_window_seconds"@) is None && count_field(
                document,
                "window_minutes"@,
            ) == Some(length) && length <= 1_000_000_000 ==> w.window_seconds == 60 * length
            &&& w.window_seconds > 0 && w.reset_at > 0 ==> w.elapsed_seconds is Some
            &&& w.elapsed_seconds matches Some(elapsed) ==> {
                &&& elapsed <= w.window_seconds
                &&& now <= reset_at && reset_at - now <= w.window_seconds ==> elapsed + (reset_at
                    - now) == w.window_seconds
                &&& now >= reset_at ==> elapsed == w.window_seconds
            }
        },
{
}

/// A document that does not tell the share has no window.
pub proof fn windows_tell_their_share(window: Option<RateLimitWindow>, document: Json, now: u64)
    requires
        is_window(window, document, now),
    ensures
        window is Some <==> (document.field("used_percent"@) matches Some(share) && share
            is Number),
{
}

/// Each window of an answer is read from its own place, and so is the plan.
pub proof fn answers_are_read_from_their_places(
    r: UsageData,
    document: Json,
    limits: Json,
    found: Json,
    plan: Seq<char>,
    now: u64,
)
    requires
        is_response_usage(r, document, now),
        found is Object,
    ensures
        document.field_text("plan_type"@) == Some(plan) ==> r.plan_type@ == plan,
        document.field("rate_limit"@) == Some(limits) && limits.field("primary_window"@) == Some(
            found,
        ) ==> is_window(r.primary_window, found, now),
        document.field("rate_limit"@) == Some(limits) && limits.field("secondary_window"@) == Some(
            found,
        ) ==> is_window(r.secondary_window, found, now),
        document.field("code_review_rate_limit"@) == Some(limits) && limits.field(
            "primary_window"@,
        ) == Some(found) ==> is_window(r.review_primary, found, now),
        document.field("rate_limit"@) is None ==> r.primary_window is None
            && r.secondary_window is None,
        document.field("code_review_rate_limit"@) is None ==> r.review_primary is None,
        document.field("credits"@) is None ==> r.credits is None,
        document.field("credits"@) == Some(found) ==> (r.credits matches Some(credits) && {
            &&& credits.unlimited <==> (found.field("unlimited"@) matches Some(value)
                && value.truth() == Some(true))
            &&& credits.has_credits <==> (found.field("has_credits"@) matches Some(value)
                && value.truth() == Some(true))
            &&& found.field("balance"@) matches Some(Json::Number(n)) ==> credits.balance == Some(n)
        }),
{
}

/// The newest line of a session that tells a window is the one that counts: a line
/// that tells one outweighs all before it, and one that tells none changes nothing.
pub proof fn newest_limits_count(lines: Seq<Seq<char>>, line: Seq<char>, document: Json, limits: Json)
    requires
        json_text(line) == Some(document),
    ensures
        limits_of(document) == Some(limits) && has_window(limits) ==> last_limits(
            lines.push(line),
            (lines.len() + 1) as int,
        ) == Some(limits),
        limits_of(document) is None || !has_window(limits_of(document)->0) ==> last_limits(
            lines.push(line),
            (lines.len() + 1) as int,
        ) == last_limits(lines, lines.len() as int),
{
    last_limits_of_front(lines, line, lines.len() as int);
    assert(lines.push(line)[lines.len() as int] == line);
}

proof fn last_limits_of_front(lines: Seq<Seq<char>>, line: Seq<char>, n: int)
    requires
        0 <= n <= lines.len(),
    ensures
        last_limits(lines.push(line), n) == last_limits(lines, n),
    decreases n,
{
    if n > 0 {
        last_limits_of_front(lines, line, n - 1);
        assert(lines.push(line)[n - 1] == lines[n - 1]);
    }
}

/// The plan of a session is the one that its limits tell, and failing that the one
/// of the token.
pub proof fn told_plans_outweigh_tokens(
    r: UsageData,
    limits: Json,
    token: Seq<char>,
    now: u64,
    plan: Seq<char>,
)
    requires
        is_session_usage(r, limits, token, now),
    ensures
        limits.field_text("plan_type"@) == Some(plan) ==> r.plan_type@ == plan,
        limits.field_text("plan_type"@) is None && plan_of_token(token) == Some(plan)
            ==> r.plan_type@ == plan,
        r.review_primary is None,
{
}

/// A higher share is never calmer, and calls for more above three and above four
/// fifths.
pub proof fn severity_grows(a: u64, b: u64)
    requires
        a <= b,
    ensures
        severity_of(a) is Critical ==> severity_of(b) is Critical,
        severity_of(a) is Warning ==> !(severity_of(b) is Normal),
        severity_of(b) is Normal <==> b <= 60,
        severity_of(b) is Critical <==> b > 80,
{
}

/// A window of some hours has as many parts, and so has one of some days; the usual
/// windows have their usual names.
pub proof fn windows_have_their_parts(hours: nat, days: nat)
    ensures
        2 <= hours <= 12 ==> segments_model(3600 * hours) == hours,
        2 <= days <= 14 ==> segments_model(86400 * days) == days,
        segments_model(3600) == 1,
        window_label(3600) == "1h"@,
        window_label(18000) == "5h"@,
        window_label(86400) == "1d"@,
        window_label(604800) == "7d"@,
{
    assert((3600 * hours) / 3600 == hours) by (nonlinear_arith)
        requires
            hours >= 0,
    ;
    assert((86400 * days) / 86400 == days) by (nonlinear_arith)
        requires
            days >= 0,
    ;
}

/// The time until a limit is lifted is told as hours and minutes up to a day, as
/// minutes alone below an hour, and not at all where it is unknown.
pub proof fn remaining_time_is_told(now: nat, hours: nat, minutes: nat, seconds: nat)
    requires
        0 < hours <= 24,
        minutes < 60,
        seconds < 60,
    ensures
        reset_text(now + 3600 * hours + 60 * minutes + seconds, now) == decimal(hours) + "h "@
            + decimal(minutes) + "m"@,
        minutes > 0 ==> reset_text(now + 60 * minutes + seconds, now) == decimal(minutes) + "m"@,
        now > 0 ==> reset_text(now, now) == "now"@,
        reset_text(0, now) == ""@,
{
    let left = 3600 * hours + 60 * minutes + seconds;
    assert(left / 3600 == hours && left % 3600 == 60 * minutes + seconds) by (nonlinear_arith)
        requires
            left == 3600 * hours + 60 * minutes + seconds,
            minutes < 60,
            seconds < 60,
    ;
    assert((60 * minutes + seconds) / 60 == minutes) by (nonlinear_arith)
        requires
            seconds < 60,
    ;
    assert((60 * minutes + seconds) / 3600 == 0);
    assert((60 * minutes + seconds) % 3600 == 60 * minutes + seconds);
}

/// The claims of a token are what its second part holds, and the plan is what they
/// tell under the name of the service.
pub proof fn second_part_holds_the_claims(
    header: Seq<char>,
    payload: Seq<char>,
    signature: Seq<char>,
    bytes: Seq<u8>,
    claims: Json,
    auth: Json,
    plan: Seq<char>,
)
    requires
        !header.contains('.') && !payload.contains('.') && !signature.contains('.'),
        base64_bytes(payload) == Some(bytes),
        json_bytes_outcome(bytes) == Ok::<Json, Seq<char>>(claims),
        claims.field("https://api.openai.com/auth"@) == Some(auth),
        auth.field_text("chatgpt_plan_type"@) == Some(plan),
    ensures
        claims_of(join_seq(seq![header, payload, signature], "."@)) == Some(claims),
        plan_of_token(join_seq(seq![header, payload, signature], "."@)) == Some(plan),
{
    reveal_strlit(".");
    assert("."@ == seq!['.']);
    join_splits_back(seq![header, payload, signature], '.');
}

/// A line of a session tells limits just where it is an event that counts tokens and
/// has them.
pub proof fn only_token_counts_tell_limits(line: Json, payload: Json, limits: Json)
    requires
        line.field("payload"@) == Some(payload),
    ensures
        line.field_text("type"@) == Some("event_msg"@) && payload.field_text("type"@) == Some(
            "token_count"@,
        ) && payload.field("rate_limits"@) == Some(limits) && limits is Object ==> limits_of(line)
            == Some(limits),
        line.field_text("type"@) != Some("event_msg"@) ==> limits_of(line) is None,
        payload.field_text("type"@) != Some("token_count"@) ==> limits_of(line) is None,
        payload.field("rate_limits"@) is None ==> limits_of(line) is None,
{
}

/// Limits tell a window where either of the two has a share.
pub proof fn either_window_is_enough(limits: Json, window: Json)
    requires
        window is Object,
        window.field("used_percent"@) is Some,
        window.field("used_percent"@)->0 is Number,
    ensures
        limits.field("primary"@) == Some(window) ==> has_window(limits),
        limits.field("secondary"@) == Some(window) ==> has_window(limits),
        limits.field("primary"@) is None && limits.field("secondary"@) is None ==> !has_window(
            limits,
        ),
{
}

/// A pace is spoken of only where it is too fast, and the faster one otherwise than
/// the fast one.
pub proof fn paces_are_spoken_of()
    ensures
        pace_text(Severity::Normal) is None,
        pace_text(Severity::Warning) is Some,
        pace_text(Severity::Critical) is Some,
        pace_text(Severity::Warning) != pace_text(Severity::Critical),
{
    reveal_strlit("Slow down to last the period");
    reveal_strlit("Ahead of pace");
    assert("Slow down to last the period"@.len() != "Ahead of pace"@.len());
}

/// From more than a day on the time until a limit is lifted is told as days and hours.
pub proof fn remaining_days_are_told(now: nat, days: nat, hours: nat, seconds: nat)
    requires
        days > 0,
        hours < 24,
        24 * days + hours > 24,
        seconds < 3600,
    ensures
        reset_text(now + 86400 * days + 3600 * hours + seconds, now) == decimal(days) + "d "@
            + decimal(hours) + "h"@,
{
    let left = 86400 * days + 3600 * hours + seconds;
    let all = 24 * days + hours;
    assert(left / 3600 == all) by (nonlinear_arith)
        requires
            left == 3600 * all + seconds,
            seconds < 3600,
    ;
    assert(all / 24 == days && all % 24 == hours) by (nonlinear_arith)
        requires
            all == 24 * days + hours,
            hours < 24,
    ;
}

/// Each window of a session is read from its own place.
pub proof fn sessions_are_read_from_their_places(
    r: UsageData,
    limits: Json,
    found: Json,
    token: Seq<char>,
    now: u64,
)
    requires
        is_session_usage(r, limits, token, now),
        found is Object,
    ensures
        limits.field("primary"@) == Some(found) ==> is_window(r.primary_window, found, now),
        limits.field("secondary"@) == Some(found) ==> is_window(r.secondary_window, found, now),
        limits.field("primary"@) is None ==> r.primary_window is None,
        limits.field("secondary"@) is None ==> r.secondary_window is None,
{
}

/// A bar has no more parts than it has room for: twelve within a day, fourteen beyond it.
pub proof fn parts_are_bounded(window_seconds: nat)
    ensures
        1 <= segments_model(window_seconds) <= 14,
        window_seconds <= 86400 ==> segments_model(window_seconds) <= 12,
        window_seconds > 3600 ==> segments_model(window_seconds) >= 2,
        window_seconds >= 14 * 86400 ==> segments_model(window_seconds) == 14,
{
}

} // verus!
