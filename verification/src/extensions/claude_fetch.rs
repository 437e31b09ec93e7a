//! Asking for the usage of the assistant: where the token is looked for, what is
//! asked, and when to ask again.

use crate::extensions::claude::{
    access_token, extract_access_token, is_usage, parse_usage, read_response, retry_secs_model,
    AssistantNames, FetchOutcome, UsageData, WakeGate, HOVER_REFETCH_SECS,
};
use crate::extensions::poll::{delay_model, Poll};
use crate::http::{
    bare_request, header_value, is_success_status, HttpRequest, HttpResponse, Method, RequestModel,
};
use crate::json::json_text;
use crate::path::{components_seq, same_path};
use crate::process::command::{
    bare_command, CommandModel, CommandOutput, CommandSpec, ThreadLane,
};
use crate::text::{text_lossy, trim, trim_seq, utf8_lossy};
use vstd::prelude::*;

verus! {

broadcast use vstd::string::group_string_axioms;

// ---------------------------------------------------------------------------
// The token
// ---------------------------------------------------------------------------

/// The command that asks the keychain for what a service keeps for a user.
pub fn keychain_command(service: &str, user: &str, thread: &ThreadLane) -> (r: CommandSpec)
    ensures
        r.deep_view() == (CommandModel {
            args: seq!["find-generic-password"@, "-s"@, service@, "-a"@, user@, "-w"@],
            ..bare_command("security"@, thread.lane)
        }),
{
    let r: CommandSpec = CommandSpec::new("security", thread).arg("find-generic-password").arg(
        "-s",
    ).arg(service).arg("-a").arg(user).arg("-w");
    assert(r.deep_view().args == seq![
        "find-generic-password"@,
        "-s"@,
        service@,
        "-a"@,
        user@,
        "-w"@,
    ]);
    r
}

/// The token in a credentials text.
pub open spec fn token_in(text: Seq<char>, now_ms: u64) -> Option<Seq<char>> {
    match json_text(text) {
        Some(document) => access_token(document, now_ms),
        None => None,
    }
}

/// The token in what the keychain printed, where it found something.
pub open spec fn token_printed(output: CommandOutput, now_ms: u64) -> Option<Seq<char>> {
    if output.code == Some(0i32) {
        token_in(trim_seq(utf8_lossy(output.stdout@)), now_ms)
    } else {
        None
    }
}

/// The token in the first answer from the `from`-th on that holds one. A command
/// that could not be run ends the search.
pub open spec fn first_token(
    answers: Seq<Option<CommandOutput>>,
    from: int,
    now_ms: u64,
) -> Option<Seq<char>>
    decreases answers.len() - from,
{
    if from < 0 || from >= answers.len() {
        None
    } else {
        match answers[from] {
            Some(output) => match token_printed(output, now_ms) {
                Some(token) => Some(token),
                None => first_token(answers, from + 1, now_ms),
            },
            None => None,
        }
    }
}

/// The token: the one in the credentials file, else the one in the keychain.
/// `answers` are what the keychain said of each service in turn; `None` is a
/// command that could not be run.
pub fn read_access_token(
    file: Option<&str>,
    answers: &Vec<Option<CommandOutput>>,
    now_ms: u64,
) -> (r: Option<String>)
    ensures
        r.deep_view() == ({
            let saved = match file.deep_view() {
                Some(text) => token_in(text, now_ms),
                None => None,
            };
            match saved {
                Some(token) => Some(token),
                None => first_token(answers@, 0, now_ms),
            }
        }),
{
    if let Some(text) = file {
        if let Some(token) = extract_access_token(text, now_ms) {
            return Some(token);
        }
    }
    let mut i: usize = 0;
    while i < answers.len()
        invariant
            i <= answers@.len(),
            first_token(answers@, 0, now_ms) == first_token(answers@, i as int, now_ms),
            match file.deep_view() {
                Some(text) => token_in(text, now_ms) is None,
                None => true,
            },
        decreases answers@.len() - i,
    {
        let output: &CommandOutput = match &answers[i] {
            Some(output) => output,
            None => return None,
        };
        if output.success() {
            let text: String = text_lossy(&output.stdout);
            if let Some(token) = extract_access_token(trim(text.as_str()).as_str(), now_ms) {
                return Some(token);
            }
        }
        i = i + 1;
    }
    None
}

// ---------------------------------------------------------------------------
// The request
// ---------------------------------------------------------------------------

/// The request for the usage.
pub open spec fn usage_request_model(token: Seq<char>, names: AssistantNames) -> RequestModel {
    RequestModel {
        headers: seq![
            ("Authorization"@, "Bearer "@ + token),
            ("anthropic-beta"@, "oauth-2025-04-20"@),
        ],
        timeout_ms: Some(10000),
        label: Some(names.label@),
        min_interval: Some(5000000000),
        ..bare_request(Method::Get, "https://api.anthropic.com/api/oauth/usage"@)
    }
}

/// The request for the usage. Requests are minutes apart; the rate floor only
/// stops a loop that has run away.
pub fn usage_request(token: &str, names: &AssistantNames) -> (r: HttpRequest)
    ensures
        r.deep_view() == usage_request_model(token@, *names),
{
    let r: HttpRequest = HttpRequest::get("https://api.anthropic.com/api/oauth/usage").bearer(
        token,
    ).header("anthropic-beta", "oauth-2025-04-20").timeout(10000).label(
        names.label.as_str(),
    ).min_interval(5000000000);
    assert(r.deep_view().headers == usage_request_model(token@, *names).headers);
    r
}

// ---------------------------------------------------------------------------
// Again and again
// ---------------------------------------------------------------------------

/// The usage that is shown, and when to ask again.
#[derive(Debug, PartialEq, Eq)]
pub struct ClaudeUsageData {
    pub data: Option<UsageData>,
    /// The directory that the credentials are looked for in.
    pub dir: String,
    /// When the last request succeeded, in seconds.
    pub fetched_at: Option<u64>,
    pub gate: WakeGate,
    pub poll: Poll,
}

/// Whether an answer holds the usage.
pub open spec fn holds_usage(answer: Option<HttpResponse>) -> bool {
    answer matches Some(response) && response.view().status != 429 && is_success_status(
        response.view().status,
    ) && json_text(utf8_lossy(response.view().body)) is Some
}

/// The wait that an answer asks for.
pub open spec fn asked_wait(answer: Option<HttpResponse>) -> Option<nat> {
    match answer {
        Some(response) => if response.view().status == 429 {
            Some(retry_secs_model(header_value(response.view().headers, "retry-after"@)))
        } else {
            None
        },
        None => None,
    }
}

impl ClaudeUsageData {
    /// Before the first request.
    pub fn new(dir: String) -> (r: ClaudeUsageData)
        ensures
            r.data is None,
            r.dir@ == dir@,
            r.fetched_at is None,
            !r.gate.sent,
            r.poll.failures == 0,
    {
        ClaudeUsageData {
            data: None,
            dir,
            fetched_at: None,
            gate: WakeGate { sent: false },
            poll: Poll::new(),
        }
    }

    /// The settings changed. Says whether to wake the poll: where the directory
    /// is another now, and the poll was not woken since the last success.
    pub fn settings_changed(&mut self, dir: String) -> (r: bool)
        ensures
            ({
                let same = components_seq(old(self).dir@) == components_seq(dir@);
                &&& final(self).dir@ == (if same {
                    old(self).dir@
                } else {
                    dir@
                })
                &&& r == (!same && !old(self).gate.sent)
                &&& final(self).gate.sent == (!same || old(self).gate.sent)
            }),
            final(self).data == old(self).data,
            final(self).fetched_at == old(self).fetched_at,
            final(self).poll == old(self).poll,
    {
        if same_path(self.dir.as_str(), dir.as_str()) {
            return false;
        }
        self.dir = dir;
        self.gate.wake()
    }

    /// The popover opened. Says whether to wake the poll: where the data is old
    /// or there is none, and the poll was not woken since the last success.
    pub fn request_fresh_fetch(&mut self, now: u64) -> (r: bool)
        ensures
            ({
                let stale = match old(self).fetched_at {
                    Some(at) => now - at >= HOVER_REFETCH_SECS,
                    None => true,
                };
                &&& r == (stale && !old(self).gate.sent)
                &&& final(self).gate.sent == (stale || old(self).gate.sent)
            }),
            final(self).data == old(self).data,
            final(self).dir == old(self).dir,
            final(self).fetched_at == old(self).fetched_at,
            final(self).poll == old(self).poll,
    {
        let age: Option<u64> = match self.fetched_at {
            Some(at) => Some(
                if now >= at {
                    now - at
                } else {
                    0
                },
            ),
            None => None,
        };
        self.gate.request_fresh_fetch(age)
    }

    /// A view has nothing to show. Says whether to wake the poll: once until the
    /// next success.
    pub fn wake_if_no_data(&mut self) -> (r: bool)
        ensures
            r == !old(self).gate.sent,
            final(self).gate.sent,
            final(self).data == old(self).data,
            final(self).dir == old(self).dir,
            final(self).fetched_at == old(self).fetched_at,
            final(self).poll == old(self).poll,
    {
        self.gate.wake()
    }

    /// Takes in the answer to a request at `now`, and says how many seconds to
    /// wait before the next. `None` is an answer that did not come, also for
    /// want of a token. Being woken shortens one wait, not the next.
    pub fn finish_fetch(&mut self, answer: Option<HttpResponse>, now: u64) -> (r: u64)
        ensures
            if holds_usage(answer) {
                &&& final(self).data matches Some(data)
                &&& is_usage(data, json_text(utf8_lossy(answer->0.view().body))->0)
                &&& final(self).fetched_at == Some(now)
                &&& !final(self).gate.sent
                &&& final(self).poll.failures == 0
            } else {
                &&& final(self).data == old(self).data
                &&& final(self).fetched_at == old(self).fetched_at
                &&& final(self).gate == old(self).gate
                &&& final(self).poll.failures == (if old(self).poll.failures == u32::MAX {
                    u32::MAX as int
                } else {
                    old(self).poll.failures + 1
                })
            },
            final(self).dir == old(self).dir,
            r == delay_model(
                final(self).poll.failures,
                match asked_wait(answer) {
                    Some(secs) => Some(secs as u64),
                    None => None,
                },
            ),
    {
        let response: HttpResponse = match answer {
            Some(response) => response,
            None => return self.poll.after_request(false, None),
        };
        let body: String = response.text();
        match read_response(response.status(), response.header("retry-after"), body.as_str()) {
            FetchOutcome::Fetched(document) => {
                self.data = Some(parse_usage(&document));
                self.fetched_at = Some(now);
                self.gate.succeeded();
                self.poll.after_request(true, None)
            },
            FetchOutcome::RateLimited { retry_secs } => self.poll.after_request(
                false,
                Some(retry_secs),
            ),
            FetchOutcome::Failed => self.poll.after_request(false, None),
        }
    }
}

// ---------------------------------------------------------------------------
// Laws
// ---------------------------------------------------------------------------

/// The request for the usage bears the token, and goes to one address whatever the
/// token is; two tokens never make the same request.
pub proof fn usage_requests_bear_the_token(a: Seq<char>, b: Seq<char>, names: AssistantNames)
    ensures
        usage_request_model(a, names).headers.contains(("Authorization"@, "Bearer "@ + a)),
        usage_request_model(a, names).url == usage_request_model(b, names).url,
        "https://"@.is_prefix_of(usage_request_model(a, names).url),
        usage_request_model(a, names) == usage_request_model(b, names) ==> a == b,
{
    let headers = usage_request_model(a, names).headers;
    assert(headers[0] == ("Authorization"@, "Bearer "@ + a));
    reveal_strlit("https://");
    reveal_strlit("https://api.anthropic.com/api/oauth/usage");
    assert("https://"@.is_prefix_of("https://api.anthropic.com/api/oauth/usage"@));
    if usage_request_model(a, names) == usage_request_model(b, names) {
        let prefix = "Bearer "@;
        assert(usage_request_model(b, names).headers[0] == ("Authorization"@, prefix + b));
        assert((prefix + a).skip(prefix.len() as int) == a);
        assert((prefix + b).skip(prefix.len() as int) == b);
    }
}

/// The first answer of the keychain with a token is the one that counts, as long as
/// every question before it was answered.
pub proof fn first_answer_with_a_token_counts(
    answers: Seq<Option<CommandOutput>>,
    from: int,
    i: int,
    token: Seq<char>,
    now_ms: u64,
)
    requires
        0 <= from <= i < answers.len(),
        forall|k: int|
            from <= k < i ==> (#[trigger] answers[k] matches Some(output) && token_printed(
                output,
                now_ms,
            ) is None),
        answers[i] is Some,
        token_printed(answers[i]->0, now_ms) == Some(token),
    ensures
        first_token(answers, from, now_ms) == Some(token),
    decreases i - from,
{
    if from < i {
        assert(answers[from] is Some);
        first_answer_with_a_token_counts(answers, from + 1, i, token, now_ms);
    }
}

/// A keychain that failed to answer gives no token, whatever it printed.
pub proof fn failed_commands_give_no_token(output: CommandOutput, now_ms: u64)
    requires
        output.code != Some(0i32),
    ensures
        token_printed(output, now_ms) is None,
{
}

/// An answer either holds the usage or asks to wait or does neither, never both;
/// only a refusal for too many requests asks to wait.
pub proof fn answers_are_told_apart(response: HttpResponse)
    ensures
        !(holds_usage(Some(response)) && asked_wait(Some(response)) is Some),
        asked_wait(Some(response)) is Some <==> response.view().status == 429,
        holds_usage(Some(response)) ==> 200 <= response.view().status < 300,
        200 <= response.view().status < 300 && json_text(utf8_lossy(response.view().body)) is Some
            ==> holds_usage(Some(response)),
        !holds_usage(None) && asked_wait(None) is None,
{
}

/// Requests for the usage are given up after ten seconds and are at least five apart, under
/// the label of the assistant.
pub proof fn usage_requests_are_held_apart(token: Seq<char>, names: AssistantNames)
    ensures
        usage_request_model(token, names).timeout_ms == Some(10_000u64),
        usage_request_model(token, names).min_interval == Some(5_000_000_000u64),
        usage_request_model(token, names).label == Some(names.label@),
        usage_request_model(token, names).method is Get,
        usage_request_model(token, names).throttle_key() == names.label@,
{
}

} // verus!
