//! Asking for the usage of Codex: first the service, with a new token where the
//! saved one is refused, then the session files that the client leaves behind.

use crate::extensions::codex_usage::{
    client_id, is_response_usage, read_new_tokens, refresh_form, usage_from_response, CodexAuth,
    UsageData,
};
use crate::extensions::poll::{delay_model, Poll};
use crate::http::{
    bare_request, is_success_status, Body, HttpRequest, HttpResponse, Method, RequestModel,
};
use crate::json::{json_bytes_outcome, Json};
use crate::path::{extension, extension_seq};
use crate::text::{
    comes_before, less, order_is_total, order_is_transitive, same, split, split_seq,
};
use vstd::prelude::*;

verus! {

broadcast use vstd::string::group_string_axioms;

// ---------------------------------------------------------------------------
// Requests
// ---------------------------------------------------------------------------

/// The request for the usage.
pub open spec fn usage_request_model(token: Seq<char>, account: Seq<char>) -> RequestModel {
    RequestModel {
        headers: seq![("Authorization"@, "Bearer "@ + token), ("chatgpt-account-id"@, account)],
        timeout_ms: Some(10000),
        label: Some("codex.usage"@),
        ..bare_request(Method::Get, "https://chatgpt.com/backend-api/codex/usage"@)
    }
}

/// The request for the usage. It has no rate floor: a refused token is renewed
/// and tried again at once.
pub fn usage_request(token: &str, account: &str) -> (r: HttpRequest)
    ensures
        r.deep_view() == usage_request_model(token@, account@),
{
    let r: HttpRequest = HttpRequest::get("https://chatgpt.com/backend-api/codex/usage").bearer(
        token,
    ).header("chatgpt-account-id", account).timeout(10000).label("codex.usage");
    assert(r.deep_view().headers == usage_request_model(token@, account@).headers);
    r
}

/// Whether a request asks for a new token.
pub open spec fn is_refresh_request(request: HttpRequest, auth: CodexAuth) -> bool {
    &&& request.deep_view() == (RequestModel {
        body: request.body,
        timeout_ms: Some(10000),
        label: Some("codex.token-refresh"@),
        ..bare_request(Method::Post, "https://auth.openai.com/oauth/token"@)
    })
    &&& request.body matches Body::Raw { content_type, bytes }
    &&& content_type@ == "application/x-www-form-urlencoded"@
    &&& bytes@ == vstd::utf8::encode_utf8(
        "grant_type=refresh_token&client_id="@ + client_id() + "&refresh_token="@
            + auth.refresh_token@,
    )
}

/// The request for a new token.
pub fn refresh_request(auth: &CodexAuth) -> (r: HttpRequest)
    ensures
        is_refresh_request(r, *auth),
{
    let form: String = refresh_form(auth);
    HttpRequest::post("https://auth.openai.com/oauth/token").body(
        "application/x-www-form-urlencoded",
        form.as_str(),
    ).timeout(10000).label("codex.token-refresh")
}

// ---------------------------------------------------------------------------
// Step by step
// ---------------------------------------------------------------------------

/// Which request was made.
#[derive(Clone, Copy, Debug, PartialEq, Eq, Structural)]
pub enum Attempt {
    /// With the saved token.
    Saved,
    /// With a new token.
    Refreshed,
}

/// What follows a request.
#[derive(Debug, PartialEq, Eq)]
pub enum FetchStep {
    /// Ask for the usage.
    Ask(Attempt, HttpRequest),
    /// Ask for a new token.
    RefreshToken(HttpRequest),
    /// Read the session files instead.
    ReadSessions,
    /// This is the usage; `None` where there is none to be had.
    Done(Option<UsageData>),
}

/// The first step; nothing is asked without credentials.
pub fn fetch_usage(auth: &Option<CodexAuth>) -> (r: FetchStep)
    ensures
        match auth {
            Some(auth) => r matches FetchStep::Ask(Attempt::Saved, request) && request.deep_view()
                == usage_request_model(auth.access_token@, auth.account_id@),
            None => r == FetchStep::Done(None),
        },
{
    match auth {
        Some(auth) => FetchStep::Ask(
            Attempt::Saved,
            usage_request(auth.access_token.as_str(), auth.account_id.as_str()),
        ),
        None => FetchStep::Done(None),
    }
}

/// Whether `r` is the step after an answer to the request for the usage; `None` is
/// an answer that did not come. Only a refused saved token is worth a new one.
pub open spec fn is_usage_step(
    r: FetchStep,
    auth: CodexAuth,
    attempt: Attempt,
    answer: Option<HttpResponse>,
    now: u64,
) -> bool {
    match answer {
        Some(response) => if is_success_status(response.view().status) {
            match json_bytes_outcome(response.view().body) {
                Ok(document) => r matches FetchStep::Done(Some(usage)) && is_response_usage(
                    usage,
                    document,
                    now,
                ),
                Err(_) => r == FetchStep::Done(None),
            }
        } else if response.view().status == 401 && attempt == Attempt::Saved {
            r matches FetchStep::RefreshToken(request) && is_refresh_request(request, auth)
        } else {
            r == FetchStep::ReadSessions
        },
        None => r == FetchStep::ReadSessions,
    }
}

/// The step after an answer to the request for the usage.
pub fn after_usage_request(
    auth: &CodexAuth,
    attempt: Attempt,
    answer: Option<HttpResponse>,
    now: u64,
) -> (r: FetchStep)
    ensures
        is_usage_step(r, *auth, attempt, answer, now),
{
    let response: HttpResponse = match answer {
        Some(response) => response,
        None => return FetchStep::ReadSessions,
    };
    if response.is_success() {
        return match response.json() {
            Ok(document) => FetchStep::Done(Some(usage_from_response(&document, now))),
            Err(_) => FetchStep::Done(None),
        };
    }
    if response.status() == 401 && attempt == Attempt::Saved {
        return FetchStep::RefreshToken(refresh_request(auth));
    }
    FetchStep::ReadSessions
}

/// The access token that an answer brings, whatever its status code.
pub open spec fn token_of_answer(answer: Option<HttpResponse>) -> Option<Seq<char>> {
    match answer {
        Some(response) => match json_bytes_outcome(response.view().body) {
            Ok(document) => document.field_text("access_token"@),
            Err(_) => None,
        },
        None => None,
    }
}

/// The step after an answer to the request for a new token, and the tokens to
/// save: the access token, and the refresh token where the answer brings one.
/// Without a new token there is no usage.
pub fn after_token_request(auth: &CodexAuth, answer: Option<HttpResponse>) -> (r: (
    FetchStep,
    Option<(String, Option<String>)>,
))
    ensures
        match token_of_answer(answer) {
            Some(token) => {
                &&& r.0 matches FetchStep::Ask(Attempt::Refreshed, request)
                &&& request.deep_view() == usage_request_model(token, auth.account_id@)
                &&& r.1 matches Some((access, refresh))
                &&& access@ == token
                &&& refresh.deep_view() == json_bytes_outcome(answer->0.view().body)->Ok_0.field_text(
                    "refresh_token"@,
                )
            },
            None => r.0 == FetchStep::Done(None) && r.1 is None,
        },
{
    let document: Json = match answer {
        Some(response) => match response.json() {
            Ok(document) => document,
            Err(_) => return (FetchStep::Done(None), None),
        },
        None => return (FetchStep::Done(None), None),
    };
    match read_new_tokens(&document) {
        Some((access, refresh)) => {
            let request: HttpRequest = usage_request(access.as_str(), auth.account_id.as_str());
            (FetchStep::Ask(Attempt::Refreshed, request), Some((access, refresh)))
        },
        None => (FetchStep::Done(None), None),
    }
}

/// A new token is asked for at most once: what is refused again is not renewed
/// again.
pub proof fn tokens_are_renewed_once(
    r: FetchStep,
    auth: CodexAuth,
    answer: Option<HttpResponse>,
    now: u64,
)
    requires
        is_usage_step(r, auth, Attempt::Refreshed, answer, now),
    ensures
        r is ReadSessions || r is Done,
{
}

// ---------------------------------------------------------------------------
// Session files
// ---------------------------------------------------------------------------

/// Whether one list of names comes before another: by the first name in which
/// they differ.
pub open spec fn names_before(a: Seq<Seq<char>>, b: Seq<Seq<char>>) -> bool
    decreases a.len(),
{
    if b.len() == 0 {
        false
    } else if a.len() == 0 {
        true
    } else if a[0] != b[0] {
        comes_before(a[0], b[0])
    } else {
        names_before(a.skip(1), b.skip(1))
    }
}

/// Whether one path comes before another, name by name.
pub open spec fn path_before(a: Seq<char>, b: Seq<char>) -> bool {
    names_before(split_seq(a, "/"@), split_seq(b, "/"@))
}

proof fn names_are_transitive(a: Seq<Seq<char>>, b: Seq<Seq<char>>, c: Seq<Seq<char>>)
    requires
        !names_before(b, a),
        !names_before(c, b),
    ensures
        !names_before(c, a),
    decreases a.len(),
{
    if a.len() > 0 && b.len() > 0 && c.len() > 0 {
        order_is_total(a[0], b[0]);
        order_is_total(b[0], c[0]);
        order_is_total(a[0], c[0]);
        if a[0] == b[0] && b[0] == c[0] {
            names_are_transitive(a.skip(1), b.skip(1), c.skip(1));
        } else {
            order_is_transitive(a[0], b[0], c[0]);
        }
    }
}

fn is_path_before(a: &str, b: &str) -> (r: bool)
    ensures
        r == path_before(a@, b@),
{
    proof {
        reveal_strlit("/");
    }
    let x: Vec<String> = split(a, "/");
    let y: Vec<String> = split(b, "/");
    let ghost p = x.deep_view();
    let ghost q = y.deep_view();
    let mut i: usize = 0;
    assert(p.skip(0) == p && q.skip(0) == q);
    while i < x.len() && i < y.len()
        invariant
            i <= x@.len(),
            i <= y@.len(),
            p == x.deep_view(),
            p == split_seq(a@, "/"@),
            q == y.deep_view(),
            q == split_seq(b@, "/"@),
            names_before(p.skip(i as int), q.skip(i as int)) == names_before(p, q),
        decreases x@.len() - i,
    {
        assert(p.skip(i as int).skip(1) == p.skip(i + 1));
        assert(q.skip(i as int).skip(1) == q.skip(i + 1));
        assert(p[i as int] == x@[i as int]@ && q[i as int] == y@[i as int]@);
        if !same(x[i].as_str(), y[i].as_str()) {
            return less(x[i].as_str(), y[i].as_str());
        }
        i = i + 1;
    }
    i < y.len()
}

/// Whether a path names a session file.
pub open spec fn is_session_file(path: Seq<char>) -> bool {
    extension_seq(path) == Some("jsonl"@)
}

/// Whether the last path comes first: none follows one that it comes after.
pub open spec fn latest_first(paths: Seq<Seq<char>>) -> bool {
    forall|i: int, j: int|
        0 <= i < j < paths.len() ==> !path_before(#[trigger] paths[i], #[trigger] paths[j])
}

/// The session files among `files`, the latest first: their paths hold the date.
pub fn session_files(files: &Vec<String>) -> (r: Vec<String>)
    ensures
        latest_first(r.deep_view()),
        r.deep_view().to_multiset() == files.deep_view().filter(
            |path: Seq<char>| is_session_file(path),
        ).to_multiset(),
{
    let ghost all = files.deep_view();
    let ghost is_session = |path: Seq<char>| is_session_file(path);
    let mut sorted: Vec<String> = Vec::new();
    let mut i: usize = 0;
    proof {
        reveal(Seq::filter);
        assert(sorted.deep_view() == all.take(0).filter(is_session));
    }
    while i < files.len()
        invariant
            i <= files@.len(),
            all == files.deep_view(),
            is_session == (|path: Seq<char>| is_session_file(path)),
            latest_first(sorted.deep_view()),
            sorted.deep_view().to_multiset() == all.take(i as int).filter(
                is_session,
            ).to_multiset(),
        decreases files@.len() - i,
    {
        let ghost before = sorted.deep_view();
        let ghost path = all[i as int];
        assert(path == files@[i as int]@);
        proof {
            reveal(Seq::filter);
            assert(all.take(i + 1).drop_last() == all.take(i as int));
        }
        if is_jsonl(files[i].as_str()) {
            let mut at: usize = sorted.len();
            while at > 0 && is_path_before(sorted[at - 1].as_str(), files[i].as_str())
                invariant
                    i < files@.len(),
                    path == files@[i as int]@,
                    at <= sorted@.len(),
                    before == sorted.deep_view(),
                    forall|k: int|
                        at <= k < before.len() ==> path_before(#[trigger] before[k], path),
                ensures
                    at <= sorted@.len(),
                    at > 0 ==> !path_before(before[at - 1], path),
                    forall|k: int|
                        at <= k < before.len() ==> path_before(#[trigger] before[k], path),
                decreases at,
            {
                at = at - 1;
            }
            sorted.insert(at, files[i].clone());
            assert(sorted.deep_view() == before.insert(at as int, path));
            proof {
                inserted_in_order(before, path, at as int);
                assert(all.take(i + 1).filter(is_session) == all.take(i as int).filter(
                    is_session,
                ).push(path));
                inserted_once(before, path, at as int);
                vstd::seq_lib::to_multiset_build(all.take(i as int).filter(is_session), path);
            }
        }
        i = i + 1;
    }
    assert(all.take(all.len() as int) == all);
    sorted
}

proof fn names_are_asymmetric(a: Seq<Seq<char>>, b: Seq<Seq<char>>)
    requires
        names_before(a, b),
    ensures
        !names_before(b, a),
    decreases a.len(),
{
    if a.len() > 0 && b.len() > 0 {
        order_is_total(a[0], b[0]);
        if a[0] == b[0] {
            names_are_asymmetric(a.skip(1), b.skip(1));
        }
    }
}

proof fn inserted_in_order(paths: Seq<Seq<char>>, path: Seq<char>, at: int)
    requires
        latest_first(paths),
        0 <= at <= paths.len(),
        at > 0 ==> !path_before(paths[at - 1], path),
        forall|k: int| at <= k < paths.len() ==> path_before(#[trigger] paths[k], path),
    ensures
        latest_first(paths.insert(at, path)),
{
    let result = paths.insert(at, path);
    assert forall|i: int, j: int| 0 <= i < j < result.len() implies !path_before(
        #[trigger] result[i],
        #[trigger] result[j],
    ) by {
        if j < at {
            assert(result[i] == paths[i] && result[j] == paths[j]);
        } else if j == at {
            assert(result[i] == paths[i] && result[j] == path);
            if i < at - 1 {
                names_are_transitive(
                    split_seq(path, "/"@),
                    split_seq(paths[at - 1], "/"@),
                    split_seq(paths[i], "/"@),
                );
            }
        } else if i < at {
            assert(result[i] == paths[i] && result[j] == paths[j - 1]);
        } else if i == at {
            assert(result[i] == path && result[j] == paths[j - 1]);
            names_are_asymmetric(split_seq(paths[j - 1], "/"@), split_seq(path, "/"@));
        } else {
            assert(result[i] == paths[i - 1] && result[j] == paths[j - 1]);
        }
    }
}

proof fn inserted_once(paths: Seq<Seq<char>>, path: Seq<char>, at: int)
    requires
        0 <= at <= paths.len(),
    ensures
        paths.insert(at, path).to_multiset() == paths.to_multiset().insert(path),
{
    let result = paths.insert(at, path);
    result.to_multiset_ensures();
    assert(result.remove(at) == paths);
    assert(result[at] == path);
    assert(result.contains(path));
    assert(result.to_multiset().remove(path).insert(path) =~= result.to_multiset());
}

fn is_jsonl(path: &str) -> (r: bool)
    ensures
        r == is_session_file(path@),
{
    match extension(path) {
        Some(ext) => same(ext.as_str(), "jsonl"),
        None => false,
    }
}

// ---------------------------------------------------------------------------
// Again and again
// ---------------------------------------------------------------------------

/// The usage that is shown, and when to ask again.
#[derive(Debug, PartialEq, Eq)]
pub struct CodexUsageData {
    pub data: Option<UsageData>,
    pub poll: Poll,
}

impl CodexUsageData {
    /// Before the first request.
    pub fn new() -> (r: CodexUsageData)
        ensures
            r.data is None,
            r.poll.failures == 0,
    {
        CodexUsageData { data: None, poll: Poll::new() }
    }

    /// Takes in what a round brought, and says how many seconds to wait before
    /// the next. A round that brought nothing leaves the data as it was.
    pub fn finish_fetch(&mut self, fetched: Option<UsageData>) -> (r: u64)
        ensures
            final(self).data == (if fetched is Some {
                fetched
            } else {
                old(self).data
            }),
            final(self).poll.failures == (if fetched is Some {
                0
            } else if old(self).poll.failures == u32::MAX {
                u32::MAX as int
            } else {
                old(self).poll.failures + 1
            }),
            r == delay_model(final(self).poll.failures, None),
    {
        match fetched {
            Some(usage) => {
                self.data = Some(usage);
                self.poll.after_request(true, None)
            },
            None => self.poll.after_request(false, None),
        }
    }
}

// ---------------------------------------------------------------------------
// Laws
// ---------------------------------------------------------------------------

/// The request for the usage bears the token and names the account, and two tokens
/// or accounts never make the same request.
pub proof fn usage_requests_bear_the_token(
    a: Seq<char>,
    b: Seq<char>,
    account: Seq<char>,
    other: Seq<char>,
)
    ensures
        usage_request_model(a, account).headers.contains(("Authorization"@, "Bearer "@ + a)),
        usage_request_model(a, account).headers.contains(("chatgpt-account-id"@, account)),
        usage_request_model(a, account).url == usage_request_model(b, other).url,
        usage_request_model(a, account) == usage_request_model(b, other) ==> a == b && account
            == other,
{
    let headers = usage_request_model(a, account).headers;
    assert(headers[0] == ("Authorization"@, "Bearer "@ + a));
    assert(headers[1] == ("chatgpt-account-id"@, account));
    if usage_request_model(a, account) == usage_request_model(b, other) {
        let prefix = "Bearer "@;
        let others = usage_request_model(b, other).headers;
        assert(others[0] == ("Authorization"@, prefix + b));
        assert(others[1] == ("chatgpt-account-id"@, other));
        assert((prefix + a).skip(prefix.len() as int) == a);
        assert((prefix + b).skip(prefix.len() as int) == b);
    }
}

/// A saved token that is refused is renewed, with the token for that; without an
/// answer, or with another refusal, the session files are read; an answer that can
/// be read is the usage.
pub proof fn refused_tokens_are_renewed(
    r: FetchStep,
    auth: CodexAuth,
    attempt: Attempt,
    answer: Option<HttpResponse>,
    now: u64,
)
    requires
        is_usage_step(r, auth, attempt, answer, now),
    ensures
        r is RefreshToken <==> attempt is Saved && (answer matches Some(response)
            && response.view().status == 401),
        r matches FetchStep::RefreshToken(request) ==> is_refresh_request(request, auth),
        answer is None ==> r is ReadSessions,
        answer matches Some(response) ==> (200 <= response.view().status < 300
            ==> r is Done) && (r is Done ==> 200 <= response.view().status < 300),
        r matches FetchStep::Done(Some(usage)) ==> json_bytes_outcome(answer->0.view().body) is Ok
            && is_response_usage(usage, json_bytes_outcome(answer->0.view().body)->Ok_0, now),
{
}

/// A token is renewed only by an answer that tells one.
pub proof fn new_tokens_are_told(response: HttpResponse, document: Json, token: Seq<char>)
    requires
        json_bytes_outcome(response.view().body) == Ok::<Json, Seq<char>>(document),
    ensures
        document.field_text("access_token"@) == Some(token) ==> token_of_answer(Some(response))
            == Some(token),
        document.field_text("access_token"@) is None ==> token_of_answer(Some(response)) is None,
        token_of_answer(None) is None,
{
}

/// A request for a new token carries the token for that at its end, and two with the
/// same token are alike.
pub proof fn refresh_requests_carry_the_token(
    request: HttpRequest,
    other: HttpRequest,
    auth: CodexAuth,
    token: CodexAuth,
)
    requires
        is_refresh_request(request, auth),
        is_refresh_request(other, token),
        auth.refresh_token@ == token.refresh_token@,
    ensures
        request.method == Method::Post,
        request.url@ == other.url@,
        request.body matches Body::Raw { bytes, .. } && (other.body matches Body::Raw {
            bytes: others,
            ..
        } && bytes@ == others@),
        request.body matches Body::Raw { bytes, .. } && exists|form: Seq<char>|
            bytes@ == #[trigger] vstd::utf8::encode_utf8(form) && auth.refresh_token@.is_suffix_of(
                form,
            ),
{
    let form = "grant_type=refresh_token&client_id="@ + client_id() + "&refresh_token="@
        + auth.refresh_token@;
    assert(form.skip(form.len() - auth.refresh_token@.len()) == auth.refresh_token@);
    assert(auth.refresh_token@.is_suffix_of(form));
    assert(request.body->Raw_bytes@ == vstd::utf8::encode_utf8(form));
}

/// Session files are told by their extension alone.
pub proof fn session_files_have_their_extension(path: Seq<char>)
    ensures
        is_session_file(path) <==> extension_seq(path) == Some("jsonl"@),
        extension_seq(path) is None ==> !is_session_file(path),
{
}

} // verus!
