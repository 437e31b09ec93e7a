//! Requests to services: what is sent, how an answer is read, and how often a
//! caller may ask. Spans of time are nanoseconds unless said otherwise.

use crate::json::{json_bytes_outcome, parse_json_bytes, Json};
use crate::text::{
    ascii_lower_seq, concat, concat3, decimal, decimal_string, same, text_lossy, to_ascii_lower,
    utf8_lossy,
};
use crate::text_map::TextMap;
use vstd::prelude::*;
use vstd::string::StrSliceExecFns;

verus! {

broadcast use vstd::string::group_string_axioms;

/// The time that a request may take unless it says otherwise, in milliseconds.
pub const DEFAULT_TIMEOUT_MS: u64 = 30000;

/// How a request is made.
#[derive(Clone, Copy, Debug, PartialEq, Eq, Structural)]
pub enum Method {
    Get,
    Post,
}

impl Method {
    /// The method's name.
    pub open spec fn name(self) -> Seq<char> {
        match self {
            Method::Get => "GET"@,
            Method::Post => "POST"@,
        }
    }

    /// The method's name.
    pub fn as_str(self) -> (r: &'static str)
        ensures
            r@ == self.name(),
    {
        match self {
            Method::Get => "GET",
            Method::Post => "POST",
        }
    }
}

/// What a request carries.
#[derive(Debug, PartialEq, Eq)]
pub enum Body {
    Empty,
    Json(Json),
    Raw { content_type: String, bytes: Vec<u8> },
}

/// A request.
#[derive(Debug, PartialEq, Eq)]
pub struct HttpRequest {
    pub method: Method,
    pub url: String,
    pub headers: Vec<(String, String)>,
    pub body: Body,
    /// Milliseconds.
    pub timeout_ms: Option<u64>,
    pub user_agent: Option<String>,
    /// The caller's name in logs, and for the rate floor.
    pub label: Option<String>,
    /// The least time between two requests of the caller, in nanoseconds.
    pub min_interval: Option<u64>,
}

/// A [`HttpRequest`] with its texts as sequences; its body stays as it is.
pub struct RequestModel {
    pub method: Method,
    pub url: Seq<char>,
    pub headers: Seq<(Seq<char>, Seq<char>)>,
    pub body: Body,
    pub timeout_ms: Option<u64>,
    pub user_agent: Option<Seq<char>>,
    pub label: Option<Seq<char>>,
    pub min_interval: Option<u64>,
}

impl DeepView for HttpRequest {
    type V = RequestModel;

    open spec fn deep_view(&self) -> RequestModel {
        RequestModel {
            method: self.method,
            url: self.url@,
            headers: self.headers.deep_view(),
            body: self.body,
            timeout_ms: self.timeout_ms,
            user_agent: self.user_agent.deep_view(),
            label: self.label.deep_view(),
            min_interval: self.min_interval,
        }
    }
}

/// A request with nothing but its method and address.
pub open spec fn bare_request(method: Method, url: Seq<char>) -> RequestModel {
    RequestModel {
        method,
        url,
        headers: Seq::empty(),
        body: Body::Empty,
        timeout_ms: None,
        user_agent: None,
        label: None,
        min_interval: None,
    }
}

impl RequestModel {
    /// The headers that go out: the request's own, then its sender, then the type of
    /// its body.
    pub open spec fn sent_headers(self) -> Seq<(Seq<char>, Seq<char>)> {
        self.headers + (match self.user_agent {
            Some(agent) => seq![("user-agent"@, agent)],
            None => Seq::empty(),
        }) + (match self.body {
            Body::Raw { content_type, .. } => seq![("content-type"@, content_type@)],
            _ => Seq::empty(),
        })
    }

    /// What the rate floor knows a caller by: its label, or the address.
    pub open spec fn throttle_key(self) -> Seq<char> {
        match self.label {
            Some(label) => label,
            None => self.url,
        }
    }
}

impl HttpRequest {
    /// A request with nothing but its method and address.
    pub fn new(method: Method, url: &str) -> (r: HttpRequest)
        ensures
            r.deep_view() == bare_request(method, url@),
    {
        let r: HttpRequest = HttpRequest {
            method,
            url: url.to_owned(),
            headers: Vec::new(),
            body: Body::Empty,
            timeout_ms: None,
            user_agent: None,
            label: None,
            min_interval: None,
        };
        assert(r.deep_view().headers == bare_request(method, url@).headers);
        r
    }

    /// A request to read.
    pub fn get(url: &str) -> (r: HttpRequest)
        ensures
            r.deep_view() == bare_request(Method::Get, url@),
    {
        Self::new(Method::Get, url)
    }

    /// A request to send.
    pub fn post(url: &str) -> (r: HttpRequest)
        ensures
            r.deep_view() == bare_request(Method::Post, url@),
    {
        Self::new(Method::Post, url)
    }

    /// With one more header.
    pub fn header(self, name: &str, value: &str) -> (r: HttpRequest)
        ensures
            r.deep_view() == (RequestModel {
                headers: self.deep_view().headers.push((name@, value@)),
                ..self.deep_view()
            }),
    {
        let mut r: HttpRequest = self;
        let ghost before = r.headers.deep_view();
        r.headers.push((name.to_owned(), value.to_owned()));
        assert(r.headers.deep_view() == before.push((name@, value@)));
        r
    }

    /// With a bearer token.
    pub fn bearer(self, token: &str) -> (r: HttpRequest)
        ensures
            r.deep_view() == (RequestModel {
                headers: self.deep_view().headers.push(("Authorization"@, "Bearer "@ + token@)),
                ..self.deep_view()
            }),
    {
        let value: String = concat("Bearer ", token);
        self.header("Authorization", value.as_str())
    }

    /// With a JSON document.
    pub fn json(self, value: Json) -> (r: HttpRequest)
        ensures
            r.deep_view() == (RequestModel { body: Body::Json(value), ..self.deep_view() }),
    {
        let mut r: HttpRequest = self;
        r.body = Body::Json(value);
        r
    }

    /// With a text of some type.
    pub fn body(self, content_type: &str, body: &str) -> (r: HttpRequest)
        ensures
            r.body matches Body::Raw { content_type: told, bytes } && told@ == content_type@
                && bytes@ == vstd::utf8::encode_utf8(body@),
            r.deep_view() == (RequestModel { body: r.body, ..self.deep_view() }),
    {
        let mut r: HttpRequest = self;
        r.body = Body::Raw { content_type: content_type.to_owned(), bytes: body.as_bytes_vec() };
        r
    }

    /// With another limit on the time that it may take.
    pub fn timeout(self, timeout_ms: u64) -> (r: HttpRequest)
        ensures
            r.deep_view() == (RequestModel { timeout_ms: Some(timeout_ms), ..self.deep_view() }),
    {
        let mut r: HttpRequest = self;
        r.timeout_ms = Some(timeout_ms);
        r
    }

    /// Under another name.
    pub fn user_agent(self, agent: &str) -> (r: HttpRequest)
        ensures
            r.deep_view() == (RequestModel { user_agent: Some(agent@), ..self.deep_view() }),
    {
        let mut r: HttpRequest = self;
        r.user_agent = Some(agent.to_owned());
        r
    }

    /// With a label for its caller.
    pub fn label(self, label: &str) -> (r: HttpRequest)
        ensures
            r.deep_view() == (RequestModel { label: Some(label@), ..self.deep_view() }),
    {
        let mut r: HttpRequest = self;
        r.label = Some(label.to_owned());
        r
    }

    /// No sooner after the caller's last one.
    pub fn min_interval(self, interval: u64) -> (r: HttpRequest)
        ensures
            r.deep_view() == (RequestModel { min_interval: Some(interval), ..self.deep_view() }),
    {
        let mut r: HttpRequest = self;
        r.min_interval = Some(interval);
        r
    }

    /// What the rate floor knows the caller by.
    pub fn throttle_key(&self) -> (r: String)
        ensures
            r@ == self.deep_view().throttle_key(),
    {
        match &self.label {
            Some(label) => label.clone(),
            None => self.url.clone(),
        }
    }

    /// The request in logs.
    pub fn audit_detail(&self) -> (r: String)
        ensures
            r@ == (match self.label.deep_view() {
                Some(label) => label + ": "@ + self.method.name() + " "@ + self.url@,
                None => self.method.name() + " "@ + self.url@,
            }),
    {
        match &self.label {
            Some(label) => {
                let mut r: String = concat3(label.as_str(), ": ", self.method.as_str());
                r.push_str(" ");
                r.push_str(self.url.as_str());
                r
            },
            None => concat3(self.method.as_str(), " ", self.url.as_str()),
        }
    }

    /// The milliseconds that the request may take.
    pub fn effective_timeout_ms(&self) -> (r: u64)
        ensures
            r == (match self.timeout_ms {
                Some(ms) => ms,
                None => DEFAULT_TIMEOUT_MS,
            }),
    {
        match self.timeout_ms {
            Some(ms) => ms,
            None => DEFAULT_TIMEOUT_MS,
        }
    }

    /// The headers that are sent: the request's own, then its agent, then the
    /// type of a raw body.
    pub fn sent_headers(&self) -> (r: Vec<(String, String)>)
        ensures
            r.deep_view() == self.deep_view().headers + (match self.user_agent.deep_view() {
                Some(agent) => seq![("user-agent"@, agent)],
                None => Seq::empty(),
            }) + (match self.body {
                Body::Raw { content_type, .. } => seq![("content-type"@, content_type@)],
                _ => Seq::empty(),
            }),
            r.deep_view() == self.deep_view().sent_headers(),
    {
        let mut r: Vec<(String, String)> = Vec::new();
        let ghost all = self.headers.deep_view();
        let mut i: usize = 0;
        assert(r.deep_view() == all.take(0));
        while i < self.headers.len()
            invariant
                i <= self.headers@.len(),
                all == self.headers.deep_view(),
                r.deep_view() == all.take(i as int),
            decreases self.headers@.len() - i,
        {
            let ghost before = r.deep_view();
            r.push((self.headers[i].0.clone(), self.headers[i].1.clone()));
            assert(r.deep_view() == before.push(all[i as int]));
            assert(all.take(i + 1) == all.take(i as int).push(all[i as int]));
            i = i + 1;
        }
        assert(all.take(all.len() as int) == all);
        let ghost first = r.deep_view();
        assert(first + Seq::<(Seq<char>, Seq<char>)>::empty() == first);
        if let Some(agent) = &self.user_agent {
            r.push(("user-agent".to_owned(), agent.clone()));
            assert(r.deep_view() == first + seq![("user-agent"@, agent@)]);
        }
        let ghost second = r.deep_view();
        assert(second + Seq::<(Seq<char>, Seq<char>)>::empty() == second);
        if let Body::Raw { content_type, .. } = &self.body {
            r.push(("content-type".to_owned(), content_type.clone()));
            assert(r.deep_view() == second + seq![("content-type"@, content_type@)]);
        }
        r
    }
}

/// Why a request came to nothing.
#[derive(Clone, Debug, PartialEq, Eq)]
pub enum HttpError {
    /// The network failed.
    Transport(String),
    /// The answer could not be read.
    Decode(String),
    /// The answer reports no success.
    Status(u16),
    /// The caller asked too soon; it may again after `retry_in` nanoseconds. Nothing was
    /// sent.
    Throttled { retry_in: u64 },
}

impl HttpError {
    /// The error in words.
    pub open spec fn text(self) -> Seq<char> {
        match self {
            HttpError::Transport(e) => "transport error: "@ + e@,
            HttpError::Decode(e) => "decode error: "@ + e@,
            HttpError::Status(code) => "unexpected HTTP status "@ + decimal(code as nat),
            HttpError::Throttled { retry_in } => "rate floor: retry in "@ + decimal(
                retry_in as nat / 1000000,
            ) + "ms"@,
        }
    }

    /// The error in words.
    pub fn message(&self) -> (r: String)
        ensures
            r@ == self.text(),
    {
        match self {
            HttpError::Transport(e) => concat("transport error: ", e.as_str()),
            HttpError::Decode(e) => concat("decode error: ", e.as_str()),
            HttpError::Status(code) => concat(
                "unexpected HTTP status ",
                decimal_string(*code as u64).as_str(),
            ),
            HttpError::Throttled { retry_in } => concat3(
                "rate floor: retry in ",
                decimal_string(*retry_in / 1000000).as_str(),
                "ms",
            ),
        }
    }
}

/// Whether a status reports success.
pub open spec fn is_success_status(status: u16) -> bool {
    200 <= status < 300
}

/// An answer in full.
#[derive(Clone, Debug, PartialEq, Eq)]
pub struct HttpResponse {
    status: u16,
    headers: Vec<(String, String)>,
    body: Vec<u8>,
}

/// A [`HttpResponse`] with its texts as sequences.
pub struct ResponseModel {
    pub status: u16,
    pub headers: Seq<(Seq<char>, Seq<char>)>,
    pub body: Seq<u8>,
}

/// The value of the first header with a name, letter case aside.
pub open spec fn header_value(headers: Seq<(Seq<char>, Seq<char>)>, name: Seq<char>) -> Option<
    Seq<char>,
>
    decreases headers.len(),
{
    if headers.len() == 0 {
        None
    } else if ascii_lower_seq(headers[0].0) == ascii_lower_seq(name) {
        Some(headers[0].1)
    } else {
        header_value(headers.skip(1), name)
    }
}

impl HttpResponse {
    pub closed spec fn view(&self) -> ResponseModel {
        ResponseModel {
            status: self.status,
            headers: self.headers.deep_view(),
            body: self.body@,
        }
    }

    /// An answer.
    pub fn new(status: u16, headers: Vec<(String, String)>, body: Vec<u8>) -> (r: HttpResponse)
        ensures
            r.view() == (ResponseModel { status, headers: headers.deep_view(), body: body@ }),
    {
        HttpResponse { status, headers, body }
    }

    /// The status.
    pub fn status(&self) -> (r: u16)
        ensures
            r == self.view().status,
    {
        self.status
    }

    /// Whether the status reports success.
    pub fn is_success(&self) -> (r: bool)
        ensures
            r == is_success_status(self.view().status),
    {
        200 <= self.status && self.status < 300
    }

    /// The answer, where it reports success.
    pub fn error_for_status(self) -> (r: Result<HttpResponse, HttpError>)
        ensures
            r == (if is_success_status(self.view().status) {
                Ok(self)
            } else {
                Err(HttpError::Status(self.view().status))
            }),
    {
        if self.is_success() {
            Ok(self)
        } else {
            Err(HttpError::Status(self.status))
        }
    }

    /// The value of a header, letter case aside.
    pub fn header(&self, name: &str) -> (r: Option<&str>)
        ensures
            r.deep_view() == header_value(self.view().headers, name@),
    {
        let wanted: String = to_ascii_lower(name);
        let ghost all = self.headers.deep_view();
        let mut i: usize = 0;
        assert(all.skip(0) == all);
        while i < self.headers.len()
            invariant
                i <= self.headers@.len(),
                all == self.headers.deep_view(),
                wanted@ == ascii_lower_seq(name@),
                header_value(all.skip(i as int), name@) == header_value(all, name@),
            decreases self.headers@.len() - i,
        {
            assert(all.skip(i as int).skip(1) == all.skip(i + 1));
            assert(all.skip(i as int)[0] == self.headers@[i as int].deep_view());
            if same(to_ascii_lower(self.headers[i].0.as_str()).as_str(), wanted.as_str()) {
                return Some(self.headers[i].1.as_str());
            }
            i = i + 1;
        }
        None
    }

    /// The body.
    pub fn bytes(&self) -> (r: &Vec<u8>)
        ensures
            r@ == self.view().body,
    {
        &self.body
    }

    /// The body as text.
    pub fn text(&self) -> (r: String)
        ensures
            r@ == utf8_lossy(self.view().body),
            vstd::utf8::valid_utf8(self.view().body) ==> r@ == vstd::utf8::decode_utf8(
                self.view().body,
            ),
    {
        text_lossy(&self.body)
    }

    /// The body as a JSON document.
    pub fn json(&self) -> (r: Result<Json, HttpError>)
        ensures
            match json_bytes_outcome(self.view().body) {
                Ok(document) => r == Ok::<Json, HttpError>(document),
                Err(report) => r matches Err(HttpError::Decode(e)) && e@ == report,
            },
    {
        match parse_json_bytes(&self.body) {
            Ok(document) => Ok(document),
            Err(report) => Err(HttpError::Decode(report)),
        }
    }
}

/// The head of an answer whose body is still to be read.
#[derive(Clone, Copy, Debug, PartialEq, Eq)]
pub struct HttpStream {
    pub status: u16,
    pub content_length: Option<u64>,
}

impl HttpStream {
    /// The status.
    pub fn status(&self) -> (r: u16)
        ensures
            r == self.status,
    {
        self.status
    }

    /// Whether the status reports success.
    pub fn is_success(&self) -> (r: bool)
        ensures
            r == is_success_status(self.status),
    {
        200 <= self.status && self.status < 300
    }

    /// The length of the body, where it was told.
    pub fn content_length(&self) -> (r: Option<u64>)
        ensures
            r == self.content_length,
    {
        self.content_length
    }

    /// The head, where it reports success.
    pub fn error_for_status(self) -> (r: Result<HttpStream, HttpError>)
        ensures
            r == (if is_success_status(self.status) {
                Ok(self)
            } else {
                Err(HttpError::Status(self.status))
            }),
    {
        if self.is_success() {
            Ok(self)
        } else {
            Err(HttpError::Status(self.status))
        }
    }
}

// ---------------------------------------------------------------------------
// The rate floor
// ---------------------------------------------------------------------------

/// When each caller with a rate floor was last let through.
#[derive(Debug)]
pub struct HttpBus {
    throttle: TextMap<u64>,
}

/// How long a caller still has to wait at `now`; `None` where it need not.
pub open spec fn wait_left(
    last: Map<Seq<char>, u64>,
    key: Seq<char>,
    min: u64,
    now: u64,
) -> Option<u64> {
    if last.contains_key(key) {
        let since: int = if now >= last[key] {
            now - last[key]
        } else {
            0
        };
        if since < min {
            Some((min - since) as u64)
        } else {
            None
        }
    } else {
        None
    }
}

/// Whether a request is held back, and for how long.
pub open spec fn held_back(last: Map<Seq<char>, u64>, request: RequestModel, now: u64) -> Option<
    u64,
> {
    match request.min_interval {
        Some(min) => wait_left(last, request.throttle_key(), min, now),
        None => None,
    }
}

/// The callers after a request came at `now`: one with a rate floor that is let
/// through is noted.
pub open spec fn after_request(
    last: Map<Seq<char>, u64>,
    request: RequestModel,
    now: u64,
) -> Map<Seq<char>, u64> {
    if request.min_interval is Some && held_back(last, request, now) is None {
        last.insert(request.throttle_key(), now)
    } else {
        last
    }
}

impl HttpBus {
    pub closed spec fn wf(&self) -> bool {
        self.throttle.wf()
    }

    /// When each caller was last let through.
    pub closed spec fn view(&self) -> Map<Seq<char>, u64> {
        self.throttle.view()
    }

    /// A bus that nobody used yet.
    pub fn new() -> (r: HttpBus)
        ensures
            r.wf(),
            r.view() == Map::<Seq<char>, u64>::empty(),
    {
        HttpBus { throttle: TextMap::new() }
    }

    /// Lets a request through, or holds it back where its caller asks sooner
    /// than the request's rate floor allows.
    pub fn check_throttle(&mut self, request: &HttpRequest, now: u64) -> (r: Result<(), HttpError>)
        requires
            old(self).wf(),
        ensures
            final(self).wf(),
            final(self).view() == after_request(old(self).view(), request.deep_view(), now),
            match held_back(old(self).view(), request.deep_view(), now) {
                Some(wait) => r == Err::<(), HttpError>(HttpError::Throttled { retry_in: wait }),
                None => r == Ok::<(), HttpError>(()),
            },
    {
        let min: u64 = match request.min_interval {
            Some(min) => min,
            None => return Ok(()),
        };
        let key: String = request.throttle_key();
        if let Some(last) = self.throttle.get(key.as_str()) {
            let since: u64 = if now >= *last {
                now - *last
            } else {
                0
            };
            if since < min {
                return Err(HttpError::Throttled { retry_in: min - since });
            }
        }
        self.throttle.insert(key.as_str(), now);
        Ok(())
    }
}

/// A caller that was let through is held back until its rate floor has passed,
/// for just the time that is left.
pub proof fn rate_floor_holds(
    last: Map<Seq<char>, u64>,
    first: RequestModel,
    now: u64,
    second: RequestModel,
    later: u64,
)
    requires
        first.min_interval is Some,
        held_back(last, first, now) is None,
        second.throttle_key() == first.throttle_key(),
        now <= later,
    ensures
        ({
            let after = after_request(last, first, now);
            match second.min_interval {
                Some(min) => held_back(after, second, later) == (if later - now < min {
                    Some((min - (later - now)) as u64)
                } else {
                    None
                }),
                None => held_back(after, second, later) is None,
            }
        }),
{
}

/// A caller that is held back is not pushed further back by asking.
pub proof fn asking_costs_nothing(last: Map<Seq<char>, u64>, request: RequestModel, now: u64)
    requires
        held_back(last, request, now) is Some,
    ensures
        after_request(last, request, now) == last,
{
}

/// Callers with different labels do not hold each other back.
pub proof fn labels_are_independent(
    last: Map<Seq<char>, u64>,
    first: RequestModel,
    now: u64,
    other: RequestModel,
    later: u64,
)
    requires
        first.throttle_key() != other.throttle_key(),
    ensures
        held_back(after_request(last, first, now), other, later) == held_back(last, other, later),
{
}

/// A header is found by its name, however that is written, and the first one of a
/// name counts.
pub proof fn header_names_ignore_case(
    headers: Seq<(Seq<char>, Seq<char>)>,
    name: Seq<char>,
    other: Seq<char>,
    i: int,
)
    requires
        ascii_lower_seq(name) == ascii_lower_seq(other),
    ensures
        header_value(headers, name) == header_value(headers, other),
        0 <= i < headers.len() && headers[i].0 == other && (forall|k: int|
            0 <= k < i ==> ascii_lower_seq((#[trigger] headers[k]).0) != ascii_lower_seq(name))
            ==> header_value(headers, name) == Some(headers[i].1),
        (forall|k: int|
            0 <= k < headers.len() ==> ascii_lower_seq((#[trigger] headers[k]).0)
                != ascii_lower_seq(name)) ==> header_value(headers, name) is None,
    decreases headers.len(),
{
    if headers.len() > 0 {
        let rest = headers.skip(1);
        header_names_ignore_case(rest, name, other, i - 1);
        if forall|k: int|
            0 <= k < headers.len() ==> ascii_lower_seq((#[trigger] headers[k]).0)
                != ascii_lower_seq(name) {
            assert(ascii_lower_seq(headers[0].0) != ascii_lower_seq(name));
            assert forall|k: int| 0 <= k < rest.len() implies ascii_lower_seq(
                (#[trigger] rest[k]).0,
            ) != ascii_lower_seq(name) by {
                assert(rest[k] == headers[k + 1]);
            }
        }
        if 0 < i < headers.len() && (forall|k: int|
            0 <= k < i ==> ascii_lower_seq((#[trigger] headers[k]).0) != ascii_lower_seq(name)) {
            assert(ascii_lower_seq(headers[0].0) != ascii_lower_seq(name));
            assert(rest[i - 1] == headers[i]);
            assert forall|k: int| 0 <= k < i - 1 implies ascii_lower_seq((#[trigger] rest[k]).0)
                != ascii_lower_seq(name) by {
                assert(rest[k] == headers[k + 1]);
            }
        }
    }
}

/// A request without a least interval is never held back and leaves no trace; the
/// first request of a caller is not held back either.
pub proof fn first_requests_are_sent(last: Map<Seq<char>, u64>, request: RequestModel, now: u64)
    ensures
        request.min_interval is None ==> held_back(last, request, now) is None && after_request(
            last,
            request,
            now,
        ) == last,
        !last.contains_key(request.throttle_key()) ==> held_back(last, request, now) is None,
        request.label matches Some(label) ==> request.throttle_key() == label,
        request.label is None ==> request.throttle_key() == request.url,
{
}

/// Whoever waits as long as it was told is not held back again.
pub proof fn waiting_helps(
    last: Map<Seq<char>, u64>,
    request: RequestModel,
    now: u64,
    wait: u64,
    later: u64,
)
    requires
        held_back(last, request, now) == Some(wait),
        now + wait <= later,
        last[request.throttle_key()] <= now,
    ensures
        wait > 0,
        held_back(last, request, later) is None,
{
}

/// Every header of a request is sent, in order, and then what the request says of
/// its sender and of its body.
pub proof fn headers_are_sent(request: RequestModel, i: int)
    ensures
        0 <= i < request.headers.len() ==> request.sent_headers()[i] == request.headers[i],
        request.user_agent matches Some(agent) ==> request.sent_headers().contains(
            ("user-agent"@, agent),
        ),
        request.body matches Body::Raw { content_type, .. } ==> request.sent_headers().contains(
            ("content-type"@, content_type@),
        ),
        request.user_agent is None && !(request.body is Raw) ==> request.sent_headers()
            == request.headers,
{
    let sent = request.sent_headers();
    let n = request.headers.len() as int;
    if request.user_agent is Some {
        assert(sent[n] == ("user-agent"@, request.user_agent->0));
    }
    if let Body::Raw { content_type, .. } = request.body {
        assert(sent[sent.len() - 1] == ("content-type"@, content_type@));
    }
    if request.user_agent is None && !(request.body is Raw) {
        assert(sent =~= request.headers);
    }
}

/// A success is told from everything else by its status alone.
pub proof fn successes_are_told(status: u16)
    ensures
        is_success_status(status) <==> status / 100 == 2,
{
}

/// Errors tell what failed and why, and different kinds of failure are told apart.
pub proof fn errors_tell_what_failed(error: HttpError)
    ensures
        error matches HttpError::Transport(e) ==> error.text() == "transport error: "@ + e@,
        error matches HttpError::Decode(e) ==> error.text() == "decode error: "@ + e@,
        error matches HttpError::Status(code) ==> decimal(code as nat).is_suffix_of(error.text()),
        error matches HttpError::Throttled { retry_in } ==> error.text() == "rate floor: retry in "@
            + decimal((retry_in / 1_000_000) as nat) + "ms"@,
{
    if let HttpError::Status(code) = error {
        let text = error.text();
        let number = decimal(code as nat);
        assert(text.skip(text.len() - number.len()) == number);
    }
}

} // verus!
