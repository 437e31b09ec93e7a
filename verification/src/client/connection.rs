//! Connecting, pairing, reconnecting, and keeping the token fresh.

use crate::client::types::{
    ConfigModel, ConnectionEvent, ConnectionStatus, EventModel, RemoteConnectionConfig,
    SessionError, StatusModel, TOKEN_REFRESH_AGE_SECS,
};
use crate::json::Json;
use crate::math::{power_of_two, powers_grow};
use crate::text::{concat, concat3, decimal, decimal_reads_back, decimal_string};
use vstd::prelude::*;

verus! {

broadcast use vstd::string::group_string_axioms;

/// The most attempts that a lost connection gets.
pub const MAX_RECONNECT_ATTEMPTS: u32 = 10;

/// The longest wait between two attempts, in seconds.
pub const MAX_BACKOFF_SECS: u64 = 30;

/// The HTTP status of a missing or expired token.
pub const UNAUTHORIZED: u16 = 401;

/// Whether an HTTP status reports success.
pub open spec fn status_is_success(status: u16) -> bool {
    200 <= status < 300
}

/// The address of the server: `https://host:port`, or `http` without encryption.
pub open spec fn base_url_model(tls: bool, host: Seq<char>, port: u16) -> Seq<char> {
    (if tls {
        "https"@
    } else {
        "http"@
    }) + "://"@ + host + ":"@ + decimal(port as nat)
}

/// The address of the server.
pub fn base_url(tls: bool, host: &str, port: u16) -> (r: String)
    ensures
        r@ == base_url_model(tls, host@, port),
{
    let mut r: String = (if tls {
        "https"
    } else {
        "http"
    }).to_owned();
    r.push_str("://");
    r.push_str(host);
    r.push_str(":");
    r.push_str(decimal_string(port as u64).as_str());
    r
}

fn owned(text: &Option<String>) -> (r: Option<String>)
    ensures
        r.deep_view() == text.deep_view(),
{
    match text {
        Some(t) => Some(t.clone()),
        None => None,
    }
}

fn status_event(id: &String, status: ConnectionStatus) -> (r: ConnectionEvent)
    ensures
        r.deep_view() == (EventModel::StatusChanged {
            connection_id: id@,
            status: status.deep_view(),
        }),
{
    ConnectionEvent::StatusChanged { connection_id: id.clone(), status }
}

/// `label` followed by what went wrong.
pub open spec fn error_event(id: Seq<char>, message: Seq<char>) -> EventModel {
    EventModel::StatusChanged { connection_id: id, status: StatusModel::Error(message) }
}

// ---------------------------------------------------------------------------
// Connecting
// ---------------------------------------------------------------------------

/// What connecting does next.
#[derive(Clone, Debug, PartialEq, Eq)]
pub enum ConnectAction {
    /// Ask the server for its health at `url`.
    Probe { tls: bool, url: String },
    /// Ask for the state at `url` with the token, to see whether it is valid.
    Validate { url: String, token: String },
    /// Open a session with the token.
    RunSession { token: String },
    /// Nothing.
    Stop,
}

/// A [`ConnectAction`] with its texts as sequences.
pub enum ConnectModel {
    Probe { tls: bool, url: Seq<char> },
    Validate { url: Seq<char>, token: Seq<char> },
    RunSession { token: Seq<char> },
    Stop,
}

impl DeepView for ConnectAction {
    type V = ConnectModel;

    open spec fn deep_view(&self) -> ConnectModel {
        match self {
            ConnectAction::Probe { tls, url } => ConnectModel::Probe { tls: *tls, url: url@ },
            ConnectAction::Validate { url, token } => ConnectModel::Validate {
                url: url@,
                token: token@,
            },
            ConnectAction::RunSession { token } => ConnectModel::RunSession { token: token@ },
            ConnectAction::Stop => ConnectModel::Stop,
        }
    }
}

/// A probe of the server's health.
pub open spec fn probe(config: ConfigModel, tls: bool) -> ConnectModel {
    ConnectModel::Probe { tls, url: base_url_model(tls, config.host, config.port) + "/health"@ }
}

/// Connecting begins with an encrypted probe, whatever the config says.
pub fn first_probe(config: &RemoteConnectionConfig) -> (r: ConnectAction)
    ensures
        r.deep_view() == probe(config.deep_view(), true),
{
    let base: String = base_url(true, config.host.as_str(), config.port);
    ConnectAction::Probe { tls: true, url: concat(base.as_str(), "/health") }
}

/// The config after a healthy probe: a plain connection that reached the server
/// encrypted adopts that and pins the certificate that it saw.
pub open spec fn upgraded(
    config: ConfigModel,
    tls: bool,
    observed: Option<Seq<char>>,
) -> ConfigModel {
    if tls && !config.tls {
        ConfigModel { tls: true, pinned_cert_sha256: observed, ..config }
    } else {
        config
    }
}

/// The events and the next action after a probe.
pub open spec fn after_probe_model(
    config: ConfigModel,
    tls: bool,
    healthy: bool,
    observed: Option<Seq<char>>,
) -> (Seq<EventModel>, ConnectModel) {
    if healthy {
        let upgrade = if tls && !config.tls {
            seq![EventModel::TlsUpgraded { connection_id: config.id, cert_fingerprint: observed }]
        } else {
            Seq::empty()
        };
        match config.saved_token {
            Some(token) => (
                upgrade,
                ConnectModel::Validate {
                    url: base_url_model(tls, config.host, config.port) + "/v1/state"@,
                    token,
                },
            ),
            None => (
                upgrade.push(
                    EventModel::StatusChanged {
                        connection_id: config.id,
                        status: StatusModel::Pairing,
                    },
                ),
                ConnectModel::Stop,
            ),
        }
    } else if tls && !config.tls {
        (Seq::empty(), probe(config, false))
    } else {
        (
            seq![
                error_event(
                    config.id,
                    "Cannot reach server "@ + config.host + ":"@ + decimal(config.port as nat),
                ),
            ],
            ConnectModel::Stop,
        )
    }
}

/// What follows a probe: after an unhealthy one the plain address, unless the
/// server is known to be encrypted; after a healthy one the check of the saved
/// token, or pairing where there is none.
pub fn after_probe(
    config: &mut RemoteConnectionConfig,
    tls: bool,
    healthy: bool,
    observed: Option<String>,
) -> (r: (Vec<ConnectionEvent>, ConnectAction))
    ensures
        r.deep_view() == after_probe_model(
            old(config).deep_view(),
            tls,
            healthy,
            observed.deep_view(),
        ),
        final(config).deep_view() == (if healthy {
            upgraded(old(config).deep_view(), tls, observed.deep_view())
        } else {
            old(config).deep_view()
        }),
{
    let mut events: Vec<ConnectionEvent> = Vec::new();
    assert(events.deep_view() == Seq::<EventModel>::empty());
    if !healthy {
        if tls && !config.tls {
            let base: String = base_url(false, config.host.as_str(), config.port);
            return (
                events,
                ConnectAction::Probe { tls: false, url: concat(base.as_str(), "/health") },
            );
        }
        let mut message: String = concat("Cannot reach server ", config.host.as_str());
        message.push_str(":");
        message.push_str(decimal_string(config.port as u64).as_str());
        events.push(status_event(&config.id, ConnectionStatus::Error(message)));
        assert(events.deep_view() == seq![events@[0].deep_view()]);
        return (events, ConnectAction::Stop);
    }
    let base: String = base_url(tls, config.host.as_str(), config.port);
    if tls && !config.tls {
        config.tls = true;
        config.pinned_cert_sha256 = owned(&observed);
        events.push(
            ConnectionEvent::TlsUpgraded {
                connection_id: config.id.clone(),
                cert_fingerprint: observed,
            },
        );
        assert(events.deep_view() == seq![events@[0].deep_view()]);
    }
    let ghost upgrade = events.deep_view();
    match &config.saved_token {
        Some(token) => (
            events,
            ConnectAction::Validate {
                url: concat(base.as_str(), "/v1/state"),
                token: token.clone(),
            },
        ),
        None => {
            let event: ConnectionEvent = status_event(&config.id, ConnectionStatus::Pairing);
            let ghost last = event.deep_view();
            events.push(event);
            assert(events.deep_view() == upgrade.push(last));
            (events, ConnectAction::Stop)
        },
    }
}

/// The answer to a request.
#[derive(Clone, Debug, PartialEq, Eq)]
pub enum HttpReply {
    /// The server answered with a status, whose text (`500 Internal Server
    /// Error`) goes with it.
    Status { status: u16, status_text: String },
    /// No answer came.
    Failed(String),
}

/// The events and the next action after the check of a token.
pub open spec fn after_validation_model(id: Seq<char>, token: Seq<char>, reply: HttpReply) -> (
    Seq<EventModel>,
    ConnectModel,
) {
    match reply {
        HttpReply::Status { status, status_text } => if status_is_success(status) {
            (Seq::empty(), ConnectModel::RunSession { token })
        } else if status == UNAUTHORIZED {
            (
                seq![
                    EventModel::StatusChanged { connection_id: id, status: StatusModel::Pairing },
                ],
                ConnectModel::Stop,
            )
        } else {
            (
                seq![error_event(id, "Token validation: unexpected HTTP "@ + status_text@)],
                ConnectModel::Stop,
            )
        },
        HttpReply::Failed(message) => (
            seq![error_event(id, "Token validation failed: "@ + message@)],
            ConnectModel::Stop,
        ),
    }
}

/// What follows the check of the saved token: a session where it is valid,
/// pairing where the server refused it, and an error, which keeps the token,
/// otherwise.
pub fn after_validation(config: &RemoteConnectionConfig, token: String, reply: HttpReply) -> (r: (
    Vec<ConnectionEvent>,
    ConnectAction,
))
    ensures
        r.deep_view() == after_validation_model(config.id@, token@, reply),
{
    let mut events: Vec<ConnectionEvent> = Vec::new();
    assert(events.deep_view() == Seq::<EventModel>::empty());
    let status: ConnectionStatus = match reply {
        HttpReply::Status { status, status_text } => if 200 <= status && status < 300 {
            return (events, ConnectAction::RunSession { token });
        } else if status == UNAUTHORIZED {
            ConnectionStatus::Pairing
        } else {
            ConnectionStatus::Error(
                concat("Token validation: unexpected HTTP ", status_text.as_str()),
            )
        },
        HttpReply::Failed(message) => ConnectionStatus::Error(
            concat("Token validation failed: ", message.as_str()),
        ),
    };
    events.push(status_event(&config.id, status));
    assert(events.deep_view() == seq![events@[0].deep_view()]);
    (events, ConnectAction::Stop)
}

// ---------------------------------------------------------------------------
// Pairing
// ---------------------------------------------------------------------------

/// The answer to a pairing request.
#[derive(Clone, Debug, PartialEq, Eq)]
pub enum PairReply {
    /// The server accepted the code and gave a token.
    Paired { token: String },
    /// The server accepted, but its answer could not be read.
    Unreadable(String),
    /// The server refused.
    Refused { status_text: String, body: String },
    /// No answer came.
    Failed(String),
}

/// The body of a pairing request: `{"code": code}`.
pub fn pair_body(code: &str) -> (r: Json)
    ensures
        r matches Json::Object(members) && members@.len() == 1 && members@[0].0@ == "code"@
            && members@[0].1.text() == Some(code@),
{
    let mut members: Vec<(String, Json)> = Vec::new();
    members.push(("code".to_owned(), Json::Text(code.to_owned())));
    Json::Object(members)
}

/// The event and the next action after a pairing request.
pub open spec fn after_pair_model(
    id: Seq<char>,
    reply: PairReply,
    observed: Option<Seq<char>>,
) -> (EventModel, ConnectModel) {
    match reply {
        PairReply::Paired { token } => (
            EventModel::TokenObtained {
                connection_id: id,
                token: token@,
                cert_fingerprint: observed,
            },
            ConnectModel::RunSession { token: token@ },
        ),
        PairReply::Unreadable(message) => (
            error_event(id, "Failed to parse pair response: "@ + message@),
            ConnectModel::Stop,
        ),
        PairReply::Refused { status_text, body } => (
            error_event(id, "Pairing failed: HTTP "@ + status_text@ + " - "@ + body@),
            ConnectModel::Stop,
        ),
        PairReply::Failed(message) => (
            error_event(id, "Pairing request failed: "@ + message@),
            ConnectModel::Stop,
        ),
    }
}

/// What follows a pairing request: the token is handed out and a session
/// opened with it, or the error is told.
pub fn after_pair(
    config: &RemoteConnectionConfig,
    reply: PairReply,
    observed: Option<String>,
) -> (r: (ConnectionEvent, ConnectAction))
    ensures
        r.deep_view() == after_pair_model(config.id@, reply, observed.deep_view()),
{
    let message: String = match reply {
        PairReply::Paired { token } => {
            return (
                ConnectionEvent::TokenObtained {
                    connection_id: config.id.clone(),
                    token: token.clone(),
                    cert_fingerprint: observed,
                },
                ConnectAction::RunSession { token },
            );
        },
        PairReply::Unreadable(message) => concat(
            "Failed to parse pair response: ",
            message.as_str(),
        ),
        PairReply::Refused { status_text, body } => {
            let mut m: String = concat3("Pairing failed: HTTP ", status_text.as_str(), " - ");
            m.push_str(body.as_str());
            m
        },
        PairReply::Failed(message) => concat("Pairing request failed: ", message.as_str()),
    };
    (status_event(&config.id, ConnectionStatus::Error(message)), ConnectAction::Stop)
}

// ---------------------------------------------------------------------------
// Reconnecting
// ---------------------------------------------------------------------------

/// The seconds before attempt number `attempt`: 1, 2, 4 and so on, up to
/// [`MAX_BACKOFF_SECS`].
pub open spec fn backoff_model(attempt: u32) -> nat {
    let wait = power_of_two(if attempt == 0 {
        0
    } else {
        (attempt - 1) as nat
    });
    if wait <= MAX_BACKOFF_SECS {
        wait
    } else {
        MAX_BACKOFF_SECS as nat
    }
}

/// The seconds to wait before an attempt.
pub fn backoff_secs(attempt: u32) -> (r: u64)
    ensures
        r == backoff_model(attempt),
{
    let steps: u32 = if attempt == 0 {
        0
    } else {
        attempt - 1
    };
    let mut wait: u64 = 1;
    let mut i: u32 = 0;
    while i < steps
        invariant
            i <= steps,
            wait == power_of_two(i as nat),
            wait <= MAX_BACKOFF_SECS,
            steps == (if attempt == 0 {
                0
            } else {
                attempt - 1
            }),
        decreases steps - i,
    {
        wait = wait * 2;
        i = i + 1;
        if wait > MAX_BACKOFF_SECS {
            proof {
                powers_grow(i as nat, steps as nat);
            }
            return MAX_BACKOFF_SECS;
        }
    }
    wait
}

/// How a session ended.
#[derive(Clone, Debug, PartialEq, Eq)]
pub enum SessionEnd {
    /// As asked for.
    Clean,
    Failed(SessionError),
}

/// How a session ends once nobody has messages to send any more: as asked for.
pub fn on_outgoing_end() -> (r: SessionEnd)
    ensures
        r == SessionEnd::Clean,
{
    SessionEnd::Clean
}

/// What follows the end of a session.
#[derive(Debug, PartialEq, Eq)]
pub enum LoopStep {
    /// The end, told where there is something to tell.
    Stop(Option<ConnectionEvent>),
    /// Another session after `wait_secs`.
    Retry { event: ConnectionEvent, wait_secs: u64 },
}

/// A [`LoopStep`] with its event as a model.
pub enum LoopModel {
    Stop(Option<EventModel>),
    Retry { event: EventModel, wait_secs: nat },
}

impl DeepView for LoopStep {
    type V = LoopModel;

    open spec fn deep_view(&self) -> LoopModel {
        match self {
            LoopStep::Stop(event) => LoopModel::Stop(event.deep_view()),
            LoopStep::Retry { event, wait_secs } => LoopModel::Retry {
                event: event.deep_view(),
                wait_secs: *wait_secs as nat,
            },
        }
    }
}

/// The attempts so far, and the token that the next one uses.
#[derive(Clone, Debug, PartialEq, Eq)]
pub struct ReconnectLoop {
    pub attempt: u32,
    pub token: String,
}

impl ReconnectLoop {
    /// No more attempts than allowed were made.
    pub open spec fn wf(&self) -> bool {
        self.attempt <= MAX_RECONNECT_ATTEMPTS
    }

    /// The step that follows the end of a session after `attempt` attempts.
    pub open spec fn step_model(id: Seq<char>, attempt: u32, end: SessionEnd) -> LoopModel {
        match end {
            SessionEnd::Clean => LoopModel::Stop(None),
            SessionEnd::Failed(SessionError::Auth(_)) => LoopModel::Stop(
                Some(
                    EventModel::StatusChanged { connection_id: id, status: StatusModel::Pairing },
                ),
            ),
            SessionEnd::Failed(SessionError::Transient(error)) => if attempt
                >= MAX_RECONNECT_ATTEMPTS {
                LoopModel::Stop(
                    Some(
                        error_event(
                            id,
                            "Connection lost after "@ + decimal(MAX_RECONNECT_ATTEMPTS as nat)
                                + " attempts (last error: "@ + error@ + ")"@,
                        ),
                    ),
                )
            } else {
                LoopModel::Retry {
                    event: EventModel::StatusChanged {
                        connection_id: id,
                        status: StatusModel::Reconnecting { attempt: (attempt + 1) as u32 },
                    },
                    wait_secs: backoff_model((attempt + 1) as u32),
                }
            },
        }
    }

    /// The loop before its first session.
    pub fn new(token: String) -> (r: ReconnectLoop)
        ensures
            r.wf(),
            r.attempt == 0,
            r.token@ == token@,
    {
        ReconnectLoop { attempt: 0, token }
    }

    /// What follows the end of a session. A refused token leads to pairing and
    /// is never tried again; other failures are, with growing waits, until the
    /// attempts are used up.
    pub fn after_session(&mut self, config: &RemoteConnectionConfig, end: SessionEnd) -> (r:
        LoopStep)
        requires
            old(self).wf(),
        ensures
            final(self).wf(),
            r.deep_view() == Self::step_model(config.id@, old(self).attempt, end),
            final(self).token == old(self).token,
            final(self).attempt == old(self).attempt + (if r is Retry {
                1int
            } else {
                0int
            }),
    {
        match end {
            SessionEnd::Clean => LoopStep::Stop(None),
            SessionEnd::Failed(SessionError::Auth(_)) => LoopStep::Stop(
                Some(status_event(&config.id, ConnectionStatus::Pairing)),
            ),
            SessionEnd::Failed(SessionError::Transient(error)) => {
                if self.attempt >= MAX_RECONNECT_ATTEMPTS {
                    let mut message: String = "Connection lost after ".to_owned();
                    message.push_str(decimal_string(MAX_RECONNECT_ATTEMPTS as u64).as_str());
                    message.push_str(" attempts (last error: ");
                    message.push_str(error.as_str());
                    message.push_str(")");
                    return LoopStep::Stop(
                        Some(status_event(&config.id, ConnectionStatus::Error(message))),
                    );
                }
                self.attempt = self.attempt + 1;
                LoopStep::Retry {
                    event: status_event(
                        &config.id,
                        ConnectionStatus::Reconnecting { attempt: self.attempt },
                    ),
                    wait_secs: backoff_secs(self.attempt),
                }
            },
        }
    }

    /// Takes over the latest token, where there is one.
    pub fn adopt_token(&mut self, latest: &Option<String>)
        ensures
            final(self).attempt == old(self).attempt,
            final(self).token@ == (match latest {
                Some(token) => token@,
                None => old(self).token@,
            }),
    {
        match latest {
            Some(token) => {
                self.token = token.clone();
            },
            None => {},
        }
    }
}

// ---------------------------------------------------------------------------
// Refreshing the token
// ---------------------------------------------------------------------------

/// Whether a token is old enough to be refreshed. One of unknown age is.
pub open spec fn refresh_due_model(obtained_at: Option<i64>, now: int) -> bool {
    match obtained_at {
        Some(then) => now - then >= TOKEN_REFRESH_AGE_SECS,
        None => true,
    }
}

/// The address and the token of the refresh request, where one is due.
pub fn refresh_request(config: &RemoteConnectionConfig, now: i64) -> (r: Option<(String, String)>)
    ensures
        r.deep_view() == (match config.saved_token.deep_view() {
            Some(token) => if refresh_due_model(config.token_obtained_at, now as int) {
                Some(
                    (base_url_model(config.tls, config.host@, config.port) + "/v1/refresh"@, token),
                )
            } else {
                None
            },
            None => None,
        }),
{
    let token: &String = match &config.saved_token {
        Some(token) => token,
        None => return None,
    };
    if let Some(then) = config.token_obtained_at {
        if (now as i128) - (then as i128) < TOKEN_REFRESH_AGE_SECS as i128 {
            return None;
        }
    }
    let base: String = base_url(config.tls, config.host.as_str(), config.port);
    Some((concat(base.as_str(), "/v1/refresh"), token.clone()))
}

/// The answer to a request for a new token.
#[derive(Clone, Debug, PartialEq, Eq)]
pub enum RefreshReply {
    /// The server gave a new token.
    Refreshed { token: String },
    /// The server agreed, but its answer could not be read.
    Unreadable,
    /// The server refused, or knows no such request.
    Refused,
    /// No answer came.
    Failed,
}

/// What the owner is told of the answer: only a new token. The old one stays
/// good where there is none.
pub fn after_refresh(config: &RemoteConnectionConfig, reply: RefreshReply) -> (r: Option<
    ConnectionEvent,
>)
    ensures
        r.deep_view() == (match reply {
            RefreshReply::Refreshed { token } => Some(
                EventModel::TokenRefreshed { connection_id: config.id@, token: token@ },
            ),
            _ => None,
        }),
{
    match reply {
        RefreshReply::Refreshed { token } => Some(
            ConnectionEvent::TokenRefreshed { connection_id: config.id.clone(), token },
        ),
        _ => None,
    }
}

// ---------------------------------------------------------------------------
// Laws
// ---------------------------------------------------------------------------

/// A connection that is known to be encrypted never falls back to the plain
/// address: no probe that it leads to is plain, whatever the probes report.
pub proof fn never_downgrades(
    config: ConfigModel,
    tls: bool,
    healthy: bool,
    observed: Option<Seq<char>>,
)
    requires
        config.tls,
    ensures
        !(after_probe_model(config, tls, healthy, observed).1 is Probe),
        upgraded(config, tls, observed) == config,
{
}

/// A plain connection that found the server encrypted stays so: the config that
/// it leaves behind is encrypted, pinned to the certificate that was seen.
pub proof fn upgrade_sticks(config: ConfigModel, observed: Option<Seq<char>>)
    requires
        !config.tls,
    ensures
        upgraded(config, true, observed).tls,
        upgraded(config, true, observed).pinned_cert_sha256 == observed,
        upgraded(upgraded(config, true, observed), true, None) == upgraded(config, true, observed),
{
}

/// The waits never shrink from one attempt to the next and stay within their
/// bounds.
pub proof fn backoff_is_monotone(a: u32, b: u32)
    requires
        a <= b,
    ensures
        1 <= backoff_model(a) <= backoff_model(b) <= MAX_BACKOFF_SECS,
{
    let x: nat = if a == 0 {
        0
    } else {
        (a - 1) as nat
    };
    let y: nat = if b == 0 {
        0
    } else {
        (b - 1) as nat
    };
    powers_grow(x, y);
}

/// A refused token is never retried, at any number of attempts.
pub proof fn refused_token_leads_to_pairing(id: Seq<char>, attempt: u32, message: String)
    ensures
        ReconnectLoop::step_model(id, attempt, SessionEnd::Failed(SessionError::Auth(message)))
            == LoopModel::Stop(
            Some(EventModel::StatusChanged { connection_id: id, status: StatusModel::Pairing }),
        ),
{
}

/// The attempts are used up in the end: each one that is made leaves fewer to
/// make, after a wait within its bounds.
pub proof fn reconnecting_ends(id: Seq<char>, attempt: u32, end: SessionEnd)
    ensures
        ReconnectLoop::step_model(id, attempt, end) matches LoopModel::Retry { event, wait_secs }
            ==> {
            &&& attempt < MAX_RECONNECT_ATTEMPTS
            &&& 1 <= wait_secs <= MAX_BACKOFF_SECS
            &&& event == EventModel::StatusChanged {
                connection_id: id,
                status: StatusModel::Reconnecting { attempt: (attempt + 1) as u32 },
            }
        },
{
    if attempt < MAX_RECONNECT_ATTEMPTS {
        backoff_is_monotone((attempt + 1) as u32, (attempt + 1) as u32);
    }
}

/// A server that answers is gone on with in the way it answered: encrypted where it
/// was asked so, plain otherwise, and with the saved token alone. Without a token
/// the user is asked to pair.
pub proof fn answering_servers_are_gone_on_with(
    config: ConfigModel,
    tls: bool,
    observed: Option<Seq<char>>,
)
    ensures
        ({
            let (events, action) = after_probe_model(config, tls, true, observed);
            let pairing = EventModel::StatusChanged {
                connection_id: config.id,
                status: StatusModel::Pairing,
            };
            &&& config.saved_token matches Some(token) ==> {
                &&& action matches ConnectModel::Validate { url, token: sent }
                &&& sent == token
                &&& tls ==> "https"@.is_prefix_of(url)
                &&& !tls ==> "http://"@.is_prefix_of(url)
                &&& "/v1/state"@.is_suffix_of(url)
            }
            &&& config.saved_token is None ==> action is Stop && events.last() == pairing
            &&& (events.len() > 0 && events[0] is TlsUpgraded) <==> tls && !config.tls
            &&& tls && !config.tls ==> events[0] == (EventModel::TlsUpgraded {
                connection_id: config.id,
                cert_fingerprint: observed,
            })
            &&& config.saved_token is Some ==> !events.contains(pairing)
        }),
{
    reveal_strlit("http");
    reveal_strlit("https");
    reveal_strlit("://");
    reveal_strlit("http://");
    let url = base_url_model(tls, config.host, config.port) + "/v1/state"@;
    assert("/v1/state"@.is_suffix_of(url));
    if tls {
        assert("https"@.is_prefix_of(url));
    } else {
        assert("http"@ + "://"@ == "http://"@);
        assert("http://"@.is_prefix_of(url));
    }
}

/// A server that is not known to be encrypted and does not answer so is asked once
/// more without encryption; after that, and where it is known to be encrypted, it
/// counts as out of reach.
pub proof fn plain_servers_are_asked_too(config: ConfigModel, observed: Option<Seq<char>>)
    ensures
        !config.tls ==> after_probe_model(config, true, false, observed) == (
            Seq::<EventModel>::empty(),
            probe(config, false),
        ),
        !config.tls ==> (probe(config, false) matches ConnectModel::Probe { tls, url } && !tls
            && "http://"@.is_prefix_of(url)),
        after_probe_model(config, config.tls, false, observed).1 is Stop,
        after_probe_model(config, config.tls, false, observed).0.len() == 1,
        after_probe_model(config, config.tls, false, observed).0[0] matches
            EventModel::StatusChanged { connection_id, status } && connection_id == config.id
            && status is Error,
{
    reveal_strlit("http");
    reveal_strlit("://");
    reveal_strlit("http://");
    assert("http"@ + "://"@ == "http://"@);
    assert("http://"@.is_prefix_of(base_url_model(false, config.host, config.port) + "/health"@));
}

/// A session is run just where the server accepted the token, and with that token;
/// a token that it refused leads to pairing, and whatever else came back is an
/// error.
pub proof fn only_accepted_tokens_run_sessions(id: Seq<char>, token: Seq<char>, reply: HttpReply)
    ensures
        ({
            let (events, action) = after_validation_model(id, token, reply);
            let accepted = reply matches HttpReply::Status { status, .. } && 200 <= status < 300;
            let refused = reply matches HttpReply::Status { status, .. } && status == 401;
            &&& action == (if accepted {
                ConnectModel::RunSession { token }
            } else {
                ConnectModel::Stop
            })
            &&& accepted ==> events.len() == 0
            &&& refused ==> events == seq![
                EventModel::StatusChanged { connection_id: id, status: StatusModel::Pairing },
            ]
            &&& !accepted && !refused ==> events.len() == 1 && (events[0] matches
                EventModel::StatusChanged { connection_id, status } && connection_id == id
                && status is Error)
        }),
{
}

/// Pairing gives a token that is handed on to be saved, with the certificate that
/// was seen, and used for the session; a failed one gives an error and no session.
pub proof fn pairing_gives_a_token(id: Seq<char>, reply: PairReply, observed: Option<Seq<char>>)
    ensures
        reply matches PairReply::Paired { token } ==> after_pair_model(id, reply, observed) == (
            EventModel::TokenObtained {
                connection_id: id,
                token: token@,
                cert_fingerprint: observed,
            },
            ConnectModel::RunSession { token: token@ },
        ),
        !(reply is Paired) ==> after_pair_model(id, reply, observed).1 is Stop && (
        after_pair_model(id, reply, observed).0 matches EventModel::StatusChanged {
            connection_id,
            status,
        } && connection_id == id && status is Error),
{
}

/// A connection that was lost is tried again until the attempts are used up, and
/// one that ended as asked is not.
pub proof fn lost_connections_are_tried_again(id: Seq<char>, attempt: u32, message: String)
    ensures
        attempt < MAX_RECONNECT_ATTEMPTS ==> ReconnectLoop::step_model(
            id,
            attempt,
            SessionEnd::Failed(SessionError::Transient(message)),
        ) is Retry,
        attempt >= MAX_RECONNECT_ATTEMPTS ==> (ReconnectLoop::step_model(
            id,
            attempt,
            SessionEnd::Failed(SessionError::Transient(message)),
        ) matches LoopModel::Stop(Some(event)) && (event matches EventModel::StatusChanged {
            connection_id,
            status,
        } && connection_id == id && status is Error)),
        ReconnectLoop::step_model(id, attempt, SessionEnd::Clean) == LoopModel::Stop(None),
{
}

/// The first attempt follows after a second, and each later one after twice the
/// wait before it, or after the longest wait where that is shorter.
pub proof fn waits_double(attempt: u32)
    requires
        1 <= attempt < u32::MAX,
    ensures
        backoff_model(1) == 1,
        backoff_model((attempt + 1) as u32) == (if 2 * backoff_model(attempt) <= MAX_BACKOFF_SECS {
            2 * backoff_model(attempt)
        } else {
            MAX_BACKOFF_SECS as nat
        }),
{
    reveal_with_fuel(power_of_two, 2);
}

/// A token is refreshed once it is three days old and at all times after that; one
/// of unknown age is refreshed at once.
pub proof fn old_tokens_are_refreshed(obtained_at: i64, now: int, later: int)
    requires
        now <= later,
    ensures
        refresh_due_model(Some(obtained_at), obtained_at + 259200),
        !refresh_due_model(Some(obtained_at), obtained_at + 259199),
        refresh_due_model(Some(obtained_at), now) ==> refresh_due_model(Some(obtained_at), later),
        refresh_due_model(None, now),
{
}

/// A server is asked for its health at its own host and port, and two servers with the
/// same host are told apart by their ports.
pub proof fn addresses_name_host_and_port(config: ConfigModel, tls: bool, other: u16)
    ensures
        (":"@ + decimal(config.port as nat)).is_suffix_of(
            base_url_model(tls, config.host, config.port),
        ),
        base_url_model(tls, config.host, config.port) == base_url_model(tls, config.host, other)
            ==> config.port == other,
        probe(config, tls) matches ConnectModel::Probe { tls: asked, url } && asked == tls && url
            == base_url_model(tls, config.host, config.port) + "/health"@,
{
    let start = (if tls {
        "https"@
    } else {
        "http"@
    }) + "://"@ + config.host;
    let url = base_url_model(tls, config.host, config.port);
    let end = ":"@ + decimal(config.port as nat);
    assert(url =~= start + end);
    assert(url.skip(start.len() as int) == end);
    if url == base_url_model(tls, config.host, other) {
        let front = start + ":"@;
        assert((front + decimal(config.port as nat)).skip(front.len() as int) == decimal(
            config.port as nat,
        ));
        assert((front + decimal(other as nat)).skip(front.len() as int) == decimal(other as nat));
        decimal_reads_back(config.port as nat, u16::MAX as nat);
        decimal_reads_back(other as nat, u16::MAX as nat);
    }
}

} // verus!
