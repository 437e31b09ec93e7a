//! The values that pass between a connection and its owner.

use crate::json::Json;
use vstd::prelude::*;

verus! {

broadcast use vstd::string::group_string_axioms;

/// The status of a connection.
#[derive(Clone, Debug, PartialEq, Eq)]
pub enum ConnectionStatus {
    Disconnected,
    /// Checking the server's health, or the saved token.
    Connecting,
    /// Waiting for the user to enter a pairing code.
    Pairing,
    Connected,
    /// Lost, and being tried again.
    Reconnecting { attempt: u32 },
    /// Given up.
    Error(String),
}

/// A [`ConnectionStatus`] with its text as a sequence.
pub enum StatusModel {
    Disconnected,
    Connecting,
    Pairing,
    Connected,
    Reconnecting { attempt: u32 },
    Error(Seq<char>),
}

impl DeepView for ConnectionStatus {
    type V = StatusModel;

    open spec fn deep_view(&self) -> StatusModel {
        match self {
            ConnectionStatus::Disconnected => StatusModel::Disconnected,
            ConnectionStatus::Connecting => StatusModel::Connecting,
            ConnectionStatus::Pairing => StatusModel::Pairing,
            ConnectionStatus::Connected => StatusModel::Connected,
            ConnectionStatus::Reconnecting { attempt } => StatusModel::Reconnecting {
                attempt: *attempt,
            },
            ConnectionStatus::Error(message) => StatusModel::Error(message@),
        }
    }
}

/// A message for the server.
#[derive(Clone, Debug, PartialEq, Eq)]
pub enum WsClientMessage {
    /// Input for a terminal.
    SendText { terminal_id: String, text: String },
    /// A new size for a terminal.
    Resize { terminal_id: String, cols: u16, rows: u16 },
    CloseTerminal { terminal_id: String },
    /// Ask for the output of terminals.
    Subscribe { terminal_ids: Vec<String> },
    Unsubscribe { terminal_ids: Vec<String> },
}

/// How a session ended badly.
#[derive(Clone, Debug, PartialEq, Eq)]
pub enum SessionError {
    /// The token is no longer valid: pair again.
    Auth(String),
    /// Worth another attempt.
    Transient(String),
}

/// A [`SessionError`] with its text as a sequence.
pub enum SessionErrorModel {
    Auth(Seq<char>),
    Transient(Seq<char>),
}

impl DeepView for SessionError {
    type V = SessionErrorModel;

    open spec fn deep_view(&self) -> SessionErrorModel {
        match self {
            SessionError::Auth(message) => SessionErrorModel::Auth(message@),
            SessionError::Transient(message) => SessionErrorModel::Transient(message@),
        }
    }
}

/// What a connection tells its owner.
#[derive(Debug, PartialEq, Eq)]
pub enum ConnectionEvent {
    StatusChanged { connection_id: String, status: ConnectionStatus },
    /// Pairing gave a token, to be saved, and the fingerprint of the server's
    /// certificate, to be pinned, where the connection is encrypted.
    TokenObtained { connection_id: String, token: String, cert_fingerprint: Option<String> },
    /// A plain connection found the server encrypted and adopted that.
    TlsUpgraded { connection_id: String, cert_fingerprint: Option<String> },
    /// A snapshot of the server's state.
    StateReceived { connection_id: String, state: Json },
    /// The stream that carries each terminal's output.
    SubscriptionMappings { connection_id: String, mappings: Vec<(String, u32)> },
    ServerWarning { connection_id: String, message: String },
    /// The git status of the server's projects.
    GitStatusChanged { connection_id: String, statuses: Json },
    /// A new token, to be saved in place of the old one.
    TokenRefreshed { connection_id: String, token: String },
}

/// A [`ConnectionEvent`] with its texts as sequences.
pub enum EventModel {
    StatusChanged { connection_id: Seq<char>, status: StatusModel },
    TokenObtained {
        connection_id: Seq<char>,
        token: Seq<char>,
        cert_fingerprint: Option<Seq<char>>,
    },
    TlsUpgraded { connection_id: Seq<char>, cert_fingerprint: Option<Seq<char>> },
    StateReceived { connection_id: Seq<char>, state: Json },
    SubscriptionMappings { connection_id: Seq<char>, mappings: Seq<(Seq<char>, u32)> },
    ServerWarning { connection_id: Seq<char>, message: Seq<char> },
    GitStatusChanged { connection_id: Seq<char>, statuses: Json },
    TokenRefreshed { connection_id: Seq<char>, token: Seq<char> },
}

impl DeepView for ConnectionEvent {
    type V = EventModel;

    open spec fn deep_view(&self) -> EventModel {
        match self {
            ConnectionEvent::StatusChanged { connection_id, status } => EventModel::StatusChanged {
                connection_id: connection_id@,
                status: status.deep_view(),
            },
            ConnectionEvent::TokenObtained {
                connection_id,
                token,
                cert_fingerprint,
            } => EventModel::TokenObtained {
                connection_id: connection_id@,
                token: token@,
                cert_fingerprint: cert_fingerprint.deep_view(),
            },
            ConnectionEvent::TlsUpgraded { connection_id, cert_fingerprint } =>
                EventModel::TlsUpgraded {
                connection_id: connection_id@,
                cert_fingerprint: cert_fingerprint.deep_view(),
            },
            ConnectionEvent::StateReceived { connection_id, state } => EventModel::StateReceived {
                connection_id: connection_id@,
                state: *state,
            },
            ConnectionEvent::SubscriptionMappings { connection_id, mappings } =>
                EventModel::SubscriptionMappings {
                connection_id: connection_id@,
                mappings: mappings.deep_view(),
            },
            ConnectionEvent::ServerWarning { connection_id, message } => EventModel::ServerWarning {
                connection_id: connection_id@,
                message: message@,
            },
            ConnectionEvent::GitStatusChanged { connection_id, statuses } =>
                EventModel::GitStatusChanged {
                connection_id: connection_id@,
                statuses: *statuses,
            },
            ConnectionEvent::TokenRefreshed { connection_id, token } =>
                EventModel::TokenRefreshed { connection_id: connection_id@, token: token@ },
        }
    }
}

/// The age from which a token is refreshed: three days.
pub const TOKEN_REFRESH_AGE_SECS: i64 = 3 * 24 * 3600;

/// Where to connect, and with what.
#[derive(Clone, Debug, PartialEq, Eq)]
pub struct RemoteConnectionConfig {
    pub id: String,
    pub host: String,
    pub port: u16,
    pub saved_token: Option<String>,
    /// When the token was obtained, in seconds since the epoch.
    pub token_obtained_at: Option<i64>,
    /// Whether the server is known to be encrypted.
    pub tls: bool,
    /// The SHA-256 fingerprint of the server's certificate.
    pub pinned_cert_sha256: Option<String>,
}

/// A [`RemoteConnectionConfig`] with its texts as sequences.
pub struct ConfigModel {
    pub id: Seq<char>,
    pub host: Seq<char>,
    pub port: u16,
    pub saved_token: Option<Seq<char>>,
    pub token_obtained_at: Option<i64>,
    pub tls: bool,
    pub pinned_cert_sha256: Option<Seq<char>>,
}

impl DeepView for RemoteConnectionConfig {
    type V = ConfigModel;

    open spec fn deep_view(&self) -> ConfigModel {
        ConfigModel {
            id: self.id@,
            host: self.host@,
            port: self.port,
            saved_token: self.saved_token.deep_view(),
            token_obtained_at: self.token_obtained_at,
            tls: self.tls,
            pinned_cert_sha256: self.pinned_cert_sha256.deep_view(),
        }
    }
}

} // verus!
