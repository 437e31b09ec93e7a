use okena::client::connection::{
    after_pair, after_probe, after_refresh, after_validation, backoff_secs, base_url, first_probe,
    on_outgoing_end, refresh_request, ConnectAction, HttpReply, LoopStep, PairReply,
    ReconnectLoop, RefreshReply, SessionEnd,
};
use okena::client::remote::RemoteClient;
use okena::client::session::{
    after_auth, after_state_change, after_state_fetch, auth_message, changed_terminals,
    initial_sync, on_incoming, on_outgoing, AuthReply, FrameKind, Incoming, Outgoing, SessionAction, StreamTable,
};
use okena::client::types::{
    ConnectionEvent, ConnectionStatus, RemoteConnectionConfig, SessionError, WsClientMessage,
    TOKEN_REFRESH_AGE_SECS,
};
use okena::json::{parse_json, Json};

fn config(tls: bool, token: Option<&str>) -> RemoteConnectionConfig {
    RemoteConnectionConfig {
        id: "c1".to_string(),
        host: "box".to_string(),
        port: 19100,
        saved_token: token.map(String::from),
        token_obtained_at: None,
        tls,
        pinned_cert_sha256: None,
    }
}

fn texts(items: &[&str]) -> Vec<String> {
    items.iter().map(|s| s.to_string()).collect()
}

fn status(status: ConnectionStatus) -> ConnectionEvent {
    ConnectionEvent::StatusChanged {
        connection_id: "c1".to_string(),
        status,
    }
}

fn error(message: &str) -> ConnectionEvent {
    status(ConnectionStatus::Error(message.to_string()))
}

fn reply(code: u16, text: &str) -> HttpReply {
    HttpReply::Status {
        status: code,
        status_text: text.to_string(),
    }
}

#[test]
fn ws_client_message_debug() {
    let msg = WsClientMessage::SendText {
        terminal_id: "t1".to_string(),
        text: "hello".to_string(),
    };
    let debug = format!("{:?}", msg);
    assert!(debug.contains("SendText"));
}

// ---------------------------------------------------------------------------
// Connecting
// ---------------------------------------------------------------------------

#[test]
fn connecting_begins_encrypted() {
    assert_eq!(base_url(false, "h", 1), "http://h:1");
    assert_eq!(
        first_probe(&config(false, None)),
        ConnectAction::Probe {
            tls: true,
            url: "https://box:19100/health".to_string(),
        }
    );
}

#[test]
fn a_plain_server_is_probed_next() {
    let mut plain = config(false, None);
    let (events, action) = after_probe(&mut plain, true, false, None);
    assert!(events.is_empty());
    assert_eq!(
        action,
        ConnectAction::Probe {
            tls: false,
            url: "http://box:19100/health".to_string(),
        }
    );
    let (events, action) = after_probe(&mut plain, false, false, None);
    assert_eq!(events, [error("Cannot reach server box:19100")]);
    assert_eq!(action, ConnectAction::Stop);
    let (events, action) = after_probe(&mut plain, false, true, None);
    assert_eq!(events, [status(ConnectionStatus::Pairing)]);
    assert_eq!(action, ConnectAction::Stop);
    assert!(!plain.tls);
}

#[test]
fn an_encrypted_server_never_falls_back() {
    let mut encrypted = config(true, Some("tok"));
    let (events, action) = after_probe(&mut encrypted, true, false, None);
    assert_eq!(events, [error("Cannot reach server box:19100")]);
    assert_eq!(action, ConnectAction::Stop);
}

#[test]
fn an_upgrade_pins_the_certificate() {
    let mut plain = config(false, Some("tok"));
    let (events, action) = after_probe(&mut plain, true, true, Some("ab".to_string()));
    assert_eq!(
        events,
        [ConnectionEvent::TlsUpgraded {
            connection_id: "c1".to_string(),
            cert_fingerprint: Some("ab".to_string()),
        }]
    );
    assert_eq!(
        action,
        ConnectAction::Validate {
            url: "https://box:19100/v1/state".to_string(),
            token: "tok".to_string(),
        }
    );
    assert!(plain.tls);
    assert_eq!(plain.pinned_cert_sha256.as_deref(), Some("ab"));
}

#[test]
fn only_a_refused_token_leads_to_pairing() {
    let c = config(true, Some("tok"));
    let after = |reply| after_validation(&c, "tok".to_string(), reply);
    assert_eq!(
        after(reply(200, "200 OK")),
        (
            Vec::new(),
            ConnectAction::RunSession {
                token: "tok".to_string(),
            }
        )
    );
    assert_eq!(after(reply(401, "401 Unauthorized")).0, [status(ConnectionStatus::Pairing)]);
    assert_eq!(
        after(reply(500, "500 Internal Server Error")).0,
        [error("Token validation: unexpected HTTP 500 Internal Server Error")]
    );
    assert_eq!(
        after(HttpReply::Failed("timeout".to_string())).0,
        [error("Token validation failed: timeout")]
    );
}

#[test]
fn pairing_hands_out_the_token() {
    let c = config(true, None);
    let (event, action) = after_pair(
        &c,
        PairReply::Paired {
            token: "new".to_string(),
        },
        Some("ab".to_string()),
    );
    assert_eq!(
        event,
        ConnectionEvent::TokenObtained {
            connection_id: "c1".to_string(),
            token: "new".to_string(),
            cert_fingerprint: Some("ab".to_string()),
        }
    );
    assert_eq!(
        action,
        ConnectAction::RunSession {
            token: "new".to_string(),
        }
    );
    let failed = |reply| after_pair(&c, reply, None).0;
    assert_eq!(
        failed(PairReply::Unreadable("eof".to_string())),
        error("Failed to parse pair response: eof")
    );
    assert_eq!(
        failed(PairReply::Refused {
            status_text: "403 Forbidden".to_string(),
            body: "bad code".to_string(),
        }),
        error("Pairing failed: HTTP 403 Forbidden - bad code")
    );
    assert_eq!(
        failed(PairReply::Failed("down".to_string())),
        error("Pairing request failed: down")
    );
}

#[test]
fn waits_double_up_to_thirty_seconds() {
    let all: Vec<u64> = (1..8).map(backoff_secs).collect();
    assert_eq!(all, [1, 2, 4, 8, 16, 30, 30]);
    assert_eq!(backoff_secs(0), 1);
    assert_eq!(backoff_secs(u32::MAX), 30);
}

#[test]
fn lost_connections_are_retried_ten_times() {
    let c = config(true, Some("tok"));
    let mut attempts = ReconnectLoop::new("tok".to_string());
    let lost = || SessionEnd::Failed(SessionError::Transient("gone".to_string()));
    for attempt in 1..=10 {
        assert_eq!(
            attempts.after_session(&c, lost()),
            LoopStep::Retry {
                event: status(ConnectionStatus::Reconnecting { attempt }),
                wait_secs: backoff_secs(attempt),
            }
        );
    }
    assert_eq!(
        attempts.after_session(&c, lost()),
        LoopStep::Stop(Some(error("Connection lost after 10 attempts (last error: gone)")))
    );
    let mut fresh = ReconnectLoop::new("tok".to_string());
    fresh.adopt_token(&None);
    assert_eq!(fresh.token, "tok");
    fresh.adopt_token(&Some("newer".to_string()));
    assert_eq!(fresh.token, "newer");
    let refused = SessionEnd::Failed(SessionError::Auth("no".to_string()));
    assert_eq!(
        fresh.after_session(&c, refused),
        LoopStep::Stop(Some(status(ConnectionStatus::Pairing)))
    );
    assert_eq!(fresh.after_session(&c, SessionEnd::Clean), LoopStep::Stop(None));
}

#[test]
fn old_tokens_are_refreshed() {
    let mut c = config(true, Some("tok"));
    let due = Some(("https://box:19100/v1/refresh".to_string(), "tok".to_string()));
    assert_eq!(refresh_request(&c, 0), due);
    c.token_obtained_at = Some(100);
    assert_eq!(refresh_request(&c, 100 + TOKEN_REFRESH_AGE_SECS - 1), None);
    assert_eq!(refresh_request(&c, 100 + TOKEN_REFRESH_AGE_SECS), due);
    c.token_obtained_at = Some(i64::MIN);
    assert_eq!(refresh_request(&c, i64::MAX), due);
    c.saved_token = None;
    assert_eq!(refresh_request(&c, 0), None);
}

// ---------------------------------------------------------------------------
// Sessions
// ---------------------------------------------------------------------------

#[test]
fn a_session_begins_with_its_token() {
    let expected = parse_json(r#"{"type":"auth","token":"tok"}"#).unwrap();
    let message = auth_message("tok");
    assert_eq!(message.get("type"), expected.get("type"));
    assert_eq!(message.get("token"), expected.get("token"));

    let text = |t: &str| after_auth(AuthReply::Text(t.to_string()));
    assert_eq!(text(r#"{"type":"auth_ok"}"#), Ok(()));
    assert_eq!(
        text(r#"{"type":"auth_failed","error":"expired"}"#),
        Err(SessionError::Auth("Auth failed: expired".to_string()))
    );
    assert_eq!(
        text(r#"{"type":"auth_failed"}"#),
        Err(SessionError::Auth("Auth failed: unknown".to_string()))
    );
    let transient = |m: &str| Err(SessionError::Transient(m.to_string()));
    assert_eq!(text(r#"{"type":"hi"}"#), transient("Unexpected auth response type: hi"));
    assert!(matches!(text("nonsense"), Err(SessionError::Transient(m)) if m.starts_with("Invalid JSON: ")));
    assert_eq!(after_auth(AuthReply::Timeout), transient("Auth response timeout"));
    assert_eq!(
        after_auth(AuthReply::Closed),
        transient("WebSocket closed before auth response")
    );
    assert_eq!(
        after_auth(AuthReply::ReadError("x".to_string())),
        transient("WebSocket read error: x")
    );
    assert_eq!(
        after_auth(AuthReply::Other),
        transient("Expected text message for auth response")
    );
}

#[test]
fn the_state_is_fetched_or_the_session_fails() {
    assert_eq!(after_state_fetch(reply(200, "200 OK")), Ok(()));
    assert_eq!(
        after_state_fetch(reply(401, "401 Unauthorized")),
        Err(SessionError::Auth("State fetch failed: HTTP 401 Unauthorized".to_string()))
    );
    assert_eq!(
        after_state_fetch(reply(502, "502 Bad Gateway")),
        Err(SessionError::Transient("State fetch failed: HTTP 502 Bad Gateway".to_string()))
    );
    assert_eq!(
        after_state_fetch(HttpReply::Failed("down".to_string())),
        Err(SessionError::Transient("Failed to fetch state: down".to_string()))
    );
}

#[test]
fn terminals_follow_the_state() {
    let create = |id: &str| SessionAction::CreateTerminal {
        terminal_id: id.to_string(),
    };
    assert_eq!(
        initial_sync(&texts(&["r:a"]), &texts(&["a"])),
        [
            SessionAction::RemoveTerminalsExcept {
                terminal_ids: texts(&["r:a"]),
            },
            create("a"),
            SessionAction::StateReceived,
            SessionAction::Subscribe {
                terminal_ids: texts(&["a"]),
            },
            SessionAction::Connected,
        ]
    );
    assert_eq!(initial_sync(&Vec::new(), &Vec::new()).len(), 3);
    assert_eq!(
        after_state_change(&texts(&["b"]), &texts(&["a"])),
        [
            create("b"),
            SessionAction::RemoveTerminal {
                terminal_id: "a".to_string(),
            },
            SessionAction::Subscribe {
                terminal_ids: texts(&["b"]),
            },
            SessionAction::Unsubscribe {
                terminal_ids: texts(&["a"]),
            },
            SessionAction::StateReceived,
        ]
    );
    assert_eq!(
        after_state_change(&Vec::new(), &Vec::new()),
        [SessionAction::StateReceived]
    );
}

fn arrive(streams: &mut StreamTable, text: &str) -> Vec<SessionAction> {
    on_incoming(streams, Incoming::Text(text.to_string()))
}

#[test]
fn subscriptions_name_their_streams() {
    let mut streams = StreamTable::new();
    let frame = |stream_id| Incoming::Frame {
        kind: FrameKind::Pty,
        stream_id,
        payload: b"out".to_vec(),
    };
    assert!(on_incoming(&mut streams, frame(7)).is_empty());
    let actions = arrive(
        &mut streams,
        r#"{"type":"subscribed","mappings":{"a":7,"b":8},"sizes":{"a":[80,24]}}"#,
    );
    assert_eq!(
        actions,
        [
            SessionAction::ResizeTerminal {
                terminal_id: "a".to_string(),
                cols: 80,
                rows: 24,
            },
            SessionAction::MappingsReceived {
                mappings: vec![("a".to_string(), 7), ("b".to_string(), 8)],
            },
        ]
    );
    assert_eq!(streams.stream_of("b"), Some(8));
    assert_eq!(streams.terminal_of(7).as_deref(), Some("a"));
    assert_eq!(
        on_incoming(&mut streams, frame(7)),
        [SessionAction::TerminalOutput {
            terminal_id: "a".to_string(),
            payload: b"out".to_vec(),
        }]
    );
    let odd = r#"{"type":"subscribed","mappings":{"a":-1}}"#;
    assert!(arrive(&mut streams, odd).is_empty());
    streams.clear();
    assert_eq!(streams.stream_of("a"), None);
}

#[test]
fn documents_ask_for_work() {
    let mut streams = StreamTable::new();
    let warn = |message: &str| SessionAction::Warn {
        message: message.to_string(),
    };
    assert_eq!(
        arrive(&mut streams, r#"{"type":"state_changed"}"#),
        [SessionAction::FetchState]
    );
    assert_eq!(
        arrive(&mut streams, r#"{"type":"dropped","count":3}"#),
        [warn("Server dropped 3 messages")]
    );
    assert_eq!(
        arrive(&mut streams, r#"{"type":"error","error":"full"}"#),
        [warn("Server error: full")]
    );
    assert_eq!(
        arrive(&mut streams, r#"{"type":"terminal_resized","terminal_id":"a","cols":100,"rows":30}"#),
        [SessionAction::ResizeTerminal {
            terminal_id: "a".to_string(),
            cols: 100,
            rows: 30,
        }]
    );
    assert_eq!(
        arrive(&mut streams, r#"{"type":"git_status_changed","projects":{}}"#),
        [SessionAction::PassGitStatuses]
    );
    assert!(arrive(&mut streams, r#"{"type":"git_status_changed"}"#).is_empty());
    for projects in ["null", "[]", "\"main\"", "7"] {
        let message = format!(r#"{{"type":"git_status_changed","projects":{projects}}}"#);
        assert!(arrive(&mut streams, &message).is_empty(), "{projects}");
    }
    assert!(arrive(&mut streams, r#"{"type":"news"}"#).is_empty());
    assert!(arrive(&mut streams, "nonsense").is_empty());
    assert!(on_incoming(&mut streams, Incoming::Idle).is_empty());
    assert!(matches!(
        on_incoming(&mut streams, Incoming::Close)[..],
        [SessionAction::End(SessionError::Transient(_))]
    ));
}

#[test]
fn text_goes_out_on_its_stream() {
    let mut streams = StreamTable::new();
    let message = WsClientMessage::SendText {
        terminal_id: "a".to_string(),
        text: "ls\n".to_string(),
    };
    match on_outgoing(&streams, &message) {
        Outgoing::Document(document) => {
            assert_eq!(document.get_str("type"), Some("send_text"));
            assert_eq!(document.get_str("text"), Some("ls\n"));
        }
        other => panic!("{:?}", other),
    }
    streams.record(&vec![("a".to_string(), 7)]);
    assert_eq!(
        on_outgoing(&streams, &message),
        Outgoing::Input {
            stream_id: 7,
            bytes: b"ls\n".to_vec(),
        }
    );
    let resize = WsClientMessage::Resize {
        terminal_id: "a".to_string(),
        cols: 80,
        rows: 24,
    };
    assert!(matches!(on_outgoing(&streams, &resize), Outgoing::Document(_)));
}

// ---------------------------------------------------------------------------
// The client
// ---------------------------------------------------------------------------

#[test]
fn a_client_keeps_its_state() {
    let mut client = RemoteClient::new(config(false, Some("tok")));
    assert_eq!(client.status(), &ConnectionStatus::Disconnected);
    client.update_shared_token("newer");
    assert_eq!(client.shared_token().as_deref(), Some("newer"));
    assert!(matches!(client.connect(), ConnectAction::Probe { tls: true, .. }));
    assert_eq!(client.status(), &ConnectionStatus::Connecting);
    assert_eq!(client.shared_token().as_deref(), Some("tok"));

    let request = client.pair("1234");
    assert_eq!(request.url, "http://box:19100/v1/pair");
    assert_eq!(request.body, parse_json(r#"{"code":"1234"}"#).unwrap());

    client.set_status(ConnectionStatus::Connected);
    *client.status_mut() = ConnectionStatus::Reconnecting { attempt: 1 };
    client.config_mut().port = 1;
    assert_eq!(client.config().port, 1);
    client.set_remote_state(parse_json("{}"));
    client.update_stream_mappings(&vec![("a".to_string(), 3)]);
    assert_eq!(client.streams().stream_of("a"), Some(3));
    assert!(client.remote_state().is_some());
    if let Some(state) = client.remote_state_mut() {
        *state = Json::Null;
    }
    assert_eq!(client.remote_state(), Some(&Json::Null));
    client.disconnect();
    assert_eq!(client.status(), &ConnectionStatus::Disconnected);
    assert!(client.remote_state().is_none());
    assert_eq!(client.streams().stream_of("a"), None);
}

#[test]
fn changed_terminals_are_told_apart() {
    let before = texts(&["a", "b", "c"]);
    let (added, removed) = changed_terminals(&before, &texts(&["d", "b", "e"]));
    assert_eq!(added, texts(&["d", "e"]));
    assert_eq!(removed, texts(&["a", "c"]));
}

#[test]
fn reconnecting_comes_to_an_end() {
    let config = config(true, None);
    let mut reconnect = ReconnectLoop::new("t".to_string());
    let lost = || SessionEnd::Failed(SessionError::Transient("gone".to_string()));
    let mut waits = Vec::new();
    loop {
        match reconnect.after_session(&config, lost()) {
            LoopStep::Retry { wait_secs, .. } => waits.push(wait_secs),
            LoopStep::Stop(_) => break,
        }
    }
    assert_eq!(waits, [1, 2, 4, 8, 16, 30, 30, 30, 30, 30]);
}

#[test]
fn only_a_new_token_is_told_of() {
    let config = config(true, Some("old"));
    let refreshed = RefreshReply::Refreshed {
        token: "new".to_string(),
    };
    assert_eq!(
        after_refresh(&config, refreshed),
        Some(ConnectionEvent::TokenRefreshed {
            connection_id: "c1".to_string(),
            token: "new".to_string(),
        })
    );
    for reply in [RefreshReply::Unreadable, RefreshReply::Refused, RefreshReply::Failed] {
        assert_eq!(after_refresh(&config, reply), None);
    }
    let mut reconnect = ReconnectLoop::new("t".to_string());
    let end = on_outgoing_end();
    assert_eq!(reconnect.after_session(&config, end), LoopStep::Stop(None));
}
