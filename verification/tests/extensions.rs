use okena::extensions::claude::{
    self, elapsed_in_period, expand_tilde, extract_access_token, keychain_service_name,
    keychain_service_names, parse_usage, read_response, reset_format, resolve_claude_dir,
    time_elapsed_ms, AssistantNames, ConfiguredDir, FetchOutcome, LocalTime, ResetFormat, WakeGate,
    FIVE_HOUR_MS,
};
use okena::extensions::claude_fetch::{
    self, keychain_command, read_access_token, ClaudeUsageData,
};
use okena::extensions::claude_view::{self, Looks, TierLook};
use okena::extensions::codex_fetch::{
    after_token_request, after_usage_request, fetch_usage, refresh_request, session_files,
    usage_request, Attempt, CodexUsageData, FetchStep,
};
use okena::extensions::codex_status::{
    self, after_look, impact_tone, read_status, status_label, status_request, StatusTone,
};
use okena::extensions::codex_usage::{
    abs_severity, format_reset_time, format_window_label, pace_message,
    parse_window, plan_type_from_access_token, read_codex_auth, read_new_tokens, refresh_form,
    segments_for_window, store_tokens, usage_from_response, usage_from_session,
    window_row_label, CodexAuth, CreditsInfo, RateLimitWindow, Severity,
};
use okena::extensions::codex_view::{self, CreditsRow, Paces};
use okena::extensions::numbers::{above, at_least_half, round_number};
use okena::extensions::poll::Poll;
use okena::extensions::popover::HoverState;
use okena::extensions::ui_helpers::{capitalize_first, format_api_timestamp};
use okena::http::{Body, HttpResponse, Method};
use okena::json::{parse_json, Json, JsonNumber};
use okena::process::command::{CommandOutput, ThreadLane};
use sha2::Digest;

fn names_of(name: &str) -> AssistantNames {
    AssistantNames {
        dir_name: format!(".{name}"),
        service: format!("{name} keys"),
        extension: format!("{name}-code"),
        label: format!("{name}.usage"),
        heading: name.to_uppercase(),
        site: format!("{name}.example"),
    }
}

fn names() -> AssistantNames {
    names_of("helper")
}

fn json(text: &str) -> Json {
    parse_json(text).unwrap()
}

// ---------------------------------------------------------------------------
// The assistant's directory and credentials
// ---------------------------------------------------------------------------

#[test]
fn test_expand_tilde_absolute() {
    assert_eq!(expand_tilde("/absolute/path", Some("/home/u")), "/absolute/path");
}

#[test]
fn test_expand_tilde_with_slash() {
    assert_eq!(expand_tilde("~/foo/bar", Some("/home/u")), "/home/u/foo/bar");
    assert_eq!(expand_tilde("~/foo/bar", None), "~/foo/bar");
}

#[test]
fn test_expand_tilde_bare() {
    assert_eq!(expand_tilde("~", Some("/home/u")), "/home/u");
}

fn dir(path: &str, exists: bool) -> Option<ConfiguredDir> {
    Some(ConfiguredDir {
        path: path.to_string(),
        exists,
    })
}

#[test]
fn test_existing_path_missing() {
    let found = resolve_claude_dir(&dir("/missing", false), &None, Some("/home/u"), &names());
    assert_eq!(found, "/home/u/.helper");
}

#[test]
fn test_existing_path_present() {
    let found = resolve_claude_dir(&dir("/there", true), &dir("/env", true), Some("/h"), &names());
    assert_eq!(found, "/there");
    let found = resolve_claude_dir(&dir("", true), &dir("~/env", true), Some("/h"), &names());
    assert_eq!(found, "/h/env");
    assert_eq!(resolve_claude_dir(&None, &None, None, &names()), "./.helper");
}

#[test]
fn test_read_access_token_from_file() {
    let creds = r#"{"claudeAiOauth": {"accessToken": "test-token-abc"}}"#;
    assert_eq!(
        read_access_token(Some(creds), &vec![], 1).as_deref(),
        Some("test-token-abc")
    );
}

#[test]
fn tokens_are_trimmed() {
    let creds = r#"{"claudeAiOauth": {"accessToken": " padded "}}"#;
    assert_eq!(extract_access_token(creds, 1).as_deref(), Some("padded"));
}

fn printed(code: i32, text: &str) -> Option<CommandOutput> {
    Some(CommandOutput {
        code: Some(code),
        stdout: text.as_bytes().to_vec(),
        stderr: vec![],
    })
}

#[test]
fn tokens_are_looked_for_in_turn() {
    let creds = |token: &str| format!(r#" {{"claudeAiOauth": {{"accessToken": "{token}"}}}} "#);
    let answers = vec![printed(44, &creds("refused")), printed(0, &creds("kept"))];
    assert_eq!(read_access_token(None, &answers, 1).as_deref(), Some("kept"));
    assert_eq!(
        read_access_token(Some(creds("saved").as_str()), &answers, 1).as_deref(),
        Some("saved")
    );
    assert_eq!(
        read_access_token(Some("broken"), &answers, 1).as_deref(),
        Some("kept")
    );
    let cut_short = vec![None, printed(0, &creds("kept"))];
    assert_eq!(read_access_token(None, &cut_short, 1), None);
    let command = keychain_command("svc", "me", &ThreadLane::new());
    assert_eq!(command.program, "security");
    assert_eq!(command.args, ["find-generic-password", "-s", "svc", "-a", "me", "-w"]);
}

#[test]
fn the_assistant_is_asked_again_in_time() {
    let request = claude_fetch::usage_request("t1", &names());
    assert_eq!(request.headers[0].1, "Bearer t1");
    assert_eq!(request.headers[1].1, "oauth-2025-04-20");
    assert_eq!(request.label.as_deref(), Some("helper.usage"));
    assert_eq!(request.min_interval, Some(5_000_000_000));

    let mut shown = ClaudeUsageData::new("/h/.helper".to_string());
    assert_eq!(shown.finish_fetch(None, 10), 30);
    assert!(shown.wake_if_no_data());
    assert!(!shown.wake_if_no_data());
    assert_eq!(shown.finish_fetch(answer(500, "{}"), 20), 60);
    let limited = HttpResponse::new(
        429,
        vec![("retry-after".to_string(), "500".to_string())],
        vec![],
    );
    assert_eq!(shown.finish_fetch(Some(limited), 30), 500);
    assert_eq!(shown.finish_fetch(answer(429, ""), 30), 600);
    assert_eq!(shown.data, None);
    assert_eq!(shown.finish_fetch(answer(200, r#"{"five_hour": {}}"#), 100), 300);
    assert!(shown.data.is_some());

    assert!(!shown.request_fresh_fetch(159));
    assert!(shown.request_fresh_fetch(160));
    assert!(!shown.settings_changed("/h/./.helper/".to_string()));
    assert!(!shown.settings_changed("/other".to_string()));
    assert_eq!(shown.dir, "/other");
    shown.finish_fetch(answer(200, "{}"), 200);
    assert!(shown.settings_changed("/h/.helper".to_string()));
}

#[test]
fn the_popover_of_the_assistant_has_a_row_for_each_tier() {
    let data = parse_usage(&json(
        r#"{"five_hour": {"utilization": 80.5}, "seven_day": {"utilization": 60},
            "seven_day_sonnet": {"utilization": 0.5}, "seven_day_opus": {"utilization": 0.49},
            "extra_usage": {"is_enabled": true, "used_credits": 5}}"#,
    ));
    let look = |pace, reset: &str| TierLook {
        pace,
        reset: reset.to_string(),
    };
    let looks = Looks {
        five_hour: look(Severity::Normal, "14:00 UTC"),
        seven_day: look(Severity::Critical, ""),
        seven_day_sonnet: look(Severity::Normal, ""),
        seven_day_opus: look(Severity::Normal, ""),
    };
    let shown = Some(data);
    assert_eq!(claude_view::render_popover(&shown, false, &looks), None);
    let (rows, extra) = claude_view::render_popover(&shown, true, &looks).unwrap();
    let labels: Vec<(&str, &str, u32)> =
        rows.iter().map(|r| (r.label, r.period, r.segments)).collect();
    assert_eq!(
        labels,
        [("Session", "5h", 5), ("Weekly", "7d", 7), ("Sonnet", "7d", 7)]
    );
    assert_eq!((rows[0].bar, rows[0].tone), (Severity::Critical, Severity::Critical));
    assert_eq!(rows[0].reset.as_deref(), Some("resets 14:00 UTC"));
    assert_eq!((rows[1].bar, rows[1].tone), (Severity::Normal, Severity::Critical));
    assert_eq!(rows[1].message, Some("Slow down to last the period"));
    assert!(extra.is_some());
    let (first, second) = claude_view::render(&shown).unwrap();
    assert_eq!(first.map(|b| (b.0, b.2)), Some(("5h", Severity::Critical)));
    assert_eq!(second.map(|b| (b.0, b.2)), Some(("7d", Severity::Normal)));
    assert_eq!(claude_view::render(&None), None);

    let disabled = Some(parse_usage(&json(r#"{"extra_usage": {"is_enabled": false}}"#)));
    let (rows, extra) = claude_view::render_popover(&disabled, true, &looks).unwrap();
    assert!(rows.is_empty() && extra.is_none());
}

#[test]
fn numbers_are_compared_as_doubles_are() {
    for f in [
        0.0, 0.25, 0.5, 0.49999999999999994, 1.0, 59.99, 60.0, 60.00000000000001, 80.5, 1e16, 1e300,
        -1.0, 5e-324,
    ] {
        let n = JsonNumber::Float(f64::to_bits(f));
        assert_eq!(at_least_half(n), f >= 0.5, "{f}");
        for bound in [0u32, 1, 60, 80, u32::MAX] {
            assert_eq!(above(n, bound), f > bound as f64, "{f} {bound}");
        }
    }
    assert!(above(JsonNumber::Unsigned(61), 60) && !above(JsonNumber::Unsigned(60), 60));
    assert!(!above(JsonNumber::Negative(-1), 0) && !at_least_half(JsonNumber::Negative(-1)));
}

#[test]
fn test_extract_access_token_rejects_empty_token() {
    let creds = r#"{"claudeAiOauth": {"accessToken": ""}}"#;
    assert!(extract_access_token(creds, 1_000).is_none());
}

#[test]
fn test_extract_access_token_rejects_expired_token() {
    let creds = r#"{"claudeAiOauth": {"accessToken": "expired-token", "expiresAt": 999}}"#;
    assert!(extract_access_token(creds, 1_000).is_none());
    assert!(extract_access_token(creds, 999).is_none());
}

#[test]
fn test_extract_access_token_accepts_unexpired_token() {
    let creds = r#"{"claudeAiOauth": {"accessToken": "fresh-token", "expiresAt": 1001}}"#;
    assert_eq!(extract_access_token(creds, 1_000).as_deref(), Some("fresh-token"));
    assert!(extract_access_token("not json", 1_000).is_none());
}

#[test]
fn test_keychain_service_default() {
    for names in [names_of("helper"), names_of("other")] {
        let dir = format!("/home/u/{}", names.dir_name);
        assert_eq!(keychain_service_name(&dir, Some(&dir), &names), names.service);
    }
}

#[test]
fn test_keychain_service_names_default_include_suffixed_fallback() {
    for names in [names_of("helper"), names_of("other")] {
        let dir = format!("/home/u/{}", names.dir_name);
        let all = keychain_service_names(&dir, Some(&dir), &names);
        assert_eq!(all.len(), 2);
        assert_eq!(all[0], names.service);
        assert!(all[1].starts_with(&format!("{}-", names.service)));
    }
}

#[test]
fn test_keychain_service_custom() {
    for names in [names_of("helper"), names_of("other")] {
        let default_dir = format!("/home/u/{}", names.dir_name);
        let path = format!("{default_dir}-work");
        let service = keychain_service_name(&path, Some(&default_dir), &names);
        let d = sha2::Sha256::digest(path.as_bytes());
        let expected = format!(
            "{}-{:02x}{:02x}{:02x}{:02x}",
            names.service, d[0], d[1], d[2], d[3]
        );
        assert_eq!(service, expected);
        assert_ne!(service, names.service, "custom dir must get a suffix");
    }
}

#[test]
fn test_keychain_service_names_custom_has_single_service() {
    for names in [names_of("helper"), names_of("other")] {
        let all = keychain_service_names("/home/u/dir", None, &names);
        assert_eq!(all.len(), 1);
        assert!(all[0].starts_with(&format!("{}-", names.service)));
    }
}

// ---------------------------------------------------------------------------
// The assistant's usage
// ---------------------------------------------------------------------------

#[test]
fn usage_is_read_tier_by_tier() {
    let usage = parse_usage(&json(
        r#"{"five_hour": {"utilization": 12.5, "resets_at": "2025-01-01T00:00:00Z"},
            "seven_day": {},
            "extra_usage": {"is_enabled": true, "monthly_limit": 5000}}"#,
    ));
    let five = usage.five_hour.unwrap();
    assert_eq!(five.utilization, Some(JsonNumber::Float(12.5f64.to_bits())));
    assert_eq!(five.resets_at.as_deref(), Some("2025-01-01T00:00:00Z"));
    assert_eq!(usage.seven_day.unwrap().utilization, None);
    assert_eq!(usage.seven_day_opus, None);
    assert_eq!(usage.seven_day_sonnet, None);
    let extra = usage.extra_usage.unwrap();
    assert!(extra.is_enabled);
    assert_eq!(extra.monthly_limit, Some(JsonNumber::Unsigned(5000)));
    assert_eq!(extra.used_credits, None);
}

#[test]
fn answers_say_when_to_ask_again() {
    assert_eq!(
        read_response(429, Some("120"), ""),
        FetchOutcome::RateLimited { retry_secs: 120 }
    );
    assert_eq!(
        read_response(429, Some("soon"), ""),
        FetchOutcome::RateLimited { retry_secs: 600 }
    );
    assert_eq!(read_response(429, None, ""), FetchOutcome::RateLimited { retry_secs: 600 });
    assert_eq!(read_response(500, None, "{}"), FetchOutcome::Failed);
    assert_eq!(read_response(200, None, "nonsense"), FetchOutcome::Failed);
    assert_eq!(read_response(200, None, "{}"), FetchOutcome::Fetched(json("{}")));
}

#[test]
fn test_parse_iso8601_to_epoch() {
    // 2025-01-01T00:00:00Z = 1735689600
    let reset_ms = 1_735_689_600_000;
    let elapsed = time_elapsed_ms("2025-01-01T00:00:00.000Z", reset_ms - 1_000, 100_000);
    assert_eq!(elapsed, Some(99_000));
}

#[test]
fn test_parse_iso8601_to_epoch_invalid() {
    assert!(time_elapsed_ms("not-a-date", 0, 100_000).is_none());
}

#[test]
fn test_compute_time_elapsed_pct() {
    // A reset 50% through a 100-second period
    assert_eq!(elapsed_in_period(150_000, 100_000, 100_000), 50_000);
    assert_eq!(elapsed_in_period(0, 100_000, 100_000), 100_000);
    assert_eq!(elapsed_in_period(i64::MAX, i64::MIN, FIVE_HOUR_MS), 0);
}

#[test]
fn resets_are_told_by_their_day() {
    assert_eq!(reset_format(false, Some(0)), ResetFormat::Time);
    assert_eq!(reset_format(true, Some(0)), ResetFormat::Today);
    assert_eq!(reset_format(true, Some(1)), ResetFormat::Tomorrow);
    assert_eq!(reset_format(true, Some(6)), ResetFormat::Weekday);
    assert_eq!(reset_format(true, Some(7)), ResetFormat::Date);
    assert_eq!(reset_format(true, Some(-1)), ResetFormat::Date);
    assert_eq!(reset_format(true, None), ResetFormat::Date);
}

#[test]
fn the_poll_is_woken_once() {
    let mut gate = WakeGate { sent: false };
    assert!(!gate.request_fresh_fetch(Some(59)));
    assert!(gate.request_fresh_fetch(Some(60)));
    assert!(!gate.request_fresh_fetch(None));
    gate.succeeded();
    assert!(gate.wake());
    assert!(!gate.wake());
}

// ---------------------------------------------------------------------------
// Codex
// ---------------------------------------------------------------------------

#[test]
fn test_segments_for_window() {
    // Sub-hour windows get no internal grid.
    assert_eq!(segments_for_window(0), 1);
    assert_eq!(segments_for_window(3600), 1);
    // Multi-hour windows split per hour.
    assert_eq!(segments_for_window(5 * 3600), 5);
    // Per-hour count is capped so the bar doesn't get crowded.
    assert_eq!(segments_for_window(86400), 12);
    // Multi-day windows split per day.
    assert_eq!(segments_for_window(7 * 86400), 7);
    // Per-day count is capped as well.
    assert_eq!(segments_for_window(30 * 86400), 14);
}

#[test]
fn numbers_are_rounded_to_counts() {
    let round = |f: f64| round_number(JsonNumber::Float(f.to_bits()));
    for f in [
        0.0, 0.49, 0.5, 1.5, 2.5, 41.7, 99.999, 1e15, 4503599627370497.5, 9e18, 1.8e19, 1e300,
        -3.0, 5e-324, 0.49999999999999994,
    ] {
        assert_eq!(round(f), f.round() as u64, "{f}");
    }
    assert_eq!(round_number(JsonNumber::Unsigned(7)), 7);
    assert_eq!(round_number(JsonNumber::Negative(-7)), 0);
}

#[test]
fn windows_tell_how_far_they_are() {
    let window = parse_window(
        &json(r#"{"used_percent": 41.7, "limit_window_seconds": 18000, "reset_at": 2000}"#),
        1000,
    );
    assert_eq!(
        window,
        Some(RateLimitWindow {
            used_percent: 42,
            window_seconds: 18000,
            reset_at: 2000,
            elapsed_seconds: Some(17000),
        })
    );
    let minutes = parse_window(&json(r#"{"used_percent": 1, "window_minutes": 300}"#), 0).unwrap();
    assert_eq!((minutes.window_seconds, minutes.elapsed_seconds), (18000, None));
    assert_eq!(parse_window(&json(r#"{"used_percent": "1"}"#), 0), None);
    assert_eq!(window_row_label("Rate Limit", &minutes), "Rate Limit (5h)");
}

#[test]
fn usage_is_read_from_the_service() {
    let usage = usage_from_response(
        &json(
            r#"{"plan_type": "plus",
                "rate_limit": {"primary_window": {"used_percent": 5}, "secondary_window": null},
                "code_review_rate_limit": {"primary_window": {"used_percent": 6}},
                "credits": {"has_credits": true, "balance": 2.5}}"#,
        ),
        0,
    );
    assert_eq!(usage.plan_type, "plus");
    assert_eq!(usage.primary_window.unwrap().used_percent, 5);
    assert_eq!(usage.secondary_window, None);
    assert_eq!(usage.review_primary.unwrap().used_percent, 6);
    let credits = usage.credits.unwrap();
    assert!(credits.has_credits && !credits.unlimited);
    assert_eq!(credits.balance, Some(JsonNumber::Float(2.5f64.to_bits())));
    assert_eq!(usage_from_response(&json("{}"), 0).plan_type, "unknown");
}

#[test]
fn plans_are_named_in_the_token() {
    // {"https://api.openai.com/auth":{"chatgpt_plan_type":"pro"}}
    let claims = "eyJodHRwczovL2FwaS5vcGVuYWkuY29tL2F1dGgiOnsiY2hhdGdwdF9wbGFuX3R5cGUiOiJwcm8ifX0";
    let token = format!("head.{claims}.signature");
    assert_eq!(plan_type_from_access_token(&token).as_deref(), Some("pro"));
    assert_eq!(plan_type_from_access_token("head.!!.x"), None);
    assert_eq!(plan_type_from_access_token("opaque"), None);

    let line = |limits: &str| {
        format!(
            r#"{{"type":"event_msg","payload":{{"type":"token_count","rate_limits":{limits}}}}}"#
        )
    };
    let lines = vec![
        line(r#"{"primary":{"used_percent":1}}"#),
        line(r#"{"secondary":{"used_percent":2}}"#),
        line(r#"{"primary":{}}"#),
        "nonsense".to_string(),
    ];
    let usage = usage_from_session(&lines, &token, 0).unwrap();
    assert_eq!(usage.plan_type, "pro");
    assert_eq!(usage.primary_window, None);
    assert_eq!(usage.secondary_window.unwrap().used_percent, 2);
    assert_eq!(usage_from_session(&Vec::new(), &token, 0), None);
}

#[test]
fn stored_tokens_are_read_back() {
    let text = r#"{"mode":"x","tokens":{"access_token":"a","refresh_token":"r","account_id":"i"}}"#;
    let auth = read_codex_auth(&json(text)).unwrap();
    assert!(refresh_form(&auth).starts_with("grant_type=refresh_token&client_id="));
    assert!(refresh_form(&auth).ends_with("&refresh_token=r"));
    let (access, refresh) =
        read_new_tokens(&json(r#"{"access_token":"a2","refresh_token":"r2"}"#)).unwrap();
    let stored = store_tokens(json(text), &access, refresh.as_deref());
    let renewed = read_codex_auth(&stored).unwrap();
    assert_eq!(renewed.access_token, "a2");
    assert_eq!(renewed.refresh_token, "r2");
    assert_eq!(renewed.account_id, "i");
    assert_eq!(stored.get_str("mode"), Some("x"));
    let kept = read_codex_auth(&store_tokens(json(text), "a3", None)).unwrap();
    assert_eq!(kept.refresh_token, "r");
    assert_eq!(store_tokens(json("{}"), "a", None), json("{}"));
    assert_eq!(read_new_tokens(&json("{}")), None);
    assert_eq!(read_codex_auth(&json(r#"{"tokens":{"access_token":"a"}}"#)), None);
}

fn codex_auth() -> CodexAuth {
    CodexAuth {
        access_token: "a.b.c".to_string(),
        refresh_token: "r1".to_string(),
        account_id: "acc".to_string(),
    }
}

fn answer(status: u16, body: &str) -> Option<HttpResponse> {
    Some(HttpResponse::new(status, vec![], body.as_bytes().to_vec()))
}

#[test]
fn only_a_refused_saved_token_is_renewed() {
    let auth = codex_auth();
    let after = |attempt, response| after_usage_request(&auth, attempt, response, 1000);
    match after(Attempt::Saved, answer(200, r#"{"plan_type": "plus"}"#)) {
        FetchStep::Done(Some(usage)) => assert_eq!(usage.plan_type, "plus"),
        other => panic!("{other:?}"),
    }
    assert_eq!(after(Attempt::Saved, answer(200, "no document")), FetchStep::Done(None));
    assert_eq!(
        after(Attempt::Saved, answer(401, "")),
        FetchStep::RefreshToken(refresh_request(&auth))
    );
    assert_eq!(after(Attempt::Refreshed, answer(401, "")), FetchStep::ReadSessions);
    assert_eq!(after(Attempt::Saved, answer(500, "")), FetchStep::ReadSessions);
    assert_eq!(after(Attempt::Saved, None), FetchStep::ReadSessions);
}

#[test]
fn usage_is_asked_for_step_by_step() {
    assert_eq!(fetch_usage(&None), FetchStep::Done(None));
    let auth = codex_auth();
    let request = usage_request("a.b.c", "acc");
    assert_eq!(request.url, "https://chatgpt.com/backend-api/codex/usage");
    assert_eq!(
        request.headers,
        vec![
            ("Authorization".to_string(), "Bearer a.b.c".to_string()),
            ("chatgpt-account-id".to_string(), "acc".to_string()),
        ]
    );
    assert_eq!(request.timeout_ms, Some(10_000));
    assert_eq!(request.label.as_deref(), Some("codex.usage"));
    assert_eq!(request.min_interval, None);
    assert_eq!(fetch_usage(&Some(codex_auth())), FetchStep::Ask(Attempt::Saved, request));

    let refresh = refresh_request(&auth);
    assert_eq!(refresh.method, Method::Post);
    assert_eq!(refresh.url, "https://auth.openai.com/oauth/token");
    match &refresh.body {
        Body::Raw { content_type, bytes } => {
            assert_eq!(content_type, "application/x-www-form-urlencoded");
            assert_eq!(bytes, refresh_form(&auth).as_bytes());
        }
        other => panic!("{other:?}"),
    }
    let body = r#"{"access_token": "n1", "refresh_token": "n2"}"#;
    let (step, tokens) = after_token_request(&auth, answer(200, body));
    assert_eq!(step, FetchStep::Ask(Attempt::Refreshed, usage_request("n1", "acc")));
    assert_eq!(tokens, Some(("n1".to_string(), Some("n2".to_string()))));
    for lost in [None, answer(200, "{}"), answer(200, "?")] {
        assert_eq!(after_token_request(&auth, lost), (FetchStep::Done(None), None));
    }
}

#[test]
fn sessions_are_read_latest_first() {
    let files = [
        "/h/s/2026/01/02/a.jsonl",
        "/h/s/2026/01/10/b.jsonl",
        "/h/s/2026/01/10-x/c.jsonl",
        "/h/s/2025/12/31/d.jsonl",
        "/h/s/2026/01/10/notes.txt",
    ];
    let mut expected: Vec<std::path::PathBuf> =
        files[..4].iter().map(std::path::PathBuf::from).collect();
    expected.sort();
    expected.reverse();
    let sorted = session_files(&files.iter().map(|f| f.to_string()).collect());
    assert_eq!(
        sorted.iter().map(std::path::PathBuf::from).collect::<Vec<_>>(),
        expected
    );
    assert_eq!(sorted[0], "/h/s/2026/01/10-x/c.jsonl");
}

#[test]
fn failed_rounds_keep_the_usage() {
    let mut shown = CodexUsageData::new();
    assert_eq!(shown.finish_fetch(None), 30);
    assert_eq!(shown.finish_fetch(None), 60);
    let usage = usage_from_response(&json("{}"), 0);
    assert_eq!(shown.finish_fetch(Some(usage.clone())), 300);
    assert_eq!(shown.data, Some(usage.clone()));
    assert_eq!(shown.finish_fetch(None), 30);
    assert_eq!(shown.data, Some(usage));
}

#[test]
fn the_popover_of_codex_has_a_row_for_each_limit() {
    let window = |percent, seconds, reset_at, elapsed| RateLimitWindow {
        used_percent: percent,
        window_seconds: seconds,
        reset_at,
        elapsed_seconds: elapsed,
    };
    let mut usage = usage_from_response(&json(r#"{"plan_type": "plus"}"#), 0);
    usage.primary_window = Some(window(42, 18000, 5400, Some(100)));
    usage.review_primary = Some(window(85, 604800, 0, None));
    usage.credits = Some(CreditsInfo {
        has_credits: true,
        unlimited: false,
        balance: Some(JsonNumber::Unsigned(3)),
    });
    let paces = Paces {
        primary: Severity::Warning,
        secondary: Severity::Critical,
        review: Severity::Normal,
    };
    let shown = Some(usage.clone());
    assert_eq!(codex_view::render_popover(&shown, false, paces, 0), None);
    assert_eq!(codex_view::render_popover(&None, true, paces, 0), None);
    let popover = codex_view::render_popover(&shown, true, paces, 0).unwrap();
    assert_eq!(popover.plan, "plus");
    assert!(popover.legend);
    assert_eq!(popover.credits, Some(CreditsRow::Balance(Some(JsonNumber::Unsigned(3)))));
    assert_eq!(popover.rows.len(), 2);
    let first = &popover.rows[0];
    assert_eq!(first.label, "Rate Limit (5h)");
    assert_eq!(first.percent, "42%");
    assert_eq!((first.bar, first.tone), (Severity::Normal, Severity::Warning));
    assert_eq!(first.reset.as_deref(), Some("resets in 1h 30m"));
    assert_eq!(first.segments, 5);
    assert_eq!(first.message, Some("Ahead of pace"));
    let second = &popover.rows[1];
    assert_eq!(second.label, "Code Review (7d)");
    assert_eq!((second.bar, second.tone), (Severity::Critical, Severity::Critical));
    assert_eq!((second.reset.clone(), second.message), (None, None));

    usage.credits = Some(CreditsInfo {
        has_credits: true,
        unlimited: true,
        balance: None,
    });
    usage.primary_window = None;
    let popover = codex_view::render_popover(&Some(usage.clone()), true, paces, 0).unwrap();
    assert_eq!(popover.credits, Some(CreditsRow::Unlimited));
    assert!(!popover.legend);

    assert_eq!(codex_view::render(&None), None);
    assert_eq!(
        codex_view::render(&shown),
        Some((Some(("5h", "42%".to_string(), Severity::Normal)), None))
    );
}

#[test]
fn limits_are_told_in_words() {
    assert_eq!(abs_severity(60), Severity::Normal);
    assert_eq!(abs_severity(61), Severity::Warning);
    assert_eq!(abs_severity(81), Severity::Critical);
    assert_eq!(pace_message(Severity::Normal), None);
    assert_eq!(pace_message(Severity::Warning), Some("Ahead of pace"));
    assert_eq!(pace_message(Severity::Critical), Some("Slow down to last the period"));
    let labels: Vec<&str> =
        [3600, 18000, 86400, 604800, 604801].map(format_window_label).to_vec();
    assert_eq!(labels, ["1h", "5h", "1d", "7d", "30d"]);
    assert_eq!(format_reset_time(0, 0), "");
    assert_eq!(format_reset_time(5, 5), "now");
    assert_eq!(format_reset_time(119, 0), "1m");
    assert_eq!(format_reset_time(24 * 3600 + 60, 0), "24h 1m");
    assert_eq!(format_reset_time(25 * 3600, 0), "1d 1h");
}

#[test]
fn the_status_page_tells_of_codex() {
    let page = json(
        r#"{"components": [
                {"name": "API", "id": "1", "status": "operational"},
                {"name": "Codex CLI", "id": "2", "status": "partial_outage"}],
            "incidents": [
                {"name": "Other", "components": [{"id": "1"}]},
                {"name": "Slow", "impact": "major", "components": [{"id": "2"}],
                 "incident_updates": [{"status": "investigating", "body": "looking",
                                       "created_at": "2026-03-05T14:07:09.123Z"}]}]}"#,
    );
    let status = read_status(&page).unwrap();
    assert_eq!(status.status, "partial_outage");
    assert_eq!(status.incidents.len(), 1);
    let incident = &status.incidents[0];
    assert_eq!((incident.name.as_str(), incident.impact.as_str()), ("Slow", "major"));
    assert_eq!(incident.updates[0].created_at, "Mar 05, 2026 - 14:07 UTC");
    assert_eq!(read_status(&json(r#"{"components": [{"name": "Codexes"}]}"#)), None);
    assert_eq!(read_status(&json("{}")), None);
}

#[test]
fn statuses_have_labels_and_colours() {
    assert_eq!(status_label(None), ("...", StatusTone::Quiet));
    assert_eq!(status_label(Some("operational")), ("OK", StatusTone::Good));
    assert_eq!(status_label(Some("degraded_performance")), ("Degraded", StatusTone::Warning));
    assert_eq!(status_label(Some("partial_outage")), ("Partial Outage", StatusTone::Warning));
    assert_eq!(status_label(Some("major_outage")), ("Major Outage", StatusTone::Critical));
    assert_eq!(status_label(Some("under_maintenance")), ("Maintenance", StatusTone::Quiet));
    assert_eq!(status_label(Some("odd")), ("Unknown", StatusTone::Quiet));
    assert_eq!(impact_tone("critical"), StatusTone::Critical);
    assert_eq!(impact_tone("minor"), StatusTone::Warning);
}

// ---------------------------------------------------------------------------
// Waiting and hovering
// ---------------------------------------------------------------------------

#[test]
fn failures_lengthen_the_wait() {
    let mut poll = Poll::new();
    assert_eq!(poll.after_request(true, None), 300);
    let waits: Vec<u64> = (0..8).map(|_| poll.after_request(false, None)).collect();
    assert_eq!(waits, [30, 60, 120, 240, 480, 960, 960, 960]);
    assert_eq!(poll.after_request(false, Some(10)), 960);
    assert_eq!(poll.after_request(false, Some(u64::MAX)), 3600);
    assert_eq!(poll.after_request(true, None), 300);
}

#[test]
fn any_event_calls_off_a_wait() {
    let mut hover = HoverState::new();
    let show = hover.show_popover().unwrap();
    assert_eq!(hover.hide_popover(), None);
    assert!(!hover.finish_show(show));
    let show = hover.show_popover().unwrap();
    assert!(hover.finish_show(show));
    assert_eq!(hover.show_popover(), None);
    let hide = hover.hide_popover().unwrap();
    hover.enter_popover();
    assert!(!hover.finish_hide(hide));
    assert!(hover.visible);
    let hide = hover.hide_popover().unwrap();
    assert!(hover.finish_hide(hide));
    assert!(!hover.visible);
}

#[test]
fn texts_of_the_popovers() {
    assert_eq!(format_api_timestamp("2026-12-31T00:05:00Z"), "Dec 31, 2026 - 00:05 UTC");
    assert_eq!(format_api_timestamp("yesterday"), "yesterday");
    assert_eq!(format_api_timestamp("2026-13-01T1:2"), "13 01, 2026 - 1:2 UTC");
    assert_eq!(capitalize_first("minor issue"), "Minor issue");
    assert_eq!(capitalize_first("\u{df}a"), "SSa");
    assert_eq!(capitalize_first(""), "");
}

#[test]
fn the_status_popover_shows_each_incident() {
    let request = status_request();
    assert_eq!(request.url, "https://status.openai.com/api/v2/summary.json");
    assert_eq!(request.label.as_deref(), Some("codex.status"));
    let body = r#"{"components": [{"id": "c", "name": "Codex API", "status": "partial_outage"}],
        "incidents": [
          {"name": "Slow", "impact": "minor", "components": [{"id": "c"}], "incident_updates": [
            {"status": "investigating", "body": "We look.", "created_at": ""}]},
          {"name": "Down", "impact": "major", "components": [{"id": "c"}]}]}"#;
    let page = after_look(None, answer(200, body));
    assert_eq!(codex_status::render(&page), ("Partial Outage", StatusTone::Warning, true));
    assert_eq!(codex_status::render_popover(&page, false), vec![]);
    let cards = codex_status::render_popover(&page, true);
    assert_eq!(cards.len(), 2);
    assert_eq!((cards[0].parted, cards[0].tone), (false, StatusTone::Warning));
    assert_eq!(cards[0].updates[0].0, "Investigating");
    assert_eq!(cards[0].updates[0].1, "- We look.");
    assert_eq!((cards[1].parted, cards[1].tone), (true, StatusTone::Critical));
    for lost in [None, answer(500, "down"), answer(200, "{}")] {
        assert_eq!(after_look(page.clone(), lost), page);
    }
    assert_eq!(codex_status::render(&None), ("...", StatusTone::Quiet, false));
}

// A reset as the reader's time zone has it.

fn reset_time(ts: &str, include_date: bool) -> String {
    let local = ts.parse::<jiff::Timestamp>().ok().map(|timestamp| {
        let zoned = timestamp.to_zoned(jiff::tz::TimeZone::system());
        let today = jiff::Zoned::now().date();
        LocalTime {
            time: zoned.strftime("%H:%M %Z").to_string(),
            weekday: zoned.strftime("%a, %H:%M %Z").to_string(),
            date: zoned.strftime("%b %-d, %H:%M %Z").to_string(),
            days: today.until(zoned.date()).ok().map(|span| span.get_days()),
        }
    });
    claude::format_reset_time(ts, include_date, &local)
}

#[test]
fn test_format_reset_time_uses_local_tz() {
    let result = reset_time("2025-06-15T14:00:00.000Z", false);
    assert!(result.contains(':'), "Expected HH:MM format, got: {}", result);
    assert_ne!(result, "2025-06-15T14:00:00.000Z");
}

#[test]
fn test_format_reset_time_with_date() {
    let result = reset_time("2099-01-15T11:00:00.000Z", true);
    assert!(result.contains(':'), "Expected time in result, got: {}", result);
    assert!(result.contains(','), "Expected date label with comma, got: {}", result);
}

#[test]
fn test_format_reset_time_invalid_input() {
    assert_eq!(reset_time("garbage", false), "garbage");
    assert_eq!(reset_time("garbage", true), "garbage");
}

#[test]
fn test_format_reset_time_past_date() {
    let result = reset_time("2020-01-01T00:00:00.000Z", true);
    assert!(result.contains(':'), "Expected time in result, got: {}", result);
    assert!(result.contains(','), "Expected date with comma, got: {}", result);
}

#[test]
fn near_resets_are_told_by_the_day() {
    let at = |days| {
        Some(LocalTime {
            time: "14:00 CET".to_string(),
            weekday: "Fri, 14:00 CET".to_string(),
            date: "Jan 5, 14:00 CET".to_string(),
            days,
        })
    };
    let told = |days| claude::format_reset_time("raw", true, &at(days));
    assert_eq!(told(Some(0)), "today, 14:00 CET");
    assert_eq!(told(Some(1)), "tomorrow, 14:00 CET");
    assert_eq!(told(Some(4)), "Fri, 14:00 CET");
    assert_eq!(told(Some(7)), "Jan 5, 14:00 CET");
    assert_eq!(told(Some(-1)), "Jan 5, 14:00 CET");
    assert_eq!(told(None), "Jan 5, 14:00 CET");
    assert_eq!(claude::format_reset_time("raw", false, &at(Some(0))), "14:00 CET");
}

#[test]
fn the_popover_links_to_the_settings() {
    let header = claude_view::render_popover_header(&names());
    assert_eq!(header.title, "HELPER USAGE");
    assert_eq!(header.action, "Settings");
    assert_eq!(header.link, "https://helper.example/settings/usage");
    assert_eq!(header.tooltip, "Open usage settings on helper.example");
}
