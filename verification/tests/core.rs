use okena::calendar::{iso8601_at, now_iso8601, unix_days_to_ymd};
use okena::http::{Body, HttpBus, HttpError, HttpRequest, HttpResponse, HttpStream, Method};
use okena::json::{parse_json, Json};
use okena::process::bus::{next_wait, watch, CommandBus, WatchStep};
use okena::process::command::{
    current_lane, open_url, raise_fd_limit, with_lane, CommandOutput, CommandSpec, Lane, System,
    ThreadLane,
};
use okena::send_payload::{markdown_lang_hint, CodeBlock, SendPayload};

const SECOND: u64 = 1_000_000_000;

fn texts(items: &[&str]) -> Vec<String> {
    items.iter().map(|s| s.to_string()).collect()
}

// ---------------------------------------------------------------------------
// Payloads
// ---------------------------------------------------------------------------

fn block(path: &str, first: usize, last: usize, text: &str) -> CodeBlock {
    CodeBlock {
        absolute_path: path.to_string(),
        first,
        last,
        text: text.to_string(),
    }
}

#[test]
fn single_block_with_no_cwd_uses_absolute_path() {
    let p = SendPayload::Code(vec![block("/proj/src/foo.rs", 5, 5, "let x = 1;")]);
    let out = p.format(None);
    assert_eq!(out, "/proj/src/foo.rs:5\n```rust\nlet x = 1;\n```");
}

#[test]
fn single_block_uses_cwd_relative_path() {
    let p = SendPayload::Code(vec![block("/proj/src/foo.rs", 5, 7, "a\nb\nc")]);
    let out = p.format(Some("/proj"));
    assert_eq!(out, "./src/foo.rs:5-7\n```rust\na\nb\nc\n```");
}

#[test]
fn block_outside_cwd_falls_back_to_absolute() {
    let p = SendPayload::Code(vec![block("/other/src/foo.rs", 1, 1, "x")]);
    let out = p.format(Some("/proj"));
    assert_eq!(out, "/other/src/foo.rs:1\n```rust\nx\n```");
}

#[test]
fn multiple_blocks_joined_with_blank_line() {
    let p = SendPayload::Code(vec![
        block("/proj/a.rs", 1, 1, "x"),
        block("/proj/b.rs", 2, 3, "y\nz"),
    ]);
    let out = p.format(Some("/proj"));
    assert_eq!(out, "./a.rs:1\n```rust\nx\n```\n\n./b.rs:2-3\n```rust\ny\nz\n```");
}

#[test]
fn unknown_extension_yields_empty_lang_label() {
    let p = SendPayload::Code(vec![block("/proj/notes.xyz", 1, 1, "hello")]);
    let out = p.format(Some("/proj"));
    assert_eq!(out, "./notes.xyz:1\n```\nhello\n```");
}

#[test]
fn special_filenames_get_language_hint() {
    assert_eq!(markdown_lang_hint("Makefile"), "make");
    assert_eq!(markdown_lang_hint("/proj/Dockerfile"), "dockerfile");
    assert_eq!(markdown_lang_hint("CMakeLists.txt"), "cmake");
    assert_eq!(markdown_lang_hint("Cargo.toml"), "toml");
}

#[test]
fn text_variant_is_passthrough_minus_trailing_lf() {
    let p = SendPayload::Text("commit abc\n\n    subject\n".to_string());
    assert_eq!(p.format(None), "commit abc\n\n    subject");
}

#[test]
fn never_ends_with_newline_anywhere() {
    let cases: Vec<SendPayload> = vec![
        SendPayload::Text("trailing\n\n\n".to_string()),
        SendPayload::Code(vec![block("/p/a.rs", 1, 1, "x\n")]),
        SendPayload::Code(vec![]),
    ];
    for p in cases {
        assert!(!p.format(None).ends_with('\n'), "{:?}", p);
    }
}

#[test]
fn empty_code_payload_is_empty_string() {
    let p = SendPayload::Code(vec![]);
    assert_eq!(p.format(None), "");
    assert!(p.is_empty());
}

#[test]
fn path_variant_resolves_cwd_relative_with_trailing_space() {
    let p = SendPayload::Path("/proj/src/foo.rs".to_string());
    assert_eq!(p.format(Some("/proj")), "./src/foo.rs ");
    assert_eq!(p.format(None), "/proj/src/foo.rs ");
}

// ---------------------------------------------------------------------------
// Time
// ---------------------------------------------------------------------------

#[test]
fn test_now_iso8601_format() {
    let ts = now_iso8601();
    assert_eq!(ts.len(), 20); // "YYYY-MM-DDTHH:MM:SSZ"
    assert!(ts.ends_with('Z'));
}

#[test]
fn dates_follow_the_calendar() {
    assert_eq!(unix_days_to_ymd(0), (1970, 1, 1));
    assert_eq!(unix_days_to_ymd(59), (1970, 3, 1));
    assert_eq!(unix_days_to_ymd(11016), (2000, 2, 29));
    assert_eq!(unix_days_to_ymd(47540), (2100, 2, 28));
    assert_eq!(unix_days_to_ymd(47541), (2100, 3, 1));
    assert_eq!(iso8601_at(1_735_689_599), "2024-12-31T23:59:59Z");
    assert_eq!(iso8601_at(0), "1970-01-01T00:00:00Z");
}

// ---------------------------------------------------------------------------
// Commands
// ---------------------------------------------------------------------------

#[test]
fn from_command_extracts_args_cwd() {
    let spec = CommandSpec::new("git", &ThreadLane::new())
        .args(&texts(&["status", "--short"]))
        .current_dir("/tmp");
    assert_eq!(spec.program, "git");
    assert_eq!(spec.args, vec!["status", "--short"]);
    assert_eq!(spec.cwd.as_deref(), Some("/tmp"));
}

#[test]
fn lane_default_is_interactive() {
    let mut thread = ThreadLane::new();
    assert_eq!(current_lane(&thread), Lane::Interactive);
    with_lane(&mut thread, Lane::Poll, |inner| {
        assert_eq!(current_lane(&inner), Lane::Poll);
        assert_eq!(CommandSpec::new("git", &inner).lane, Lane::Poll);
    });
    assert_eq!(current_lane(&thread), Lane::Interactive);
}

#[test]
fn commands_are_built_piece_by_piece() {
    let spec = CommandSpec::new("gh", &ThreadLane::new())
        .arg("pr")
        .env("K", "v")
        .timeout(100)
        .lane(Lane::Long)
        .label("pr.view")
        .scope(42);
    assert_eq!(spec.args, ["pr"]);
    assert_eq!(spec.env, [("K".to_string(), "v".to_string())]);
    assert_eq!(spec.timeout_ms, Some(100));
    assert_eq!(spec.lane, Lane::Long);
    assert_eq!(spec.scope, Some(42));
    assert_eq!(spec.audit_label(), "pr.view");
    assert_eq!(spec.copy(), spec);
    assert_eq!(CommandSpec::new("gh", &ThreadLane::new()).audit_label(), "gh");
}

#[test]
fn only_zero_is_success() {
    let output = |code| CommandOutput {
        code,
        stdout: Vec::new(),
        stderr: Vec::new(),
    };
    assert!(output(Some(0)).success());
    assert!(!output(Some(1)).success());
    assert!(!output(None).success());
}

#[test]
fn pages_open_in_the_browser() {
    assert_eq!(open_url(System::Linux, "u").program, "xdg-open");
    assert_eq!(open_url(System::Mac, "u").args, ["u"]);
    assert_eq!(open_url(System::Windows, "u").args, ["/C", "start", "", "u"]);
}

#[test]
fn the_file_limit_only_rises() {
    assert_eq!(raise_fd_limit(256, 4096), Some(4096));
    assert_eq!(raise_fd_limit(4096, 4096), None);
}

#[test]
fn poll_lane_serializes_under_cap() {
    // More submissions than the lane has workers: all still complete.
    let mut bus = CommandBus::new();
    for _ in 0..12 {
        bus.submit(Lane::Poll, None);
    }
    let mut running = Vec::new();
    while let Some(job) = bus.start_next(Lane::Poll) {
        running.push(job.id);
    }
    assert_eq!(running, [0, 1, 2, 3, 4, 5, 6, 7]);
    let mut done = Vec::new();
    while let Some(id) = running.pop() {
        bus.finish(id);
        done.push(id);
        if let Some(job) = bus.start_next(Lane::Poll) {
            running.insert(0, job.id);
        }
    }
    done.sort();
    assert_eq!(done, (0..12).collect::<Vec<u64>>());
}

#[test]
fn lanes_do_not_wait_for_each_other() {
    let mut bus = CommandBus::new();
    for _ in 0..5 {
        bus.submit(Lane::Long, None);
    }
    let interactive = bus.submit(Lane::Interactive, None);
    for _ in 0..4 {
        assert!(bus.start_next(Lane::Long).is_some());
    }
    assert!(bus.start_next(Lane::Long).is_none());
    assert_eq!(bus.start_next(Lane::Interactive).map(|job| job.id), Some(interactive));
}

#[test]
fn cancel_kills_running_command() {
    let mut bus = CommandBus::new();
    let id = bus.submit(Lane::Interactive, None);
    let job = bus.start_next(Lane::Interactive).unwrap();
    assert_eq!((job.id, job.running), (id, true));
    bus.cancel(id);
    assert!(bus.is_cancelled(id));
    assert_eq!(watch(bus.is_cancelled(id), false, 80, None), WatchStep::Cancelled);
    bus.finish(id);
    assert!(!bus.is_cancelled(id));
}

#[test]
fn cancel_scope_kills_group() {
    let mut bus = CommandBus::new();
    let a = bus.submit(Lane::Interactive, Some(42));
    let b = bus.submit(Lane::Long, Some(42));
    let c = bus.submit(Lane::Long, Some(7));
    bus.cancel_scope(42);
    assert!(bus.is_cancelled(a));
    assert!(bus.is_cancelled(b));
    assert!(!bus.is_cancelled(c));
}

#[test]
fn timeout_kills_slow_command() {
    let spec = CommandSpec::new("sleep", &ThreadLane::new()).arg("5").timeout(100);
    assert_eq!(watch(false, false, 99, spec.timeout_ms), WatchStep::Wait);
    assert_eq!(watch(false, false, 100, spec.timeout_ms), WatchStep::TimedOut);
    assert_eq!(watch(false, true, 100, spec.timeout_ms), WatchStep::Collect);
    assert_eq!(watch(false, false, u64::MAX, None), WatchStep::Wait);
}

#[test]
fn waits_double_up_to_a_bound() {
    let mut wait = 1;
    let mut all = Vec::new();
    for _ in 0..7 {
        all.push(wait);
        wait = next_wait(wait);
    }
    assert_eq!(all, [1, 2, 4, 8, 16, 20, 20]);
}

// ---------------------------------------------------------------------------
// Requests
// ---------------------------------------------------------------------------

#[test]
fn builds_request_fields() {
    let body = parse_json(r#"{"a": 1}"#).unwrap();
    let req = HttpRequest::post("https://example.test/x")
        .bearer("tok")
        .header("x-extra", "1")
        .json(body)
        .label("test.post");
    assert_eq!(req.method, Method::Post);
    assert_eq!(req.audit_detail(), "test.post: POST https://example.test/x");
    assert!(req
        .headers
        .iter()
        .any(|(k, v)| k == "Authorization" && v == "Bearer tok"));
}

#[test]
fn mock_intercepts_send() {
    let resp = HttpResponse::new(
        200,
        vec![("content-type".to_string(), "application/json".to_string())],
        br#"{"ok":true}"#.to_vec(),
    );
    assert!(resp.is_success());
    assert_eq!(resp.header("Content-Type"), Some("application/json"));
    let v = resp.json().expect("json");
    assert_eq!(v.get("ok"), Some(&Json::Bool(true)));
}

#[test]
fn min_interval_throttles_runaway_caller() {
    let mut bus = HttpBus::new();
    let make = || {
        HttpRequest::get("https://example.test/poll")
            .label("test.throttle")
            .min_interval(60 * SECOND)
    };
    // First call admitted, the next two (immediate) are held back.
    assert!(bus.check_throttle(&make(), 5).is_ok());
    assert!(matches!(bus.check_throttle(&make(), 5), Err(HttpError::Throttled { .. })));
    assert_eq!(
        bus.check_throttle(&make(), 5 + SECOND),
        Err(HttpError::Throttled { retry_in: 59 * SECOND })
    );
    assert!(bus.check_throttle(&make(), 5 + 60 * SECOND).is_ok());
}

#[test]
fn distinct_labels_throttle_independently() {
    let mut bus = HttpBus::new();
    let req = |label| {
        HttpRequest::get("https://example.test/x")
            .label(label)
            .min_interval(60 * SECOND)
    };
    assert!(bus.check_throttle(&req("test.a"), 0).is_ok());
    // Different label → its own bucket, so still admitted.
    assert!(bus.check_throttle(&req("test.b"), 0).is_ok());
}

#[test]
fn error_for_status_rejects_non_2xx() {
    let resp = HttpResponse::new(429, vec![], Vec::new());
    assert!(matches!(resp.error_for_status(), Err(HttpError::Status(429))));
}

#[test]
fn requests_carry_their_headers() {
    let req = HttpRequest::new(Method::Get, "https://x.test")
        .header("a", "b")
        .user_agent("okena")
        .body("text/plain", "hi");
    assert_eq!(
        req.sent_headers(),
        [
            ("a".to_string(), "b".to_string()),
            ("user-agent".to_string(), "okena".to_string()),
            ("content-type".to_string(), "text/plain".to_string()),
        ]
    );
    assert_eq!(req.effective_timeout_ms(), 30_000);
    assert_eq!(req.throttle_key(), "https://x.test");
    assert_eq!(
        req.body,
        Body::Raw {
            content_type: "text/plain".to_string(),
            bytes: b"hi".to_vec(),
        }
    );
    let quick = HttpRequest::get("u").timeout(10);
    assert_eq!(quick.effective_timeout_ms(), 10);
    assert_eq!(quick.audit_detail(), "GET u");
    assert_eq!(Method::Post.as_str(), "POST");
}

#[test]
fn errors_are_told_in_words() {
    assert_eq!(HttpError::Transport("down".to_string()).message(), "transport error: down");
    assert_eq!(HttpError::Decode("eof".to_string()).message(), "decode error: eof");
    assert_eq!(HttpError::Status(500).message(), "unexpected HTTP status 500");
    assert_eq!(
        HttpError::Throttled { retry_in: 1_999_999 }.message(),
        "rate floor: retry in 1ms"
    );
}

#[test]
fn answers_are_read_as_text_or_documents() {
    let odd = HttpResponse::new(200, vec![], vec![b'a', 0xff]);
    assert_eq!(odd.status(), 200);
    assert_eq!(odd.bytes(), &vec![b'a', 0xff]);
    assert_eq!(odd.text(), "a\u{fffd}");
    assert!(matches!(odd.json(), Err(HttpError::Decode(_))));
    assert_eq!(odd.header("missing"), None);
    let stream = HttpStream {
        status: 404,
        content_length: Some(3),
    };
    assert_eq!((stream.status(), stream.content_length()), (404, Some(3)));
    assert!(!stream.is_success());
    assert_eq!(stream.error_for_status(), Err(HttpError::Status(404)));
}
