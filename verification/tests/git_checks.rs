use okena::git::ci::{elapsed_between, parse_branch_ci, parse_ci_checks, summarize};
use okena::git::pull_requests::{
    get_branch_ci_checks, get_ci_checks, get_pr_ci_checks, get_pr_info, pr_info_command,
    CheckCommands,
};
use okena::git::types::{
    format_relative_time, relative_time_at, validate_git_ref, CiCheck, CiCheckSummary, CiStatus,
    GitError, GitStatus, PrInfo, PrState,
};
use okena::process::command::{CommandOutput, ThreadLane};

fn now() -> i64 {
    std::time::SystemTime::now()
        .duration_since(std::time::UNIX_EPOCH)
        .unwrap()
        .as_secs() as i64
}

fn printed(text: &str) -> Result<CommandOutput, String> {
    Ok(CommandOutput {
        code: Some(0),
        stdout: text.as_bytes().to_vec(),
        stderr: Vec::new(),
    })
}

fn failed(code: i32) -> Result<CommandOutput, String> {
    Ok(CommandOutput {
        code: Some(code),
        stdout: b"[]".to_vec(),
        stderr: Vec::new(),
    })
}

#[test]
fn ci_tooltip_all_passed() {
    let summary = CiCheckSummary {
        status: CiStatus::Success,
        passed: 4,
        failed: 0,
        pending: 0,
        total: 4,
        checks: Vec::new(),
    };
    assert_eq!(summary.tooltip_text(), "4/4 checks passed");
}

#[test]
fn ci_tooltip_failure() {
    let summary = CiCheckSummary {
        status: CiStatus::Failure,
        passed: 3,
        failed: 1,
        pending: 0,
        total: 4,
        checks: Vec::new(),
    };
    assert_eq!(summary.tooltip_text(), "1 failed, 3 passed of 4 checks");
}

#[test]
fn ci_tooltip_pending() {
    let summary = CiCheckSummary {
        status: CiStatus::Pending,
        passed: 1,
        failed: 0,
        pending: 2,
        total: 3,
        checks: Vec::new(),
    };
    assert_eq!(summary.tooltip_text(), "2 pending, 1 passed of 3 checks");
}

#[test]
fn format_relative_time_just_now() {
    let now = now();
    assert_eq!(format_relative_time(now), "just now");
    assert_eq!(format_relative_time(now - 30), "just now");
}

#[test]
fn format_relative_time_minutes() {
    let now = now();
    assert_eq!(format_relative_time(now - 60), "1m ago");
    assert_eq!(format_relative_time(now - 300), "5m ago");
    assert_eq!(format_relative_time(now - 3599), "59m ago");
}

#[test]
fn format_relative_time_hours() {
    let now = now();
    assert_eq!(format_relative_time(now - 3600), "1h ago");
    assert_eq!(format_relative_time(now - 7200), "2h ago");
}

#[test]
fn format_relative_time_days() {
    let now = now();
    assert_eq!(format_relative_time(now - 86400), "1d ago");
    assert_eq!(format_relative_time(now - 259200), "3d ago");
}

#[test]
fn format_relative_time_weeks() {
    let now = now();
    assert_eq!(format_relative_time(now - 604800), "1w ago");
    assert_eq!(format_relative_time(now - 1209600), "2w ago");
}

#[test]
fn relative_time_at_the_edges() {
    assert_eq!(relative_time_at(100, 200), "just now");
    assert_eq!(relative_time_at(59, 0), "just now");
    assert_eq!(relative_time_at(i64::MAX, i64::MIN), "30500568904943w ago");
}

#[test]
fn validate_git_ref_accepts_normal_refs() {
    assert!(validate_git_ref("main").is_ok());
    assert!(validate_git_ref("feature/foo").is_ok());
    assert!(validate_git_ref("abc123").is_ok());
    assert!(validate_git_ref("HEAD").is_ok());
    assert!(validate_git_ref("v1.0.0").is_ok());
}

#[test]
fn validate_git_ref_rejects_flag_like_refs() {
    assert!(matches!(validate_git_ref("--upload-pack=evil"), Err(GitError::InvalidRef(_))));
    assert!(matches!(validate_git_ref("-b"), Err(GitError::InvalidRef(_))));
    assert!(matches!(validate_git_ref("--exec=malicious"), Err(GitError::InvalidRef(_))));
    assert!(matches!(validate_git_ref("-"), Err(GitError::InvalidRef(_))));
}

#[test]
fn labels_and_icons() {
    assert_eq!(PrState::Open.label(), "Open");
    assert_eq!(PrState::Draft.label(), "Draft");
    assert_eq!(PrState::Merged.label(), "Merged");
    assert_eq!(PrState::Closed.label(), "Closed");
    assert_eq!(CiStatus::Success.icon(), "icons/check.svg");
    assert_eq!(CiStatus::Failure.icon(), "icons/close.svg");
    assert_eq!(CiStatus::Pending.icon(), "icons/refresh.svg");
    assert!(CiStatus::Pending.is_pending());
    assert!(!CiStatus::Failure.is_pending());
}

#[test]
fn changes_are_lines() {
    let mut status = GitStatus {
        branch: None,
        lines_added: 0,
        lines_removed: 0,
        pr_info: None,
        ci_checks: None,
        ahead: None,
        behind: None,
        unpushed: None,
    };
    assert!(!status.has_changes());
    status.lines_removed = 1;
    assert!(status.has_changes());
}

#[test]
fn parse_ci_all_pass() {
    let json = r#"[{"bucket":"pass"},{"bucket":"pass"},{"bucket":"pass"}]"#;
    let result = parse_ci_checks(json).unwrap();
    assert_eq!(result.status, CiStatus::Success);
    assert_eq!(result.passed, 3);
    assert_eq!(result.failed, 0);
    assert_eq!(result.pending, 0);
    assert_eq!(result.total, 3);
}

#[test]
fn parse_ci_with_failure() {
    let json = r#"[{"bucket":"pass"},{"bucket":"fail"},{"bucket":"pass"}]"#;
    let result = parse_ci_checks(json).unwrap();
    assert_eq!(result.status, CiStatus::Failure);
    assert_eq!(result.passed, 2);
    assert_eq!(result.failed, 1);
    assert_eq!(result.total, 3);
}

#[test]
fn parse_ci_with_pending() {
    let json = r#"[{"bucket":"pass"},{"bucket":"pending"},{"bucket":"pending"}]"#;
    let result = parse_ci_checks(json).unwrap();
    assert_eq!(result.status, CiStatus::Pending);
    assert_eq!(result.passed, 1);
    assert_eq!(result.pending, 2);
    assert_eq!(result.total, 3);
}

#[test]
fn parse_ci_skipping_excluded_from_total() {
    let json = r#"[{"bucket":"pass"},{"bucket":"skipping"},{"bucket":"pass"}]"#;
    let result = parse_ci_checks(json).unwrap();
    assert_eq!(result.status, CiStatus::Success);
    assert_eq!(result.passed, 2);
    assert_eq!(result.total, 2);
}

#[test]
fn parse_ci_cancel_counts_as_failure() {
    let json = r#"[{"bucket":"pass"},{"bucket":"cancel"}]"#;
    let result = parse_ci_checks(json).unwrap();
    assert_eq!(result.status, CiStatus::Failure);
    assert_eq!(result.failed, 1);
}

#[test]
fn parse_ci_empty_array() {
    assert!(parse_ci_checks("[]").is_none());
}

#[test]
fn parse_ci_invalid_json() {
    assert!(parse_ci_checks("not json").is_none());
}

#[test]
fn parse_ci_only_skipping() {
    let json = r#"[{"bucket":"skipping"},{"bucket":"skipping"}]"#;
    assert!(parse_ci_checks(json).is_none());
}

#[test]
fn parse_ci_captures_per_check_details() {
    let json = r#"[
        {"bucket":"pass","name":"Lint","workflow":"CI","link":"https://ex/1","startedAt":"2024-01-01T10:00:00Z","completedAt":"2024-01-01T10:01:12Z","description":"ok"},
        {"bucket":"fail","name":"Test (macos)","workflow":"CI","link":"https://ex/2","startedAt":"2024-01-01T10:00:00Z","completedAt":"2024-01-01T10:02:51Z"},
        {"bucket":"skipping","name":"Deploy","workflow":"CI"}
    ]"#;
    let result = parse_ci_checks(json).unwrap();
    assert_eq!(result.total, 2);
    assert_eq!(result.failed, 1);
    assert_eq!(result.checks.len(), 3);

    let lint = &result.checks[0];
    assert_eq!(lint.name, "Lint");
    assert_eq!(lint.workflow.as_deref(), Some("CI"));
    assert_eq!(lint.link.as_deref(), Some("https://ex/1"));
    assert_eq!(lint.description.as_deref(), Some("ok"));
    assert_eq!(lint.elapsed_ms, 72_000);
    assert_eq!(lint.elapsed_label(), "1m12s");
    assert!(!lint.is_skipped);

    let deploy = &result.checks[2];
    assert!(deploy.is_skipped);
    assert_eq!(deploy.elapsed_ms, 0);
    assert_eq!(deploy.elapsed_label(), "\u{2014}");
}

#[test]
fn parse_ci_leaves_unknown_buckets_out() {
    let json = r#"[{"bucket":"pass"},{"bucket":"odd"},{"name":"no bucket"}]"#;
    let result = parse_ci_checks(json).unwrap();
    assert_eq!(result.checks.len(), 1);
    assert_eq!(result.checks[0].name, "(unnamed)");
    assert_eq!(result.checks[0].workflow, None);
}

#[test]
fn parse_ci_refuses_what_is_no_array() {
    assert!(parse_ci_checks(r#"{"bucket":"pass"}"#).is_none());
}

#[test]
fn parse_branch_ci_check_runs_only() {
    let json = r#"{
        "total_count": 3,
        "check_runs": [
            {"name":"Lint","status":"completed","conclusion":"success","html_url":"https://x/1","started_at":"2024-01-01T10:00:00Z","completed_at":"2024-01-01T10:00:30Z"},
            {"name":"Test","status":"completed","conclusion":"failure","html_url":"https://x/2","started_at":"2024-01-01T10:00:00Z","completed_at":"2024-01-01T10:01:00Z"},
            {"name":"Deploy","status":"in_progress","conclusion":null}
        ]
    }"#;
    let result = parse_branch_ci(Some(json), None).unwrap();
    assert_eq!(result.status, CiStatus::Failure);
    assert_eq!(result.passed, 1);
    assert_eq!(result.failed, 1);
    assert_eq!(result.pending, 1);
    assert_eq!(result.total, 3);
    assert_eq!(result.checks.len(), 3);
    assert_eq!(result.checks[0].link.as_deref(), Some("https://x/1"));
    assert_eq!(result.checks[0].elapsed_ms, 30_000);
}

#[test]
fn parse_branch_ci_skipped_and_neutral_excluded_from_total() {
    let json = r#"{
        "check_runs": [
            {"name":"A","status":"completed","conclusion":"success"},
            {"name":"B","status":"completed","conclusion":"skipped"},
            {"name":"C","status":"completed","conclusion":"neutral"}
        ]
    }"#;
    let result = parse_branch_ci(Some(json), None).unwrap();
    assert_eq!(result.status, CiStatus::Success);
    assert_eq!(result.passed, 1);
    assert_eq!(result.total, 1);
    // Skipped/neutral still appear in the per-check list, marked as skipped.
    assert_eq!(result.checks.len(), 3);
    assert!(result.checks.iter().filter(|c| c.is_skipped).count() == 2);
}

#[test]
fn parse_branch_ci_statuses_only() {
    let json = r#"{
        "state": "success",
        "statuses": [
            {"context":"vercel/deploy","state":"success","target_url":"https://v/1","description":"ok","created_at":"2024-01-01T10:00:00Z","updated_at":"2024-01-01T10:00:42Z"},
            {"context":"netlify","state":"pending"}
        ]
    }"#;
    let result = parse_branch_ci(None, Some(json)).unwrap();
    assert_eq!(result.status, CiStatus::Pending);
    assert_eq!(result.passed, 1);
    assert_eq!(result.pending, 1);
    assert_eq!(result.total, 2);
    assert_eq!(result.checks[0].name, "vercel/deploy");
    assert_eq!(result.checks[0].elapsed_ms, 42_000);
}

#[test]
fn parse_branch_ci_combines_runs_and_statuses() {
    let runs = r#"{"check_runs":[{"name":"Lint","status":"completed","conclusion":"success"}]}"#;
    let statuses = r#"{"statuses":[{"context":"vercel/deploy","state":"failure"}]}"#;
    let result = parse_branch_ci(Some(runs), Some(statuses)).unwrap();
    assert_eq!(result.status, CiStatus::Failure);
    assert_eq!(result.passed, 1);
    assert_eq!(result.failed, 1);
    assert_eq!(result.total, 2);
    assert_eq!(result.checks.len(), 2);
}

#[test]
fn parse_branch_ci_both_empty_returns_none() {
    let runs = r#"{"check_runs":[]}"#;
    let statuses = r#"{"statuses":[]}"#;
    assert!(parse_branch_ci(Some(runs), Some(statuses)).is_none());
}

#[test]
fn parse_branch_ci_only_skipped_returns_none() {
    let runs = r#"{"check_runs":[{"name":"A","status":"completed","conclusion":"skipped"}]}"#;
    assert!(parse_branch_ci(Some(runs), None).is_none());
}

#[test]
fn parse_branch_ci_invalid_json_returns_none() {
    assert!(parse_branch_ci(Some("not json"), Some("also not json")).is_none());
}

#[test]
fn parse_branch_ci_reads_concatenated_pages() {
    let pages = [
        r#"{"check_runs":[{"name":"A","conclusion":"success"}]}"#,
        r#"{"check_runs":[{"name":"B","conclusion":"timed_out"}]}"#,
        r#"{"check_runs":[{"name":"C","status":"queued"}]}"#,
    ]
    .concat();
    let result = parse_branch_ci(Some(&pages), None).unwrap();
    let names: Vec<&str> = result.checks.iter().map(|c| c.name.as_str()).collect();
    assert_eq!(names, ["A", "B", "C"]);
    assert_eq!((result.passed, result.failed, result.pending), (1, 1, 1));
}

#[test]
fn parse_branch_ci_names_the_workflow_by_its_app() {
    let runs = r#"{"check_runs":[
        {"name":"A","conclusion":"success","check_suite":{"workflow_id":7},"app":{"name":"Actions"},"output":{"summary":"fine"}},
        {"name":"B","conclusion":"success","app":{"name":"Actions"}}
    ]}"#;
    let result = parse_branch_ci(Some(runs), None).unwrap();
    assert_eq!(result.checks[0].workflow.as_deref(), Some("Actions"));
    assert_eq!(result.checks[0].description.as_deref(), Some("fine"));
    assert_eq!(result.checks[1].workflow, None);
}

#[test]
fn elapsed_between_two_times() {
    assert_eq!(elapsed_between(Some(10), Some(12)), 2000);
    assert_eq!(elapsed_between(Some(12), Some(10)), 0);
    assert_eq!(elapsed_between(None, Some(10)), 0);
    assert_eq!(elapsed_between(Some(10), None), 0);
}

#[test]
fn summaries_add_up() {
    let check = |status, is_skipped| CiCheck {
        name: "c".to_string(),
        workflow: None,
        status,
        is_skipped,
        link: None,
        description: None,
        elapsed_ms: 42_999,
    };
    let summary = summarize(vec![
        check(CiStatus::Success, false),
        check(CiStatus::Pending, false),
        check(CiStatus::Pending, true),
    ])
    .unwrap();
    assert_eq!(summary.status, CiStatus::Pending);
    assert_eq!(summary.total, summary.passed + summary.failed + summary.pending);
    assert_eq!(summary.checks[0].elapsed_label(), "42s");
    assert!(summarize(vec![check(CiStatus::Pending, true)]).is_none());
    assert!(summarize(Vec::new()).is_none());
}

#[test]
fn pr_info_is_read_from_a_line() {
    let line = "https://github.com/o/r/pull/12\tOPEN\tfalse\t12\n";
    assert_eq!(
        get_pr_info(&printed(line)),
        Some(PrInfo {
            url: "https://github.com/o/r/pull/12".to_string(),
            state: PrState::Open,
            number: 12,
        })
    );
    let state = |text: &str| get_pr_info(&printed(text)).map(|info| info.state);
    assert_eq!(state("http://x\tMERGED\tfalse\t1"), Some(PrState::Merged));
    assert_eq!(state("http://x\tCLOSED\tfalse\t1"), Some(PrState::Closed));
    assert_eq!(state("http://x\tCLOSED\ttrue\t1"), Some(PrState::Draft));
    assert_eq!(state("http://x\tODD\tfalse\t1"), Some(PrState::Open));
    assert_eq!(get_pr_info(&printed("http://x\tOPEN\tfalse\tmany")).unwrap().number, 0);
}

#[test]
fn pr_info_needs_an_address_and_success() {
    assert_eq!(get_pr_info(&printed("ftp://x\tOPEN\tfalse\t1")), None);
    assert_eq!(get_pr_info(&printed("http://x\tOPEN\tfalse")), None);
    assert_eq!(get_pr_info(&failed(1)), None);
    assert_eq!(get_pr_info(&Err("no gh".to_string())), None);
}

#[test]
fn pr_info_is_asked_in_the_directory() {
    let command = pr_info_command("/repo", &ThreadLane::new());
    assert_eq!(command.program, "gh");
    assert_eq!(
        command.args,
        [
            "pr",
            "view",
            "--json",
            "url,state,isDraft,number",
            "--jq",
            "[.url, .state, .isDraft, .number] | @tsv",
        ]
    );
    assert_eq!(command.cwd.as_deref(), Some("/repo"));
}

#[test]
fn checks_are_asked_of_the_pr_or_the_commit() {
    let thread = ThreadLane::new();
    match get_ci_checks("/repo", true, None, &thread) {
        Some(CheckCommands::PullRequest(command)) => {
            assert_eq!(command.args[..2], ["pr", "checks"]);
        }
        other => panic!("{:?}", other),
    }
    match get_ci_checks("/repo", false, Some("abc"), &thread) {
        Some(CheckCommands::Commit { check_runs, statuses }) => {
            assert_eq!(
                check_runs.args,
                ["api", "--paginate", "repos/{owner}/{repo}/commits/abc/check-runs"]
            );
            assert_eq!(statuses.args, ["api", "repos/{owner}/{repo}/commits/abc/status"]);
        }
        other => panic!("{:?}", other),
    }
    assert_eq!(get_ci_checks("/repo", false, None, &thread), None);
}

#[test]
fn checks_come_from_what_was_printed() {
    let pr = printed("  [{\"bucket\":\"pass\"}]\n");
    assert_eq!(get_pr_ci_checks(&pr).unwrap().passed, 1);
    assert_eq!(get_pr_ci_checks(&failed(1)), None);

    let runs = printed(r#"{"check_runs":[{"name":"A","conclusion":"success"}]}"#);
    assert_eq!(get_branch_ci_checks(&runs, &failed(1)).unwrap().total, 1);
    assert_eq!(get_branch_ci_checks(&failed(1), &failed(1)), None);
    assert_eq!(get_branch_ci_checks(&runs, &Err("no gh".to_string())), None);
}
