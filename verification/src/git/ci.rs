//! CI checks out of the JSON that the GitHub CLI prints.

use crate::git::types::{CheckModel, CiCheck, CiCheckSummary, CiStatus, SummaryModel};
use crate::json::{json_text, parse_json, Json};
use crate::text::{concat, ends_with, same, split, split_seq, starts_with};
use vstd::prelude::*;

verus! {

broadcast use vstd::string::group_string_axioms;

/// The seconds since the epoch that a date text stands for.
pub uninterp spec fn date_seconds(text: Seq<char>) -> Option<i64>;

/// `gix::date::parse` without a current time: the seconds since the epoch of a
/// date in one of git's formats, or `None` where the text is in none of them or
/// is relative to the current time. The formats go by the name `date_seconds`.
#[verifier::external_body]
fn parse_date(text: &str) -> (r: Option<i64>)
    ensures
        r == date_seconds(text@),
{
    gix::date::parse(text, None).ok().map(|time| time.seconds)
}

/// The milliseconds from `started` to `completed`, as 64 bits hold them; 0
/// where either is unknown or they are out of order.
pub open spec fn elapsed_between_model(started: Option<i64>, completed: Option<i64>) -> u64 {
    match (started, completed) {
        (Some(a), Some(b)) => if b >= a {
            (((b - a) * 1000) % 0x1_0000_0000_0000_0000) as u64
        } else {
            0
        },
        _ => 0,
    }
}

/// The milliseconds between two times in seconds.
pub fn elapsed_between(started: Option<i64>, completed: Option<i64>) -> (r: u64)
    ensures
        r == elapsed_between_model(started, completed),
{
    match (started, completed) {
        (Some(a), Some(b)) => if b >= a {
            let span: u128 = (b as i128 - a as i128) as u128;
            ((span * 1000) % 0x1_0000_0000_0000_0000u128) as u64
        } else {
            0
        },
        _ => 0,
    }
}

/// The seconds of an optional date text.
pub open spec fn optional_date(text: Option<Seq<char>>) -> Option<i64> {
    match text {
        Some(t) => date_seconds(t),
        None => None,
    }
}

/// The milliseconds between two dates.
pub open spec fn elapsed_ms_model(started: Option<Seq<char>>, completed: Option<Seq<char>>) -> u64 {
    elapsed_between_model(optional_date(started), optional_date(completed))
}

fn compute_elapsed_ms(started: Option<&str>, completed: Option<&str>) -> (r: u64)
    ensures
        r == elapsed_ms_model(
            started.deep_view(),
            completed.deep_view(),
        ),
{
    match (started, completed) {
        (Some(s), Some(c)) => elapsed_between(parse_date(s), parse_date(c)),
        _ => 0,
    }
}

/// A text, unless it is empty.
pub open spec fn non_empty(text: Option<Seq<char>>) -> Option<Seq<char>> {
    match text {
        Some(t) => if t.len() > 0 {
            Some(t)
        } else {
            None
        },
        None => None,
    }
}

fn owned_non_empty(text: Option<&str>) -> (r: Option<String>)
    ensures
        r.deep_view() == non_empty(
            text.deep_view(),
        ),
{
    match text {
        Some(t) => if t.is_empty() {
            None
        } else {
            Some(t.to_owned())
        },
        None => None,
    }
}

/// A text, or `other` where there is none.
pub open spec fn text_or(text: Option<Seq<char>>, other: Seq<char>) -> Seq<char> {
    match text {
        Some(t) => t,
        None => other,
    }
}

fn str_or<'a>(text: Option<&'a str>, other: &'a str) -> (r: &'a str)
    ensures
        r@ == text_or(
            text.deep_view(),
            other@,
        ),
{
    match text {
        Some(t) => t,
        None => other,
    }
}

// ---------------------------------------------------------------------------
// The rollup
// ---------------------------------------------------------------------------

/// How many checks have an outcome, the skipped ones left out.
pub open spec fn count_of(checks: Seq<CheckModel>, status: CiStatus) -> nat
    decreases checks.len(),
{
    if checks.len() == 0 {
        0
    } else {
        count_of(checks.drop_last(), status) + if !checks.last().is_skipped
            && checks.last().status == status {
            1nat
        } else {
            0nat
        }
    }
}

/// The summary of a list of checks: `None` where every check is skipped,
/// otherwise a failure outweighs a pending check, and that a success.
pub open spec fn summary_of(checks: Seq<CheckModel>) -> Option<SummaryModel> {
    let passed = count_of(checks, CiStatus::Success);
    let failed = count_of(checks, CiStatus::Failure);
    let pending = count_of(checks, CiStatus::Pending);
    if passed + failed + pending == 0 {
        None
    } else {
        Some(
            SummaryModel {
                status: if failed > 0 {
                    CiStatus::Failure
                } else if pending > 0 {
                    CiStatus::Pending
                } else {
                    CiStatus::Success
                },
                passed,
                failed,
                pending,
                total: passed + failed + pending,
                checks,
            },
        )
    }
}

/// Rolls a list of checks up.
pub fn summarize(checks: Vec<CiCheck>) -> (r: Option<CiCheckSummary>)
    ensures
        r.deep_view() == summary_of(checks.deep_view()),
{
    let mut passed: usize = 0;
    let mut failed: usize = 0;
    let mut pending: usize = 0;
    let mut i: usize = 0;
    let ghost all = checks.deep_view();
    while i < checks.len()
        invariant
            i <= checks@.len(),
            all == checks.deep_view(),
            passed == count_of(all.take(i as int), CiStatus::Success),
            failed == count_of(all.take(i as int), CiStatus::Failure),
            pending == count_of(all.take(i as int), CiStatus::Pending),
            passed + failed + pending <= i,
        decreases checks@.len() - i,
    {
        assert(all.take(i + 1).drop_last() == all.take(i as int));
        assert(all.take(i + 1).last() == checks@[i as int].deep_view());
        if !checks[i].is_skipped {
            match checks[i].status {
                CiStatus::Success => passed = passed + 1,
                CiStatus::Failure => failed = failed + 1,
                CiStatus::Pending => pending = pending + 1,
            }
        }
        i = i + 1;
    }
    assert(all.take(all.len() as int) == all);
    let total: usize = passed + failed + pending;
    if total == 0 {
        return None;
    }
    let status: CiStatus = if failed > 0 {
        CiStatus::Failure
    } else if pending > 0 {
        CiStatus::Pending
    } else {
        CiStatus::Success
    };
    Some(CiCheckSummary { status, passed, failed, pending, total, checks })
}

// ---------------------------------------------------------------------------
// Pull requests
// ---------------------------------------------------------------------------

/// The outcome, and whether it is skipped, that a bucket stands for.
pub open spec fn bucket_outcome(bucket: Seq<char>) -> Option<(CiStatus, bool)> {
    if bucket == "pass"@ {
        Some((CiStatus::Success, false))
    } else if bucket == "fail"@ || bucket == "cancel"@ {
        Some((CiStatus::Failure, false))
    } else if bucket == "pending"@ {
        Some((CiStatus::Pending, false))
    } else if bucket == "skipping"@ {
        Some((CiStatus::Pending, true))
    } else {
        None
    }
}

fn bucket_status(bucket: &str) -> (r: Option<(CiStatus, bool)>)
    ensures
        r == bucket_outcome(bucket@),
{
    if same(bucket, "pass") {
        Some((CiStatus::Success, false))
    } else if same(bucket, "fail") || same(bucket, "cancel") {
        Some((CiStatus::Failure, false))
    } else if same(bucket, "pending") {
        Some((CiStatus::Pending, false))
    } else if same(bucket, "skipping") {
        Some((CiStatus::Pending, true))
    } else {
        None
    }
}

/// The check that an entry of `gh pr checks` describes; `None` for an entry
/// whose bucket is unknown.
pub open spec fn pr_check(entry: Json) -> Option<CheckModel> {
    match bucket_outcome(text_or(entry.field_text("bucket"@), ""@)) {
        Some((status, is_skipped)) => Some(
            CheckModel {
                name: text_or(entry.field_text("name"@), "(unnamed)"@),
                workflow: non_empty(entry.field_text("workflow"@)),
                status,
                is_skipped,
                link: non_empty(entry.field_text("link"@)),
                description: non_empty(entry.field_text("description"@)),
                elapsed_ms: elapsed_ms_model(
                    entry.field_text("startedAt"@),
                    entry.field_text("completedAt"@),
                ),
            },
        ),
        None => None,
    }
}

fn read_pr_check(entry: &Json) -> (r: Option<CiCheck>)
    ensures
        r.deep_view() == pr_check(*entry),
{
    match bucket_status(str_or(entry.get_str("bucket"), "")) {
        Some((status, is_skipped)) => Some(
            CiCheck {
                name: str_or(entry.get_str("name"), "(unnamed)").to_owned(),
                workflow: owned_non_empty(entry.get_str("workflow")),
                status,
                is_skipped,
                link: owned_non_empty(entry.get_str("link")),
                description: owned_non_empty(entry.get_str("description")),
                elapsed_ms: compute_elapsed_ms(
                    entry.get_str("startedAt"),
                    entry.get_str("completedAt"),
                ),
            },
        ),
        None => None,
    }
}

// ---------------------------------------------------------------------------
// Commits: check runs and statuses
// ---------------------------------------------------------------------------

/// The outcome of a check run, from its conclusion and, failing that, its
/// status.
pub open spec fn run_outcome(status: Seq<char>, conclusion: Seq<char>) -> Option<(CiStatus, bool)> {
    if conclusion == "success"@ {
        Some((CiStatus::Success, false))
    } else if conclusion == "failure"@ || conclusion == "timed_out"@ || conclusion
        == "action_required"@ || conclusion == "cancelled"@ || conclusion == "stale"@ || conclusion
        == "startup_failure"@ {
        Some((CiStatus::Failure, false))
    } else if conclusion == "skipped"@ || conclusion == "neutral"@ {
        Some((CiStatus::Pending, true))
    } else if status == "queued"@ || status == "in_progress"@ || status == "waiting"@ || status
        == "pending"@ || status == "requested"@ {
        Some((CiStatus::Pending, false))
    } else {
        None
    }
}

fn run_status(status: &str, conclusion: &str) -> (r: Option<(CiStatus, bool)>)
    ensures
        r == run_outcome(status@, conclusion@),
        (r matches Some((outcome, _)) && outcome == CiStatus::Success) <==> conclusion@
            == "success"@,
        is_failing(conclusion@) ==> r == Some((CiStatus::Failure, false)),
{
    proof {
        conclusions_differ();
    }
    if same(conclusion, "success") {
        Some((CiStatus::Success, false))
    } else if same(conclusion, "failure") || same(conclusion, "timed_out") || same(
        conclusion,
        "action_required",
    ) || same(conclusion, "cancelled") || same(conclusion, "stale") || same(
        conclusion,
        "startup_failure",
    ) {
        Some((CiStatus::Failure, false))
    } else if same(conclusion, "skipped") || same(conclusion, "neutral") {
        Some((CiStatus::Pending, true))
    } else if same(status, "queued") || same(status, "in_progress") || same(status, "waiting")
        || same(status, "pending") || same(status, "requested") {
        Some((CiStatus::Pending, false))
    } else {
        None
    }
}

/// The string under `inner` of the object under `outer`.
pub open spec fn nested_text(entry: Json, outer: Seq<char>, inner: Seq<char>) -> Option<Seq<char>> {
    match entry.field(outer) {
        Some(object) => object.field_text(inner),
        None => None,
    }
}

fn nested_str<'a>(entry: &'a Json, outer: &str, inner: &str) -> (r: Option<&'a str>)
    ensures
        match r {
            Some(s) => nested_text(*entry, outer@, inner@) == Some(s@),
            None => nested_text(*entry, outer@, inner@) is None,
        },
{
    match entry.get(outer) {
        Some(object) => object.get_str(inner),
        None => None,
    }
}

/// Whether a check run belongs to a workflow.
pub open spec fn has_workflow(run: Json) -> bool {
    match run.field("check_suite"@) {
        Some(suite) => suite.field("workflow_id"@) is Some,
        None => false,
    }
}

fn in_workflow(run: &Json) -> (r: bool)
    ensures
        r == has_workflow(*run),
{
    match run.get("check_suite") {
        Some(suite) => suite.get("workflow_id").is_some(),
        None => false,
    }
}

/// The check that a GitHub Actions check run describes.
pub open spec fn run_check(run: Json) -> Option<CheckModel> {
    match run_outcome(
        text_or(run.field_text("status"@), ""@),
        text_or(run.field_text("conclusion"@), ""@),
    ) {
        Some((status, is_skipped)) => Some(
            CheckModel {
                name: text_or(run.field_text("name"@), "(unnamed)"@),
                workflow: if has_workflow(run) {
                    non_empty(nested_text(run, "app"@, "name"@))
                } else {
                    None
                },
                status,
                is_skipped,
                link: non_empty(run.field_text("html_url"@)),
                description: non_empty(nested_text(run, "output"@, "summary"@)),
                elapsed_ms: elapsed_ms_model(
                    run.field_text("started_at"@),
                    run.field_text("completed_at"@),
                ),
            },
        ),
        None => None,
    }
}

fn read_run_check(run: &Json) -> (r: Option<CiCheck>)
    ensures
        r.deep_view() == run_check(*run),
{
    match run_status(
        str_or(run.get_str("status"), ""),
        str_or(run.get_str("conclusion"), ""),
    ) {
        Some((status, is_skipped)) => Some(
            CiCheck {
                name: str_or(run.get_str("name"), "(unnamed)").to_owned(),
                workflow: if in_workflow(run) {
                    owned_non_empty(nested_str(run, "app", "name"))
                } else {
                    None
                },
                status,
                is_skipped,
                link: owned_non_empty(run.get_str("html_url")),
                description: owned_non_empty(nested_str(run, "output", "summary")),
                elapsed_ms: compute_elapsed_ms(
                    run.get_str("started_at"),
                    run.get_str("completed_at"),
                ),
            },
        ),
        None => None,
    }
}

/// The outcome that the state of a commit status stands for.
pub open spec fn state_outcome(state: Seq<char>) -> Option<CiStatus> {
    if state == "success"@ {
        Some(CiStatus::Success)
    } else if state == "failure"@ || state == "error"@ {
        Some(CiStatus::Failure)
    } else if state == "pending"@ {
        Some(CiStatus::Pending)
    } else {
        None
    }
}

fn state_status(state: &str) -> (r: Option<CiStatus>)
    ensures
        r == state_outcome(state@),
{
    if same(state, "success") {
        Some(CiStatus::Success)
    } else if same(state, "failure") || same(state, "error") {
        Some(CiStatus::Failure)
    } else if same(state, "pending") {
        Some(CiStatus::Pending)
    } else {
        None
    }
}

/// The check that a commit status describes.
pub open spec fn status_check(entry: Json) -> Option<CheckModel> {
    match state_outcome(text_or(entry.field_text("state"@), ""@)) {
        Some(status) => Some(
            CheckModel {
                name: text_or(entry.field_text("context"@), "(unnamed)"@),
                workflow: None,
                status,
                is_skipped: false,
                link: non_empty(entry.field_text("target_url"@)),
                description: non_empty(entry.field_text("description"@)),
                elapsed_ms: elapsed_ms_model(
                    entry.field_text("created_at"@),
                    entry.field_text("updated_at"@),
                ),
            },
        ),
        None => None,
    }
}

fn read_status_check(entry: &Json) -> (r: Option<CiCheck>)
    ensures
        r.deep_view() == status_check(*entry),
{
    match state_status(str_or(entry.get_str("state"), "")) {
        Some(status) => Some(
            CiCheck {
                name: str_or(entry.get_str("context"), "(unnamed)").to_owned(),
                workflow: None,
                status,
                is_skipped: false,
                link: owned_non_empty(entry.get_str("target_url")),
                description: owned_non_empty(entry.get_str("description")),
                elapsed_ms: compute_elapsed_ms(
                    entry.get_str("created_at"),
                    entry.get_str("updated_at"),
                ),
            },
        ),
        None => None,
    }
}

// ---------------------------------------------------------------------------
// Lists of entries
// ---------------------------------------------------------------------------

/// Where an entry comes from, and so how it is read.
#[derive(Clone, Copy, Debug, PartialEq, Eq, Structural)]
pub enum CheckSource {
    /// `gh pr checks`.
    PullRequest,
    /// The check runs of a commit.
    CheckRun,
    /// The statuses of a commit.
    CommitStatus,
}

/// The check that an entry describes.
pub open spec fn check_from(source: CheckSource, entry: Json) -> Option<CheckModel> {
    match source {
        CheckSource::PullRequest => pr_check(entry),
        CheckSource::CheckRun => run_check(entry),
        CheckSource::CommitStatus => status_check(entry),
    }
}

/// The checks that a list of entries describes, in order; entries whose
/// outcome is unknown are left out.
pub open spec fn checks_from(source: CheckSource, entries: Seq<Json>) -> Seq<CheckModel>
    decreases entries.len(),
{
    if entries.len() == 0 {
        Seq::empty()
    } else {
        let before = checks_from(source, entries.drop_last());
        match check_from(source, entries.last()) {
            Some(check) => before.push(check),
            None => before,
        }
    }
}

fn read_check(source: CheckSource, entry: &Json) -> (r: Option<CiCheck>)
    ensures
        r.deep_view() == check_from(source, *entry),
{
    match source {
        CheckSource::PullRequest => read_pr_check(entry),
        CheckSource::CheckRun => read_run_check(entry),
        CheckSource::CommitStatus => read_status_check(entry),
    }
}

fn append_checks(checks: &mut Vec<CiCheck>, source: CheckSource, entries: &Vec<Json>)
    ensures
        final(checks).deep_view() == old(checks).deep_view() + checks_from(source, entries@),
{
    let ghost start = checks.deep_view();
    let mut i: usize = 0;
    assert(start + checks_from(source, entries@.take(0)) == start);
    while i < entries.len()
        invariant
            i <= entries@.len(),
            start == old(checks).deep_view(),
            checks.deep_view() == start + checks_from(source, entries@.take(i as int)),
        decreases entries@.len() - i,
    {
        let ghost before = checks.deep_view();
        assert(entries@.take(i + 1).drop_last() == entries@.take(i as int));
        match read_check(source, &entries[i]) {
            Some(check) => {
                let ghost model = check.deep_view();
                checks.push(check);
                assert(checks.deep_view() == before.push(model));
                assert(before.push(model) == start + checks_from(
                    source,
                    entries@.take(i as int),
                ).push(model));
            },
            None => {},
        }
        i = i + 1;
    }
    assert(entries@.take(entries@.len() as int) == entries@);
}

/// Rolls up the entries of `gh pr checks`.
pub fn pr_ci_summary(entries: &Vec<Json>) -> (r: Option<CiCheckSummary>)
    ensures
        r.deep_view() == summary_of(checks_from(CheckSource::PullRequest, entries@)),
{
    let mut checks: Vec<CiCheck> = Vec::new();
    append_checks(&mut checks, CheckSource::PullRequest, entries);
    assert(checks.deep_view() == checks_from(CheckSource::PullRequest, entries@));
    summarize(checks)
}

/// The summary of what `gh pr checks` printed: `None` unless it is an array.
pub open spec fn pr_ci(text: Seq<char>) -> Option<SummaryModel> {
    match json_text(text) {
        Some(document) => match document.elements() {
            Some(entries) => summary_of(checks_from(CheckSource::PullRequest, entries)),
            None => None,
        },
        None => None,
    }
}

/// Reads what `gh pr checks --json` printed.
pub fn parse_ci_checks(json: &str) -> (r: Option<CiCheckSummary>)
    ensures
        r.deep_view() == pr_ci(json@),
{
    match parse_json(json) {
        Some(document) => match document.as_array() {
            Some(entries) => pr_ci_summary(entries),
            None => None,
        },
        None => None,
    }
}

// ---------------------------------------------------------------------------
// Branches
// ---------------------------------------------------------------------------

/// The checks of one page of check runs.
pub open spec fn page_checks(page: Json) -> Seq<CheckModel> {
    match page.field_elements("check_runs"@) {
        Some(runs) => checks_from(CheckSource::CheckRun, runs),
        None => Seq::empty(),
    }
}

/// The checks of all pages, page after page.
pub open spec fn pages_checks(pages: Seq<Json>) -> Seq<CheckModel>
    decreases pages.len(),
{
    if pages.len() == 0 {
        Seq::empty()
    } else {
        pages_checks(pages.drop_last()) + page_checks(pages.last())
    }
}

/// The checks of a document with commit statuses.
pub open spec fn statuses_checks(statuses: Option<Json>) -> Seq<CheckModel> {
    match statuses {
        Some(document) => match document.field_elements("statuses"@) {
            Some(entries) => checks_from(CheckSource::CommitStatus, entries),
            None => Seq::empty(),
        },
        None => Seq::empty(),
    }
}

/// Rolls up the check runs and the statuses of a commit.
pub fn branch_ci_summary(pages: &Vec<Json>, statuses: &Option<Json>) -> (r: Option<CiCheckSummary>)
    ensures
        r.deep_view() == summary_of(pages_checks(pages@) + statuses_checks(*statuses)),
{
    let mut checks: Vec<CiCheck> = Vec::new();
    let mut i: usize = 0;
    assert(checks.deep_view() == pages_checks(pages@.take(0)));
    while i < pages.len()
        invariant
            i <= pages@.len(),
            checks.deep_view() == pages_checks(pages@.take(i as int)),
        decreases pages@.len() - i,
    {
        assert(pages@.take(i + 1).drop_last() == pages@.take(i as int));
        let ghost before = checks.deep_view();
        match pages[i].get_array("check_runs") {
            Some(runs) => append_checks(&mut checks, CheckSource::CheckRun, runs),
            None => {
                assert(before + Seq::<CheckModel>::empty() == before);
            },
        }
        i = i + 1;
    }
    assert(pages@.take(pages@.len() as int) == pages@);
    let ghost runs = checks.deep_view();
    assert(runs + Seq::<CheckModel>::empty() == runs);
    match statuses {
        Some(document) => match document.get_array("statuses") {
            Some(entries) => append_checks(&mut checks, CheckSource::CommitStatus, entries),
            None => {},
        },
        None => {},
    }
    summarize(checks)
}

/// A page cut out of a run of pages, with the braces that the cut took.
pub open spec fn restored_page(chunk: Seq<char>) -> Seq<char> {
    let opened = if "{"@.is_prefix_of(chunk) {
        chunk
    } else {
        "{"@ + chunk
    };
    if "}"@.is_suffix_of(opened) {
        opened
    } else {
        opened + "}"@
    }
}

/// The pages among `chunks` that are documents.
pub open spec fn parsed_pages(chunks: Seq<Seq<char>>) -> Seq<Json>
    decreases chunks.len(),
{
    if chunks.len() == 0 {
        Seq::empty()
    } else {
        let before = parsed_pages(chunks.drop_last());
        match json_text(restored_page(chunks.last())) {
            Some(page) => before.push(page),
            None => before,
        }
    }
}

/// The pages of a text: the text itself where it is one document, otherwise
/// what lies between its `}{` boundaries.
pub open spec fn run_pages(text: Seq<char>) -> Seq<Json> {
    match json_text(text) {
        Some(page) => seq![page],
        None => parsed_pages(split_seq(text, "}{"@)),
    }
}

fn restore_page(chunk: &str) -> (r: String)
    ensures
        r@ == restored_page(chunk@),
{
    let opened: String = if starts_with(chunk, "{") {
        chunk.to_owned()
    } else {
        concat("{", chunk)
    };
    if ends_with(opened.as_str(), "}") {
        opened
    } else {
        concat(opened.as_str(), "}")
    }
}

/// Reads the pages that `gh api --paginate` printed one after another.
pub fn parse_run_pages(text: &str) -> (pages: Vec<Json>)
    ensures
        pages@ == run_pages(text@),
{
    let mut pages: Vec<Json> = Vec::new();
    match parse_json(text) {
        Some(page) => {
            pages.push(page);
        },
        None => {
            proof {
                reveal_strlit("}{");
            }
            let chunks: Vec<String> = split(text, "}{");
            let ghost all = chunks.deep_view();
            let mut i: usize = 0;
            assert(pages@ == parsed_pages(all.take(0)));
            while i < chunks.len()
                invariant
                    i <= chunks@.len(),
                    all == chunks.deep_view(),
                    pages@ == parsed_pages(all.take(i as int)),
                decreases chunks@.len() - i,
            {
                assert(all.take(i + 1).drop_last() == all.take(i as int));
                assert(all.take(i + 1).last() == chunks@[i as int]@);
                let restored: String = restore_page(chunks[i].as_str());
                match parse_json(restored.as_str()) {
                    Some(page) => {
                        pages.push(page);
                    },
                    None => {},
                }
                i = i + 1;
            }
            assert(all.take(all.len() as int) == all);
        },
    }
    pages
}

/// The summary of the check runs and statuses of a commit, each as the text
/// that the GitHub CLI printed, where it printed one.
pub open spec fn branch_ci(check_runs: Option<Seq<char>>, statuses: Option<Seq<char>>) -> Option<
    SummaryModel,
> {
    let runs = match check_runs {
        Some(text) => pages_checks(run_pages(text)),
        None => Seq::empty(),
    };
    let rest = match statuses {
        Some(text) => statuses_checks(json_text(text)),
        None => Seq::empty(),
    };
    summary_of(runs + rest)
}

/// Reads the check runs and the statuses of a commit.
pub fn parse_branch_ci(check_runs: Option<&str>, statuses: Option<&str>) -> (r: Option<
    CiCheckSummary,
>)
    ensures
        r.deep_view() == branch_ci(
            check_runs.deep_view(),
            statuses.deep_view(),
        ),
{
    let pages: Vec<Json> = match check_runs {
        Some(text) => parse_run_pages(text),
        None => Vec::new(),
    };
    let document: Option<Json> = match statuses {
        Some(text) => parse_json(text),
        None => None,
    };
    branch_ci_summary(&pages, &document)
}

// ---------------------------------------------------------------------------
// Laws
// ---------------------------------------------------------------------------

/// A summary's totals add up, it never counts more checks than it lists, it
/// never stands for nothing, and its outcome is a failure as soon as one check
/// failed, a success only where all counted checks passed.
pub proof fn summary_adds_up(checks: Seq<CheckModel>)
    ensures
        summary_of(checks) matches Some(s) ==> {
            &&& s.total == s.passed + s.failed + s.pending
            &&& 0 < s.total <= s.checks.len()
            &&& s.checks == checks
            &&& (s.status == CiStatus::Failure <==> s.failed > 0)
            &&& (s.status == CiStatus::Success <==> s.passed == s.total)
        },
        summary_of(checks) is None <==> forall|i: int|
            0 <= i < checks.len() ==> (#[trigger] checks[i]).is_skipped,
{
    counts_bounded(checks);
    counts_zero(checks);
}

proof fn counts_bounded(checks: Seq<CheckModel>)
    ensures
        count_of(checks, CiStatus::Success) + count_of(checks, CiStatus::Failure) + count_of(
            checks,
            CiStatus::Pending,
        ) <= checks.len(),
    decreases checks.len(),
{
    if checks.len() > 0 {
        counts_bounded(checks.drop_last());
    }
}

proof fn counts_zero(checks: Seq<CheckModel>)
    ensures
        (count_of(checks, CiStatus::Success) + count_of(checks, CiStatus::Failure) + count_of(
            checks,
            CiStatus::Pending,
        ) == 0) <==> forall|i: int| 0 <= i < checks.len() ==> (#[trigger] checks[i]).is_skipped,
    decreases checks.len(),
{
    if checks.len() > 0 {
        let front = checks.drop_last();
        counts_zero(front);
        assert forall|i: int| 0 <= i < front.len() implies front[i] == #[trigger] checks[i] by {}
        if forall|i: int| 0 <= i < front.len() ==> (#[trigger] front[i]).is_skipped {
            assert forall|i: int| 0 <= i < checks.len() - 1 implies (
            #[trigger] checks[i]).is_skipped by {
                assert(front[i].is_skipped);
            }
        } else {
            let i = choose|i: int| 0 <= i < front.len() && !(#[trigger] front[i]).is_skipped;
            assert(!checks[i].is_skipped);
        }
    }
}

proof fn conclusions_differ()
    ensures
        "success"@ != "failure"@,
        "success"@ != "timed_out"@,
        "success"@ != "action_required"@,
        "success"@ != "cancelled"@,
        "success"@ != "stale"@,
        "success"@ != "startup_failure"@,
        "success"@ != "skipped"@,
        "success"@ != "neutral"@,
        "success"@ != ""@,
        "failure"@ != "skipped"@,
        "failure"@ != "neutral"@,
        "timed_out"@ != "skipped"@,
        "timed_out"@ != "neutral"@,
        "action_required"@ != "skipped"@,
        "action_required"@ != "neutral"@,
        "cancelled"@ != "skipped"@,
        "cancelled"@ != "neutral"@,
        "stale"@ != "skipped"@,
        "stale"@ != "neutral"@,
        "startup_failure"@ != "skipped"@,
        "startup_failure"@ != "neutral"@,
        "skipped"@ != ""@,
        "neutral"@ != ""@,
        "failure"@ != ""@,
        "timed_out"@ != ""@,
        "action_required"@ != ""@,
        "cancelled"@ != ""@,
        "stale"@ != ""@,
        "startup_failure"@ != ""@,
{
    reveal_strlit("success");
    reveal_strlit("failure");
    reveal_strlit("timed_out");
    reveal_strlit("action_required");
    reveal_strlit("cancelled");
    reveal_strlit("stale");
    reveal_strlit("startup_failure");
    reveal_strlit("skipped");
    reveal_strlit("neutral");
    reveal_strlit("");
    assert("success"@[0] == 's' && "success"@[1] == 'u' && "success"@.len() == 7);
    assert("failure"@[0] == 'f' && "failure"@.len() == 7);
    assert("timed_out"@.len() == 9);
    assert("action_required"@.len() == 15);
    assert("cancelled"@.len() == 9);
    assert("stale"@.len() == 5);
    assert("startup_failure"@.len() == 15);
    assert("skipped"@[0] == 's' && "skipped"@[1] == 'k' && "skipped"@.len() == 7);
    assert("neutral"@[0] == 'n' && "neutral"@.len() == 7);
    assert(""@.len() == 0);
}

/// A conclusion that says that a check run did not pass.
pub open spec fn is_failing(conclusion: Seq<char>) -> bool {
    ||| conclusion == "failure"@
    ||| conclusion == "timed_out"@
    ||| conclusion == "action_required"@
    ||| conclusion == "cancelled"@
    ||| conclusion == "stale"@
    ||| conclusion == "startup_failure"@
}

/// A check run passed only where its conclusion says "success". A cancelled run,
/// and every other one that did not come to its end, failed. A skipped or neutral
/// one does not count, and one that is still on its way is pending.
pub proof fn conclusions_decide(run: Json)
    ensures
        (run_check(run) matches Some(check) && check.status == CiStatus::Success)
            <==> run.field_text("conclusion"@) == Some("success"@),
        (run_check(run) matches Some(check) && check.status == CiStatus::Failure) <==> (
        run.field_text("conclusion"@) matches Some(conclusion) && is_failing(conclusion)),
        (run_check(run) matches Some(check) && check.is_skipped) <==> run.field_text("conclusion"@)
            == Some("skipped"@) || run.field_text("conclusion"@) == Some("neutral"@),
        run_check(run) matches Some(check) ==> (check.is_skipped ==> check.status
            == CiStatus::Pending),
        run.field_text("conclusion"@) is None ==> ((run_check(run) is Some) <==> (run.field_text(
            "status"@,
        ) matches Some(status) && (status == "queued"@ || status == "in_progress"@ || status
            == "waiting"@ || status == "pending"@ || status == "requested"@))),
        run.field_text("conclusion"@) is None ==> (run_check(run) matches Some(check) ==> check.status
            == CiStatus::Pending && !check.is_skipped),
{
    conclusions_differ();
    reveal_strlit("queued");
    reveal_strlit("in_progress");
    reveal_strlit("waiting");
    reveal_strlit("pending");
    reveal_strlit("requested");
    reveal_strlit("");
    assert("queued"@.len() > 0 && "in_progress"@.len() > 0 && "waiting"@.len() > 0);
    assert("pending"@.len() > 0 && "requested"@.len() > 0);
    assert(""@.len() == 0);
}

/// A check of a pull request goes by its bucket: passed only in "pass", failed in
/// "fail" and in "cancel", left out of the count only in "skipping".
pub proof fn buckets_decide(entry: Json)
    ensures
        (pr_check(entry) matches Some(check) && check.status == CiStatus::Success)
            <==> entry.field_text("bucket"@) == Some("pass"@),
        (pr_check(entry) matches Some(check) && check.status == CiStatus::Failure)
            <==> entry.field_text("bucket"@) == Some("fail"@) || entry.field_text("bucket"@)
            == Some("cancel"@),
        (pr_check(entry) matches Some(check) && check.is_skipped) <==> entry.field_text("bucket"@)
            == Some("skipping"@),
        (pr_check(entry) matches Some(check) && check.status == CiStatus::Pending
            && !check.is_skipped) <==> entry.field_text("bucket"@) == Some("pending"@),
{
    reveal_strlit("pass");
    reveal_strlit("fail");
    reveal_strlit("cancel");
    reveal_strlit("pending");
    reveal_strlit("skipping");
    reveal_strlit("");
    assert("pass"@.len() == 4 && "fail"@.len() == 4 && "pass"@[0] != "fail"@[0]);
    assert("cancel"@.len() == 6);
    assert("pending"@.len() == 7);
    assert("skipping"@.len() == 8);
    assert(""@.len() == 0);
}

/// A commit status goes by its state: passed only in "success", failed in
/// "failure" and in "error". None is ever left out of the count.
pub proof fn states_decide(entry: Json)
    ensures
        (status_check(entry) matches Some(check) && check.status == CiStatus::Success)
            <==> entry.field_text("state"@) == Some("success"@),
        (status_check(entry) matches Some(check) && check.status == CiStatus::Failure)
            <==> entry.field_text("state"@) == Some("failure"@) || entry.field_text("state"@)
            == Some("error"@),
        (status_check(entry) matches Some(check) && check.status == CiStatus::Pending)
            <==> entry.field_text("state"@) == Some("pending"@),
        status_check(entry) matches Some(check) ==> !check.is_skipped,
{
    conclusions_differ();
    reveal_strlit("success");
    reveal_strlit("failure");
    reveal_strlit("error");
    reveal_strlit("pending");
    reveal_strlit("");
    assert("success"@.len() == 7 && "success"@[0] == 's');
    assert("failure"@.len() == 7 && "failure"@[0] == 'f');
    assert("pending"@.len() == 7 && "pending"@[0] == 'p');
    assert("error"@.len() == 5);
    assert(""@.len() == 0);
}

/// What an entry tells of a check is what the check says: its name, where it can
/// be followed, what is said of it, and how many whole seconds it took.
pub proof fn checks_say_what_entries_tell(entry: Json, text: Seq<char>, started: i64, completed: i64)
    requires
        text.len() > 0,
        0 <= completed - started <= 1_000_000_000_000,
    ensures
        pr_check(entry) matches Some(check) ==> {
            &&& entry.field_text("name"@) == Some(text) ==> check.name == text
            &&& entry.field_text("workflow"@) == Some(text) ==> check.workflow == Some(text)
            &&& entry.field_text("link"@) == Some(text) ==> check.link == Some(text)
            &&& entry.field_text("description"@) == Some(text) ==> check.description == Some(text)
            &&& optional_date(entry.field_text("startedAt"@)) == Some(started) && optional_date(
                entry.field_text("completedAt"@),
            ) == Some(completed) ==> check.elapsed_ms == 1000 * (completed - started)
        },
        run_check(entry) matches Some(check) ==> {
            &&& entry.field_text("name"@) == Some(text) ==> check.name == text
            &&& entry.field_text("html_url"@) == Some(text) ==> check.link == Some(text)
            &&& nested_text(entry, "output"@, "summary"@) == Some(text) ==> check.description
                == Some(text)
            &&& nested_text(entry, "app"@, "name"@) == Some(text) ==> check.workflow == (
            if has_workflow(entry) {
                Some(text)
            } else {
                None
            })
            &&& optional_date(entry.field_text("started_at"@)) == Some(started) && optional_date(
                entry.field_text("completed_at"@),
            ) == Some(completed) ==> check.elapsed_ms == 1000 * (completed - started)
        },
        status_check(entry) matches Some(check) ==> {
            &&& entry.field_text("context"@) == Some(text) ==> check.name == text
            &&& check.workflow is None
            &&& entry.field_text("target_url"@) == Some(text) ==> check.link == Some(text)
            &&& entry.field_text("description"@) == Some(text) ==> check.description == Some(text)
            &&& optional_date(entry.field_text("created_at"@)) == Some(started) && optional_date(
                entry.field_text("updated_at"@),
            ) == Some(completed) ==> check.elapsed_ms == 1000 * (completed - started)
        },
{
    assert(elapsed_between_model(Some(started), Some(completed)) == 1000 * (completed - started));
}

/// A check that ends before it starts, or of which a time is unknown, took no
/// time.
pub proof fn unknown_spans_are_zero(started: Option<i64>, completed: Option<i64>)
    requires
        started is None || completed is None || completed->0 <= started->0,
    ensures
        elapsed_between_model(started, completed) == 0,
{
}

proof fn counting_is_filtering(checks: Seq<CheckModel>, status: CiStatus)
    ensures
        count_of(checks, status) == checks.filter(
            |check: CheckModel| !check.is_skipped && check.status == status,
        ).len(),
    decreases checks.len(),
{
    reveal(Seq::filter);
    if checks.len() > 0 {
        counting_is_filtering(checks.drop_last(), status);
    }
}

/// A summary counts just the checks that are not skipped, each under its own
/// outcome.
pub proof fn summary_counts_outcomes(checks: Seq<CheckModel>)
    ensures
        summary_of(checks) matches Some(s) ==> {
            &&& s.passed == checks.filter(
                |check: CheckModel| !check.is_skipped && check.status == CiStatus::Success,
            ).len()
            &&& s.failed == checks.filter(
                |check: CheckModel| !check.is_skipped && check.status == CiStatus::Failure,
            ).len()
            &&& s.pending == checks.filter(
                |check: CheckModel| !check.is_skipped && check.status == CiStatus::Pending,
            ).len()
        },
{
    counting_is_filtering(checks, CiStatus::Success);
    counting_is_filtering(checks, CiStatus::Failure);
    counting_is_filtering(checks, CiStatus::Pending);
}

proof fn one_is_counted(checks: Seq<CheckModel>, i: int)
    requires
        0 <= i < checks.len(),
        !checks[i].is_skipped,
    ensures
        count_of(checks, checks[i].status) > 0,
    decreases checks.len(),
{
    if i < checks.len() - 1 {
        assert(checks.drop_last()[i] == checks[i]);
        one_is_counted(checks.drop_last(), i);
    }
}

proof fn counted_is_one(checks: Seq<CheckModel>, status: CiStatus) -> (i: int)
    requires
        count_of(checks, status) > 0,
    ensures
        0 <= i < checks.len(),
        !checks[i].is_skipped,
        checks[i].status == status,
    decreases checks.len(),
{
    if !checks.last().is_skipped && checks.last().status == status {
        checks.len() - 1
    } else {
        let i = counted_is_one(checks.drop_last(), status);
        assert(checks.drop_last()[i] == checks[i]);
        i
    }
}

/// One failed check outweighs all others; without one, a pending check outweighs
/// all that passed.
pub proof fn one_failure_decides(checks: Seq<CheckModel>, i: int)
    requires
        0 <= i < checks.len(),
        !checks[i].is_skipped,
    ensures
        summary_of(checks) matches Some(s) && {
            &&& checks[i].status == CiStatus::Failure ==> s.status == CiStatus::Failure
            &&& checks[i].status == CiStatus::Pending ==> s.status != CiStatus::Success
            &&& s.status == CiStatus::Success ==> checks[i].status == CiStatus::Success
            &&& s.status == CiStatus::Failure ==> exists|j: int|
                0 <= j < checks.len() && !checks[j].is_skipped && (#[trigger] checks[j]).status
                    == CiStatus::Failure
        },
{
    one_is_counted(checks, i);
    if count_of(checks, CiStatus::Failure) > 0 {
        let j = counted_is_one(checks, CiStatus::Failure);
        assert(checks[j].status == CiStatus::Failure);
    }
}

proof fn entry_is_among_checks(source: CheckSource, entries: Seq<Json>, i: int) -> (j: int)
    requires
        0 <= i < entries.len(),
        check_from(source, entries[i]) is Some,
    ensures
        0 <= j < checks_from(source, entries).len(),
        checks_from(source, entries)[j] == check_from(source, entries[i])->0,
    decreases entries.len(),
{
    if i < entries.len() - 1 {
        assert(entries.drop_last()[i] == entries[i]);
        entry_is_among_checks(source, entries.drop_last(), i)
    } else {
        checks_from(source, entries).len() - 1
    }
}

proof fn page_is_among_checks(pages: Seq<Json>, p: int, j: int) -> (k: int)
    requires
        0 <= p < pages.len(),
        0 <= j < page_checks(pages[p]).len(),
    ensures
        0 <= k < pages_checks(pages).len(),
        pages_checks(pages)[k] == page_checks(pages[p])[j],
    decreases pages.len(),
{
    if p < pages.len() - 1 {
        assert(pages.drop_last()[p] == pages[p]);
        page_is_among_checks(pages.drop_last(), p, j)
    } else {
        pages_checks(pages.drop_last()).len() + j
    }
}

/// A check run that did not pass makes the whole commit fail, on whatever page it
/// stands and whatever the statuses say: above all one that was cancelled.
pub proof fn failing_runs_fail_the_commit(
    pages: Seq<Json>,
    statuses: Option<Json>,
    p: int,
    runs: Seq<Json>,
    i: int,
    conclusion: Seq<char>,
)
    requires
        0 <= p < pages.len(),
        pages[p].field_elements("check_runs"@) == Some(runs),
        0 <= i < runs.len(),
        runs[i].field_text("conclusion"@) == Some(conclusion),
        is_failing(conclusion),
    ensures
        summary_of(pages_checks(pages) + statuses_checks(statuses)) matches Some(s) && s.status
            == CiStatus::Failure && s.failed > 0,
{
    conclusions_decide(runs[i]);
    let j = entry_is_among_checks(CheckSource::CheckRun, runs, i);
    let k = page_is_among_checks(pages, p, j);
    let all = pages_checks(pages) + statuses_checks(statuses);
    assert(all[k] == run_check(runs[i])->0);
    one_failure_decides(all, k);
    one_is_counted(all, k);
}

/// A commit status that failed makes the whole commit fail, whatever its check
/// runs say.
pub proof fn failing_statuses_fail_the_commit(
    pages: Seq<Json>,
    document: Json,
    entries: Seq<Json>,
    i: int,
)
    requires
        document.field_elements("statuses"@) == Some(entries),
        0 <= i < entries.len(),
        entries[i].field_text("state"@) == Some("failure"@) || entries[i].field_text("state"@)
            == Some("error"@),
    ensures
        summary_of(pages_checks(pages) + statuses_checks(Some(document))) matches Some(s)
            && s.status == CiStatus::Failure && s.failed > 0,
{
    states_decide(entries[i]);
    let j = entry_is_among_checks(CheckSource::CommitStatus, entries, i);
    let all = pages_checks(pages) + statuses_checks(Some(document));
    let k = pages_checks(pages).len() + j;
    assert(all[k] == status_check(entries[i])->0);
    one_failure_decides(all, k);
    one_is_counted(all, k);
}

/// A check of a pull request that failed or was cancelled makes the whole pull
/// request fail.
pub proof fn failing_checks_fail_the_pull_request(text: Seq<char>, entries: Seq<Json>, i: int)
    requires
        json_text(text) is Some,
        json_text(text)->0.elements() == Some(entries),
        0 <= i < entries.len(),
        entries[i].field_text("bucket"@) == Some("fail"@) || entries[i].field_text("bucket"@)
            == Some("cancel"@),
    ensures
        pr_ci(text) matches Some(s) && s.status == CiStatus::Failure && s.failed > 0,
{
    buckets_decide(entries[i]);
    let j = entry_is_among_checks(CheckSource::PullRequest, entries, i);
    one_failure_decides(checks_from(CheckSource::PullRequest, entries), j);
    one_is_counted(checks_from(CheckSource::PullRequest, entries), j);
}

/// Checks come in the order of their entries, and those of one list follow those
/// of the list before it.
pub proof fn checks_follow_their_entries(source: CheckSource, entries: Seq<Json>, more: Seq<Json>)
    ensures
        checks_from(source, entries + more) == checks_from(source, entries) + checks_from(
            source,
            more,
        ),
        pages_checks(entries + more) == pages_checks(entries) + pages_checks(more),
    decreases more.len(),
{
    if more.len() == 0 {
        assert(entries + more == entries);
        assert(checks_from(source, entries) + checks_from(source, more) == checks_from(
            source,
            entries,
        ));
        assert(pages_checks(entries) + pages_checks(more) == pages_checks(entries));
    } else {
        checks_follow_their_entries(source, entries, more.drop_last());
        assert((entries + more).drop_last() == entries + more.drop_last());
        assert(checks_from(source, entries + more) =~= checks_from(source, entries) + checks_from(
            source,
            more,
        ));
        assert(pages_checks(entries + more) =~= pages_checks(entries) + pages_checks(more));
    }
}

/// A page between braces is read as it stands, and a page that lost a brace to the
/// cut gets just that one back.
pub proof fn pages_get_their_braces_back(inner: Seq<char>)
    ensures
        restored_page("{"@ + inner + "}"@) == "{"@ + inner + "}"@,
        !("}"@.is_suffix_of("{"@ + inner)) ==> restored_page("{"@ + inner) == "{"@ + inner + "}"@,
        !("{"@.is_prefix_of(inner + "}"@)) ==> restored_page(inner + "}"@) == "{"@ + inner + "}"@,
{
    reveal_strlit("{");
    reveal_strlit("}");
    assert("{"@.is_prefix_of("{"@ + inner + "}"@));
    assert("}"@.is_suffix_of("{"@ + inner + "}"@));
    assert("{"@.is_prefix_of("{"@ + inner));
    assert("{"@ + inner + "}"@ == "{"@ + (inner + "}"@));
}

/// One document is one page; of several, those that can be read are the pages, in
/// order.
pub proof fn pages_are_read_in_order(text: Seq<char>, page: Json, chunks: Seq<Seq<char>>, chunk: Seq<char>)
    ensures
        json_text(text) == Some(page) ==> run_pages(text) == seq![page],
        json_text(text) is None ==> run_pages(text) == parsed_pages(split_seq(text, "}{"@)),
        json_text(restored_page(chunk)) == Some(page) ==> parsed_pages(chunks.push(chunk))
            == parsed_pages(chunks).push(page),
        json_text(restored_page(chunk)) is None ==> parsed_pages(chunks.push(chunk))
            == parsed_pages(chunks),
{
    assert(chunks.push(chunk).drop_last() == chunks);
}

/// A check run belongs to a workflow just where its suite names one, and then goes by the
/// name of the app.
pub proof fn suites_name_workflows(run: Json, suite: Json, name: Seq<char>)
    requires
        run.field("check_suite"@) == Some(suite),
        nested_text(run, "app"@, "name"@) == Some(name),
        name.len() > 0,
        run_check(run) is Some,
    ensures
        suite.field("workflow_id"@) is Some ==> run_check(run)->0.workflow == Some(name),
        suite.field("workflow_id"@) is None ==> run_check(run)->0.workflow is None,
{
}

} // verus!
