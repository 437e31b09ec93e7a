//! Pull requests and their checks, as the GitHub CLI tells them.

use crate::git::ci::{branch_ci, parse_branch_ci, parse_ci_checks, pr_ci};
use crate::git::types::{CiCheckSummary, PrInfo, PrState, SummaryModel};
use crate::process::command::{
    bare_command, CommandModel, CommandOutput, CommandSpec, Lane, ThreadLane,
};
use crate::text::{
    concat3, decimal, decimal_lacks, decimal_reads_back, join_seq, join_splits_back, parse_unsigned, parse_unsigned_seq, same, split, split_seq, starts_with, text_lossy,
    trim, trim_seq, utf8_lossy,
};
use vstd::prelude::*;

verus! {

broadcast use vstd::string::group_string_axioms;

/// The GitHub CLI in a directory.
pub open spec fn gh_model(args: Seq<Seq<char>>, dir: Seq<char>, lane: Lane) -> CommandModel {
    CommandModel { args, cwd: Some(dir), ..bare_command("gh"@, lane) }
}

/// What a command printed, where it succeeded.
pub open spec fn printed(run: Result<CommandOutput, String>) -> Option<Seq<char>> {
    match run {
        Ok(output) => if output.code == Some(0i32) {
            Some(utf8_lossy(output.stdout@))
        } else {
            None
        },
        Err(_) => None,
    }
}

fn printed_text(run: &Result<CommandOutput, String>) -> (r: Option<String>)
    ensures
        r.deep_view() == printed(*run),
{
    match run {
        Ok(output) => if output.success() {
            Some(text_lossy(&output.stdout))
        } else {
            None
        },
        Err(_) => None,
    }
}

// ---------------------------------------------------------------------------
// The pull request
// ---------------------------------------------------------------------------

/// The command that tells of the current branch's pull request.
pub fn pr_info_command(path: &str, thread: &ThreadLane) -> (r: CommandSpec)
    ensures
        r.deep_view() == gh_model(
            seq![
                "pr"@,
                "view"@,
                "--json"@,
                "url,state,isDraft,number"@,
                "--jq"@,
                "[.url, .state, .isDraft, .number] | @tsv"@,
            ],
            path@,
            thread.lane,
        ),
{
    let r: CommandSpec = CommandSpec::new("gh", thread).arg("pr").arg("view").arg("--json").arg(
        "url,state,isDraft,number",
    ).arg("--jq").arg("[.url, .state, .isDraft, .number] | @tsv").current_dir(path);
    assert(r.deep_view().args == seq![
        "pr"@,
        "view"@,
        "--json"@,
        "url,state,isDraft,number"@,
        "--jq"@,
        "[.url, .state, .isDraft, .number] | @tsv"@,
    ]);
    r
}

/// The state that a text names; one that is not known counts as open.
pub open spec fn state_of(text: Seq<char>, draft: bool) -> PrState {
    if draft {
        PrState::Draft
    } else if text == "OPEN"@ {
        PrState::Open
    } else if text == "MERGED"@ {
        PrState::Merged
    } else if text == "CLOSED"@ {
        PrState::Closed
    } else {
        PrState::Open
    }
}

/// Whether this is the pull request that a line tells of, if it tells of one.
pub open spec fn is_pr_of_line(r: Option<PrInfo>, line: Seq<char>) -> bool {
    let parts = split_seq(line, "\t"@);
    if parts.len() >= 4 && "http"@.is_prefix_of(parts[0]) {
        &&& r matches Some(info)
        &&& info.url@ == parts[0]
        &&& info.state == state_of(parts[1], parts[2] == "true"@)
        &&& info.number == (match parse_unsigned_seq(parts[3], u32::MAX as nat) {
            Some(n) => n,
            None => 0,
        })
    } else {
        r is None
    }
}

/// Reads the pull request out of a line: address, state, whether it is a draft,
/// and number, with tabs between them.
pub fn read_pr_line(line: &str) -> (r: Option<PrInfo>)
    ensures
        is_pr_of_line(r, line@),
{
    proof {
        reveal_strlit("\t");
    }
    let parts: Vec<String> = split(line, "\t");
    let ghost model = parts.deep_view();
    if parts.len() < 4 {
        return None;
    }
    assert(model[0] == parts@[0]@ && model[1] == parts@[1]@ && model[2] == parts@[2]@ && model[3]
        == parts@[3]@);
    if !starts_with(parts[0].as_str(), "http") {
        return None;
    }
    let state_text: &str = parts[1].as_str();
    let state: PrState = if same(parts[2].as_str(), "true") {
        PrState::Draft
    } else if same(state_text, "OPEN") {
        PrState::Open
    } else if same(state_text, "MERGED") {
        PrState::Merged
    } else if same(state_text, "CLOSED") {
        PrState::Closed
    } else {
        PrState::Open
    };
    let number: u32 = match parse_unsigned(parts[3].as_str(), u32::MAX as u64) {
        Some(n) => n as u32,
        None => 0,
    };
    Some(PrInfo { url: parts[0].clone(), state, number })
}

/// The pull request of the current branch, where there is one.
pub fn get_pr_info(run: &Result<CommandOutput, String>) -> (r: Option<PrInfo>)
    ensures
        match printed(*run) {
            Some(text) => is_pr_of_line(r, trim_seq(text)),
            None => r is None,
        },
{
    match printed_text(run) {
        Some(text) => read_pr_line(trim(text.as_str()).as_str()),
        None => None,
    }
}

// ---------------------------------------------------------------------------
// Checks
// ---------------------------------------------------------------------------

/// The commands that tell of the checks.
#[derive(Clone, Debug, PartialEq, Eq)]
pub enum CheckCommands {
    /// The checks of the pull request.
    PullRequest(CommandSpec),
    /// The check runs and the statuses of a commit.
    Commit { check_runs: CommandSpec, statuses: CommandSpec },
}

/// The address of what is known of a commit.
pub open spec fn commit_endpoint(sha: Seq<char>, what: Seq<char>) -> Seq<char> {
    "repos/{owner}/{repo}/commits/"@ + sha + what
}

/// The commands that tell of the checks: of the pull request where there is one,
/// and otherwise of the commit at HEAD. `None` where there is neither.
pub fn get_ci_checks(path: &str, has_pr: bool, head_sha: Option<&str>, thread: &ThreadLane) -> (r:
    Option<CheckCommands>)
    ensures
        has_pr ==> (r matches Some(CheckCommands::PullRequest(command)) && command.deep_view()
            == gh_model(
            seq![
                "pr"@,
                "checks"@,
                "--json"@,
                "bucket,name,workflow,link,description,startedAt,completedAt"@,
            ],
            path@,
            thread.lane,
        )),
        !has_pr ==> match head_sha.deep_view() {
            Some(sha) => {
                &&& r matches Some(CheckCommands::Commit { check_runs, statuses })
                &&& check_runs.deep_view() == gh_model(
                    seq!["api"@, "--paginate"@, commit_endpoint(sha, "/check-runs"@)],
                    path@,
                    thread.lane,
                )
                &&& statuses.deep_view() == gh_model(
                    seq!["api"@, commit_endpoint(sha, "/status"@)],
                    path@,
                    thread.lane,
                )
            },
            None => r is None,
        },
{
    if has_pr {
        let command: CommandSpec = CommandSpec::new("gh", thread).arg("pr").arg("checks").arg(
            "--json",
        ).arg("bucket,name,workflow,link,description,startedAt,completedAt").current_dir(path);
        assert(command.deep_view().args == seq![
            "pr"@,
            "checks"@,
            "--json"@,
            "bucket,name,workflow,link,description,startedAt,completedAt"@,
        ]);
        return Some(CheckCommands::PullRequest(command));
    }
    let sha: &str = match head_sha {
        Some(sha) => sha,
        None => return None,
    };
    let runs_endpoint: String = concat3("repos/{owner}/{repo}/commits/", sha, "/check-runs");
    let status_endpoint: String = concat3("repos/{owner}/{repo}/commits/", sha, "/status");
    let check_runs: CommandSpec = CommandSpec::new("gh", thread).arg("api").arg("--paginate").arg(
        runs_endpoint.as_str(),
    ).current_dir(path);
    assert(check_runs.deep_view().args == seq!["api"@, "--paginate"@, runs_endpoint@]);
    let statuses: CommandSpec = CommandSpec::new("gh", thread).arg("api").arg(
        status_endpoint.as_str(),
    ).current_dir(path);
    assert(statuses.deep_view().args == seq!["api"@, status_endpoint@]);
    Some(CheckCommands::Commit { check_runs, statuses })
}

/// The checks of a pull request.
pub fn get_pr_ci_checks(run: &Result<CommandOutput, String>) -> (r: Option<CiCheckSummary>)
    ensures
        r.deep_view() == (match printed(*run) {
            Some(text) => pr_ci(trim_seq(text)),
            None => None,
        }),
{
    match printed_text(run) {
        Some(text) => parse_ci_checks(trim(text.as_str()).as_str()),
        None => None,
    }
}

/// The checks of a commit, from its check runs and its statuses. One of them
/// that git's host refused is left out; a command that could not be run spoils
/// both.
pub open spec fn commit_checks(
    check_runs: Result<CommandOutput, String>,
    statuses: Result<CommandOutput, String>,
) -> Option<SummaryModel> {
    if check_runs is Err || statuses is Err || (printed(check_runs) is None && printed(
        statuses,
    ) is None) {
        None
    } else {
        branch_ci(printed(check_runs), printed(statuses))
    }
}

/// The checks of a commit.
pub fn get_branch_ci_checks(
    check_runs: &Result<CommandOutput, String>,
    statuses: &Result<CommandOutput, String>,
) -> (r: Option<CiCheckSummary>)
    ensures
        r.deep_view() == commit_checks(*check_runs, *statuses),
{
    if check_runs.is_err() || statuses.is_err() {
        return None;
    }
    let runs: Option<String> = printed_text(check_runs);
    let rest: Option<String> = printed_text(statuses);
    if runs.is_none() && rest.is_none() {
        return None;
    }
    let runs_text: Option<&str> = match &runs {
        Some(text) => Some(text.as_str()),
        None => None,
    };
    let rest_text: Option<&str> = match &rest {
        Some(text) => Some(text.as_str()),
        None => None,
    };
    parse_branch_ci(runs_text, rest_text)
}

// ---------------------------------------------------------------------------
// Laws
// ---------------------------------------------------------------------------

/// A pull request is told as it was written, with tabs between its address, its
/// state, whether it is a draft, and its number: a draft is a draft whatever its
/// state, and every other one is as its state says.
pub proof fn pull_request_is_told(
    r: Option<PrInfo>,
    url: Seq<char>,
    state: Seq<char>,
    draft: bool,
    number: u32,
)
    requires
        "http"@.is_prefix_of(url),
        !url.contains('\t'),
        !state.contains('\t'),
        is_pr_of_line(
            r,
            join_seq(
                seq![
                    url,
                    state,
                    if draft {
                        "true"@
                    } else {
                        "false"@
                    },
                    decimal(number as nat),
                ],
                "\t"@,
            ),
        ),
    ensures
        r matches Some(info) && {
            &&& info.url@ == url
            &&& info.number == number
            &&& info.state is Draft <==> draft
            &&& !draft && state == "MERGED"@ ==> info.state is Merged
            &&& !draft && state == "CLOSED"@ ==> info.state is Closed
            &&& !draft && state == "OPEN"@ ==> info.state is Open
        },
{
    reveal_strlit("\t");
    reveal_strlit("true");
    reveal_strlit("false");
    reveal_strlit("OPEN");
    reveal_strlit("MERGED");
    reveal_strlit("CLOSED");
    assert("\t"@ == seq!['\t']);
    assert("true"@.len() == 4 && "false"@.len() == 5);
    assert("OPEN"@.len() == 4 && "MERGED"@.len() == 6 && "CLOSED"@.len() == 6);
    assert("MERGED"@[0] != "CLOSED"@[0]);
    assert(!"true"@.contains('\t') && !"false"@.contains('\t'));
    decimal_lacks(number as nat, '\t');
    decimal_reads_back(number as nat, u32::MAX as nat);
    join_splits_back(
        seq![
            url,
            state,
            if draft {
                "true"@
            } else {
                "false"@
            },
            decimal(number as nat),
        ],
        '\t',
    );
}

/// What a command printed counts only where it succeeded, and the checks of a
/// commit are told as long as one of the two requests for them succeeded and both
/// could be made.
pub proof fn one_answer_is_enough(
    check_runs: Result<CommandOutput, String>,
    statuses: Result<CommandOutput, String>,
)
    ensures
        printed(check_runs) is Some <==> (check_runs matches Ok(output) && output.code == Some(
            0i32,
        )),
        check_runs is Err || statuses is Err ==> commit_checks(check_runs, statuses) is None,
        printed(check_runs) is Some && statuses is Ok ==> commit_checks(check_runs, statuses)
            == branch_ci(printed(check_runs), printed(statuses)),
        printed(statuses) is Some && check_runs is Ok ==> commit_checks(check_runs, statuses)
            == branch_ci(printed(check_runs), printed(statuses)),
{
}

/// Requests for different commits, or for different things of one commit, never go
/// to the same address where the hashes have the same length.
pub proof fn endpoints_differ(a: Seq<char>, b: Seq<char>, what: Seq<char>, other: Seq<char>)
    requires
        a.len() == b.len(),
        commit_endpoint(a, what) == commit_endpoint(b, other),
    ensures
        a == b,
        what == other,
{
    let prefix = "repos/{owner}/{repo}/commits/"@;
    let x = commit_endpoint(a, what);
    let y = commit_endpoint(b, other);
    let n = prefix.len() as int;
    let m = n + a.len();
    assert(x.subrange(n, m) == a);
    assert(y.subrange(n, m) == b);
    assert(x.skip(m) == what);
    assert(y.skip(m) == other);
}

/// The GitHub CLI is asked in the directory of the project and with just what is asked.
pub proof fn projects_are_asked_in_their_directory(
    args: Seq<Seq<char>>,
    dir: Seq<char>,
    lane: Lane,
)
    ensures
        gh_model(args, dir, lane).program == "gh"@,
        gh_model(args, dir, lane).cwd == Some(dir),
        gh_model(args, dir, lane).args == args,
        gh_model(args, dir, lane).lane == lane,
{
}

} // verus!
