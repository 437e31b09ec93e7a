//! The values that describe a repository.

use crate::clock::unix_seconds;
use crate::text::{decimal, decimal_string, starts_with};
use vstd::prelude::*;

verus! {

broadcast use vstd::string::group_string_axioms;

/// Why a git operation was refused or failed.
#[derive(Clone, Debug, PartialEq, Eq)]
pub enum GitError {
    /// A ref that git would read as a flag.
    InvalidRef(String),
    /// A path that is not valid Unicode.
    InvalidPath(String),
    /// git ran and reported failure; the status is -1 where a signal ended it.
    GitExitError { status: i32, stderr: String },
    /// The target of a new worktree is a worktree already.
    WorktreeExists { path: String },
    /// A directory could not be removed.
    RemoveFailed { path: String, reason: String },
    /// git could not be run.
    Io(String),
}

/// A [`GitError`] with its texts as sequences.
pub enum ErrorModel {
    InvalidRef(Seq<char>),
    InvalidPath(Seq<char>),
    GitExitError { status: int, stderr: Seq<char> },
    WorktreeExists { path: Seq<char> },
    RemoveFailed { path: Seq<char>, reason: Seq<char> },
    Io(Seq<char>),
}

impl DeepView for GitError {
    type V = ErrorModel;

    open spec fn deep_view(&self) -> ErrorModel {
        match self {
            GitError::InvalidRef(name) => ErrorModel::InvalidRef(name@),
            GitError::InvalidPath(path) => ErrorModel::InvalidPath(path@),
            GitError::GitExitError { status, stderr } => ErrorModel::GitExitError {
                status: *status as int,
                stderr: stderr@,
            },
            GitError::WorktreeExists { path } => ErrorModel::WorktreeExists { path: path@ },
            GitError::RemoveFailed { path, reason } => ErrorModel::RemoveFailed {
                path: path@,
                reason: reason@,
            },
            GitError::Io(reason) => ErrorModel::Io(reason@),
        }
    }
}

/// Whether git would read a ref as a flag.
pub open spec fn is_flag_like(name: Seq<char>) -> bool {
    "-"@.is_prefix_of(name)
}

/// Checks that a git ref (branch name, commit hash, revision) does not look
/// like a command-line flag.
pub fn validate_git_ref(name: &str) -> (r: Result<&str, GitError>)
    ensures
        is_flag_like(name@) ==> (r matches Err(GitError::InvalidRef(bad)) && bad@ == name@),
        !is_flag_like(name@) ==> (r matches Ok(same) && same@ == name@),
{
    if starts_with(name, "-") {
        Err(GitError::InvalidRef(name.to_owned()))
    } else {
        Ok(name)
    }
}

/// The state of a pull request.
#[derive(Clone, Copy, Debug, PartialEq, Eq, Structural)]
pub enum PrState {
    Open,
    Merged,
    Closed,
    Draft,
}

impl PrState {
    /// The label shown for a state.
    pub fn label(&self) -> (r: &'static str)
        ensures
            r@ == (match self {
                PrState::Open => "Open"@,
                PrState::Draft => "Draft"@,
                PrState::Merged => "Merged"@,
                PrState::Closed => "Closed"@,
            }),
    {
        match self {
            PrState::Open => "Open",
            PrState::Draft => "Draft",
            PrState::Merged => "Merged",
            PrState::Closed => "Closed",
        }
    }
}

/// The outcome of a CI check, or of all of them together.
#[derive(Clone, Copy, Debug, PartialEq, Eq, Structural)]
pub enum CiStatus {
    Success,
    Failure,
    Pending,
}

impl CiStatus {
    /// The icon shown for an outcome.
    pub fn icon(&self) -> (r: &'static str)
        ensures
            r@ == (match self {
                CiStatus::Success => "icons/check.svg"@,
                CiStatus::Failure => "icons/close.svg"@,
                CiStatus::Pending => "icons/refresh.svg"@,
            }),
    {
        match self {
            CiStatus::Success => "icons/check.svg",
            CiStatus::Failure => "icons/close.svg",
            CiStatus::Pending => "icons/refresh.svg",
        }
    }

    /// Whether the outcome is still open.
    pub fn is_pending(&self) -> (r: bool)
        ensures
            r == (self is Pending),
    {
        matches!(self, CiStatus::Pending)
    }
}

/// One CI check.
#[derive(Clone, Debug, PartialEq, Eq)]
pub struct CiCheck {
    pub name: String,
    /// The workflow that the check belongs to, where there is one.
    pub workflow: Option<String>,
    pub status: CiStatus,
    /// A skipped check counts toward none of the totals.
    pub is_skipped: bool,
    pub link: Option<String>,
    pub description: Option<String>,
    /// 0 when unknown or still running.
    pub elapsed_ms: u64,
}

/// A [`CiCheck`] with its strings as sequences.
pub struct CheckModel {
    pub name: Seq<char>,
    pub workflow: Option<Seq<char>>,
    pub status: CiStatus,
    pub is_skipped: bool,
    pub link: Option<Seq<char>>,
    pub description: Option<Seq<char>>,
    pub elapsed_ms: u64,
}

impl DeepView for CiCheck {
    type V = CheckModel;

    open spec fn deep_view(&self) -> CheckModel {
        CheckModel {
            name: self.name@,
            workflow: self.workflow.deep_view(),
            status: self.status,
            is_skipped: self.is_skipped,
            link: self.link.deep_view(),
            description: self.description.deep_view(),
            elapsed_ms: self.elapsed_ms,
        }
    }
}

/// A time span as whole seconds, with minutes from the first full minute on.
pub open spec fn elapsed_text(elapsed_ms: u64) -> Seq<char> {
    let secs = (elapsed_ms / 1000) as nat;
    if elapsed_ms == 0 {
        "\u{2014}"@
    } else if secs < 60 {
        decimal(secs) + "s"@
    } else {
        decimal(secs / 60) + "m"@ + decimal(secs % 60) + "s"@
    }
}

impl CiCheck {
    /// The time that the check took: `42s`, `3m7s`, or a dash when unknown.
    pub fn elapsed_label(&self) -> (r: String)
        ensures
            r@ == elapsed_text(self.elapsed_ms),
    {
        if self.elapsed_ms == 0 {
            return "\u{2014}".to_owned();
        }
        let secs: u64 = self.elapsed_ms / 1000;
        if secs < 60 {
            let mut r: String = decimal_string(secs);
            r.push_str("s");
            r
        } else {
            let mut r: String = decimal_string(secs / 60);
            r.push_str("m");
            r.push_str(decimal_string(secs % 60).as_str());
            r.push_str("s");
            r
        }
    }
}

/// All CI checks of a commit or a pull request.
#[derive(Clone, Debug, PartialEq, Eq)]
pub struct CiCheckSummary {
    pub status: CiStatus,
    pub passed: usize,
    pub failed: usize,
    pub pending: usize,
    pub total: usize,
    pub checks: Vec<CiCheck>,
}

/// A [`CiCheckSummary`] with its checks as a sequence.
pub struct SummaryModel {
    pub status: CiStatus,
    pub passed: nat,
    pub failed: nat,
    pub pending: nat,
    pub total: nat,
    pub checks: Seq<CheckModel>,
}

impl DeepView for CiCheckSummary {
    type V = SummaryModel;

    open spec fn deep_view(&self) -> SummaryModel {
        SummaryModel {
            status: self.status,
            passed: self.passed as nat,
            failed: self.failed as nat,
            pending: self.pending as nat,
            total: self.total as nat,
            checks: self.checks.deep_view(),
        }
    }
}

/// `first` of one kind and `passed` passed, out of `total` checks.
pub open spec fn count_text(
    first: nat,
    kind: Seq<char>,
    passed: nat,
    total: nat,
) -> Seq<char> {
    decimal(first) + kind + decimal(passed) + " passed of "@ + decimal(total) + " checks"@
}

/// The tooltip of a summary.
pub open spec fn tooltip(summary: SummaryModel) -> Seq<char> {
    match summary.status {
        CiStatus::Success => decimal(summary.passed) + "/"@ + decimal(summary.total)
            + " checks passed"@,
        CiStatus::Failure => count_text(
            summary.failed,
            " failed, "@,
            summary.passed,
            summary.total,
        ),
        CiStatus::Pending => count_text(
            summary.pending,
            " pending, "@,
            summary.passed,
            summary.total,
        ),
    }
}

fn count_string(first: usize, kind: &str, passed: usize, total: usize) -> (r: String)
    ensures
        r@ == count_text(first as nat, kind@, passed as nat, total as nat),
{
    let mut r: String = decimal_string(first as u64);
    r.push_str(kind);
    r.push_str(decimal_string(passed as u64).as_str());
    r.push_str(" passed of ");
    r.push_str(decimal_string(total as u64).as_str());
    r.push_str(" checks");
    r
}

impl CiCheckSummary {
    /// The tooltip: how many checks passed, and how many failed or are pending.
    pub fn tooltip_text(&self) -> (r: String)
        ensures
            r@ == tooltip(self.deep_view()),
    {
        match self.status {
            CiStatus::Success => {
                let mut r: String = decimal_string(self.passed as u64);
                r.push_str("/");
                r.push_str(decimal_string(self.total as u64).as_str());
                r.push_str(" checks passed");
                r
            },
            CiStatus::Failure => count_string(self.failed, " failed, ", self.passed, self.total),
            CiStatus::Pending => count_string(self.pending, " pending, ", self.passed, self.total),
        }
    }
}

/// A pull request.
#[derive(Clone, Debug, PartialEq, Eq)]
pub struct PrInfo {
    pub url: String,
    pub state: PrState,
    pub number: u32,
}

/// The status of a working directory.
#[derive(Clone, Debug, PartialEq, Eq)]
pub struct GitStatus {
    /// The branch name, or a short hash where HEAD is detached.
    pub branch: Option<String>,
    pub lines_added: usize,
    pub lines_removed: usize,
    pub pr_info: Option<PrInfo>,
    pub ci_checks: Option<CiCheckSummary>,
    /// Commits ahead of the upstream; `None` without one.
    pub ahead: Option<usize>,
    /// Commits behind the upstream; `None` without one.
    pub behind: Option<usize>,
    /// Commits missing from `origin/<branch>`; `None` where there is no such ref.
    pub unpushed: Option<usize>,
}

impl GitStatus {
    /// Whether any line was added or removed.
    pub fn has_changes(&self) -> (r: bool)
        ensures
            r == (self.lines_added + self.lines_removed > 0),
    {
        self.lines_added > 0 || self.lines_removed > 0
    }
}

/// The added and removed lines of one file.
#[derive(Clone, Debug, PartialEq, Eq)]
pub struct FileDiffSummary {
    /// Relative to the root of the repository.
    pub path: String,
    pub added: usize,
    pub removed: usize,
    /// Whether the file is untracked.
    pub is_new: bool,
}

/// One commit of the log.
#[derive(Clone, Debug, PartialEq, Eq)]
pub struct CommitLogEntry {
    /// The first seven characters of the hash.
    pub hash: String,
    /// The short hashes of the parents, the first parent first.
    pub parents: Vec<String>,
    /// The first line of the message.
    pub message: String,
    pub author: String,
    /// Seconds since the epoch.
    pub timestamp: i64,
    /// Decorations such as `HEAD -> main`, `origin/main`, `tag: v1.0`.
    pub refs: Vec<String>,
}

/// How long ago `timestamp` was at `now`, in the largest unit that fits.
pub open spec fn relative_time(now: int, timestamp: int) -> Seq<char> {
    let diff: nat = if now > timestamp {
        (now - timestamp) as nat
    } else {
        0
    };
    if diff < 60 {
        "just now"@
    } else if diff < 3600 {
        decimal(diff / 60) + "m ago"@
    } else if diff < 86400 {
        decimal(diff / 3600) + "h ago"@
    } else if diff < 604800 {
        decimal(diff / 86400) + "d ago"@
    } else {
        decimal(diff / 604800) + "w ago"@
    }
}

/// How long ago `timestamp` was at `now`, both in seconds since the epoch.
pub fn relative_time_at(now: i64, timestamp: i64) -> (r: String)
    ensures
        r@ == relative_time(now as int, timestamp as int),
{
    let diff: u64 = if now > timestamp {
        (now as i128 - timestamp as i128) as u64
    } else {
        0
    };
    if diff < 60 {
        return "just now".to_owned();
    }
    let (count, unit): (u64, &str) = if diff < 3600 {
        (diff / 60, "m ago")
    } else if diff < 86400 {
        (diff / 3600, "h ago")
    } else if diff < 604800 {
        (diff / 86400, "d ago")
    } else {
        (diff / 604800, "w ago")
    };
    let mut r: String = decimal_string(count);
    r.push_str(unit);
    r
}

/// How long ago a time was, by the clock, which is never before the epoch.
pub fn format_relative_time(timestamp: i64) -> (r: String)
    ensures
        exists|now: i64|
            now >= 0 && r@ == #[trigger] relative_time(now as int, timestamp as int),
{
    let now: i64 = unix_seconds();
    relative_time_at(now, timestamp)
}

// ---------------------------------------------------------------------------
// Laws
// ---------------------------------------------------------------------------

/// How long ago something was goes by the time between and nothing else, and what is
/// still to come counts as now.
pub proof fn ages_go_by_the_time_between(now: int, timestamp: int, shift: int)
    ensures
        relative_time(now + shift, timestamp + shift) == relative_time(now, timestamp),
        now <= timestamp ==> relative_time(now, timestamp) == "just now"@,
{
}

/// An age is told in the largest unit that it fills: minutes up to an hour, hours up
/// to a day, days up to a week, weeks from then on.
pub proof fn ages_are_told_in_their_unit(timestamp: int, n: nat, rest: nat)
    ensures
        rest < 60 ==> relative_time(timestamp + rest, timestamp) == "just now"@,
        1 <= n < 60 && rest < 60 ==> relative_time(timestamp + 60 * n + rest, timestamp) == decimal(
            n,
        ) + "m ago"@,
        1 <= n < 24 && rest < 3600 ==> relative_time(timestamp + 3600 * n + rest, timestamp)
            == decimal(n) + "h ago"@,
        1 <= n < 7 && rest < 86400 ==> relative_time(timestamp + 86400 * n + rest, timestamp)
            == decimal(n) + "d ago"@,
        1 <= n && rest < 604800 ==> relative_time(timestamp + 604800 * n + rest, timestamp)
            == decimal(n) + "w ago"@,
{
    assert(rest < 60 ==> (60 * n + rest) / 60 == n) by (nonlinear_arith);
    assert(rest < 3600 ==> (3600 * n + rest) / 3600 == n) by (nonlinear_arith);
    assert(rest < 86400 ==> (86400 * n + rest) / 86400 == n) by (nonlinear_arith);
    assert(rest < 604800 ==> (604800 * n + rest) / 604800 == n) by (nonlinear_arith);
}

/// A check says how many minutes and seconds it took.
pub proof fn spans_are_told(minutes: nat, seconds: nat, ms: u64)
    requires
        seconds < 60,
        ms as nat == 1000 * (60 * minutes + seconds),
        ms > 0,
    ensures
        minutes == 0 ==> elapsed_text(ms) == decimal(seconds) + "s"@,
        minutes > 0 ==> elapsed_text(ms) == decimal(minutes) + "m"@ + decimal(seconds) + "s"@,
{
    let secs = 60 * minutes + seconds;
    assert(ms / 1000 == secs);
    assert(secs / 60 == minutes && secs % 60 == seconds) by (nonlinear_arith)
        requires
            secs == 60 * minutes + seconds,
            seconds < 60,
    ;
}

/// The text of a summary begins with the number that its outcome is about: of the
/// failed checks, of the pending ones, or of those that passed.
pub proof fn summaries_tell_their_outcome(summary: SummaryModel)
    ensures
        summary.status is Failure ==> (decimal(summary.failed) + " failed, "@
            + decimal(summary.passed)).is_prefix_of(tooltip(summary)),
        summary.status is Pending ==> (decimal(summary.pending) + " pending, "@
            + decimal(summary.passed)).is_prefix_of(tooltip(summary)),
        summary.status is Success ==> (decimal(summary.passed) + "/"@ + decimal(
            summary.total,
        )).is_prefix_of(tooltip(summary)),
{
    let text = tooltip(summary);
    match summary.status {
        CiStatus::Failure => {
            assert((decimal(summary.failed) + " failed, "@ + decimal(summary.passed)).is_prefix_of(
                text,
            ));
        },
        CiStatus::Pending => {
            assert((decimal(summary.pending) + " pending, "@ + decimal(
                summary.passed,
            )).is_prefix_of(text));
        },
        CiStatus::Success => {
            assert((decimal(summary.passed) + "/"@ + decimal(summary.total)).is_prefix_of(text));
        },
    }
}

/// A name is taken for a flag just where it begins with a hyphen.
pub proof fn hyphens_make_flags(name: Seq<char>)
    ensures
        is_flag_like(name) <==> name.len() > 0 && name[0] == '-',
{
    reveal_strlit("-");
    assert("-"@.len() == 1 && "-"@[0] == '-');
    if name.len() > 0 && name[0] == '-' {
        assert(name.subrange(0, 1) =~= "-"@);
    }
    if is_flag_like(name) {
        assert(name.subrange(0, 1)[0] == "-"@[0]);
    }
}

/// The text of a summary that is not all passed ends with how many checks there are.
pub proof fn summaries_tell_the_total(summary: SummaryModel)
    requires
        !(summary.status is Success),
    ensures
        (decimal(summary.passed) + " passed of "@ + decimal(summary.total)
            + " checks"@).is_suffix_of(tooltip(summary)),
{
    let end = decimal(summary.passed) + " passed of "@ + decimal(summary.total) + " checks"@;
    let text = tooltip(summary);
    if summary.status is Failure {
        assert(text =~= decimal(summary.failed) + " failed, "@ + end);
    } else {
        assert(text =~= decimal(summary.pending) + " pending, "@ + end);
    }
    assert(text.skip(text.len() - end.len()) =~= end);
}

} // verus!
