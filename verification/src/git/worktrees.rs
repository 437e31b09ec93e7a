//! Creating, removing and listing worktrees.

use crate::git::commands::{git_model, is_refusal, settle};
use crate::git::types::{is_flag_like, validate_git_ref, ErrorModel, GitError};
use crate::path::{normalize_path, normalize_seq};
use crate::process::command::{CommandModel, CommandOutput, CommandSpec, Lane, ThreadLane};
use crate::text::{
    concat, lines, lines_seq, same, strip_prefix, strip_prefix_seq, text_lossy, trim_seq,
    utf8_lossy,
};
use vstd::prelude::*;

verus! {

broadcast use vstd::string::group_string_axioms;

// ---------------------------------------------------------------------------
// Creating a worktree
// ---------------------------------------------------------------------------

/// What is waited for.
#[derive(Clone, Copy, Debug, PartialEq, Eq, Structural)]
pub enum Phase {
    /// The list of worktrees.
    Listing,
    /// The removal of a stale directory.
    Removing,
    /// The removal of stale entries.
    Pruning,
    /// The fetch of the default branch.
    Fetching,
    /// The new worktree.
    Adding,
    /// Nothing.
    Finished,
}

/// What is to be done next.
#[derive(Debug, PartialEq, Eq)]
pub enum Step {
    /// Run a command.
    Run(CommandSpec),
    /// Remove a directory with all that is in it.
    RemoveDir(String),
    /// Nothing: this is the outcome.
    Done(Result<(), GitError>),
}

/// A [`Step`] with its texts as sequences.
pub enum StepModel {
    Run(CommandModel),
    RemoveDir(Seq<char>),
    Done(Result<(), ErrorModel>),
}

impl DeepView for Step {
    type V = StepModel;

    open spec fn deep_view(&self) -> StepModel {
        match self {
            Step::Run(command) => StepModel::Run(command.deep_view()),
            Step::RemoveDir(path) => StepModel::RemoveDir(path@),
            Step::Done(Ok(_)) => StepModel::Done(Ok(())),
            Step::Done(Err(error)) => StepModel::Done(Err(error.deep_view())),
        }
    }
}

/// What came of a step.
#[derive(Debug, PartialEq, Eq)]
pub enum Event {
    /// A command was run, or could not be.
    Ran(Result<CommandOutput, String>),
    /// A directory was removed, or could not be.
    Removed(Result<(), String>),
}

/// A worktree that is being created.
#[derive(Clone, Debug, PartialEq, Eq)]
pub struct WorktreeCreation {
    pub repo: String,
    pub target: String,
    /// The fetch that comes first, where one does.
    pub fetch: Option<CommandSpec>,
    /// The command that adds the worktree.
    pub add: CommandSpec,
    pub thread: ThreadLane,
    pub phase: Phase,
}

/// A [`WorktreeCreation`] with its texts as sequences.
pub struct CreationModel {
    pub repo: Seq<char>,
    pub target: Seq<char>,
    pub fetch: Option<CommandModel>,
    pub add: CommandModel,
    pub lane: Lane,
    pub phase: Phase,
}

impl DeepView for WorktreeCreation {
    type V = CreationModel;

    open spec fn deep_view(&self) -> CreationModel {
        CreationModel {
            repo: self.repo@,
            target: self.target@,
            fetch: self.fetch.deep_view(),
            add: self.add.deep_view(),
            lane: self.thread.lane,
            phase: self.phase,
        }
    }
}

/// Whether a line of the list of worktrees names a directory.
pub open spec fn line_names(line: Seq<char>, target: Seq<char>) -> bool {
    strip_prefix_seq(line, "worktree "@) matches Some(path) && normalize_seq(path)
        == normalize_seq(target)
}

/// Whether the list of worktrees names a directory.
pub open spec fn is_listed(listing: Seq<char>, target: Seq<char>) -> bool {
    exists|i: int|
        0 <= i < lines_seq(listing).len() && line_names(#[trigger] lines_seq(listing)[i], target)
}

/// Whether the list of worktrees names a directory.
pub fn lists_worktree(listing: &str, target: &str) -> (r: bool)
    ensures
        r == is_listed(listing@, target@),
{
    let wanted: String = normalize_path(target);
    let all: Vec<String> = lines(listing);
    let ghost model = lines_seq(listing@);
    let mut i: usize = 0;
    while i < all.len()
        invariant
            i <= all@.len(),
            model == lines_seq(listing@),
            all.deep_view() == model,
            wanted@ == normalize_seq(target@),
            forall|j: int| 0 <= j < i ==> !line_names(#[trigger] model[j], target@),
        decreases all@.len() - i,
    {
        assert(all.deep_view()[i as int] == all@[i as int]@);
        if let Some(path) = strip_prefix(all[i].as_str(), "worktree ") {
            if same(normalize_path(path.as_str()).as_str(), wanted.as_str()) {
                assert(line_names(model[i as int], target@));
                return true;
            }
        }
        i = i + 1;
    }
    false
}

/// The command that lists the worktrees.
pub open spec fn list_model(repo: Seq<char>, lane: Lane) -> CommandModel {
    git_model(seq!["-C"@, repo, "worktree"@, "list"@, "--porcelain"@], lane)
}

/// The command that removes stale entries.
pub open spec fn prune_model(repo: Seq<char>, lane: Lane) -> CommandModel {
    git_model(seq!["-C"@, repo, "worktree"@, "prune"@], lane)
}

fn prune_command(repo: &str, thread: &ThreadLane) -> (r: CommandSpec)
    ensures
        r.deep_view() == prune_model(repo@, thread.lane),
{
    let r: CommandSpec = CommandSpec::new("git", thread).arg("-C").arg(repo).arg("worktree").arg(
        "prune",
    );
    assert(r.deep_view().args == seq!["-C"@, repo@, "worktree"@, "prune"@]);
    r
}

/// What a command means, with its texts as sequences.
pub open spec fn settled_model(run: Result<CommandOutput, String>) -> Result<(), ErrorModel> {
    match run {
        Err(reason) => Err(ErrorModel::Io(reason@)),
        Ok(output) => if output.code == Some(0i32) {
            Ok(())
        } else {
            Err(
                ErrorModel::GitExitError {
                    status: match output.code {
                        Some(code) => code as int,
                        None => -1,
                    },
                    stderr: trim_seq(utf8_lossy(output.stderr@)),
                },
            )
        },
    }
}

/// The fetch, or where there is none the new worktree itself.
pub open spec fn fetch_or_add(creation: CreationModel) -> (Phase, StepModel) {
    match creation.fetch {
        Some(command) => (Phase::Fetching, StepModel::Run(command)),
        None => (Phase::Adding, StepModel::Run(creation.add)),
    }
}

/// The first step. A target that exists already may be a worktree or a stale
/// directory.
pub open spec fn first_step(creation: CreationModel, target_exists: bool) -> (Phase, StepModel) {
    if target_exists {
        (Phase::Listing, StepModel::Run(list_model(creation.repo, creation.lane)))
    } else {
        fetch_or_add(creation)
    }
}

/// The step that follows an event.
pub open spec fn following_step(creation: CreationModel, event: Event) -> (Phase, StepModel) {
    match (creation.phase, event) {
        (Phase::Listing, Event::Ran(Err(reason))) => (
            Phase::Finished,
            StepModel::Done(Err(ErrorModel::Io(reason@))),
        ),
        (Phase::Listing, Event::Ran(Ok(output))) => if output.code == Some(0i32) && is_listed(
            utf8_lossy(output.stdout@),
            creation.target,
        ) {
            (
                Phase::Finished,
                StepModel::Done(Err(ErrorModel::WorktreeExists { path: creation.target })),
            )
        } else {
            (Phase::Removing, StepModel::RemoveDir(creation.target))
        },
        (Phase::Removing, Event::Removed(Err(reason))) => (
            Phase::Finished,
            StepModel::Done(
                Err(ErrorModel::RemoveFailed { path: creation.target, reason: reason@ }),
            ),
        ),
        (Phase::Removing, Event::Removed(Ok(_))) => (
            Phase::Pruning,
            StepModel::Run(prune_model(creation.repo, creation.lane)),
        ),
        (Phase::Pruning, Event::Ran(_)) => fetch_or_add(creation),
        (Phase::Fetching, Event::Ran(_)) => (Phase::Adding, StepModel::Run(creation.add)),
        (Phase::Adding, Event::Ran(run)) => (
            Phase::Finished,
            StepModel::Done(settled_model(run)),
        ),
        _ => (creation.phase, StepModel::Done(Ok(()))),
    }
}

/// Whether an event is one that is waited for.
pub open spec fn fits(phase: Phase, event: Event) -> bool {
    match phase {
        Phase::Removing => event is Removed,
        Phase::Finished => false,
        _ => event is Ran,
    }
}

impl WorktreeCreation {
    fn fetch_or_add(&mut self) -> (r: Step)
        ensures
            (final(self).phase, r.deep_view()) == fetch_or_add(old(self).deep_view()),
            *final(self) == (WorktreeCreation { phase: final(self).phase, ..*old(self) }),
    {
        match copy_command(&self.fetch) {
            Some(command) => {
                self.phase = Phase::Fetching;
                Step::Run(command)
            },
            None => {
                self.phase = Phase::Adding;
                Step::Run(self.add.copy())
            },
        }
    }

    fn begin(&mut self, target_exists: bool) -> (r: Step)
        ensures
            (final(self).phase, r.deep_view()) == first_step(old(self).deep_view(), target_exists),
            *final(self) == (WorktreeCreation { phase: final(self).phase, ..*old(self) }),
    {
        if target_exists {
            self.phase = Phase::Listing;
            let command: CommandSpec = CommandSpec::new("git", &self.thread).arg("-C").arg(
                self.repo.as_str(),
            ).arg("worktree").arg("list").arg("--porcelain");
            assert(command.deep_view().args == seq![
                "-C"@,
                self.repo@,
                "worktree"@,
                "list"@,
                "--porcelain"@,
            ]);
            Step::Run(command)
        } else {
            self.fetch_or_add()
        }
    }

    /// Takes what came of the last step, and hands out the next.
    pub fn next(&mut self, event: Event) -> (r: Step)
        requires
            fits(old(self).phase, event),
        ensures
            (final(self).phase, r.deep_view()) == following_step(old(self).deep_view(), event),
            *final(self) == (WorktreeCreation { phase: final(self).phase, ..*old(self) }),
    {
        match event {
            Event::Ran(run) => match self.phase {
                Phase::Listing => match run {
                    Err(reason) => {
                        self.phase = Phase::Finished;
                        Step::Done(Err(GitError::Io(reason)))
                    },
                    Ok(output) => {
                        if output.success() && lists_worktree(
                            text_lossy(&output.stdout).as_str(),
                            self.target.as_str(),
                        ) {
                            self.phase = Phase::Finished;
                            Step::Done(Err(GitError::WorktreeExists { path: self.target.clone() }))
                        } else {
                            self.phase = Phase::Removing;
                            Step::RemoveDir(self.target.clone())
                        }
                    },
                },
                Phase::Pruning => self.fetch_or_add(),
                Phase::Fetching => {
                    self.phase = Phase::Adding;
                    Step::Run(self.add.copy())
                },
                _ => {
                    self.phase = Phase::Finished;
                    Step::Done(settle(run))
                },
            },
            Event::Removed(Ok(_)) => {
                self.phase = Phase::Pruning;
                Step::Run(prune_command(self.repo.as_str(), &self.thread))
            },
            Event::Removed(Err(reason)) => {
                self.phase = Phase::Finished;
                Step::Done(Err(GitError::RemoveFailed { path: self.target.clone(), reason }))
            },
        }
    }
}

fn copy_command(command: &Option<CommandSpec>) -> (r: Option<CommandSpec>)
    ensures
        r.deep_view() == command.deep_view(),
{
    match command {
        Some(command) => Some(command.copy()),
        None => None,
    }
}

/// The command that adds a worktree.
pub open spec fn add_model(repo: Seq<char>, rest: Seq<Seq<char>>, lane: Lane) -> CommandModel {
    git_model(seq!["-C"@, repo, "worktree"@, "add"@] + rest, lane)
}

fn add_command(repo: &str, thread: &ThreadLane) -> (r: CommandSpec)
    ensures
        r.deep_view() == add_model(repo@, seq![], thread.lane),
{
    let r: CommandSpec = CommandSpec::new("git", thread).arg("-C").arg(repo).arg("worktree").arg(
        "add",
    );
    assert(r.deep_view().args == seq!["-C"@, repo@, "worktree"@, "add"@] + seq![]);
    r
}

/// The creation of a worktree for a branch. A new branch begins at the remote's
/// default branch, which is fetched first, or where there is none at HEAD.
pub open spec fn creation_model(
    repo: Seq<char>,
    branch: Seq<char>,
    target: Seq<char>,
    create_branch: bool,
    default_branch: Option<Seq<char>>,
    lane: Lane,
    phase: Phase,
) -> CreationModel {
    CreationModel {
        repo,
        target,
        fetch: match default_branch {
            Some(default) if create_branch => Some(
                git_model(seq!["-C"@, repo, "fetch"@, "origin"@, default], lane),
            ),
            _ => None,
        },
        add: add_model(
            repo,
            if create_branch {
                seq!["-b"@, branch, target] + match default_branch {
                    Some(default) => seq!["origin/"@ + default],
                    None => seq![],
                }
            } else {
                seq![target, branch]
            },
            lane,
        ),
        lane,
        phase,
    }
}

/// Begins to create a worktree. `target_exists` says whether something lies at
/// the target, and `default_branch` is the remote's default branch.
pub fn create_worktree(
    repo_path: &str,
    branch: &str,
    target_path: &str,
    create_branch: bool,
    target_exists: bool,
    default_branch: Option<&str>,
    thread: &ThreadLane,
) -> (r: Result<(WorktreeCreation, Step), GitError>)
    ensures
        is_flag_like(branch@) ==> is_refusal(r, branch@),
        !is_flag_like(branch@) ==> {
            &&& r matches Ok((creation, step))
            &&& creation.deep_view() == creation_model(
                repo_path@,
                branch@,
                target_path@,
                create_branch,
                default_branch.deep_view(),
                thread.lane,
                creation.phase,
            )
            &&& (creation.phase, step.deep_view()) == first_step(
                creation.deep_view(),
                target_exists,
            )
        },
{
    if let Err(error) = validate_git_ref(branch) {
        return Err(error);
    }
    let base: CommandSpec = add_command(repo_path, thread);
    let mut fetch: Option<CommandSpec> = None;
    let add: CommandSpec;
    if create_branch {
        let named: CommandSpec = base.arg("-b").arg(branch).arg(target_path);
        match default_branch {
            Some(default) => {
                let command: CommandSpec = CommandSpec::new("git", thread).arg("-C").arg(
                    repo_path,
                ).arg("fetch").arg("origin").arg(default);
                assert(command.deep_view().args == seq![
                    "-C"@,
                    repo_path@,
                    "fetch"@,
                    "origin"@,
                    default@,
                ]);
                fetch = Some(command);
                add = named.arg(concat("origin/", default).as_str());
            },
            None => {
                add = named;
            },
        }
    } else {
        add = base.arg(target_path).arg(branch);
    }
    let mut creation: WorktreeCreation = WorktreeCreation {
        repo: repo_path.to_owned(),
        target: target_path.to_owned(),
        fetch,
        add,
        thread: *thread,
        phase: Phase::Finished,
    };
    assert(creation.add.deep_view().args == creation_model(
        repo_path@,
        branch@,
        target_path@,
        create_branch,
        default_branch.deep_view(),
        thread.lane,
        Phase::Finished,
    ).add.args);
    let step: Step = creation.begin(target_exists);
    Ok((creation, step))
}

/// The creation of a worktree for a new branch that begins at a branch of
/// origin, or at HEAD.
pub open spec fn creation_at_model(
    repo: Seq<char>,
    branch: Seq<char>,
    target: Seq<char>,
    start: Option<Seq<char>>,
    lane: Lane,
    phase: Phase,
) -> CreationModel {
    CreationModel {
        repo,
        target,
        fetch: None,
        add: add_model(
            repo,
            seq!["-b"@, branch, target] + match start {
                Some(start) => seq!["origin/"@ + start],
                None => seq![],
            },
            lane,
        ),
        lane,
        phase,
    }
}

/// Begins to create a worktree for a new branch, at a branch of origin that was
/// fetched before, or at HEAD.
pub fn create_worktree_with_start_point(
    repo_path: &str,
    branch: &str,
    target_path: &str,
    start_branch: Option<&str>,
    target_exists: bool,
    thread: &ThreadLane,
) -> (r: Result<(WorktreeCreation, Step), GitError>)
    ensures
        is_flag_like(branch@) ==> is_refusal(r, branch@),
        !is_flag_like(branch@) && (start_branch.deep_view() matches Some(start) && is_flag_like(
            start,
        )) ==> is_refusal(r, start_branch.deep_view()->0),
        !is_flag_like(branch@) && !(start_branch.deep_view() matches Some(start) && is_flag_like(
            start,
        )) ==> {
            &&& r matches Ok((creation, step))
            &&& creation.deep_view() == creation_at_model(
                repo_path@,
                branch@,
                target_path@,
                start_branch.deep_view(),
                thread.lane,
                creation.phase,
            )
            &&& (creation.phase, step.deep_view()) == first_step(
                creation.deep_view(),
                target_exists,
            )
            &&& creation.fetch is None
            &&& start_branch.deep_view() matches Some(start) ==> creation.add.deep_view().args.last()
                == "origin/"@ + start
        },
{
    if let Err(error) = validate_git_ref(branch) {
        return Err(error);
    }
    if let Some(start) = start_branch {
        if let Err(error) = validate_git_ref(start) {
            return Err(error);
        }
    }
    let named: CommandSpec = add_command(repo_path, thread).arg("-b").arg(branch).arg(target_path);
    let add: CommandSpec = match start_branch {
        Some(start) => named.arg(concat("origin/", start).as_str()),
        None => named,
    };
    let mut creation: WorktreeCreation = WorktreeCreation {
        repo: repo_path.to_owned(),
        target: target_path.to_owned(),
        fetch: None,
        add,
        thread: *thread,
        phase: Phase::Finished,
    };
    assert(creation.add.deep_view().args == creation_at_model(
        repo_path@,
        branch@,
        target_path@,
        start_branch.deep_view(),
        thread.lane,
        Phase::Finished,
    ).add.args);
    let step: Step = creation.begin(target_exists);
    Ok((creation, step))
}

// ---------------------------------------------------------------------------
// Removing a worktree
// ---------------------------------------------------------------------------

/// The command that removes a worktree, with `force` even a changed one.
pub fn remove_worktree(worktree_path: &str, force: bool, thread: &ThreadLane) -> (r: CommandSpec)
    ensures
        r.deep_view() == git_model(
            seq!["-C"@, worktree_path@, "worktree"@, "remove"@] + (if force {
                seq!["--force"@, worktree_path@]
            } else {
                seq![worktree_path@]
            }),
            thread.lane,
        ),
{
    let base: CommandSpec = CommandSpec::new("git", thread).arg("-C").arg(worktree_path).arg(
        "worktree",
    ).arg("remove");
    let r: CommandSpec = if force {
        base.arg("--force").arg(worktree_path)
    } else {
        base.arg(worktree_path)
    };
    assert(r.deep_view().args == seq!["-C"@, worktree_path@, "worktree"@, "remove"@] + (if force {
        seq!["--force"@, worktree_path@]
    } else {
        seq![worktree_path@]
    }));
    r
}

/// What came of removing a directory.
#[derive(Clone, Debug, PartialEq, Eq)]
pub enum Removal {
    Removed,
    /// There was no such directory.
    NotFound,
    Failed(String),
}

/// What follows the removal of a worktree's directory: the command that removes
/// the entry of it. A directory that was gone already is no failure.
pub fn remove_worktree_fast(
    worktree_path: &str,
    main_repo_path: &str,
    removal: Removal,
    thread: &ThreadLane,
) -> (r: Result<CommandSpec, GitError>)
    ensures
        match removal {
            Removal::Failed(reason) => {
                &&& r matches Err(error)
                &&& error.deep_view() == (ErrorModel::RemoveFailed {
                    path: worktree_path@,
                    reason: reason@,
                })
            },
            _ => r matches Ok(command) && command.deep_view() == prune_model(
                main_repo_path@,
                thread.lane,
            ),
        },
{
    match removal {
        Removal::Failed(reason) => Err(
            GitError::RemoveFailed { path: worktree_path.to_owned(), reason },
        ),
        _ => Ok(prune_command(main_repo_path, thread)),
    }
}

/// What the removal of stale entries means: only that it could not be run is an
/// error.
pub fn after_prune(run: Result<CommandOutput, String>) -> (r: Result<(), GitError>)
    ensures
        match run {
            Ok(_) => r is Ok,
            Err(reason) => r matches Err(GitError::Io(text)) && text@ == reason@,
        },
{
    match run {
        Ok(_) => Ok(()),
        Err(reason) => Err(GitError::Io(reason)),
    }
}

// ---------------------------------------------------------------------------
// Listing worktrees
// ---------------------------------------------------------------------------

/// A worktree as it was read: its directory and its branch, where it has them.
#[derive(Clone, Debug, PartialEq, Eq)]
pub struct WorktreeHead {
    pub path: Option<String>,
    /// `None` where HEAD is detached.
    pub branch: Option<String>,
}

/// The worktrees that have a directory and a branch.
pub open spec fn listed(heads: Seq<WorktreeHead>) -> Seq<(Seq<char>, Seq<char>)>
    decreases heads.len(),
{
    if heads.len() == 0 {
        Seq::empty()
    } else {
        let before = listed(heads.drop_last());
        match (heads.last().path, heads.last().branch) {
            (Some(path), Some(branch)) => before.push((path@, branch@)),
            _ => before,
        }
    }
}

/// The directories and branches of all worktrees, the main one first. Those with
/// a detached HEAD are left out.
pub fn list_git_worktrees(heads: &Vec<WorktreeHead>) -> (r: Vec<(String, String)>)
    ensures
        r.deep_view() == listed(heads@),
{
    let mut r: Vec<(String, String)> = Vec::new();
    let mut i: usize = 0;
    assert(r.deep_view() == listed(heads@.take(0)));
    while i < heads.len()
        invariant
            i <= heads@.len(),
            r.deep_view() == listed(heads@.take(i as int)),
        decreases heads@.len() - i,
    {
        assert(heads@.take(i + 1).drop_last() == heads@.take(i as int));
        let ghost before = r.deep_view();
        let head: &WorktreeHead = &heads[i];
        match (&head.path, &head.branch) {
            (Some(path), Some(branch)) => {
                r.push((path.clone(), branch.clone()));
                assert(r.deep_view() == before.push((path@, branch@)));
            },
            _ => {},
        }
        i = i + 1;
    }
    assert(heads@.take(heads@.len() as int) == heads@);
    r
}

/// The branches that are checked out somewhere.
pub fn get_worktree_branches(heads: &Vec<WorktreeHead>) -> (r: Vec<String>)
    ensures
        r.deep_view() == listed(heads@).map_values(|entry: (Seq<char>, Seq<char>)| entry.1),
{
    let all: Vec<(String, String)> = list_git_worktrees(heads);
    let ghost model = listed(heads@);
    let mut r: Vec<String> = Vec::new();
    let mut i: usize = 0;
    while i < all.len()
        invariant
            i <= all@.len(),
            all.deep_view() == model,
            r@.len() == i,
            forall|j: int| 0 <= j < i ==> (#[trigger] r@[j])@ == model[j].1,
        decreases all@.len() - i,
    {
        assert(all.deep_view()[i as int].1 == all@[i as int].1@);
        r.push(all[i].1.clone());
        i = i + 1;
    }
    assert(r.deep_view() == model.map_values(|entry: (Seq<char>, Seq<char>)| entry.1));
    r
}

// ---------------------------------------------------------------------------
// Laws
// ---------------------------------------------------------------------------

/// A directory is removed only where git was asked for the worktrees and, if it
/// answered, did not name the directory; and it is the target that is removed.
pub proof fn worktrees_are_never_removed(creation: CreationModel, event: Event, path: Seq<char>)
    requires
        following_step(creation, event).1 == StepModel::RemoveDir(path),
    ensures
        path == creation.target,
        creation.phase is Listing,
        event matches Event::Ran(Ok(output)) && (output.code == Some(0i32) ==> !is_listed(
            utf8_lossy(output.stdout@),
            creation.target,
        )),
{
}

/// How many steps may still follow.
pub open spec fn steps_left(phase: Phase) -> nat {
    match phase {
        Phase::Listing => 5,
        Phase::Removing => 4,
        Phase::Pruning => 3,
        Phase::Fetching => 2,
        Phase::Adding => 1,
        Phase::Finished => 0,
    }
}

/// Every creation ends: each event leads closer to the outcome, and there is an
/// outcome just where nothing is waited for.
pub proof fn creation_ends(creation: CreationModel, event: Event)
    requires
        fits(creation.phase, event),
    ensures
        ({
            let (phase, step) = following_step(creation, event);
            &&& steps_left(phase) < steps_left(creation.phase)
            &&& (step is Done <==> phase is Finished)
        }),
{
}

/// A worktree begins where it was told to: the command that adds it ends with the
/// start branch as the remote has it, after the new branch and the directory, and
/// two different start branches never give the same command.
pub proof fn start_point_is_obeyed(
    repo: Seq<char>,
    branch: Seq<char>,
    target: Seq<char>,
    start: Seq<char>,
    other: Option<Seq<char>>,
    lane: Lane,
    phase: Phase,
)
    ensures
        ({
            let args = creation_at_model(repo, branch, target, Some(start), lane, phase).add.args;
            &&& args.last() == "origin/"@ + start
            &&& args.drop_last().last() == target
            &&& args.drop_last().drop_last().last() == branch
            &&& other != Some(start) ==> creation_at_model(
                repo,
                branch,
                target,
                other,
                lane,
                phase,
            ).add.args != args
        }),
{
    let args = creation_at_model(repo, branch, target, Some(start), lane, phase).add.args;
    assert(args.len() == 8);
    let others = creation_at_model(repo, branch, target, other, lane, phase).add.args;
    if others == args {
        assert(others.len() == 8);
        assert(others[7] == args[7]);
        let prefix = "origin/"@;
        assert((prefix + start).skip(prefix.len() as int) == start);
        assert((prefix + other->0).skip(prefix.len() as int) == other->0);
    }
}

/// A new branch begins at the default branch as the remote has it, which is fetched
/// before; where the default branch is unknown nothing is fetched and no start is
/// named. An existing branch is checked out as it is.
pub proof fn new_branches_begin_at_the_default_branch(
    repo: Seq<char>,
    branch: Seq<char>,
    target: Seq<char>,
    default: Seq<char>,
    lane: Lane,
    phase: Phase,
)
    ensures
        ({
            let known = creation_model(repo, branch, target, true, Some(default), lane, phase);
            let unknown = creation_model(repo, branch, target, true, None, lane, phase);
            let existing = creation_model(repo, branch, target, false, Some(default), lane, phase);
            &&& known.fetch matches Some(fetch)
            &&& fetch.program == "git"@ && fetch.args.contains("fetch"@) && fetch.args.last()
                == default
            &&& known.add.args.last() == "origin/"@ + default
            &&& known.add.args.drop_last() == unknown.add.args
            &&& unknown.fetch is None && unknown.add.args.last() == target
            &&& unknown.add.args.drop_last().last() == branch
            &&& unknown.add.args.contains("-b"@)
            &&& existing.fetch is None && existing.add.args.last() == branch
            &&& existing.add.args.drop_last().last() == target
            &&& known.repo == repo && known.target == target
            &&& existing == creation_model(repo, branch, target, false, None, lane, phase)
        }),
{
    let known = creation_model(repo, branch, target, true, Some(default), lane, phase);
    let unknown = creation_model(repo, branch, target, true, None, lane, phase);
    let existing = creation_model(repo, branch, target, false, Some(default), lane, phase);
    assert(known.fetch->0.args[2] == "fetch"@);
    assert(unknown.add.args.len() == 7);
    assert(unknown.add.args[4] == "-b"@);
    assert(known.add.args.drop_last() =~= unknown.add.args);
    assert(existing.add.args.len() == 6);
}

/// Only the command that adds the worktree can end a creation well, and it does so
/// just where it succeeds.
pub proof fn only_adding_succeeds(creation: CreationModel, event: Event)
    requires
        fits(creation.phase, event),
    ensures
        following_step(creation, event).1 == StepModel::Done(Ok(())) <==> creation.phase is Adding
            && (event matches Event::Ran(Ok(output)) && output.code == Some(0i32)),
{
}

/// The command that adds the worktree runs once, at the end of the way: after the
/// fetch, whether that succeeded or not, where there is one, and at once where
/// there is none. Another command never starts the last phase.
pub proof fn adding_comes_after_fetching(creation: CreationModel, event: Event)
    requires
        fits(creation.phase, event),
    ensures
        following_step(creation, event).0 is Adding <==> (creation.phase is Fetching || (
        creation.phase is Pruning && creation.fetch is None)),
        following_step(creation, event).0 is Adding ==> following_step(creation, event).1
            == StepModel::Run(creation.add),
        creation.phase is Pruning && creation.fetch is Some ==> following_step(creation, event).1
            == StepModel::Run(creation.fetch->0),
        first_step(creation, false).1 == StepModel::Run(
            if creation.fetch is Some {
                creation.fetch->0
            } else {
                creation.add
            },
        ),
        first_step(creation, true).0 is Listing,
{
}

/// A directory that git lists as a worktree of the repository is left alone, and
/// the creation says so.
pub proof fn listed_directories_are_kept(creation: CreationModel, output: CommandOutput, i: int)
    requires
        creation.phase is Listing,
        output.code == Some(0i32),
        0 <= i < lines_seq(utf8_lossy(output.stdout@)).len(),
        lines_seq(utf8_lossy(output.stdout@))[i] == "worktree "@ + creation.target,
    ensures
        following_step(creation, Event::Ran(Ok(output))) == (
            Phase::Finished,
            StepModel::Done(Err(ErrorModel::WorktreeExists { path: creation.target })),
        ),
{
    let prefix = "worktree "@;
    let line = lines_seq(utf8_lossy(output.stdout@))[i];
    assert(line.take(prefix.len() as int) == prefix);
    assert(line.skip(prefix.len() as int) == creation.target);
    assert(line_names(line, creation.target));
}

/// Every worktree with a directory and a branch is listed with both, and nothing
/// else is; joining two lists of heads joins what is listed of them.
pub proof fn every_worktree_is_listed(
    heads: Seq<WorktreeHead>,
    more: Seq<WorktreeHead>,
    head: WorktreeHead,
)
    ensures
        listed(heads + more) == listed(heads) + listed(more),
        listed(seq![head]) == (if head.path is Some && head.branch is Some {
            seq![(head.path->0@, head.branch->0@)]
        } else {
            Seq::empty()
        }),
    decreases more.len(),
{
    assert(seq![head].drop_last() == Seq::<WorktreeHead>::empty());
    assert(listed(Seq::<WorktreeHead>::empty()) == Seq::<(Seq<char>, Seq<char>)>::empty());
    if more.len() == 0 {
        assert(heads + more == heads);
        assert(listed(heads) + listed(more) == listed(heads));
    } else {
        every_worktree_is_listed(heads, more.drop_last(), head);
        assert((heads + more).drop_last() == heads + more.drop_last());
        assert(listed(heads + more) =~= listed(heads) + listed(more));
    }
}

/// What is asked of git before a worktree is added is asked of the repository: the list
/// in the form for programs, and that stale entries go.
pub proof fn repository_is_asked(repo: Seq<char>, lane: Lane)
    ensures
        list_model(repo, lane).program == "git"@ && prune_model(repo, lane).program == "git"@,
        list_model(repo, lane).args.take(2) == seq!["-C"@, repo],
        prune_model(repo, lane).args.take(2) == seq!["-C"@, repo],
        list_model(repo, lane).args.contains("--porcelain"@),
        prune_model(repo, lane).args.last() == "prune"@,
        list_model(repo, lane).lane == lane && prune_model(repo, lane).lane == lane,
{
    assert(list_model(repo, lane).args[4] == "--porcelain"@);
    assert(list_model(repo, lane).args.take(2) =~= seq!["-C"@, repo]);
    assert(prune_model(repo, lane).args.take(2) =~= seq!["-C"@, repo]);
}

/// A creation that fails says why: with git's code and words where it ran, and with
/// the reason where it could not be run.
pub proof fn failed_creations_say_why(creation: CreationModel, output: CommandOutput, reason: String)
    requires
        creation.phase is Adding,
    ensures
        following_step(creation, Event::Ran(Err(reason))).1 == StepModel::Done(
            Err(ErrorModel::Io(reason@)),
        ),
        output.code matches Some(code) ==> (code != 0 ==> following_step(
            creation,
            Event::Ran(Ok(output)),
        ).1 == StepModel::Done(
            Err(
                ErrorModel::GitExitError {
                    status: code as int,
                    stderr: trim_seq(utf8_lossy(output.stderr@)),
                },
            ),
        )),
{
}

} // verus!
