//! The git commands that change a repository, and what their outcome means.

use crate::git::types::{is_flag_like, validate_git_ref, GitError};
use crate::process::command::{
    bare_command, CommandModel, CommandOutput, CommandSpec, Lane, ThreadLane,
};
use crate::text::{
    chars_of, find, find_from, find_from_is_first, occurs_at, string_of, text_lossy, trim, trim_seq,
    utf8_lossy,
};
use vstd::prelude::*;

verus! {

broadcast use vstd::string::group_string_axioms;

/// git with its arguments.
pub open spec fn git_model(args: Seq<Seq<char>>, lane: Lane) -> CommandModel {
    CommandModel { args, ..bare_command("git"@, lane) }
}

/// What a command that could be run means: success, or git's own complaint.
pub open spec fn is_outcome(r: Result<(), GitError>, output: CommandOutput) -> bool {
    if output.code == Some(0i32) {
        r is Ok
    } else {
        &&& r matches Err(GitError::GitExitError { status, stderr })
        &&& status == (match output.code {
            Some(code) => code as int,
            None => -1,
        })
        &&& stderr@ == trim_seq(utf8_lossy(output.stderr@))
    }
}

/// What a command means: where it could not be run, why.
pub open spec fn is_settled(r: Result<(), GitError>, run: Result<CommandOutput, String>) -> bool {
    match run {
        Ok(output) => is_outcome(r, output),
        Err(reason) => r matches Err(GitError::Io(text)) && text@ == reason@,
    }
}

/// Whether a ref was refused.
pub open spec fn is_refusal<T>(r: Result<T, GitError>, name: Seq<char>) -> bool {
    r matches Err(GitError::InvalidRef(bad)) && bad@ == name
}

/// Succeeds where the command did, and otherwise hands its complaint on.
pub fn require_success(output: &CommandOutput) -> (r: Result<(), GitError>)
    ensures
        is_outcome(r, *output),
{
    if output.success() {
        return Ok(());
    }
    let stderr: String = trim(text_lossy(&output.stderr).as_str());
    let status: i32 = match output.code {
        Some(code) => code,
        None => -1,
    };
    Err(GitError::GitExitError { status, stderr })
}

/// What a run means. `run` holds the output, or why there was none.
pub fn settle(run: Result<CommandOutput, String>) -> (r: Result<(), GitError>)
    ensures
        is_settled(r, run),
{
    match run {
        Ok(output) => require_success(&output),
        Err(reason) => Err(GitError::Io(reason)),
    }
}

// ---------------------------------------------------------------------------
// Commands without a ref
// ---------------------------------------------------------------------------

/// Stashes the uncommitted changes.
pub fn stash_changes(path: &str, thread: &ThreadLane) -> (r: CommandSpec)
    ensures
        r.deep_view() == git_model(seq!["-C"@, path@, "stash"@], thread.lane),
{
    let r: CommandSpec = CommandSpec::new("git", thread).arg("-C").arg(path).arg("stash");
    assert(r.deep_view().args == seq!["-C"@, path@, "stash"@]);
    r
}

/// Takes the most recent stash back.
pub fn stash_pop(path: &str, thread: &ThreadLane) -> (r: CommandSpec)
    ensures
        r.deep_view() == git_model(seq!["-C"@, path@, "stash"@, "pop"@], thread.lane),
{
    let r: CommandSpec = CommandSpec::new("git", thread).arg("-C").arg(path).arg("stash").arg(
        "pop",
    );
    assert(r.deep_view().args == seq!["-C"@, path@, "stash"@, "pop"@]);
    r
}

/// Stages a file.
pub fn stage_file(repo_path: &str, file_path: &str, thread: &ThreadLane) -> (r: CommandSpec)
    ensures
        r.deep_view() == git_model(
            seq!["-C"@, repo_path@, "add"@, "--"@, file_path@],
            thread.lane,
        ),
{
    let r: CommandSpec = CommandSpec::new("git", thread).arg("-C").arg(repo_path).arg("add").arg(
        "--",
    ).arg(file_path);
    assert(r.deep_view().args == seq!["-C"@, repo_path@, "add"@, "--"@, file_path@]);
    r
}

/// Takes a file out of the index.
pub fn unstage_file(repo_path: &str, file_path: &str, thread: &ThreadLane) -> (r: CommandSpec)
    ensures
        r.deep_view() == git_model(
            seq!["-C"@, repo_path@, "restore"@, "--staged"@, "--"@, file_path@],
            thread.lane,
        ),
{
    let r: CommandSpec = CommandSpec::new("git", thread).arg("-C").arg(repo_path).arg(
        "restore",
    ).arg("--staged").arg("--").arg(file_path);
    assert(r.deep_view().args == seq![
        "-C"@,
        repo_path@,
        "restore"@,
        "--staged"@,
        "--"@,
        file_path@,
    ]);
    r
}

/// Puts a file back to its state at HEAD.
pub fn discard_file_changes(repo_path: &str, file_path: &str, thread: &ThreadLane) -> (r:
    CommandSpec)
    ensures
        r.deep_view() == git_model(
            seq!["-C"@, repo_path@, "checkout"@, "HEAD"@, "--"@, file_path@],
            thread.lane,
        ),
{
    let r: CommandSpec = CommandSpec::new("git", thread).arg("-C").arg(repo_path).arg(
        "checkout",
    ).arg("HEAD").arg("--").arg(file_path);
    assert(r.deep_view().args == seq![
        "-C"@,
        repo_path@,
        "checkout"@,
        "HEAD"@,
        "--"@,
        file_path@,
    ]);
    r
}

/// Fetches from all remotes.
pub fn fetch_all(path: &str, thread: &ThreadLane) -> (r: CommandSpec)
    ensures
        r.deep_view() == git_model(seq!["-C"@, path@, "fetch"@, "--all"@], thread.lane),
{
    let r: CommandSpec = CommandSpec::new("git", thread).arg("-C").arg(path).arg("fetch").arg(
        "--all",
    );
    assert(r.deep_view().args == seq!["-C"@, path@, "fetch"@, "--all"@]);
    r
}

// ---------------------------------------------------------------------------
// Commands with a ref
// ---------------------------------------------------------------------------

/// Merges a branch into the current one; with `no_ff` always by a commit of its
/// own.
pub fn merge_branch(repo_path: &str, branch: &str, no_ff: bool, thread: &ThreadLane) -> (r: Result<
    CommandSpec,
    GitError,
>)
    ensures
        is_flag_like(branch@) ==> is_refusal(r, branch@),
        !is_flag_like(branch@) ==> (r matches Ok(command) && command.deep_view() == git_model(
            seq!["-C"@, repo_path@, "merge"@] + (if no_ff {
                seq!["--no-ff"@, branch@]
            } else {
                seq![branch@]
            }),
            thread.lane,
        )),
{
    if let Err(error) = validate_git_ref(branch) {
        return Err(error);
    }
    let base: CommandSpec = CommandSpec::new("git", thread).arg("-C").arg(repo_path).arg("merge");
    let r: CommandSpec = if no_ff {
        base.arg("--no-ff").arg(branch)
    } else {
        base.arg(branch)
    };
    assert(r.deep_view().args == seq!["-C"@, repo_path@, "merge"@] + (if no_ff {
        seq!["--no-ff"@, branch@]
    } else {
        seq![branch@]
    }));
    Ok(r)
}

/// Deletes a local branch that is merged.
pub fn delete_local_branch(repo_path: &str, branch: &str, thread: &ThreadLane) -> (r: Result<
    CommandSpec,
    GitError,
>)
    ensures
        is_flag_like(branch@) ==> is_refusal(r, branch@),
        !is_flag_like(branch@) ==> (r matches Ok(command) && command.deep_view() == git_model(
            seq!["-C"@, repo_path@, "branch"@, "-d"@, "--"@, branch@],
            thread.lane,
        )),
{
    if let Err(error) = validate_git_ref(branch) {
        return Err(error);
    }
    let r: CommandSpec = CommandSpec::new("git", thread).arg("-C").arg(repo_path).arg(
        "branch",
    ).arg("-d").arg("--").arg(branch);
    assert(r.deep_view().args == seq!["-C"@, repo_path@, "branch"@, "-d"@, "--"@, branch@]);
    Ok(r)
}

/// Deletes a branch at origin.
pub fn delete_remote_branch(repo_path: &str, branch: &str, thread: &ThreadLane) -> (r: Result<
    CommandSpec,
    GitError,
>)
    ensures
        is_flag_like(branch@) ==> is_refusal(r, branch@),
        !is_flag_like(branch@) ==> (r matches Ok(command) && command.deep_view() == git_model(
            seq!["-C"@, repo_path@, "push"@, "origin"@, "--delete"@, "--"@, branch@],
            thread.lane,
        )),
{
    if let Err(error) = validate_git_ref(branch) {
        return Err(error);
    }
    let r: CommandSpec = CommandSpec::new("git", thread).arg("-C").arg(repo_path).arg("push").arg(
        "origin",
    ).arg("--delete").arg("--").arg(branch);
    assert(r.deep_view().args == seq![
        "-C"@,
        repo_path@,
        "push"@,
        "origin"@,
        "--delete"@,
        "--"@,
        branch@,
    ]);
    Ok(r)
}

/// Pushes a branch to origin.
pub fn push_branch(repo_path: &str, branch: &str, thread: &ThreadLane) -> (r: Result<
    CommandSpec,
    GitError,
>)
    ensures
        is_flag_like(branch@) ==> is_refusal(r, branch@),
        !is_flag_like(branch@) ==> (r matches Ok(command) && command.deep_view() == git_model(
            seq!["-C"@, repo_path@, "push"@, "origin"@, "--"@, branch@],
            thread.lane,
        )),
{
    if let Err(error) = validate_git_ref(branch) {
        return Err(error);
    }
    let r: CommandSpec = CommandSpec::new("git", thread).arg("-C").arg(repo_path).arg("push").arg(
        "origin",
    ).arg("--").arg(branch);
    assert(r.deep_view().args == seq!["-C"@, repo_path@, "push"@, "origin"@, "--"@, branch@]);
    Ok(r)
}

/// Checks out a local branch.
pub fn checkout_local_branch(repo_path: &str, branch: &str, thread: &ThreadLane) -> (r: Result<
    CommandSpec,
    GitError,
>)
    ensures
        is_flag_like(branch@) ==> is_refusal(r, branch@),
        !is_flag_like(branch@) ==> (r matches Ok(command) && command.deep_view() == git_model(
            seq!["-C"@, repo_path@, "checkout"@, branch@],
            thread.lane,
        )),
{
    if let Err(error) = validate_git_ref(branch) {
        return Err(error);
    }
    let r: CommandSpec = CommandSpec::new("git", thread).arg("-C").arg(repo_path).arg(
        "checkout",
    ).arg(branch);
    assert(r.deep_view().args == seq!["-C"@, repo_path@, "checkout"@, branch@]);
    Ok(r)
}

/// Creates a branch, at HEAD or at a start point, and checks it out.
pub fn create_and_checkout_branch(
    repo_path: &str,
    new_name: &str,
    start_point: Option<&str>,
    thread: &ThreadLane,
) -> (r: Result<CommandSpec, GitError>)
    ensures
        is_flag_like(new_name@) ==> is_refusal(r, new_name@),
        !is_flag_like(new_name@) ==> match start_point.deep_view() {
            Some(start) => if is_flag_like(start) {
                is_refusal(r, start)
            } else {
                r matches Ok(command) && command.deep_view() == git_model(
                    seq!["-C"@, repo_path@, "checkout"@, "-b"@, new_name@, start],
                    thread.lane,
                )
            },
            None => r matches Ok(command) && command.deep_view() == git_model(
                seq!["-C"@, repo_path@, "checkout"@, "-b"@, new_name@],
                thread.lane,
            ),
        },
{
    if let Err(error) = validate_git_ref(new_name) {
        return Err(error);
    }
    let base: CommandSpec = CommandSpec::new("git", thread).arg("-C").arg(repo_path).arg(
        "checkout",
    ).arg("-b").arg(new_name);
    match start_point {
        Some(start) => {
            if let Err(error) = validate_git_ref(start) {
                return Err(error);
            }
            let r: CommandSpec = base.arg(start);
            assert(r.deep_view().args == seq![
                "-C"@,
                repo_path@,
                "checkout"@,
                "-b"@,
                new_name@,
                start@,
            ]);
            Ok(r)
        },
        None => {
            assert(base.deep_view().args == seq![
                "-C"@,
                repo_path@,
                "checkout"@,
                "-b"@,
                new_name@,
            ]);
            Ok(base)
        },
    }
}

// ---------------------------------------------------------------------------
// Rebasing
// ---------------------------------------------------------------------------

/// Rebases the current branch onto another.
pub fn rebase_onto(worktree_path: &str, target_branch: &str, thread: &ThreadLane) -> (r: Result<
    CommandSpec,
    GitError,
>)
    ensures
        is_flag_like(target_branch@) ==> is_refusal(r, target_branch@),
        !is_flag_like(target_branch@) ==> (r matches Ok(command) && command.deep_view()
            == git_model(seq!["-C"@, worktree_path@, "rebase"@, target_branch@], thread.lane)),
{
    if let Err(error) = validate_git_ref(target_branch) {
        return Err(error);
    }
    let r: CommandSpec = CommandSpec::new("git", thread).arg("-C").arg(worktree_path).arg(
        "rebase",
    ).arg(target_branch);
    assert(r.deep_view().args == seq!["-C"@, worktree_path@, "rebase"@, target_branch@]);
    Ok(r)
}

/// What a rebase that was run means. One that failed is to be aborted by the
/// command that is handed out, whatever comes of it.
pub fn after_rebase(
    worktree_path: &str,
    run: Result<CommandOutput, String>,
    thread: &ThreadLane,
) -> (r: (Option<CommandSpec>, Result<(), GitError>))
    ensures
        is_settled(r.1, run),
        match r.0 {
            Some(command) => {
                &&& run matches Ok(output)
                &&& output.code != Some(0i32)
                &&& command.deep_view() == git_model(
                    seq!["-C"@, worktree_path@, "rebase"@, "--abort"@],
                    thread.lane,
                )
            },
            None => run matches Ok(output) ==> output.code == Some(0i32),
        },
{
    let abort: Option<CommandSpec> = match &run {
        Ok(output) => if output.success() {
            None
        } else {
            let command: CommandSpec = CommandSpec::new("git", thread).arg("-C").arg(
                worktree_path,
            ).arg("rebase").arg("--abort");
            assert(command.deep_view().args == seq![
                "-C"@,
                worktree_path@,
                "rebase"@,
                "--abort"@,
            ]);
            Some(command)
        },
        Err(_) => None,
    };
    (abort, settle(run))
}

// ---------------------------------------------------------------------------
// Checking out a remote branch
// ---------------------------------------------------------------------------

/// The local name of a remote branch: what follows the remote's name.
pub open spec fn local_name_of(remote_branch: Seq<char>) -> Seq<char> {
    let slash = find_from(remote_branch, "/"@, 0);
    if slash >= 0 {
        remote_branch.skip(slash + 1)
    } else {
        remote_branch
    }
}

/// The local name of a remote branch.
pub fn local_name(remote_branch: &str) -> (r: String)
    ensures
        r@ == local_name_of(remote_branch@),
{
    proof {
        reveal_strlit("/");
    }
    let s: Vec<char> = chars_of(remote_branch);
    let slash: Vec<char> = chars_of("/");
    let n: usize = s.len();
    match find(&s, &slash, 0) {
        Some(i) => {
            assert(s@.subrange(i + 1, n as int) == s@.skip(i + 1));
            string_of(&s, i + 1, n)
        },
        None => remote_branch.to_owned(),
    }
}

/// Checks out a remote branch as a local one that tracks it.
pub fn checkout_remote_branch(repo_path: &str, remote_branch: &str, thread: &ThreadLane) -> (r:
    Result<CommandSpec, GitError>)
    ensures
        is_flag_like(remote_branch@) ==> is_refusal(r, remote_branch@),
        !is_flag_like(remote_branch@) && is_flag_like(local_name_of(remote_branch@)) ==> is_refusal(
            r,
            local_name_of(remote_branch@),
        ),
        !is_flag_like(remote_branch@) && !is_flag_like(local_name_of(remote_branch@)) ==> (
        r matches Ok(command) && command.deep_view() == git_model(
            seq!["-C"@, repo_path@, "checkout"@, "--track"@, remote_branch@],
            thread.lane,
        )),
{
    if let Err(error) = validate_git_ref(remote_branch) {
        return Err(error);
    }
    let local: String = local_name(remote_branch);
    if let Err(error) = validate_git_ref(local.as_str()) {
        return Err(error);
    }
    let r: CommandSpec = CommandSpec::new("git", thread).arg("-C").arg(repo_path).arg(
        "checkout",
    ).arg("--track").arg(remote_branch);
    assert(r.deep_view().args == seq![
        "-C"@,
        repo_path@,
        "checkout"@,
        "--track"@,
        remote_branch@,
    ]);
    Ok(r)
}

/// What follows a checkout that should track a remote branch: nothing where it
/// succeeded, and otherwise a plain checkout of the local name, which may exist
/// already.
pub fn after_track(
    repo_path: &str,
    remote_branch: &str,
    run: Result<CommandOutput, String>,
    thread: &ThreadLane,
) -> (r: Result<Option<CommandSpec>, GitError>)
    ensures
        match run {
            Err(reason) => r matches Err(GitError::Io(text)) && text@ == reason@,
            Ok(output) => if output.code == Some(0i32) {
                r matches Ok(None)
            } else if is_flag_like(local_name_of(remote_branch@)) {
                is_refusal(r, local_name_of(remote_branch@))
            } else {
                r matches Ok(Some(command)) && command.deep_view() == git_model(
                    seq!["-C"@, repo_path@, "checkout"@, local_name_of(remote_branch@)],
                    thread.lane,
                )
            },
        },
{
    match run {
        Err(reason) => Err(GitError::Io(reason)),
        Ok(output) => {
            if output.success() {
                return Ok(None);
            }
            let local: String = local_name(remote_branch);
            match checkout_local_branch(repo_path, local.as_str(), thread) {
                Ok(command) => Ok(Some(command)),
                Err(error) => Err(error),
            }
        },
    }
}

// ---------------------------------------------------------------------------
// Laws
// ---------------------------------------------------------------------------

/// A remote branch is checked out under its name without the remote's, slashes and
/// all.
pub proof fn local_names_lack_the_remote(remote: Seq<char>, branch: Seq<char>)
    requires
        !remote.contains('/'),
    ensures
        local_name_of(remote + "/"@ + branch) == branch,
        local_name_of(remote) == remote,
{
    reveal_strlit("/");
    assert("/"@ == seq!['/']);
    let all = remote + "/"@ + branch;
    let n = remote.len() as int;
    find_from_is_first(all, "/"@, 0);
    find_from_is_first(remote, "/"@, 0);
    assert(all.subrange(n, n + 1) == "/"@);
    assert(occurs_at(all, "/"@, n));
    let slash = find_from(all, "/"@, 0);
    assert(slash >= 0);
    if slash < n {
        assert(all.subrange(slash, slash + 1)[0] == '/');
        assert(remote[slash] == '/');
    }
    let other = find_from(remote, "/"@, 0);
    if other >= 0 {
        assert(remote.subrange(other, other + 1)[0] == '/');
        assert(remote[other] == '/');
    }
    assert(all.skip(n + 1) == branch);
}

/// A command succeeded just where it ran and ended with zero; a failure keeps the
/// code and what git said, and a command that could not be run keeps the reason.
pub proof fn failures_are_told(r: Result<(), GitError>, run: Result<CommandOutput, String>)
    requires
        is_settled(r, run),
    ensures
        r is Ok <==> (run matches Ok(output) && output.code == Some(0i32)),
        run matches Err(reason) ==> (r matches Err(GitError::Io(text)) && text@ == reason@),
        run matches Ok(output) ==> (output.code matches Some(code) ==> (code != 0 ==> (r
            matches Err(GitError::GitExitError { status, .. }) && status == code))),
        run matches Ok(output) ==> (output.code != Some(0i32) ==> (r matches Err(
            GitError::GitExitError { stderr, .. },
        ) && stderr@ == trim_seq(utf8_lossy(output.stderr@)))),
{
}

} // verus!
