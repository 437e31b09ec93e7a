use okena::git::branches::{
    get_available_branches_for_worktree, get_current_branch, get_default_branch, list_branches,
    list_branches_classified, unpushed_revisions, BranchList,
};
use okena::git::commands::{
    after_rebase, after_track, checkout_local_branch, checkout_remote_branch,
    create_and_checkout_branch, delete_local_branch, delete_remote_branch, discard_file_changes,
    fetch_all, local_name, merge_branch, push_branch, rebase_onto, require_success, settle,
    stage_file, stash_changes, stash_pop, unstage_file,
};
use okena::git::commit_log::{
    fetch_commit_log, get_head_sha, labels_for, short_hash, CommitText, RefKind, RefTip,
    WalkedCommit,
};
use okena::git::diff::{
    changed_paths, get_diff_file_summary, get_diff_stats, has_uncommitted_changes, is_binary,
    numstat_command, numstat_counts, read_numstat, tracked_diff_counts, ChangedFile, FileCounts,
    untracked_paths, StatusItem,
};
use okena::git::paths::{
    compute_target_paths, project_path_in_worktree, resolve_git_root_and_subdir,
};
use okena::git::status::{
    ahead_behind_command, count_ahead_behind, get_git_status, get_status, invalidate_cache,
    refresh_git_status, warm_branch_cache, StatusCache, StatusFetch,
};
use okena::git::types::{GitError, GitStatus};
use okena::git::worktrees::{
    after_prune, create_worktree, create_worktree_with_start_point, get_worktree_branches,
    list_git_worktrees, lists_worktree, remove_worktree, remove_worktree_fast, Event, Phase,
    Removal, Step, WorktreeHead,
};
use okena::path::{join_path, normalize_path};
use okena::process::command::{CommandOutput, CommandSpec, ThreadLane};

const MISSING: &str = "/nonexistent/path/that/does/not/exist";

fn texts(items: &[&str]) -> Vec<String> {
    items.iter().map(|s| s.to_string()).collect()
}

fn printed(text: &str) -> Result<CommandOutput, String> {
    Ok(CommandOutput {
        code: Some(0),
        stdout: text.as_bytes().to_vec(),
        stderr: Vec::new(),
    })
}

/// What git does in a directory that is not there.
fn no_directory(command: CommandSpec) -> Result<CommandOutput, String> {
    assert_eq!(command.program, "git");
    assert_eq!(command.args[..2], ["-C", MISSING]);
    Ok(CommandOutput {
        code: Some(128),
        stdout: Vec::new(),
        stderr: format!("fatal: cannot change to '{MISSING}': No such file or directory\n")
            .into_bytes(),
    })
}

fn refused(result: Result<CommandSpec, GitError>) -> bool {
    settle(no_directory(result.expect("a command"))).is_err()
}

// What git finds in a new repository with one commit on `main`.

fn local_refs(names: &[&str]) -> Vec<String> {
    names.iter().map(|n| format!("refs/heads/{n}")).collect()
}

fn clean_status() -> StatusFetch {
    get_status(
        true,
        get_current_branch(Some("refs/heads/main"), Some((&vec![0xab], 2))),
        get_diff_stats(&Some(Vec::new()), &Some(Vec::new())),
        None,
        None,
    )
}

// ---------------------------------------------------------------------------
// Errors
// ---------------------------------------------------------------------------

#[test]
fn repository_rebase_onto_returns_err_for_invalid_path() {
    let thread = ThreadLane::new();
    let run = no_directory(rebase_onto(MISSING, "main", &thread).unwrap());
    assert!(after_rebase(MISSING, run, &thread).1.is_err());
}

#[test]
fn branch_rebase_onto_returns_err_for_invalid_path() {
    assert!(refused(rebase_onto(MISSING, "main", &ThreadLane::new())));
}

#[test]
fn repository_merge_branch_returns_err_for_invalid_path() {
    assert!(refused(merge_branch(MISSING, "feature", true, &ThreadLane::new())));
}

#[test]
fn branch_merge_branch_returns_err_for_invalid_path() {
    assert!(refused(merge_branch(MISSING, "feature", true, &ThreadLane::new())));
}

#[test]
fn repository_stash_changes_returns_err_for_invalid_path() {
    assert!(refused(Ok(stash_changes(MISSING, &ThreadLane::new()))));
}

#[test]
fn branch_stash_changes_returns_err_for_invalid_path() {
    assert!(refused(Ok(stash_changes(MISSING, &ThreadLane::new()))));
}

#[test]
fn repository_stash_pop_returns_err_for_invalid_path() {
    assert!(refused(Ok(stash_pop(MISSING, &ThreadLane::new()))));
}

#[test]
fn branch_stash_pop_returns_err_for_invalid_path() {
    assert!(refused(Ok(stash_pop(MISSING, &ThreadLane::new()))));
}

#[test]
fn repository_fetch_all_returns_err_for_invalid_path() {
    assert!(refused(Ok(fetch_all(MISSING, &ThreadLane::new()))));
}

#[test]
fn branch_fetch_all_returns_err_for_invalid_path() {
    assert!(refused(Ok(fetch_all(MISSING, &ThreadLane::new()))));
}

#[test]
fn repository_delete_local_branch_returns_err_for_invalid_path() {
    assert!(refused(delete_local_branch(MISSING, "feature", &ThreadLane::new())));
}

#[test]
fn branch_delete_local_branch_returns_err_for_invalid_path() {
    assert!(refused(delete_local_branch(MISSING, "feature", &ThreadLane::new())));
}

#[test]
fn repository_delete_remote_branch_returns_err_for_invalid_path() {
    assert!(refused(delete_remote_branch(MISSING, "feature", &ThreadLane::new())));
}

#[test]
fn branch_delete_remote_branch_returns_err_for_invalid_path() {
    assert!(refused(delete_remote_branch(MISSING, "feature", &ThreadLane::new())));
}

#[test]
fn repository_push_branch_returns_err_for_invalid_path() {
    assert!(refused(push_branch(MISSING, "feature", &ThreadLane::new())));
}

#[test]
fn branch_push_branch_returns_err_for_invalid_path() {
    assert!(refused(push_branch(MISSING, "feature", &ThreadLane::new())));
}

#[test]
fn git_complaints_are_handed_on() {
    let output = CommandOutput {
        code: Some(128),
        stdout: Vec::new(),
        stderr: b"  fatal: no\n".to_vec(),
    };
    assert_eq!(
        require_success(&output),
        Err(GitError::GitExitError {
            status: 128,
            stderr: "fatal: no".to_string(),
        })
    );
    let killed = CommandOutput {
        code: None,
        stdout: Vec::new(),
        stderr: vec![0xff, b'!'],
    };
    assert_eq!(
        require_success(&killed),
        Err(GitError::GitExitError {
            status: -1,
            stderr: "\u{fffd}!".to_string(),
        })
    );
    assert_eq!(settle(Err("no git".to_string())), Err(GitError::Io("no git".to_string())));
    assert_eq!(settle(printed("")), Ok(()));
}

// ---------------------------------------------------------------------------
// Commands
// ---------------------------------------------------------------------------

#[test]
fn commands_have_their_arguments() {
    let t = ThreadLane::new();
    assert_eq!(stash_changes("/r", &t).args, ["-C", "/r", "stash"]);
    assert_eq!(stash_pop("/r", &t).args, ["-C", "/r", "stash", "pop"]);
    assert_eq!(stage_file("/r", "a b", &t).args, ["-C", "/r", "add", "--", "a b"]);
    assert_eq!(
        unstage_file("/r", "f", &t).args,
        ["-C", "/r", "restore", "--staged", "--", "f"]
    );
    assert_eq!(
        discard_file_changes("/r", "f", &t).args,
        ["-C", "/r", "checkout", "HEAD", "--", "f"]
    );
    assert_eq!(fetch_all("/r", &t).args, ["-C", "/r", "fetch", "--all"]);
    assert_eq!(
        merge_branch("/r", "b", true, &t).unwrap().args,
        ["-C", "/r", "merge", "--no-ff", "b"]
    );
    assert_eq!(merge_branch("/r", "b", false, &t).unwrap().args, ["-C", "/r", "merge", "b"]);
    assert_eq!(
        delete_local_branch("/r", "b", &t).unwrap().args,
        ["-C", "/r", "branch", "-d", "--", "b"]
    );
    assert_eq!(
        delete_remote_branch("/r", "b", &t).unwrap().args,
        ["-C", "/r", "push", "origin", "--delete", "--", "b"]
    );
    assert_eq!(
        push_branch("/r", "b", &t).unwrap().args,
        ["-C", "/r", "push", "origin", "--", "b"]
    );
    assert_eq!(
        create_and_checkout_branch("/r", "b", Some("v1"), &t).unwrap().args,
        ["-C", "/r", "checkout", "-b", "b", "v1"]
    );
}

#[test]
fn commands_refuse_refs_that_look_like_flags() {
    let t = ThreadLane::new();
    let bad = |r: Result<CommandSpec, GitError>| {
        assert_eq!(r, Err(GitError::InvalidRef("-x".to_string())));
    };
    bad(merge_branch("/r", "-x", false, &t));
    bad(delete_local_branch("/r", "-x", &t));
    bad(delete_remote_branch("/r", "-x", &t));
    bad(push_branch("/r", "-x", &t));
    bad(checkout_local_branch("/r", "-x", &t));
    bad(create_and_checkout_branch("/r", "ok", Some("-x"), &t));
    bad(rebase_onto("/r", "-x", &t));
    bad(checkout_remote_branch("/r", "-x", &t));
    bad(checkout_remote_branch("/r", "origin/-x", &t));
}

#[test]
fn a_failed_rebase_is_aborted() {
    let t = ThreadLane::new();
    let run = Ok(CommandOutput {
        code: Some(1),
        stdout: Vec::new(),
        stderr: b"conflict".to_vec(),
    });
    let (abort, result) = after_rebase("/r", run, &t);
    assert_eq!(abort.unwrap().args, ["-C", "/r", "rebase", "--abort"]);
    assert_eq!(
        result,
        Err(GitError::GitExitError {
            status: 1,
            stderr: "conflict".to_string(),
        })
    );
    assert_eq!(after_rebase("/r", printed(""), &t), (None, Ok(())));
    assert_eq!(
        after_rebase("/r", Err("x".to_string()), &t),
        (None, Err(GitError::Io("x".to_string())))
    );
}

#[test]
fn a_remote_branch_is_tracked_or_checked_out() {
    let t = ThreadLane::new();
    assert_eq!(local_name("origin/feature/x"), "feature/x");
    assert_eq!(local_name("main"), "main");
    assert_eq!(
        checkout_remote_branch("/r", "origin/feature", &t).unwrap().args,
        ["-C", "/r", "checkout", "--track", "origin/feature"]
    );
    assert_eq!(after_track("/r", "origin/feature", printed(""), &t), Ok(None));
    let failed = Ok(CommandOutput {
        code: Some(128),
        stdout: Vec::new(),
        stderr: Vec::new(),
    });
    assert_eq!(
        after_track("/r", "origin/feature", failed, &t).unwrap().unwrap().args,
        ["-C", "/r", "checkout", "feature"]
    );
}

fn creates_and_switches(name: &str) {
    let t = ThreadLane::new();
    let command = create_and_checkout_branch("/repo", name, None, &t).expect("create branch");
    assert_eq!(command.args, ["-C", "/repo", "checkout", "-b", name]);
    let head = format!("refs/heads/{}", command.args[4]);
    assert_eq!(get_current_branch(Some(&head), None).as_deref(), Some(name));
}

#[test]
fn repository_create_and_checkout_branch_switches_head() {
    creates_and_switches("feat/header-redesign");
}

#[test]
fn branch_create_and_checkout_branch_switches_head() {
    creates_and_switches("feat/header-redesign");
}

fn switches_back_to_main() {
    creates_and_switches("feat/x");
    let t = ThreadLane::new();
    let command = checkout_local_branch("/repo", "main", &t).expect("checkout main");
    assert_eq!(command.args, ["-C", "/repo", "checkout", "main"]);
    let head = format!("refs/heads/{}", command.args[3]);
    assert_eq!(get_current_branch(Some(&head), None).as_deref(), Some("main"));
}

#[test]
fn repository_checkout_local_branch_switches_back_to_main() {
    switches_back_to_main();
}

#[test]
fn branch_checkout_local_branch_switches_back_to_main() {
    switches_back_to_main();
}

fn rejects_flag_like_names() {
    let err = create_and_checkout_branch("/repo", "-rf", None, &ThreadLane::new());
    assert!(err.is_err(), "expected rejection of flag-like ref name");
    // No command was made, so no new branch is there.
    let list = list_branches_classified(&local_refs(&["main"]), &Vec::new(), None);
    assert!(!list_branches(list).iter().any(|b| b == "-rf"));
}

#[test]
fn repository_create_and_checkout_branch_rejects_flag_like_names() {
    rejects_flag_like_names();
}

#[test]
fn branch_create_and_checkout_branch_rejects_flag_like_names() {
    rejects_flag_like_names();
}

// ---------------------------------------------------------------------------
// Branches
// ---------------------------------------------------------------------------

fn three_branches() -> BranchList {
    list_branches_classified(
        &local_refs(&["main", "feature/foo", "feature/bar"]),
        &Vec::new(),
        Some("refs/heads/main"),
    )
}

fn lists_local_branches() {
    let mut branches = list_branches(three_branches());
    branches.sort();
    assert_eq!(branches, vec!["feature/bar", "feature/foo", "main"]);
}

#[test]
fn repository_list_branches_returns_local_branches() {
    lists_local_branches();
}

#[test]
fn branch_list_branches_returns_local_branches() {
    lists_local_branches();
}

fn separates_local_and_records_current() {
    let mut list = three_branches();
    list.local.sort();
    assert_eq!(list.local, vec!["feature/bar", "feature/foo", "main"]);
    assert!(list.remote.is_empty());
    assert_eq!(list.current.as_deref(), Some("main"));
}

#[test]
fn repository_list_branches_classified_separates_local_and_records_current() {
    separates_local_and_records_current();
}

#[test]
fn branch_list_branches_classified_separates_local_and_records_current() {
    separates_local_and_records_current();
}

#[test]
fn local_branches_hide_those_of_origin() {
    let list = list_branches_classified(
        &local_refs(&["main"]),
        &texts(&[
            "refs/remotes/origin/HEAD",
            "refs/remotes/origin/main",
            "refs/remotes/origin/release",
            "refs/remotes/fork/main",
        ]),
        None,
    );
    assert_eq!(list.local, ["main"]);
    assert_eq!(list.remote, ["origin/release", "fork/main"]);
    assert_eq!(list.current, None);
    assert_eq!(list_branches(list), ["main", "origin/release", "fork/main"]);
    assert_eq!(BranchList::default().local, Vec::<String>::new());
}

#[test]
fn branches_with_a_worktree_are_not_available() {
    let all = texts(&["main", "a", "b"]);
    assert_eq!(get_available_branches_for_worktree(&all, &texts(&["main", "b"])), ["a"]);
}

fn falls_back_to_main() {
    // No origin/HEAD exists — should fall back to local "main".
    assert_eq!(get_default_branch(None, true, false).as_deref(), Some("main"));
}

#[test]
fn repository_get_default_branch_falls_back_to_main_locally() {
    falls_back_to_main();
}

#[test]
fn branch_get_default_branch_falls_back_to_main_locally() {
    falls_back_to_main();
}

#[test]
fn repository_get_default_branch_returns_none_for_invalid_path() {
    assert!(get_default_branch(None, false, false).is_none());
}

#[test]
fn branch_get_default_branch_returns_none_for_invalid_path() {
    assert!(get_default_branch(None, false, false).is_none());
}

#[test]
fn origin_names_the_default_branch() {
    let of = |target| get_default_branch(Some(target), true, true);
    assert_eq!(of("refs/remotes/origin/develop").as_deref(), Some("develop"));
    assert_eq!(of("refs/remotes/origin/").as_deref(), Some("main"));
    assert_eq!(of("refs/remotes/fork/x").as_deref(), Some("main"));
    assert_eq!(get_default_branch(None, false, true).as_deref(), Some("master"));
}

#[test]
fn repository_get_current_branch_returns_main_after_init() {
    assert_eq!(get_current_branch(Some("refs/heads/main"), None).as_deref(), Some("main"));
}

#[test]
fn status_get_current_branch_returns_main_after_init() {
    assert_eq!(get_current_branch(Some("refs/heads/main"), None).as_deref(), Some("main"));
}

fn short_hash_when_detached() {
    let id: Vec<u8> = (0xa0..0xb4).collect();
    let branch = get_current_branch(None, Some((&id, 7))).expect("a short hash");
    assert_eq!(branch, short_hash(&id));
    let head = get_head_sha(Some(&id)).expect("a hash");
    assert_eq!(head.len(), 40);
    assert!(head.starts_with(&branch));
    assert!(branch.len() >= 7, "expected short hash, got {:?}", branch);
    assert!(branch.chars().all(|c| c.is_ascii_hexdigit()), "expected hex hash, got {:?}", branch);
}

#[test]
fn repository_get_current_branch_returns_short_hash_when_detached() {
    short_hash_when_detached();
}

#[test]
fn status_get_current_branch_returns_short_hash_when_detached() {
    short_hash_when_detached();
}

#[test]
fn repository_get_current_branch_returns_none_for_invalid_path() {
    assert!(get_current_branch(None, None).is_none());
}

#[test]
fn status_get_current_branch_returns_none_for_invalid_path() {
    assert!(get_current_branch(None, None).is_none());
}

#[test]
fn unpushed_revisions_are_those_after_origin() {
    assert_eq!(unpushed_revisions("main"), "origin/main..HEAD");
}

// ---------------------------------------------------------------------------
// Status
// ---------------------------------------------------------------------------

fn not_a_repository() {
    match get_status(false, None, None, None, None) {
        StatusFetch::NotRepo => {}
        other => panic!("expected NotRepo, got {:?}", other),
    }
}

#[test]
fn repository_get_status_returns_not_repo_for_non_git_path() {
    not_a_repository();
}

#[test]
fn status_get_status_returns_not_repo_for_non_git_path() {
    not_a_repository();
}

fn clean_repository() {
    match clean_status() {
        StatusFetch::Status(s) => {
            assert_eq!(s.branch.as_deref(), Some("main"));
            assert_eq!(s.lines_added, 0);
            assert_eq!(s.lines_removed, 0);
        }
        other => panic!("expected Status, got {:?}", other),
    }
}

#[test]
fn repository_get_status_returns_status_for_clean_repo() {
    clean_repository();
}

#[test]
fn status_get_status_returns_status_for_clean_repo() {
    clean_repository();
}

fn counts_untracked_lines() {
    let untracked = Some(vec![Some("line1\nline2\nline3\n".to_string())]);
    let stats = get_diff_stats(&Some(Vec::new()), &untracked);
    match get_status(true, Some("main".to_string()), stats, None, None) {
        StatusFetch::Status(s) => assert_eq!(s.lines_added, 3),
        other => panic!("expected Status with 3 untracked lines, got {:?}", other),
    }
}

#[test]
fn repository_get_status_counts_untracked_lines() {
    counts_untracked_lines();
}

#[test]
fn status_get_status_counts_untracked_lines() {
    counts_untracked_lines();
}

#[test]
fn a_status_without_counts_is_transient() {
    let stats = get_diff_stats(&None, &Some(Vec::new()));
    assert_eq!(stats, None);
    assert_eq!(get_status(true, None, stats, None, None), StatusFetch::Transient);
    assert_eq!(get_diff_stats(&Some(Vec::new()), &None), None);
}

#[test]
fn a_status_holds_both_sides_of_the_upstream() {
    match get_status(true, None, Some((1, 2)), Some((3, 4)), Some(5)) {
        StatusFetch::Status(s) => {
            assert_eq!((s.lines_added, s.lines_removed), (1, 2));
            assert_eq!((s.ahead, s.behind, s.unpushed), (Some(3), Some(4), Some(5)));
        }
        other => panic!("{:?}", other),
    }
}

#[test]
fn the_commits_behind_come_first() {
    assert_eq!(count_ahead_behind(&printed("2\t5\n")), Some((5, 2)));
    assert_eq!(count_ahead_behind(&printed("2\n")), None);
    assert_eq!(count_ahead_behind(&printed("x 5")), None);
    assert_eq!(count_ahead_behind(&Err("x".to_string())), None);
    assert_eq!(
        ahead_behind_command("/r", "main", &ThreadLane::new()).args,
        ["-C", "/r", "rev-list", "--left-right", "--count", "main@{upstream}...main"]
    );
}

fn repository_without_upstream() {
    // git finds no upstream: there is nothing to count.
    let run = Ok(CommandOutput {
        code: Some(128),
        stdout: Vec::new(),
        stderr: b"fatal: no upstream configured for branch 'main'".to_vec(),
    });
    assert!(count_ahead_behind(&run).is_none());
}

#[test]
fn repository_count_ahead_behind_returns_none_without_upstream() {
    repository_without_upstream();
}

#[test]
fn status_count_ahead_behind_returns_none_without_upstream() {
    repository_without_upstream();
}

fn some_status(branch: &str) -> GitStatus {
    GitStatus {
        branch: Some(branch.to_string()),
        lines_added: 7,
        lines_removed: 3,
        pr_info: None,
        ci_checks: None,
        ahead: None,
        behind: None,
        unpushed: None,
    }
}

#[test]
fn transient_failures_keep_the_status() {
    let mut cache = StatusCache::new();
    assert_eq!(get_git_status(&cache, "/a"), None);
    assert_eq!(refresh_git_status(&mut cache, "/a", StatusFetch::Transient), None);

    let fresh = StatusFetch::Status(some_status("main"));
    assert_eq!(refresh_git_status(&mut cache, "/a", fresh), Some(&some_status("main")));
    assert_eq!(
        refresh_git_status(&mut cache, "/a", StatusFetch::Transient),
        Some(&some_status("main"))
    );
    // The same directory, written otherwise.
    assert_eq!(get_git_status(&cache, "/a/./"), Some(&some_status("main")));
    assert_eq!(get_git_status(&cache, "/b"), None);

    assert_eq!(refresh_git_status(&mut cache, "/a", StatusFetch::NotRepo), None);
    assert_eq!(refresh_git_status(&mut cache, "/a", StatusFetch::Transient), None);
}

#[test]
fn warming_up_never_replaces_a_status() {
    let mut cache = StatusCache::new();
    warm_branch_cache(&mut cache, "/a", None);
    assert_eq!(get_git_status(&cache, "/a"), None);
    warm_branch_cache(&mut cache, "/a", Some("main".to_string()));
    let warm = get_git_status(&cache, "/a").unwrap();
    assert_eq!(warm.branch.as_deref(), Some("main"));
    assert_eq!((warm.lines_added, warm.lines_removed), (0, 0));

    let _ = refresh_git_status(&mut cache, "/b", StatusFetch::Status(some_status("b")));
    warm_branch_cache(&mut cache, "/b", Some("other".to_string()));
    assert_eq!(get_git_status(&cache, "/b"), Some(&some_status("b")));

    // That a directory is in no repository is remembered, too.
    let _ = refresh_git_status(&mut cache, "/c", StatusFetch::NotRepo);
    warm_branch_cache(&mut cache, "/c", Some("main".to_string()));
    assert_eq!(get_git_status(&cache, "/c"), None);

    invalidate_cache(&mut cache, "/b");
    assert_eq!(get_git_status(&cache, "/b"), None);
    assert!(get_git_status(&cache, "/a").is_some());
}

// ---------------------------------------------------------------------------
// Changed lines
// ---------------------------------------------------------------------------

fn changed(path: &str, before: &[u8], after: &[u8]) -> ChangedFile {
    ChangedFile {
        path: path.as_bytes().to_vec(),
        before: before.to_vec(),
        after: after.to_vec(),
    }
}

fn stats_of(files: Vec<ChangedFile>, untracked: &[&str]) -> Option<(usize, usize)> {
    let contents = untracked.iter().map(|c| Some(c.to_string())).collect();
    get_diff_stats(&tracked_diff_counts(&files), &Some(contents))
}

#[test]
fn diff_stats_clean_repo_is_zero() {
    assert_eq!(stats_of(Vec::new(), &[]), Some((0, 0)));
}

#[test]
fn diff_stats_counts_modified_tracked_file() {
    // file.txt == "x" at HEAD (one line, no newline).
    // Full replacement of the single old line by three new ones.
    assert_eq!(stats_of(vec![changed("file.txt", b"x", b"a\nb\nc\n")], &[]), Some((3, 1)));
}

#[test]
fn diff_stats_dedups_staged_and_reworked_file() {
    // The path shows up twice, as staged and as edited again; it is counted
    // once, from HEAD ("x") to the live worktree.
    let item = |path: &str, untracked| {
        Some(StatusItem {
            path: path.as_bytes().to_vec(),
            untracked,
        })
    };
    let items = vec![item("file.txt", false), item("new.txt", true), item("file.txt", false)];
    let paths = changed_paths(&items).unwrap();
    assert_eq!(paths, vec![b"file.txt".to_vec()]);
    let files = paths
        .into_iter()
        .map(|path| ChangedFile {
            path,
            before: b"x".to_vec(),
            after: b"a\nb\nc\n".to_vec(),
        })
        .collect();
    assert_eq!(stats_of(files, &[]), Some((3, 1)));
}

#[test]
fn a_failed_walk_has_no_paths() {
    let item = StatusItem {
        path: b"a".to_vec(),
        untracked: false,
    };
    assert_eq!(changed_paths(&vec![Some(item), None]), None);
}

#[test]
fn diff_stats_counts_deleted_file_as_removals() {
    // The one committed line is gone, nothing added.
    assert_eq!(stats_of(vec![changed("file.txt", b"x", b"")], &[]), Some((0, 1)));
}

#[test]
fn diff_stats_counts_staged_new_file_once() {
    assert_eq!(stats_of(vec![changed("added.txt", b"", b"l1\nl2\n")], &[]), Some((2, 0)));
}

#[test]
fn diff_stats_treats_rename_as_delete_plus_add() {
    let files = vec![
        changed("orig.txt", b"l1\nl2\nl3\n", b""),
        changed("renamed.txt", b"", b"l1\nl2\nl3\n"),
    ];
    assert_eq!(stats_of(files, &[]), Some((3, 3)));
}

#[test]
fn diff_stats_matches_git_cli_numstat() {
    let files = vec![
        changed("keep.txt", b"1\n2\n3\n4\n5\n", b"1\n2\nTWO-AND-A-HALF\n3\n4\n5\n6\n"),
        changed("doomed.txt", b"x\ny\n", b""),
        changed("staged-new.txt", b"", b"p\nq\n"),
    ];
    let numstat = "0\t2\tdoomed.txt\n2\t0\tkeep.txt\n2\t0\tstaged-new.txt\n";
    let untracked = Some(vec![Some("u1\nu2\nu3\n".to_string())]);
    let cli = get_diff_stats(&numstat_counts(&printed(numstat)), &untracked);
    assert_eq!(cli, Some((7, 2)));
    assert_eq!(stats_of(files, &["u1\nu2\nu3\n"]), cli);
}

#[test]
fn diff_stats_skips_binary_files() {
    let counts = tracked_diff_counts(&vec![changed("file.txt", b"x", &[0, 1, 2, 0, 5])]).unwrap();
    assert_eq!(
        counts,
        vec![FileCounts {
            path: Some("file.txt".to_string()),
            added: 0,
            removed: 0,
        }]
    );
}

#[test]
fn binary_files_have_a_zero_near_the_start() {
    let mut bytes = vec![b'a'; 7999];
    assert!(!is_binary(&bytes));
    bytes.push(0);
    assert!(is_binary(&bytes));
    bytes.insert(0, b'a');
    assert!(!is_binary(&bytes));
    assert!(!is_binary(&Vec::new()));
}

#[test]
fn an_unchanged_file_counts_nothing() {
    let counts = tracked_diff_counts(&vec![changed("a", b"1\n2\n", b"1\n2\n")]).unwrap();
    assert_eq!((counts[0].added, counts[0].removed), (0, 0));
}

#[test]
fn numstat_is_read_line_by_line() {
    let counts = read_numstat("3\t1\tsrc/a.rs\n-\t-\tlogo.png\r\nnonsense\n4\t2\n");
    let all: Vec<(Option<&str>, usize, usize)> =
        counts.iter().map(|c| (c.path.as_deref(), c.added, c.removed)).collect();
    assert_eq!(
        all,
        [(Some("src/a.rs"), 3, 1), (Some("logo.png"), 0, 0), (None, 4, 2)]
    );
    assert_eq!(numstat_counts(&Err("x".to_string())), None);
    assert_eq!(
        numstat_command("/r", &ThreadLane::new()).args,
        ["-C", "/r", "diff", "--numstat", "--no-color", "--no-ext-diff", "HEAD"]
    );
}

#[test]
fn totals_that_do_not_fit_are_none() {
    let counts = |added| FileCounts {
        path: None,
        added,
        removed: 0,
    };
    let both = Some(vec![counts(usize::MAX), counts(1)]);
    assert_eq!(get_diff_stats(&both, &Some(Vec::new())), None);
    let one = Some(vec![counts(usize::MAX)]);
    assert_eq!(get_diff_stats(&one, &Some(vec![None])), Some((usize::MAX, 0)));
    assert_eq!(get_diff_stats(&one, &Some(vec![Some("a".to_string())])), None);
}

#[test]
fn file_summaries_are_ordered_by_path() {
    let known = Some(read_numstat("1\t2\tz.rs\n3\t4\tb.rs\n5\t6\n"));
    let untracked = vec![
        ("b.rs".to_string(), Some("x\ny".to_string())),
        ("B.rs".to_string(), None),
        ("\u{e9}.rs".to_string(), Some(String::new())),
    ];
    let all = get_diff_file_summary(&known, &untracked);
    let rows: Vec<(&str, usize, usize, bool)> =
        all.iter().map(|s| (s.path.as_str(), s.added, s.removed, s.is_new)).collect();
    assert_eq!(
        rows,
        [
            ("B.rs", 0, 0, true),
            ("b.rs", 3, 4, false),
            ("b.rs", 2, 0, true),
            ("z.rs", 1, 2, false),
            ("\u{e9}.rs", 0, 0, true),
        ]
    );
    assert!(get_diff_file_summary(&None, &Vec::new()).is_empty());
}

// ---------------------------------------------------------------------------
// Worktrees
// ---------------------------------------------------------------------------

fn head(path: Option<&str>, branch: Option<&str>) -> WorktreeHead {
    WorktreeHead {
        path: path.map(String::from),
        branch: branch.map(String::from),
    }
}

#[test]
fn list_git_worktrees_returns_empty_for_invalid_path() {
    assert!(list_git_worktrees(&Vec::new()).is_empty());
}

#[test]
fn list_git_worktrees_returns_main_plus_linked() {
    let heads = vec![
        head(Some("/r"), Some("main")),
        head(Some("/wt"), Some("feature")),
        head(Some("/detached"), None),
        head(None, Some("bare")),
    ];
    assert_eq!(
        list_git_worktrees(&heads),
        [
            ("/r".to_string(), "main".to_string()),
            ("/wt".to_string(), "feature".to_string()),
        ]
    );
}

#[test]
fn get_worktree_branches_returns_branch_names() {
    let heads = vec![head(Some("/r"), Some("main")), head(Some("/wt"), Some("feature"))];
    assert_eq!(get_worktree_branches(&heads), ["main", "feature"]);
}

#[test]
fn a_new_worktree_needs_no_cleaning() {
    let t = ThreadLane::new();
    let (mut creation, step) =
        create_worktree("/r", "b", "/wt", false, false, Some("main"), &t).unwrap();
    match step {
        Step::Run(command) => {
            assert_eq!(command.args, ["-C", "/r", "worktree", "add", "/wt", "b"]);
        }
        other => panic!("{:?}", other),
    }
    assert_eq!(creation.next(Event::Ran(printed(""))), Step::Done(Ok(())));
    assert_eq!(creation.phase, Phase::Finished);
}

#[test]
fn a_stale_directory_is_removed_first() {
    let t = ThreadLane::new();
    let (mut creation, step) =
        create_worktree("/r", "b", "/wt", true, true, Some("main"), &t).unwrap();
    let args = |step: Step| match step {
        Step::Run(command) => command.args,
        other => panic!("{:?}", other),
    };
    assert_eq!(args(step), ["-C", "/r", "worktree", "list", "--porcelain"]);
    let listing = "worktree /r\nHEAD abc\nbranch refs/heads/main\n\nworktree /other\n";
    assert_eq!(
        creation.next(Event::Ran(printed(listing))),
        Step::RemoveDir("/wt".to_string())
    );
    assert_eq!(args(creation.next(Event::Removed(Ok(())))), ["-C", "/r", "worktree", "prune"]);
    assert_eq!(
        args(creation.next(Event::Ran(Err("prune failed".to_string())))),
        ["-C", "/r", "fetch", "origin", "main"]
    );
    assert_eq!(
        args(creation.next(Event::Ran(Err("no network".to_string())))),
        ["-C", "/r", "worktree", "add", "-b", "b", "/wt", "origin/main"]
    );
    assert_eq!(
        creation.next(Event::Ran(Err("gone".to_string()))),
        Step::Done(Err(GitError::Io("gone".to_string())))
    );
}

#[test]
fn a_registered_worktree_is_kept() {
    let t = ThreadLane::new();
    let (mut creation, _) =
        create_worktree_with_start_point("/r", "b", "/x/../wt", Some("main"), true, &t).unwrap();
    assert!(lists_worktree("worktree /wt/\n", "/x/../wt"));
    assert_eq!(
        creation.next(Event::Ran(printed("worktree /wt\n"))),
        Step::Done(Err(GitError::WorktreeExists {
            path: "/x/../wt".to_string(),
        }))
    );
}

#[test]
fn a_directory_that_stays_ends_the_creation() {
    let t = ThreadLane::new();
    let (mut creation, _) =
        create_worktree_with_start_point("/r", "b", "/wt", None, true, &t).unwrap();
    let _ = creation.next(Event::Ran(printed("")));
    assert_eq!(
        creation.next(Event::Removed(Err("busy".to_string()))),
        Step::Done(Err(GitError::RemoveFailed {
            path: "/wt".to_string(),
            reason: "busy".to_string(),
        }))
    );
}

#[test]
fn new_worktrees_refuse_flag_like_refs() {
    let t = ThreadLane::new();
    let bad = Err(GitError::InvalidRef("-x".to_string()));
    assert_eq!(create_worktree("/r", "-x", "/wt", true, false, None, &t), bad);
    assert_eq!(
        create_worktree_with_start_point("/r", "b", "/wt", Some("-x"), false, &t),
        Err(GitError::InvalidRef("-x".to_string()))
    );
}

#[test]
fn worktrees_are_removed_by_git_or_by_hand() {
    let t = ThreadLane::new();
    assert_eq!(
        remove_worktree("/wt", true, &t).args,
        ["-C", "/wt", "worktree", "remove", "--force", "/wt"]
    );
    assert_eq!(
        remove_worktree("/wt", false, &t).args,
        ["-C", "/wt", "worktree", "remove", "/wt"]
    );
    assert_eq!(
        remove_worktree_fast("/wt", "/r", Removal::NotFound, &t).unwrap().args,
        ["-C", "/r", "worktree", "prune"]
    );
    assert!(remove_worktree_fast("/wt", "/r", Removal::Removed, &t).is_ok());
    assert_eq!(
        remove_worktree_fast("/wt", "/r", Removal::Failed("busy".to_string()), &t),
        Err(GitError::RemoveFailed {
            path: "/wt".to_string(),
            reason: "busy".to_string(),
        })
    );
    assert_eq!(after_prune(Err("x".to_string())), Err(GitError::Io("x".to_string())));
    let complained = Ok(CommandOutput {
        code: Some(1),
        stdout: Vec::new(),
        stderr: Vec::new(),
    });
    assert_eq!(after_prune(complained), Ok(()));
}

// ---------------------------------------------------------------------------
// Paths
// ---------------------------------------------------------------------------

#[test]
fn target_path_simple_repo() {
    let (wt, proj) = compute_target_paths("/projects/myrepo", "", "../{repo}-wt/{branch}", "feature");
    assert_eq!(wt, "/projects/myrepo-wt/feature");
    assert_eq!(proj, "/projects/myrepo-wt/feature");
}

#[test]
fn target_path_monorepo() {
    let (wt, proj) = compute_target_paths(
        "/projects/monorepo",
        "app-in-monorepo",
        "../{repo}-wt/{branch}",
        "feature",
    );
    assert_eq!(wt, "/projects/monorepo-wt/feature");
    assert_eq!(proj, "/projects/monorepo-wt/feature/app-in-monorepo");
}

#[test]
fn target_path_nested_monorepo_subdir() {
    let (wt, proj) = compute_target_paths(
        "/projects/monorepo",
        "packages/app",
        "../{repo}-wt/{branch}",
        "fix-bug",
    );
    assert_eq!(wt, "/projects/monorepo-wt/fix-bug");
    assert_eq!(proj, "/projects/monorepo-wt/fix-bug/packages/app");
}

#[test]
fn target_path_absolute_template() {
    let (wt, proj) = compute_target_paths(
        "/projects/monorepo",
        "app",
        "/tmp/worktrees/{repo}/{branch}",
        "main",
    );
    assert_eq!(wt, "/tmp/worktrees/monorepo/main");
    assert_eq!(proj, "/tmp/worktrees/monorepo/main/app");
}

#[test]
fn target_path_branch_with_slashes() {
    let (wt, proj) =
        compute_target_paths("/projects/repo", "", "../{repo}-wt/{branch}", "feature/my-branch");
    assert_eq!(wt, "/projects/repo-wt/feature-my-branch");
    assert_eq!(proj, "/projects/repo-wt/feature-my-branch");
}

#[test]
fn projects_lie_below_their_root() {
    assert_eq!(
        resolve_git_root_and_subdir("/repo/packages/./app/", Some("/repo")),
        ("/repo".to_string(), "packages/app".to_string())
    );
    assert_eq!(
        resolve_git_root_and_subdir("/repo", None),
        ("/repo".to_string(), String::new())
    );
    assert_eq!(
        resolve_git_root_and_subdir("/other", Some("/repo")),
        ("/repo".to_string(), String::new())
    );
    assert_eq!(project_path_in_worktree("/wt", ""), "/wt");
    assert_eq!(project_path_in_worktree("/wt", "a/b"), "/wt/a/b");
}

// ---------------------------------------------------------------------------
// The log
// ---------------------------------------------------------------------------

fn id(first: u8) -> Vec<u8> {
    let mut id = vec![first];
    id.extend([0x12, 0x34, 0x56, 0x78]);
    id
}

#[test]
fn hashes_are_lower_case_hexadecimal() {
    assert_eq!(get_head_sha(Some(&id(0xab))).as_deref(), Some("ab12345678"));
    assert_eq!(get_head_sha(None), None);
    assert_eq!(short_hash(&id(0x0f)), "0f12345");
    assert_eq!(short_hash(&vec![0xff]), "ff");
}

#[test]
fn labels_tell_what_points_at_a_commit() {
    let tip = |kind, name: &str, at: Option<Vec<u8>>| RefTip {
        kind,
        name: name.to_string(),
        id: at,
    };
    let tips = vec![
        tip(RefKind::Tag, "refs/tags/v1.0", Some(id(1))),
        tip(RefKind::LocalBranch, "refs/heads/main", Some(id(1))),
        tip(RefKind::LocalBranch, "refs/heads/other", Some(id(1))),
        tip(RefKind::RemoteBranch, "refs/remotes/origin/main", Some(id(1))),
        tip(RefKind::LocalBranch, "refs/heads/elsewhere", Some(id(2))),
        tip(RefKind::Tag, "refs/tags/broken", None),
    ];
    assert_eq!(
        labels_for(&tips, Some("refs/heads/main"), Some(&id(1)), &id(1)),
        ["HEAD -> main", "other", "origin/main", "tag: v1.0"]
    );
    assert_eq!(labels_for(&tips, None, Some(&id(2)), &id(2)), ["HEAD", "elsewhere"]);
    assert!(labels_for(&tips, None, None, &id(3)).is_empty());
}

#[test]
fn the_log_stops_at_its_limit_or_at_a_failure() {
    let commit = |first: u8, parents: Vec<Vec<u8>>| WalkedCommit {
        id: id(first),
        parents,
        text: Some(CommitText {
            title: Some(format!("commit {first}")),
            author: None,
            seconds: Some(100),
        }),
    };
    let unreadable = WalkedCommit {
        id: id(9),
        parents: Vec::new(),
        text: None,
    };
    let walk = vec![
        Some(commit(3, vec![id(2), id(1)])),
        Some(unreadable),
        None,
        Some(commit(1, Vec::new())),
    ];
    let log = fetch_commit_log(&walk, 10, &Vec::new(), None, Some(&id(3)));
    assert_eq!(log.len(), 2);
    assert_eq!(log[0].hash, "0312345");
    assert_eq!(log[0].parents, ["0212345", "0112345"]);
    assert_eq!(log[0].message, "commit 3");
    assert_eq!(log[0].author, "");
    assert_eq!(log[0].timestamp, 100);
    assert_eq!(log[0].refs, ["HEAD"]);
    assert_eq!((log[1].message.as_str(), log[1].timestamp), ("", 0));
    assert_eq!(fetch_commit_log(&walk, 1, &Vec::new(), None, None).len(), 1);
    assert!(fetch_commit_log(&walk, 0, &Vec::new(), None, None).is_empty());
}

fn found(path: &str, untracked: bool) -> Option<StatusItem> {
    Some(StatusItem {
        path: path.as_bytes().to_vec(),
        untracked,
    })
}

#[test]
fn repository_has_uncommitted_changes_returns_false_for_invalid_path() {
    assert!(!has_uncommitted_changes(&None));
}

#[test]
fn repository_has_uncommitted_detects_untracked() {
    assert!(has_uncommitted_changes(&Some(vec![found("untracked.txt", true)])));
}

#[test]
fn repository_has_uncommitted_detects_modified_tracked() {
    assert!(has_uncommitted_changes(&Some(vec![found("file.txt", false)])));
}

#[test]
fn repository_has_uncommitted_detects_staged_only() {
    let walk = vec![None, found("file.txt", false)];
    assert!(has_uncommitted_changes(&Some(walk)));
}

#[test]
fn repository_has_uncommitted_returns_false_for_clean_repo() {
    assert!(!has_uncommitted_changes(&Some(vec![])));
    assert!(!has_uncommitted_changes(&Some(vec![None])));
}

#[test]
fn status_has_uncommitted_changes_returns_false_for_invalid_path() {
    assert!(!has_uncommitted_changes(&None));
}

#[test]
fn status_has_uncommitted_detects_untracked() {
    assert!(has_uncommitted_changes(&Some(vec![found("untracked.txt", true)])));
}

#[test]
fn status_has_uncommitted_detects_modified_tracked() {
    assert!(has_uncommitted_changes(&Some(vec![found("file.txt", false)])));
}

#[test]
fn status_has_uncommitted_detects_staged_only() {
    let walk = vec![None, found("file.txt", false)];
    assert!(has_uncommitted_changes(&Some(walk)));
}

#[test]
fn status_has_uncommitted_returns_false_for_clean_repo() {
    assert!(!has_uncommitted_changes(&Some(vec![])));
    assert!(!has_uncommitted_changes(&Some(vec![None])));
}

#[test]
fn totals_are_the_sums_over_the_files() {
    let counts = |path: &str, added, removed| FileCounts {
        path: Some(path.to_string()),
        added,
        removed,
    };
    let known = Some(vec![counts("b", 3, 1), counts("a", 2, 0)]);
    let untracked = vec![
        ("c".to_string(), Some("x\ny".to_string())),
        ("a".to_string(), None),
    ];
    let contents = Some(untracked.iter().map(|file| file.1.clone()).collect());
    let files = get_diff_file_summary(&known, &untracked);
    let added: usize = files.iter().map(|f| f.added).sum();
    let removed: usize = files.iter().map(|f| f.removed).sum();
    assert_eq!((added, removed), (7, 1));
    assert_eq!(get_diff_stats(&known, &contents), Some((added, removed)));
}

#[test]
fn root_and_subdir_lead_back_to_the_project() {
    for (project, root) in [
        ("/repo/packages/app", "/repo"),
        ("/repo/./packages/../packages/app/", "/repo/x/.."),
        ("/repo", "/repo/"),
        ("/repo", "/"),
        ("a/b", "."),
    ] {
        let (found, subdir) = resolve_git_root_and_subdir(project, Some(root));
        assert_eq!(found, root);
        assert!(!subdir.starts_with('/'), "{subdir}");
        assert_eq!(normalize_path(&join_path(root, &subdir)), normalize_path(project));
    }
    let own = resolve_git_root_and_subdir("/p/q", None);
    assert_eq!(own, ("/p/q".to_string(), String::new()));
}

#[test]
fn branches_keep_their_whole_name() {
    let current = |name: &str| get_current_branch(Some(name), None);
    assert_eq!(
        current("refs/heads/feat/header-redesign").as_deref(),
        Some("feat/header-redesign")
    );
    assert_eq!(current("refs/heads/a_b-C9").as_deref(), Some("a_b-C9"));
    assert_eq!(current("refs/heads//x"), None);
}

#[test]
fn untracked_files_are_told_apart() {
    let walk = vec![found("new", true), found("old", false), found("more", true)];
    assert_eq!(untracked_paths(&walk), Some(vec![b"new".to_vec(), b"more".to_vec()]));
    assert_eq!(untracked_paths(&vec![found("new", true), None]), None);
    assert_eq!(untracked_paths(&vec![]), Some(vec![]));
}
