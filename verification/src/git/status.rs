//! The status of working directories, and what is remembered of it.

use crate::git::commands::git_model;
use crate::git::types::GitStatus;
use crate::path::{components_seq, same_path};
use crate::process::command::{CommandOutput, CommandSpec, ThreadLane};
use crate::text::{
    blanks_part_words, concat3, decimal, decimal_digits, decimal_reads_back, is_digit,
    one_word_is_itself, parse_unsigned, parse_unsigned_seq, text_lossy, utf8_lossy, white_space, words, words_seq,
};
use vstd::prelude::*;

verus! {

broadcast use vstd::string::group_string_axioms;

// ---------------------------------------------------------------------------
// A fresh status
// ---------------------------------------------------------------------------

/// What came of asking for a status.
#[derive(Clone, Debug, PartialEq, Eq)]
pub enum StatusFetch {
    Status(GitStatus),
    /// The directory is not in a repository.
    NotRepo,
    /// It could not be told this time: what was known before stands.
    Transient,
}

/// The status of a working directory, from what was read of it. `diff_stats`
/// holds the lines added and removed, where they could be counted, and
/// `ahead_behind` the commits on either side of the upstream.
pub fn get_status(
    is_repo: bool,
    branch: Option<String>,
    diff_stats: Option<(usize, usize)>,
    ahead_behind: Option<(usize, usize)>,
    unpushed: Option<usize>,
) -> (r: StatusFetch)
    ensures
        r == (if !is_repo {
            StatusFetch::NotRepo
        } else {
            match diff_stats {
                Some((lines_added, lines_removed)) => StatusFetch::Status(
                    GitStatus {
                        branch,
                        lines_added,
                        lines_removed,
                        pr_info: None,
                        ci_checks: None,
                        ahead: match ahead_behind {
                            Some((ahead, _)) => Some(ahead),
                            None => None,
                        },
                        behind: match ahead_behind {
                            Some((_, behind)) => Some(behind),
                            None => None,
                        },
                        unpushed,
                    },
                ),
                None => StatusFetch::Transient,
            }
        }),
{
    if !is_repo {
        return StatusFetch::NotRepo;
    }
    let (lines_added, lines_removed): (usize, usize) = match diff_stats {
        Some(counts) => counts,
        None => return StatusFetch::Transient,
    };
    let (ahead, behind): (Option<usize>, Option<usize>) = match ahead_behind {
        Some((a, b)) => (Some(a), Some(b)),
        None => (None, None),
    };
    StatusFetch::Status(
        GitStatus {
            branch,
            lines_added,
            lines_removed,
            pr_info: None,
            ci_checks: None,
            ahead,
            behind,
            unpushed,
        },
    )
}

/// The command that counts the commits on either side of the upstream.
pub fn ahead_behind_command(path: &str, branch: &str, thread: &ThreadLane) -> (r: CommandSpec)
    ensures
        r.deep_view() == git_model(
            seq![
                "-C"@,
                path@,
                "rev-list"@,
                "--left-right"@,
                "--count"@,
                branch@ + "@{upstream}..."@ + branch@,
            ],
            thread.lane,
        ),
{
    let revisions: String = concat3(branch, "@{upstream}...", branch);
    let r: CommandSpec = CommandSpec::new("git", thread).arg("-C").arg(path).arg("rev-list").arg(
        "--left-right",
    ).arg("--count").arg(revisions.as_str());
    assert(r.deep_view().args == seq![
        "-C"@,
        path@,
        "rev-list"@,
        "--left-right"@,
        "--count"@,
        branch@ + "@{upstream}..."@ + branch@,
    ]);
    r
}

/// The commits ahead and behind that a text tells: it gives those behind first.
pub open spec fn ahead_behind_of(text: Seq<char>) -> Option<(nat, nat)> {
    let parts = words_seq(text);
    if parts.len() < 2 {
        None
    } else {
        match (
            parse_unsigned_seq(parts[0], usize::MAX as nat),
            parse_unsigned_seq(parts[1], usize::MAX as nat),
        ) {
            (Some(behind), Some(ahead)) => Some((ahead, behind)),
            _ => None,
        }
    }
}

/// The commits ahead of the upstream and behind it, where git told them.
pub fn count_ahead_behind(run: &Result<CommandOutput, String>) -> (r: Option<(usize, usize)>)
    ensures
        match *run {
            Ok(output) => if output.code == Some(0i32) {
                match r {
                    Some((ahead, behind)) => ahead_behind_of(utf8_lossy(output.stdout@)) == Some(
                        (ahead as nat, behind as nat),
                    ),
                    None => ahead_behind_of(utf8_lossy(output.stdout@)) is None,
                }
            } else {
                r is None
            },
            Err(_) => r is None,
        },
{
    let output: &CommandOutput = match run {
        Ok(output) => output,
        Err(_) => return None,
    };
    if !output.success() {
        return None;
    }
    let parts: Vec<String> = words(text_lossy(&output.stdout).as_str());
    let ghost model = parts.deep_view();
    if parts.len() < 2 {
        return None;
    }
    assert(model[0] == parts@[0]@ && model[1] == parts@[1]@);
    match (
        parse_unsigned(parts[0].as_str(), usize::MAX as u64),
        parse_unsigned(parts[1].as_str(), usize::MAX as u64),
    ) {
        (Some(behind), Some(ahead)) => Some((ahead as usize, behind as usize)),
        _ => None,
    }
}

// ---------------------------------------------------------------------------
// What is remembered
// ---------------------------------------------------------------------------

/// The status of each directory that was asked about; `None` for one that is in
/// no repository.
#[derive(Debug)]
pub struct StatusCache {
    entries: Vec<(String, Option<GitStatus>)>,
}

/// The entry of a path among the first `n`: the last one.
spec fn entry_of(entries: Seq<(String, Option<GitStatus>)>, path: Seq<char>, n: int) -> Option<
    Option<GitStatus>,
>
    decreases n,
{
    if n <= 0 {
        None
    } else if components_seq(entries[n - 1].0@) == components_seq(path) {
        Some(entries[n - 1].1)
    } else {
        entry_of(entries, path, n - 1)
    }
}

impl StatusCache {
    /// What is remembered of a directory; `None` where nothing is.
    pub closed spec fn entry(&self, path: Seq<char>) -> Option<Option<GitStatus>> {
        entry_of(self.entries@, path, self.entries@.len() as int)
    }

    /// Whether this is the cache `before` with one entry changed.
    pub open spec fn differs_at(
        &self,
        before: StatusCache,
        path: Seq<char>,
        entry: Option<Option<GitStatus>>,
    ) -> bool {
        forall|other: Seq<char>| #[trigger]
            self.entry(other) == (if components_seq(other) == components_seq(path) {
                entry
            } else {
                before.entry(other)
            })
    }

    /// Nothing is remembered yet.
    pub fn new() -> (r: StatusCache)
        ensures
            forall|path: Seq<char>| #[trigger] r.entry(path) is None,
    {
        StatusCache { entries: Vec::new() }
    }

    fn forget(&mut self, path: &str)
        ensures
            final(self).differs_at(*old(self), path@, None),
    {
        let mut rest: Vec<(String, Option<GitStatus>)> = Vec::new();
        std::mem::swap(&mut rest, &mut self.entries);
        let ghost all = rest@;
        while rest.len() > 0
            invariant
                rest@.len() <= all.len(),
                rest@ == all.take(rest@.len() as int),
                forall|other: Seq<char>|
                    components_seq(other) != components_seq(path@) ==> entry_of(
                        all,
                        other,
                        all.len() as int,
                    ) == #[trigger] entry_above(self.entries@, rest@, other),
                forall|i: int|
                    0 <= i < self.entries@.len() ==> components_seq(
                        (#[trigger] self.entries@[i]).0@,
                    ) != components_seq(path@),
            decreases rest@.len(),
        {
            let ghost kept = self.entries@;
            let ghost before = rest@;
            match rest.pop() {
                Some(entry) => {
                    if !same_path(entry.0.as_str(), path) {
                        self.entries.insert(0, entry);
                        proof {
                            assert forall|other: Seq<char>| #[trigger]
                                entry_above(self.entries@, rest@, other) == entry_above(
                                kept,
                                before,
                                other,
                            ) by {
                                entry_moves_up(kept, before, other);
                                assert(kept.insert(0, before.last()) == self.entries@);
                                assert(before.drop_last() == rest@);
                            }
                        }
                    } else {
                        proof {
                            assert forall|other: Seq<char>|
                                components_seq(other) != components_seq(path@) implies #[trigger]
                                entry_above(self.entries@, rest@, other) == entry_above(
                                kept,
                                before,
                                other,
                            ) by {
                                entry_of_prefix(before, rest@, other, rest@.len() as int);
                            }
                        }
                    }
                },
                None => {},
            }
        }
        proof {
            assert forall|other: Seq<char>| #[trigger]
                self.entry(other) == (if components_seq(other) == components_seq(path@) {
                    None
                } else {
                    old(self).entry(other)
                }) by {
                if components_seq(other) == components_seq(path@) {
                    no_entry(self.entries@, other, self.entries@.len() as int);
                } else {
                    assert(entry_above(self.entries@, rest@, other) == self.entry(other));
                }
            }
        }
    }

    fn remember(&mut self, path: &str, status: Option<GitStatus>)
        ensures
            final(self).differs_at(*old(self), path@, Some(status)),
    {
        self.forget(path);
        let ghost forgot = *self;
        let ghost before = self.entries@;
        self.entries.push((path.to_owned(), status));
        proof {
            assert(before == self.entries@.take(before.len() as int));
            assert forall|other: Seq<char>| #[trigger]
                self.entry(other) == (if components_seq(other) == components_seq(path@) {
                    Some(status)
                } else {
                    old(self).entry(other)
                }) by {
                entry_of_prefix(self.entries@, before, other, before.len() as int);
                assert(forgot.entry(other) == entry_of(before, other, before.len() as int));
            }
        }
    }
}

/// The entry of a path in `upper` or, where it has none, in `lower`.
spec fn entry_above(
    upper: Seq<(String, Option<GitStatus>)>,
    lower: Seq<(String, Option<GitStatus>)>,
    path: Seq<char>,
) -> Option<Option<GitStatus>> {
    match entry_of(upper, path, upper.len() as int) {
        Some(entry) => Some(entry),
        None => entry_of(lower, path, lower.len() as int),
    }
}

proof fn entry_of_prefix(
    longer: Seq<(String, Option<GitStatus>)>,
    shorter: Seq<(String, Option<GitStatus>)>,
    path: Seq<char>,
    n: int,
)
    requires
        0 <= n <= shorter.len() <= longer.len(),
        shorter == longer.take(shorter.len() as int),
    ensures
        entry_of(longer, path, n) == entry_of(shorter, path, n),
    decreases n,
{
    if n > 0 {
        assert(shorter[n - 1] == longer[n - 1]);
        entry_of_prefix(longer, shorter, path, n - 1);
    }
}

proof fn no_entry(entries: Seq<(String, Option<GitStatus>)>, path: Seq<char>, n: int)
    requires
        0 <= n <= entries.len(),
        forall|i: int|
            0 <= i < entries.len() ==> components_seq((#[trigger] entries[i]).0@)
                != components_seq(path),
    ensures
        entry_of(entries, path, n) is None,
    decreases n,
{
    if n > 0 {
        no_entry(entries, path, n - 1);
    }
}

proof fn entry_moves_up(
    upper: Seq<(String, Option<GitStatus>)>,
    lower: Seq<(String, Option<GitStatus>)>,
    path: Seq<char>,
)
    requires
        lower.len() > 0,
    ensures
        entry_above(upper.insert(0, lower.last()), lower.drop_last(), path) == entry_above(
            upper,
            lower,
            path,
        ),
{
    entry_of_inserted(upper, lower.last(), path, upper.len() as int);
    entry_of_prefix(lower, lower.drop_last(), path, lower.len() - 1);
}

proof fn entry_of_inserted(
    upper: Seq<(String, Option<GitStatus>)>,
    entry: (String, Option<GitStatus>),
    path: Seq<char>,
    n: int,
)
    requires
        0 <= n <= upper.len(),
    ensures
        entry_of(upper.insert(0, entry), path, n + 1) == (match entry_of(upper, path, n) {
            Some(found) => Some(found),
            None => if components_seq(entry.0@) == components_seq(path) {
                Some(entry.1)
            } else {
                None
            },
        }),
    decreases n,
{
    let longer = upper.insert(0, entry);
    if n > 0 {
        assert(longer[n] == upper[n - 1]);
        entry_of_inserted(upper, entry, path, n - 1);
    } else {
        assert(longer[0] == entry);
        assert(entry_of(longer, path, 0) is None);
    }
}

/// The status that is remembered of a directory.
pub open spec fn known_status(entry: Option<Option<GitStatus>>) -> Option<GitStatus> {
    match entry {
        Some(status) => status,
        None => None,
    }
}

/// The status that is remembered of a directory; `None` where it is in no
/// repository, or nothing is remembered yet.
pub fn get_git_status<'a>(cache: &'a StatusCache, path: &str) -> (r: Option<&'a GitStatus>)
    ensures
        match r {
            Some(status) => known_status(cache.entry(path@)) == Some(*status),
            None => known_status(cache.entry(path@)) is None,
        },
{
    let mut i: usize = cache.entries.len();
    while i > 0
        invariant
            i <= cache.entries@.len(),
            entry_of(cache.entries@, path@, i as int) == cache.entry(path@),
        decreases i,
    {
        i = i - 1;
        if same_path(cache.entries[i].0.as_str(), path) {
            return match &cache.entries[i].1 {
                Some(status) => Some(status),
                None => None,
            };
        }
    }
    None
}

fn is_cached(cache: &StatusCache, path: &str) -> (r: bool)
    ensures
        r == (cache.entry(path@) is Some),
{
    let mut i: usize = cache.entries.len();
    while i > 0
        invariant
            i <= cache.entries@.len(),
            entry_of(cache.entries@, path@, i as int) == cache.entry(path@),
        decreases i,
    {
        i = i - 1;
        if same_path(cache.entries[i].0.as_str(), path) {
            return true;
        }
    }
    false
}

/// What a fresh reading leaves to remember.
pub open spec fn refreshed(entry: Option<Option<GitStatus>>, fetch: StatusFetch) -> Option<
    Option<GitStatus>,
> {
    match fetch {
        StatusFetch::Status(status) => Some(Some(status)),
        StatusFetch::NotRepo => Some(None),
        StatusFetch::Transient => entry,
    }
}

/// Remembers a fresh reading, and tells the status that is known now. A reading
/// that failed for the moment changes nothing.
pub fn refresh_git_status<'a>(cache: &'a mut StatusCache, path: &str, fetch: StatusFetch) -> (r:
    Option<&'a GitStatus>)
    ensures
        final(cache).differs_at(*old(cache), path@, refreshed(old(cache).entry(path@), fetch)),
        match r {
            Some(status) => known_status(refreshed(old(cache).entry(path@), fetch)) == Some(
                *status,
            ),
            None => known_status(refreshed(old(cache).entry(path@), fetch)) is None,
        },
{
    let ghost before = *cache;
    match fetch {
        StatusFetch::Status(status) => cache.remember(path, Some(status)),
        StatusFetch::NotRepo => cache.remember(path, None),
        StatusFetch::Transient => {
            proof {
                assert forall|other: Seq<char>| #[trigger]
                    before.entry(other) == (if components_seq(other) == components_seq(path@) {
                        before.entry(path@)
                    } else {
                        before.entry(other)
                    }) by {
                    if components_seq(other) == components_seq(path@) {
                        same_entry(before.entries@, other, path@, before.entries@.len() as int);
                    }
                }
            }
        },
    }
    get_git_status(cache, path)
}

proof fn same_entry(
    entries: Seq<(String, Option<GitStatus>)>,
    a: Seq<char>,
    b: Seq<char>,
    n: int,
)
    requires
        components_seq(a) == components_seq(b),
    ensures
        entry_of(entries, a, n) == entry_of(entries, b, n),
    decreases n,
{
    if n > 0 {
        same_entry(entries, a, b, n - 1);
    }
}

/// A status of which only the branch is known.
pub open spec fn is_branch_status(status: GitStatus, branch: Seq<char>) -> bool {
    &&& status.branch.deep_view() == Some(branch)
    &&& status.lines_added == 0
    &&& status.lines_removed == 0
    &&& status.pr_info is None
    &&& status.ci_checks is None
    &&& status.ahead is None
    &&& status.behind is None
    &&& status.unpushed is None
}

/// Remembers the branch of a directory of which nothing is remembered yet.
pub fn warm_branch_cache(cache: &mut StatusCache, path: &str, branch: Option<String>)
    ensures
        match branch {
            Some(name) if old(cache).entry(path@) is None => exists|status: GitStatus|
                is_branch_status(status, name@) && #[trigger] final(cache).differs_at(
                    *old(cache),
                    path@,
                    Some(Some(status)),
                ),
            _ => *final(cache) == *old(cache),
        },
{
    if is_cached(cache, path) {
        return;
    }
    if let Some(name) = branch {
        let ghost text = name@;
        let status: GitStatus = GitStatus {
            branch: Some(name),
            lines_added: 0,
            lines_removed: 0,
            pr_info: None,
            ci_checks: None,
            ahead: None,
            behind: None,
            unpushed: None,
        };
        assert(is_branch_status(status, text));
        cache.remember(path, Some(status));
    }
}

/// Forgets a directory.
pub fn invalidate_cache(cache: &mut StatusCache, path: &str)
    ensures
        final(cache).differs_at(*old(cache), path@, None),
{
    cache.forget(path);
}

// ---------------------------------------------------------------------------
// Laws
// ---------------------------------------------------------------------------

/// A reading that fails for the moment never takes a known status away, and any
/// other reading is what is known next.
pub proof fn transient_failures_keep_the_status(
    before: StatusCache,
    after: StatusCache,
    path: Seq<char>,
    fetch: StatusFetch,
)
    requires
        after.differs_at(before, path, refreshed(before.entry(path), fetch)),
    ensures
        fetch is Transient ==> after.entry(path) == before.entry(path),
        fetch matches StatusFetch::Status(status) ==> known_status(after.entry(path)) == Some(
            status,
        ),
        fetch is NotRepo ==> known_status(after.entry(path)) is None,
        forall|other: Seq<char>|
            components_seq(other) != components_seq(path) ==> #[trigger] after.entry(other)
                == before.entry(other),
{
}

/// Of two numbers with a blank between them the first says how far the branch is
/// behind its upstream and the second how far it is ahead, whatever blanks follow.
pub proof fn ahead_and_behind_are_told_apart(behind: nat, blank: char, ahead: nat)
    requires
        behind <= usize::MAX,
        ahead <= usize::MAX,
        white_space(blank),
        forall|c: char| is_digit(c) ==> !#[trigger] white_space(c),
    ensures
        ahead_behind_of(decimal(behind).push(blank) + decimal(ahead)) == Some((ahead, behind)),
        ahead_behind_of((decimal(behind).push(blank) + decimal(ahead)).push(blank)) == Some(
            (ahead, behind),
        ),
        ahead_behind_of(decimal(ahead)) is None,
{
    let text = decimal(behind).push(blank) + decimal(ahead);
    decimal_digits(behind);
    decimal_digits(ahead);
    decimal_reads_back(behind, usize::MAX as nat);
    decimal_reads_back(ahead, usize::MAX as nat);
    one_word_is_itself(decimal(behind));
    one_word_is_itself(decimal(ahead));
    blanks_part_words(decimal(behind), blank, decimal(ahead));
    assert(words_seq(text) == seq![decimal(behind), decimal(ahead)]);
    assert(text.push(blank).drop_last() == text);
}

/// A status that was asked for and told is what is found under the directory from
/// then on, until the next one; whoever asks elsewhere finds what was there.
pub proof fn told_status_is_found(
    before: StatusCache,
    after: StatusCache,
    later: StatusCache,
    path: Seq<char>,
    other: Seq<char>,
    status: GitStatus,
)
    requires
        after.differs_at(before, path, refreshed(before.entry(path), StatusFetch::Status(status))),
        later.differs_at(after, path, refreshed(after.entry(path), StatusFetch::Transient)),
        components_seq(other) != components_seq(path),
    ensures
        known_status(after.entry(path)) == Some(status),
        known_status(later.entry(path)) == Some(status),
        later.entry(other) == before.entry(other),
{
}

/// Nothing is known of a directory once it was forgotten.
pub proof fn forgotten_status_is_unknown(before: StatusCache, after: StatusCache, path: Seq<char>)
    requires
        after.differs_at(before, path, None),
    ensures
        known_status(after.entry(path)) is None,
        after.entry(path) is None,
{
}

/// A status that tells the branch alone tells nothing else: no changes, no requests and
/// no commits.
pub proof fn branch_statuses_tell_the_branch(status: GitStatus, branch: Seq<char>)
    requires
        is_branch_status(status, branch),
    ensures
        status.branch is Some && status.branch->0@ == branch,
        status.lines_added + status.lines_removed == 0,
        status.pr_info is None && status.ci_checks is None,
        status.ahead is None && status.behind is None && status.unpushed is None,
{
}

} // verus!
