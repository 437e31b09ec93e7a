//! How many lines changed, in all and file by file.

use crate::git::commands::git_model;
use crate::git::types::FileDiffSummary;
use crate::process::command::{CommandOutput, CommandSpec, ThreadLane};
use crate::text::{
    comes_before, decimal, decimal_lacks, decimal_reads_back, join_seq, join_splits_back, less, lines, lines_seq, order_is_total, order_is_transitive, parse_unsigned,
    parse_unsigned_seq, split, split_seq, text_lossy, utf8_lossy,
};
use vstd::prelude::*;

verus! {

broadcast use vstd::string::group_string_axioms;

// ---------------------------------------------------------------------------
// Two versions of a file
// ---------------------------------------------------------------------------

/// How many line feeds there are.
pub open spec fn line_feeds(bytes: Seq<u8>) -> nat
    decreases bytes.len(),
{
    if bytes.len() == 0 {
        0
    } else {
        line_feeds(bytes.drop_last()) + (if bytes.last() == 10 {
            1nat
        } else {
            0
        })
    }
}

/// How many lines there are; the last one need not end in a line feed.
pub open spec fn byte_lines(bytes: Seq<u8>) -> nat {
    line_feeds(bytes) + (if bytes.len() > 0 && bytes.last() != 10 {
        1nat
    } else {
        0
    })
}

/// Whether a file is small enough for a diff.
pub open spec fn is_diffable(bytes: Seq<u8>) -> bool {
    bytes.len() <= usize::MAX / 20 && byte_lines(bytes) < i32::MAX
}

fn can_be_diffed(bytes: &Vec<u8>) -> (r: bool)
    ensures
        r == is_diffable(bytes@),
{
    let n: usize = bytes.len();
    let mut feeds: usize = 0;
    let mut i: usize = 0;
    while i < n
        invariant
            i <= n == bytes@.len(),
            feeds <= i,
            feeds == line_feeds(bytes@.take(i as int)),
        decreases n - i,
    {
        assert(bytes@.take(i + 1).drop_last() == bytes@.take(i as int));
        if bytes[i] == 10 {
            feeds = feeds + 1;
        }
        i = i + 1;
    }
    assert(bytes@.take(n as int) == bytes@);
    if n > usize::MAX / 20 {
        return false;
    }
    if n > 0 && bytes[n - 1] != 10 {
        (feeds as u64) + 1 < i32::MAX as u64
    } else {
        (feeds as u64) < i32::MAX as u64
    }
}

/// The lines that a diff adds and removes, from one version of a file to
/// another.
pub uninterp spec fn line_changes(before: Seq<u8>, after: Seq<u8>) -> (u32, u32);

/// `gix::diff::blob::diff_with_slider_heuristics` with the histogram algorithm
/// on the lines of both versions: how many lines it adds, and how many it
/// removes. It refuses versions with more lines than an `i32` holds. Which lines
/// these are is left unsaid.
#[verifier::external_body]
fn diff_line_counts(before: &Vec<u8>, after: &Vec<u8>) -> (r: (u32, u32))
    requires
        is_diffable(before@),
        is_diffable(after@),
    ensures
        r == line_changes(before@, after@),
{
    let input = gix::diff::blob::InternedInput::new(
        gix::diff::blob::sources::byte_lines(before),
        gix::diff::blob::sources::byte_lines(after),
    );
    let diff = gix::diff::blob::diff_with_slider_heuristics(
        gix::diff::blob::Algorithm::Histogram,
        &input,
    );
    (diff.count_additions(), diff.count_removals())
}

/// Whether bytes are those of a binary file: there is a zero among the first
/// 8000.
pub open spec fn is_binary_content(bytes: Seq<u8>) -> bool {
    exists|i: int| 0 <= i < bytes.len() && i < 8000 && #[trigger] bytes[i] == 0
}

/// Whether bytes are those of a binary file.
pub fn is_binary(bytes: &Vec<u8>) -> (r: bool)
    ensures
        r == is_binary_content(bytes@),
{
    let mut i: usize = 0;
    while i < bytes.len() && i < 8000
        invariant
            i <= bytes@.len(),
            forall|j: int| 0 <= j < i ==> bytes@[j] != 0,
        decreases bytes@.len() - i,
    {
        if bytes[i] == 0 {
            return true;
        }
        i = i + 1;
    }
    false
}

/// A tracked file that differs from HEAD.
#[derive(Clone, Debug, PartialEq, Eq)]
pub struct ChangedFile {
    /// Relative to the root of the repository.
    pub path: Vec<u8>,
    /// Its content at HEAD; empty where there is none.
    pub before: Vec<u8>,
    /// Its content in the working directory; empty where there is none.
    pub after: Vec<u8>,
}

/// The lines added and removed in a file.
#[derive(Clone, Debug, PartialEq, Eq)]
pub struct FileCounts {
    /// The file, where it is known.
    pub path: Option<String>,
    pub added: usize,
    pub removed: usize,
}

/// A [`FileCounts`] with its path as a sequence.
pub struct CountsModel {
    pub path: Option<Seq<char>>,
    pub added: nat,
    pub removed: nat,
}

impl DeepView for FileCounts {
    type V = CountsModel;

    open spec fn deep_view(&self) -> CountsModel {
        CountsModel {
            path: self.path.deep_view(),
            added: self.added as nat,
            removed: self.removed as nat,
        }
    }
}

/// Whether a file counts as binary, in one version or the other.
pub open spec fn is_binary_change(file: ChangedFile) -> bool {
    is_binary_content(file.before@) || is_binary_content(file.after@)
}

/// Whether the changed lines of a file can be counted.
pub open spec fn is_countable(file: ChangedFile) -> bool {
    is_binary_change(file) || (is_diffable(file.before@) && is_diffable(file.after@))
}

/// The lines added and removed in a file: none in a binary one.
pub open spec fn counts_of(file: ChangedFile) -> CountsModel {
    let changes = line_changes(file.before@, file.after@);
    CountsModel {
        path: Some(utf8_lossy(file.path@)),
        added: if is_binary_change(file) {
            0
        } else {
            changes.0 as nat
        },
        removed: if is_binary_change(file) {
            0
        } else {
            changes.1 as nat
        },
    }
}

/// The lines added and removed in each tracked file; `None` where a file has
/// more lines than can be counted.
pub fn tracked_diff_counts(files: &Vec<ChangedFile>) -> (r: Option<Vec<FileCounts>>)
    ensures
        match r {
            Some(counts) => {
                &&& forall|i: int| 0 <= i < files@.len() ==> is_countable(#[trigger] files@[i])
                &&& counts.deep_view() == files@.map_values(|file: ChangedFile| counts_of(file))
            },
            None => exists|i: int| 0 <= i < files@.len() && !is_countable(#[trigger] files@[i]),
        },
{
    let mut r: Vec<FileCounts> = Vec::new();
    let mut i: usize = 0;
    while i < files.len()
        invariant
            i <= files@.len(),
            r@.len() == i,
            forall|j: int| 0 <= j < i ==> is_countable(#[trigger] files@[j]),
            forall|j: int| 0 <= j < i ==> (#[trigger] r@[j]).deep_view() == counts_of(files@[j]),
        decreases files@.len() - i,
    {
        let file: &ChangedFile = &files[i];
        let name: String = text_lossy(&file.path);
        if is_binary(&file.before) || is_binary(&file.after) {
            r.push(FileCounts { path: Some(name), added: 0, removed: 0 });
        } else {
            if !can_be_diffed(&file.before) || !can_be_diffed(&file.after) {
                assert(!is_countable(files@[i as int]));
                return None;
            }
            let (added, removed): (u32, u32) = diff_line_counts(&file.before, &file.after);
            r.push(
                FileCounts { path: Some(name), added: added as usize, removed: removed as usize },
            );
        }
        i = i + 1;
    }
    assert(r.deep_view() == files@.map_values(|file: ChangedFile| counts_of(file)));
    Some(r)
}

// ---------------------------------------------------------------------------
// The files that changed
// ---------------------------------------------------------------------------

/// A file that git found to differ, from HEAD or from the index.
#[derive(Clone, Debug, PartialEq, Eq)]
pub struct StatusItem {
    pub path: Vec<u8>,
    pub untracked: bool,
}

/// Whether a path is that of a tracked file among the items.
pub open spec fn is_tracked(items: Seq<Option<StatusItem>>, path: Seq<u8>) -> bool {
    exists|i: int|
        0 <= i < items.len() && (#[trigger] items[i] matches Some(item) && !item.untracked
            && item.path@ == path)
}

/// Whether anything in a working directory differs from HEAD, untracked files
/// counted. `items` are what the walk over the directory gave, an error as
/// `None`; the whole is `None` where there was no walk.
pub fn has_uncommitted_changes(items: &Option<Vec<Option<StatusItem>>>) -> (r: bool)
    ensures
        r <==> (items matches Some(all) && exists|i: int|
            0 <= i < all@.len() && #[trigger] all@[i] is Some),
{
    let all: &Vec<Option<StatusItem>> = match items {
        Some(all) => all,
        None => return false,
    };
    let mut i: usize = 0;
    while i < all.len()
        invariant
            i <= all@.len(),
            *items == Some(*all),
            forall|j: int| 0 <= j < i ==> #[trigger] all@[j] is None,
        decreases all@.len() - i,
    {
        if all[i].is_some() {
            assert(all@[i as int] is Some);
            return true;
        }
        i = i + 1;
    }
    false
}

/// The untracked files among the items, in order; `None` where a step of the walk
/// failed.
pub open spec fn untracked_of(items: Seq<Option<StatusItem>>) -> Option<Seq<Seq<u8>>>
    decreases items.len(),
{
    if items.len() == 0 {
        Some(Seq::empty())
    } else {
        match (untracked_of(items.drop_last()), items.last()) {
            (Some(before), Some(item)) => if item.untracked {
                Some(before.push(item.path@))
            } else {
                Some(before)
            },
            _ => None,
        }
    }
}

proof fn failed_walk(items: Seq<Option<StatusItem>>, n: int)
    requires
        0 <= n <= items.len(),
        untracked_of(items.take(n)) is None,
    ensures
        untracked_of(items) is None,
    decreases items.len(),
{
    if n == items.len() {
        assert(items.take(n) == items);
    } else {
        assert(items.drop_last().take(n) == items.take(n));
        failed_walk(items.drop_last(), n);
    }
}

/// The untracked files among the items.
pub fn untracked_paths(items: &Vec<Option<StatusItem>>) -> (r: Option<Vec<Vec<u8>>>)
    ensures
        r.deep_view() == untracked_of(items@),
{
    let mut r: Vec<Vec<u8>> = Vec::new();
    let mut i: usize = 0;
    assert(untracked_of(items@.take(0)) == Some(r.deep_view()));
    while i < items.len()
        invariant
            i <= items@.len(),
            untracked_of(items@.take(i as int)) == Some(r.deep_view()),
        decreases items@.len() - i,
    {
        let ghost before = r.deep_view();
        assert(items@.take(i + 1).drop_last() == items@.take(i as int));
        match &items[i] {
            Some(item) => {
                if item.untracked {
                    let path: Vec<u8> = copy_bytes(&item.path);
                    assert(path.deep_view() == item.path@);
                    r.push(path);
                    assert(r.deep_view() == before.push(item.path@));
                }
            },
            None => {
                proof {
                    failed_walk(items@, i + 1);
                }
                return None;
            },
        }
        i = i + 1;
    }
    assert(items@.take(items@.len() as int) == items@);
    Some(r)
}

fn same_bytes(a: &Vec<u8>, b: &Vec<u8>) -> (r: bool)
    ensures
        r == (a@ == b@),
{
    if a.len() != b.len() {
        return false;
    }
    let mut i: usize = 0;
    while i < a.len()
        invariant
            i <= a@.len() == b@.len(),
            forall|j: int| 0 <= j < i ==> a@[j] == b@[j],
        decreases a@.len() - i,
    {
        if a[i] != b[i] {
            assert(a@[i as int] != b@[i as int]);
            return false;
        }
        i = i + 1;
    }
    assert(a@ == b@);
    true
}

fn copy_bytes(bytes: &Vec<u8>) -> (r: Vec<u8>)
    ensures
        r@ == bytes@,
{
    let mut r: Vec<u8> = Vec::new();
    let mut i: usize = 0;
    while i < bytes.len()
        invariant
            i <= bytes@.len(),
            r@ == bytes@.take(i as int),
        decreases bytes@.len() - i,
    {
        r.push(bytes[i]);
        assert(bytes@.take(i + 1) == bytes@.take(i as int).push(bytes@[i as int]));
        i = i + 1;
    }
    assert(bytes@.take(bytes@.len() as int) == bytes@);
    r
}

/// The tracked files among the items, each once, though a file may differ from
/// HEAD and from the index. `None` where a step of the walk failed, which an
/// item without a value stands for.
pub fn changed_paths(items: &Vec<Option<StatusItem>>) -> (r: Option<Vec<Vec<u8>>>)
    ensures
        r is None <==> items@.contains(None),
        r matches Some(paths) ==> {
            &&& paths.deep_view().no_duplicates()
            &&& forall|path: Seq<u8>|
                paths.deep_view().contains(path) <==> #[trigger] is_tracked(items@, path)
        },
{
    let mut r: Vec<Vec<u8>> = Vec::new();
    let mut i: usize = 0;
    while i < items.len()
        invariant
            i <= items@.len(),
            forall|j: int| 0 <= j < i ==> items@[j] is Some,
            r.deep_view().no_duplicates(),
            forall|path: Seq<u8>|
                r.deep_view().contains(path) <==> #[trigger] is_tracked(
                    items@.take(i as int),
                    path,
                ),
        decreases items@.len() - i,
    {
        let ghost before = r.deep_view();
        let ghost seen = items@.take(i as int);
        let ghost now = items@.take(i + 1);
        match &items[i] {
            None => {
                assert(items@[i as int] is None);
                return None;
            },
            Some(item) => {
                proof {
                    tracked_grows(items@, i as int);
                }
                if !item.untracked {
                    let mut known: bool = false;
                    let mut j: usize = 0;
                    while j < r.len() && !known
                        invariant
                            j <= r@.len(),
                            before == r.deep_view(),
                            known ==> before.contains(item.path@),
                            !known ==> forall|k: int| 0 <= k < j ==> before[k] != item.path@,
                        decreases r@.len() - j,
                    {
                        assert(before[j as int] == r@[j as int].deep_view());
                        assert(r@[j as int].deep_view() == r@[j as int]@);
                        if same_bytes(&r[j], &item.path) {
                            known = true;
                        }
                        j = j + 1;
                    }
                    if !known {
                        let path: Vec<u8> = copy_bytes(&item.path);
                        assert(path.deep_view() == item.path@);
                        r.push(path);
                        assert(r.deep_view() == before.push(item.path@));
                        assert(r.deep_view().no_duplicates());
                    }
                    assert forall|path: Seq<u8>|
                        r.deep_view().contains(path) <==> #[trigger] is_tracked(now, path) by {
                        assert(is_tracked(now, path) <==> is_tracked(seen, path) || path
                            == item.path@);
                        assert(before.push(item.path@).contains(path) <==> before.contains(path)
                            || path == item.path@) by {
                            if before.contains(path) {
                                let k = choose|k: int| 0 <= k < before.len() && before[k] == path;
                                assert(before.push(item.path@)[k] == path);
                            }
                            assert(before.push(item.path@)[before.len() as int] == item.path@);
                        }
                    }
                }
            },
        }
        i = i + 1;
    }
    assert(items@.take(items@.len() as int) == items@);
    Some(r)
}

proof fn tracked_grows(items: Seq<Option<StatusItem>>, i: int)
    requires
        0 <= i < items.len(),
        items[i] is Some,
    ensures
        forall|path: Seq<u8>| #[trigger]
            is_tracked(items.take(i + 1), path) <==> is_tracked(items.take(i), path) || (
            !items[i]->0.untracked && items[i]->0.path@ == path),
{
    let seen = items.take(i);
    let now = items.take(i + 1);
    assert forall|path: Seq<u8>| #[trigger] is_tracked(now, path) <==> is_tracked(seen, path) || (
    !items[i]->0.untracked && items[i]->0.path@ == path) by {
        if is_tracked(now, path) {
            let k = choose|k: int|
                0 <= k < now.len() && (#[trigger] now[k] matches Some(item) && !item.untracked
                    && item.path@ == path);
            if k < i {
                assert(seen[k] == now[k]);
            }
        }
        if is_tracked(seen, path) {
            let k = choose|k: int|
                0 <= k < seen.len() && (#[trigger] seen[k] matches Some(item) && !item.untracked
                    && item.path@ == path);
            assert(now[k] == seen[k]);
        }
        assert(now[i] == items[i]);
    }
}

// ---------------------------------------------------------------------------
// git's own counts
// ---------------------------------------------------------------------------

/// The command that counts changed lines file by file.
pub fn numstat_command(path: &str, thread: &ThreadLane) -> (r: CommandSpec)
    ensures
        r.deep_view() == git_model(
            seq!["-C"@, path@, "diff"@, "--numstat"@, "--no-color"@, "--no-ext-diff"@, "HEAD"@],
            thread.lane,
        ),
{
    let r: CommandSpec = CommandSpec::new("git", thread).arg("-C").arg(path).arg("diff").arg(
        "--numstat",
    ).arg("--no-color").arg("--no-ext-diff").arg("HEAD");
    assert(r.deep_view().args == seq![
        "-C"@,
        path@,
        "diff"@,
        "--numstat"@,
        "--no-color"@,
        "--no-ext-diff"@,
        "HEAD"@,
    ]);
    r
}

/// A count, where a dash stands for none.
pub open spec fn count_or_zero(text: Seq<char>) -> nat {
    match parse_unsigned_seq(text, usize::MAX as nat) {
        Some(n) => n,
        None => 0,
    }
}

/// What a line of counts says, where it holds two of them at least.
pub open spec fn counts_of_line(line: Seq<char>) -> Option<CountsModel> {
    let parts = split_seq(line, "\t"@);
    if parts.len() >= 2 {
        Some(
            CountsModel {
                path: if parts.len() >= 3 {
                    Some(parts[2])
                } else {
                    None
                },
                added: count_or_zero(parts[0]),
                removed: count_or_zero(parts[1]),
            },
        )
    } else {
        None
    }
}

/// What lines of counts say.
pub open spec fn counts_of_lines(lines: Seq<Seq<char>>) -> Seq<CountsModel>
    decreases lines.len(),
{
    if lines.len() == 0 {
        Seq::empty()
    } else {
        let before = counts_of_lines(lines.drop_last());
        match counts_of_line(lines.last()) {
            Some(counts) => before.push(counts),
            None => before,
        }
    }
}

fn count_of(text: &str) -> (r: usize)
    ensures
        r == count_or_zero(text@),
{
    match parse_unsigned(text, usize::MAX as u64) {
        Some(n) => n as usize,
        None => 0,
    }
}

/// Reads the counts of changed lines.
pub fn read_numstat(text: &str) -> (r: Vec<FileCounts>)
    ensures
        r.deep_view() == counts_of_lines(lines_seq(text@)),
{
    proof {
        reveal_strlit("\t");
    }
    let all: Vec<String> = lines(text);
    let ghost model = lines_seq(text@);
    let mut r: Vec<FileCounts> = Vec::new();
    let mut i: usize = 0;
    assert(r.deep_view() == counts_of_lines(model.take(0)));
    while i < all.len()
        invariant
            i <= all@.len(),
            all.deep_view() == model,
            "\t"@.len() > 0,
            r.deep_view() == counts_of_lines(model.take(i as int)),
        decreases all@.len() - i,
    {
        assert(model.take(i + 1).drop_last() == model.take(i as int));
        assert(model[i as int] == all@[i as int]@);
        let parts: Vec<String> = split(all[i].as_str(), "\t");
        let ghost pieces = parts.deep_view();
        if parts.len() >= 2 {
            assert(pieces[0] == parts@[0]@ && pieces[1] == parts@[1]@);
            let path: Option<String> = if parts.len() >= 3 {
                assert(pieces[2] == parts@[2]@);
                Some(parts[2].clone())
            } else {
                None
            };
            let counts: FileCounts = FileCounts {
                path,
                added: count_of(parts[0].as_str()),
                removed: count_of(parts[1].as_str()),
            };
            let ghost entry = counts.deep_view();
            let ghost before = r.deep_view();
            r.push(counts);
            assert(r.deep_view() == before.push(entry));
        }
        i = i + 1;
    }
    assert(model.take(model.len() as int) == model);
    r
}

/// The counts that git reported, where it succeeded.
pub fn numstat_counts(run: &Result<CommandOutput, String>) -> (r: Option<Vec<FileCounts>>)
    ensures
        r.deep_view() == (match *run {
            Ok(output) => if output.code == Some(0i32) {
                Some(counts_of_lines(lines_seq(utf8_lossy(output.stdout@))))
            } else {
                None
            },
            Err(_) => None,
        }),
{
    match run {
        Ok(output) => if output.success() {
            Some(read_numstat(text_lossy(&output.stdout).as_str()))
        } else {
            None
        },
        Err(_) => None,
    }
}

// ---------------------------------------------------------------------------
// Totals
// ---------------------------------------------------------------------------

/// All added lines.
pub open spec fn added_in(counts: Seq<CountsModel>) -> nat
    decreases counts.len(),
{
    if counts.len() == 0 {
        0
    } else {
        added_in(counts.drop_last()) + counts.last().added
    }
}

/// All removed lines.
pub open spec fn removed_in(counts: Seq<CountsModel>) -> nat
    decreases counts.len(),
{
    if counts.len() == 0 {
        0
    } else {
        removed_in(counts.drop_last()) + counts.last().removed
    }
}

/// The lines of a file; none of one that could not be read.
pub open spec fn lines_in(content: Option<Seq<char>>) -> nat {
    match content {
        Some(text) => lines_seq(text).len(),
        None => 0,
    }
}

/// All lines of the untracked files.
pub open spec fn untracked_lines(contents: Seq<Option<Seq<char>>>) -> nat
    decreases contents.len(),
{
    if contents.len() == 0 {
        0
    } else {
        untracked_lines(contents.drop_last()) + lines_in(contents.last())
    }
}

fn line_count(content: &Option<String>) -> (r: usize)
    ensures
        r == lines_in(content.deep_view()),
{
    match content {
        Some(text) => {
            let all: Vec<String> = lines(text.as_str());
            assert(all.deep_view().len() == all@.len());
            all.len()
        },
        None => 0,
    }
}

fn total_of(counts: &Vec<FileCounts>) -> (r: Option<(usize, usize)>)
    ensures
        r == (if added_in(counts.deep_view()) <= usize::MAX && removed_in(counts.deep_view())
            <= usize::MAX {
            Some(
                (
                    added_in(counts.deep_view()) as usize,
                    removed_in(counts.deep_view()) as usize,
                ),
            )
        } else {
            None
        }),
{
    let ghost model = counts.deep_view();
    let mut added: usize = 0;
    let mut removed: usize = 0;
    let mut i: usize = 0;
    while i < counts.len()
        invariant
            i <= counts@.len(),
            model == counts.deep_view(),
            added == added_in(model.take(i as int)),
            removed == removed_in(model.take(i as int)),
        decreases counts@.len() - i,
    {
        assert(model.take(i + 1).drop_last() == model.take(i as int));
        assert(model[i as int] == counts@[i as int].deep_view());
        proof {
            totals_grow(model, i + 1);
        }
        let entry: &FileCounts = &counts[i];
        match (added.checked_add(entry.added), removed.checked_add(entry.removed)) {
            (Some(a), Some(r)) => {
                added = a;
                removed = r;
            },
            _ => return None,
        }
        i = i + 1;
    }
    assert(model.take(model.len() as int) == model);
    Some((added, removed))
}

proof fn totals_grow(counts: Seq<CountsModel>, n: int)
    requires
        0 <= n <= counts.len(),
    ensures
        added_in(counts.take(n)) <= added_in(counts),
        removed_in(counts.take(n)) <= removed_in(counts),
    decreases counts.len(),
{
    if n == counts.len() {
        assert(counts.take(n) == counts);
    } else {
        totals_grow(counts.drop_last(), n);
        assert(counts.drop_last().take(n) == counts.take(n));
    }
}

proof fn untracked_grow(contents: Seq<Option<Seq<char>>>, n: int)
    requires
        0 <= n <= contents.len(),
    ensures
        untracked_lines(contents.take(n)) <= untracked_lines(contents),
    decreases contents.len(),
{
    if n == contents.len() {
        assert(contents.take(n) == contents);
    } else {
        untracked_grow(contents.drop_last(), n);
        assert(contents.drop_last().take(n) == contents.take(n));
    }
}

/// The lines added and removed in a working directory, each line of an untracked
/// file counting as added; `None` where a part is missing or a total does not
/// fit.
pub open spec fn diff_stats(
    known: Option<Seq<CountsModel>>,
    untracked: Option<Seq<Option<Seq<char>>>>,
) -> Option<(nat, nat)> {
    match (known, untracked) {
        (Some(counts), Some(contents)) => {
            let added = added_in(counts) + untracked_lines(contents);
            if added <= usize::MAX && removed_in(counts) <= usize::MAX {
                Some((added, removed_in(counts)))
            } else {
                None
            }
        },
        _ => None,
    }
}

/// The lines added and removed in a working directory. `known` holds the
/// counts of the tracked files, and `untracked` the content of each untracked
/// file that could be read; either is `None` where it could not be had.
pub fn get_diff_stats(
    known: &Option<Vec<FileCounts>>,
    untracked: &Option<Vec<Option<String>>>,
) -> (r: Option<(usize, usize)>)
    ensures
        match r {
            Some((added, removed)) => diff_stats(known.deep_view(), untracked.deep_view())
                == Some((added as nat, removed as nat)),
            None => diff_stats(known.deep_view(), untracked.deep_view()) is None,
        },
{
    match (known, untracked) {
        (Some(counts), Some(contents)) => {
            let (mut added, removed): (usize, usize) = match total_of(counts) {
                Some(totals) => totals,
                None => return None,
            };
            let ghost model = contents.deep_view();
            let ghost base = added;
            let mut i: usize = 0;
            while i < contents.len()
                invariant
                    i <= contents@.len(),
                    model == contents.deep_view(),
                    added == base + untracked_lines(model.take(i as int)),
                    base == added_in(counts.deep_view()),
                    known.deep_view() == Some(counts.deep_view()),
                    untracked.deep_view() == Some(model),
                decreases contents@.len() - i,
            {
                assert(model.take(i + 1).drop_last() == model.take(i as int));
                assert(model[i as int] == contents@[i as int].deep_view());
                proof {
                    untracked_grow(model, i + 1);
                }
                match added.checked_add(line_count(&contents[i])) {
                    Some(a) => {
                        added = a;
                    },
                    None => return None,
                }
                i = i + 1;
            }
            assert(model.take(model.len() as int) == model);
            Some((added, removed))
        },
        _ => None,
    }
}

// ---------------------------------------------------------------------------
// File by file
// ---------------------------------------------------------------------------

/// A [`FileDiffSummary`] with its path as a sequence.
pub struct DiffModel {
    pub path: Seq<char>,
    pub added: nat,
    pub removed: nat,
    pub is_new: bool,
}

impl DeepView for FileDiffSummary {
    type V = DiffModel;

    open spec fn deep_view(&self) -> DiffModel {
        DiffModel {
            path: self.path@,
            added: self.added as nat,
            removed: self.removed as nat,
            is_new: self.is_new,
        }
    }
}

/// The tracked files, as far as their names are known.
pub open spec fn tracked_summaries(counts: Seq<CountsModel>) -> Seq<DiffModel>
    decreases counts.len(),
{
    if counts.len() == 0 {
        Seq::empty()
    } else {
        let before = tracked_summaries(counts.drop_last());
        match counts.last().path {
            Some(path) => before.push(
                DiffModel {
                    path,
                    added: counts.last().added,
                    removed: counts.last().removed,
                    is_new: false,
                },
            ),
            None => before,
        }
    }
}

/// An untracked file, with its content where it could be read.
pub open spec fn untracked_summary(file: (Seq<char>, Option<Seq<char>>)) -> DiffModel {
    DiffModel { path: file.0, added: lines_in(file.1), removed: 0, is_new: true }
}

/// The files of a summary before they are ordered.
pub open spec fn unordered_summaries(
    known: Option<Seq<CountsModel>>,
    untracked: Seq<(Seq<char>, Option<Seq<char>>)>,
) -> Seq<DiffModel> {
    (match known {
        Some(counts) => tracked_summaries(counts),
        None => Seq::empty(),
    }) + untracked.map_values(|file: (Seq<char>, Option<Seq<char>>)| untracked_summary(file))
}

/// Whether files are in the order of their paths.
pub open spec fn is_ordered(files: Seq<DiffModel>) -> bool {
    forall|i: int, j: int|
        0 <= i < j < files.len() ==> !comes_before(
            (#[trigger] files[j]).path,
            (#[trigger] files[i]).path,
        )
}

/// The files at a path.
pub open spec fn at_path(files: Seq<DiffModel>, path: Seq<char>) -> Seq<DiffModel> {
    files.filter(|file: DiffModel| file.path == path)
}

/// Whether `sorted` holds what `files` holds, in the order of the paths; what
/// shares a path keeps its order.
pub open spec fn is_sorting(sorted: Seq<DiffModel>, files: Seq<DiffModel>) -> bool {
    &&& is_ordered(sorted)
    &&& forall|path: Seq<char>| #[trigger] at_path(sorted, path) == at_path(files, path)
}

proof fn none_at_path(files: Seq<DiffModel>, path: Seq<char>)
    requires
        forall|i: int| 0 <= i < files.len() ==> (#[trigger] files[i]).path != path,
    ensures
        at_path(files, path) == Seq::<DiffModel>::empty(),
    decreases files.len(),
{
    reveal(Seq::filter);
    if files.len() > 0 {
        none_at_path(files.drop_last(), path);
    }
}

proof fn inserting_sorts(sorted: Seq<DiffModel>, files: Seq<DiffModel>, file: DiffModel, at: int)
    requires
        is_sorting(sorted, files),
        0 <= at <= sorted.len(),
        at > 0 ==> !comes_before(file.path, sorted[at - 1].path),
        forall|i: int|
            at <= i < sorted.len() ==> comes_before(file.path, (#[trigger] sorted[i]).path),
    ensures
        is_sorting(sorted.insert(at, file), files.push(file)),
{
    let front = sorted.take(at);
    let back = sorted.skip(at);
    let result = sorted.insert(at, file);
    assert(sorted == front + back);
    assert(result == (front + seq![file]) + back);
    assert forall|i: int| 0 <= i < at implies !comes_before(
        file.path,
        (#[trigger] sorted[i]).path,
    ) by {
        if i < at - 1 {
            order_is_transitive(sorted[i].path, sorted[at - 1].path, file.path);
        }
    }
    assert forall|i: int, j: int| 0 <= i < j < result.len() implies !comes_before(
        (#[trigger] result[j]).path,
        (#[trigger] result[i]).path,
    ) by {
        if j < at {
            assert(result[i] == sorted[i] && result[j] == sorted[j]);
        } else if j == at {
            assert(result[i] == sorted[i] && result[j] == file);
        } else if i < at {
            assert(result[i] == sorted[i] && result[j] == sorted[j - 1]);
        } else if i == at {
            assert(result[i] == file && result[j] == sorted[j - 1]);
            order_is_total(file.path, sorted[j - 1].path);
        } else {
            assert(result[i] == sorted[i - 1] && result[j] == sorted[j - 1]);
        }
    }
    assert forall|path: Seq<char>| #[trigger] at_path(result, path) == at_path(
        files.push(file),
        path,
    ) by {
        let here = |f: DiffModel| f.path == path;
        reveal(Seq::filter);
        Seq::filter_distributes_over_add(front, back, here);
        Seq::filter_distributes_over_add(front + seq![file], back, here);
        Seq::filter_distributes_over_add(front, seq![file], here);
        assert(files.push(file).drop_last() == files);
        assert(seq![file].drop_last() == Seq::<DiffModel>::empty());
        assert(Seq::<DiffModel>::empty().filter(here) == Seq::<DiffModel>::empty());
        assert(seq![file].filter(here) == (if here(file) {
            seq![file]
        } else {
            Seq::empty()
        }));
        assert(at_path(sorted, path) == at_path(files, path));
        if here(file) {
            assert forall|i: int| 0 <= i < back.len() implies (#[trigger] back[i]).path
                != path by {
                order_is_total(file.path, sorted[at + i].path);
                assert(back[i] == sorted[at + i]);
            }
            none_at_path(back, path);
            assert(back.filter(here) == Seq::<DiffModel>::empty());
            assert(result.filter(here) == front.filter(here) + seq![file]);
            assert(sorted.filter(here) == front.filter(here));
            assert(files.push(file).filter(here) == files.filter(here).push(file));
        } else {
            assert(result.filter(here) == front.filter(here) + back.filter(here));
            assert(files.push(file).filter(here) == files.filter(here));
        }
    }
}

fn insert_by_path(sorted: &mut Vec<FileDiffSummary>, file: FileDiffSummary, files: Ghost<
    Seq<DiffModel>,
>)
    requires
        is_sorting(old(sorted).deep_view(), files@),
    ensures
        is_sorting(final(sorted).deep_view(), files@.push(file.deep_view())),
{
    let ghost model = sorted.deep_view();
    let ghost entry = file.deep_view();
    let mut at: usize = sorted.len();
    while at > 0 && less(file.path.as_str(), sorted[at - 1].path.as_str())
        invariant
            at <= sorted@.len(),
            model == sorted.deep_view(),
            entry == file.deep_view(),
            forall|i: int|
                at <= i < model.len() ==> comes_before(entry.path, (#[trigger] model[i]).path),
        ensures
            at <= sorted@.len(),
            at > 0 ==> !comes_before(entry.path, model[at - 1].path),
            forall|i: int|
                at <= i < model.len() ==> comes_before(entry.path, (#[trigger] model[i]).path),
        decreases at,
    {
        at = at - 1;
    }
    proof {
        inserting_sorts(model, files@, entry, at as int);
    }
    sorted.insert(at, file);
    assert(sorted.deep_view() == model.insert(at as int, entry));
}

/// The changed files in the order of their paths. `known` holds the counts of
/// the tracked files, where they could be had, and `untracked` each untracked
/// file with its content, where that could be read.
pub fn get_diff_file_summary(
    known: &Option<Vec<FileCounts>>,
    untracked: &Vec<(String, Option<String>)>,
) -> (r: Vec<FileDiffSummary>)
    ensures
        is_sorting(
            r.deep_view(),
            unordered_summaries(known.deep_view(), untracked.deep_view()),
        ),
{
    let mut r: Vec<FileDiffSummary> = Vec::new();
    let ghost mut files: Seq<DiffModel> = Seq::empty();
    assert(r.deep_view() == files);
    if let Some(counts) = known {
        let ghost model = counts.deep_view();
        let mut i: usize = 0;
        assert(files == tracked_summaries(model.take(0)));
        while i < counts.len()
            invariant
                i <= counts@.len(),
                model == counts.deep_view(),
                files == tracked_summaries(model.take(i as int)),
                is_sorting(r.deep_view(), files),
            decreases counts@.len() - i,
        {
            assert(model.take(i + 1).drop_last() == model.take(i as int));
            assert(model[i as int] == counts@[i as int].deep_view());
            let entry: &FileCounts = &counts[i];
            if let Some(path) = &entry.path {
                let file: FileDiffSummary = FileDiffSummary {
                    path: path.clone(),
                    added: entry.added,
                    removed: entry.removed,
                    is_new: false,
                };
                let ghost summary = file.deep_view();
                insert_by_path(&mut r, file, Ghost(files));
                proof {
                    files = files.push(summary);
                }
            }
            i = i + 1;
        }
        assert(model.take(model.len() as int) == model);
    }
    let ghost model = untracked.deep_view();
    let ghost base = files;
    let ghost summary_of = |file: (Seq<char>, Option<Seq<char>>)| untracked_summary(file);
    let mut i: usize = 0;
    assert(base + model.take(0).map_values(summary_of) == base);
    while i < untracked.len()
        invariant
            i <= untracked@.len(),
            model == untracked.deep_view(),
            summary_of == (|file: (Seq<char>, Option<Seq<char>>)| untracked_summary(file)),
            files == base + model.take(i as int).map_values(summary_of),
            is_sorting(r.deep_view(), files),
        decreases untracked@.len() - i,
    {
        assert(model[i as int] == (untracked@[i as int].0@, untracked@[i as int].1.deep_view()));
        let file: FileDiffSummary = FileDiffSummary {
            path: untracked[i].0.clone(),
            added: line_count(&untracked[i].1),
            removed: 0,
            is_new: true,
        };
        let ghost summary = file.deep_view();
        insert_by_path(&mut r, file, Ghost(files));
        proof {
            files = files.push(summary);
            assert(base + model.take(i + 1).map_values(summary_of) == (base + model.take(
                i as int,
            ).map_values(summary_of)).push(summary_of(model[i as int])));
        }
        i = i + 1;
    }
    assert(model.take(model.len() as int) == model);
    r
}

// ---------------------------------------------------------------------------
// Totals and files
// ---------------------------------------------------------------------------

/// The lines added in all files of a summary.
pub open spec fn all_added(files: Seq<DiffModel>) -> nat
    decreases files.len(),
{
    if files.len() == 0 {
        0
    } else {
        all_added(files.drop_last()) + files.last().added
    }
}

/// The lines removed in all files of a summary.
pub open spec fn all_removed(files: Seq<DiffModel>) -> nat
    decreases files.len(),
{
    if files.len() == 0 {
        0
    } else {
        all_removed(files.drop_last()) + files.last().removed
    }
}

proof fn sums_are_folds(files: Seq<DiffModel>, n: nat)
    ensures
        files.fold_right(|f: DiffModel, n: nat| n + f.added, n) == all_added(files) + n,
        files.fold_right(|f: DiffModel, n: nat| n + f.removed, n) == all_removed(files) + n,
    decreases files.len(),
{
    if files.len() > 0 {
        sums_are_folds(files.drop_last(), n + files.last().added);
        sums_are_folds(files.drop_last(), n + files.last().removed);
    }
}

proof fn count_at_path(files: Seq<DiffModel>, file: DiffModel)
    ensures
        at_path(files, file.path).to_multiset().count(file) == files.to_multiset().count(file),
    decreases files.len(),
{
    reveal(Seq::filter);
    broadcast use vstd::multiset::group_multiset_axioms;

    let here = |f: DiffModel| f.path == file.path;
    if files.len() > 0 {
        let front = files.drop_last();
        count_at_path(front, file);
        assert(files == front.push(files.last()));
        vstd::seq_lib::to_multiset_build(front, files.last());
        vstd::seq_lib::to_multiset_build(front.filter(here), files.last());
    } else {
        assert(at_path(files, file.path) == files);
    }
}

proof fn sorting_keeps_sums(sorted: Seq<DiffModel>, files: Seq<DiffModel>)
    requires
        is_sorting(sorted, files),
    ensures
        all_added(sorted) == all_added(files),
        all_removed(sorted) == all_removed(files),
{
    assert forall|file: DiffModel|
        sorted.to_multiset().count(file) == files.to_multiset().count(file) by {
        count_at_path(sorted, file);
        count_at_path(files, file);
        assert(at_path(sorted, file.path) == at_path(files, file.path));
    }
    assert(sorted.to_multiset() =~= files.to_multiset());
    let plus_added = |f: DiffModel, n: nat| n + f.added;
    let plus_removed = |f: DiffModel, n: nat| n + f.removed;
    assert(vstd::seq_lib::commutative_foldr(plus_added)) by {
        assert forall|x: DiffModel, y: DiffModel, n: nat|
            #[trigger] plus_added(x, plus_added(y, n)) == plus_added(y, plus_added(x, n)) by {}
    }
    assert(vstd::seq_lib::commutative_foldr(plus_removed)) by {
        assert forall|x: DiffModel, y: DiffModel, n: nat|
            #[trigger] plus_removed(x, plus_removed(y, n)) == plus_removed(y, plus_removed(x, n)) by {}
    }
    vstd::seq_lib::lemma_fold_right_permutation(sorted, files, plus_added, 0);
    vstd::seq_lib::lemma_fold_right_permutation(sorted, files, plus_removed, 0);
    sums_are_folds(sorted, 0);
    sums_are_folds(files, 0);
}

proof fn sums_add_up(a: Seq<DiffModel>, b: Seq<DiffModel>)
    ensures
        all_added(a + b) == all_added(a) + all_added(b),
        all_removed(a + b) == all_removed(a) + all_removed(b),
    decreases b.len(),
{
    if b.len() == 0 {
        assert(a + b == a);
    } else {
        sums_add_up(a, b.drop_last());
        assert((a + b).drop_last() == a + b.drop_last());
    }
}

proof fn tracked_sums(counts: Seq<CountsModel>)
    requires
        forall|i: int| 0 <= i < counts.len() ==> (#[trigger] counts[i]).path is Some,
    ensures
        all_added(tracked_summaries(counts)) == added_in(counts),
        all_removed(tracked_summaries(counts)) == removed_in(counts),
    decreases counts.len(),
{
    if counts.len() > 0 {
        tracked_sums(counts.drop_last());
        let before = tracked_summaries(counts.drop_last());
        assert(counts[counts.len() - 1].path is Some);
        assert(tracked_summaries(counts).drop_last() == before);
    }
}

proof fn untracked_sums(files: Seq<(Seq<char>, Option<Seq<char>>)>)
    ensures
        all_added(
            files.map_values(|file: (Seq<char>, Option<Seq<char>>)| untracked_summary(file)),
        ) == untracked_lines(
            files.map_values(|file: (Seq<char>, Option<Seq<char>>)| file.1),
        ),
        all_removed(
            files.map_values(|file: (Seq<char>, Option<Seq<char>>)| untracked_summary(file)),
        ) == 0,
    decreases files.len(),
{
    let summary = |file: (Seq<char>, Option<Seq<char>>)| untracked_summary(file);
    let content = |file: (Seq<char>, Option<Seq<char>>)| file.1;
    if files.len() > 0 {
        untracked_sums(files.drop_last());
        assert(files.map_values(summary).drop_last() == files.drop_last().map_values(summary));
        assert(files.map_values(content).drop_last() == files.drop_last().map_values(content));
    }
}

/// The totals of a working directory are the sums over its files, where every
/// changed file has a name.
pub proof fn totals_are_sums(
    summary: Seq<DiffModel>,
    counts: Seq<CountsModel>,
    untracked: Seq<(Seq<char>, Option<Seq<char>>)>,
)
    requires
        is_sorting(summary, unordered_summaries(Some(counts), untracked)),
        forall|i: int| 0 <= i < counts.len() ==> (#[trigger] counts[i]).path is Some,
    ensures
        diff_stats(
            Some(counts),
            Some(untracked.map_values(|file: (Seq<char>, Option<Seq<char>>)| file.1)),
        ) == (if all_added(summary) <= usize::MAX && all_removed(summary) <= usize::MAX {
            Some((all_added(summary), all_removed(summary)))
        } else {
            None
        }),
{
    sorting_keeps_sums(summary, unordered_summaries(Some(counts), untracked));
    sums_add_up(
        tracked_summaries(counts),
        untracked.map_values(|file: (Seq<char>, Option<Seq<char>>)| untracked_summary(file)),
    );
    tracked_sums(counts);
    untracked_sums(untracked);
}

/// Counts that were written with tabs between them are read as they were, with the
/// file that they are of.
pub proof fn written_counts_are_read(added: nat, removed: nat, path: Seq<char>)
    requires
        added <= usize::MAX,
        removed <= usize::MAX,
        !path.contains('\t'),
    ensures
        counts_of_line(join_seq(seq![decimal(added), decimal(removed), path], "\t"@)) == Some(
            CountsModel { path: Some(path), added, removed },
        ),
        counts_of_line(join_seq(seq!["-"@, "-"@, path], "\t"@)) == Some(
            CountsModel { path: Some(path), added: 0, removed: 0 },
        ),
{
    reveal_strlit("\t");
    reveal_strlit("-");
    assert("\t"@ == seq!['\t']);
    decimal_lacks(added, '\t');
    decimal_lacks(removed, '\t');
    decimal_reads_back(added, usize::MAX as nat);
    decimal_reads_back(removed, usize::MAX as nat);
    join_splits_back(seq![decimal(added), decimal(removed), path], '\t');
    join_splits_back(seq!["-"@, "-"@, path], '\t');
    assert("-"@[0] == '-');
}

/// A line without a tab counts nothing.
pub proof fn other_lines_count_nothing(line: Seq<char>)
    requires
        !line.contains('\t'),
    ensures
        counts_of_line(line) is None,
{
    reveal_strlit("\t");
    assert("\t"@ == seq!['\t']);
    join_splits_back(seq![line], '\t');
    assert(join_seq(seq![line], seq!['\t']) == line);
}

/// The lines of two outputs count as those of the one and then those of the other.
pub proof fn counts_follow_their_lines(first: Seq<Seq<char>>, second: Seq<Seq<char>>)
    ensures
        counts_of_lines(first + second) == counts_of_lines(first) + counts_of_lines(second),
    decreases second.len(),
{
    if second.len() == 0 {
        assert(first + second == first);
        assert(counts_of_lines(first) + counts_of_lines(second) == counts_of_lines(first));
    } else {
        counts_follow_their_lines(first, second.drop_last());
        assert((first + second).drop_last() == first + second.drop_last());
        assert(counts_of_lines(first + second) =~= counts_of_lines(first) + counts_of_lines(
            second,
        ));
    }
}

/// A file of which either version is binary counts no lines; of every other one all
/// added and all removed lines count, under the file's own path.
pub proof fn binary_files_count_no_lines(file: ChangedFile, i: int)
    requires
        0 <= i < 8000,
    ensures
        i < file.before@.len() && file.before@[i] == 0 ==> counts_of(file).added == 0
            && counts_of(file).removed == 0,
        i < file.after@.len() && file.after@[i] == 0 ==> counts_of(file).added == 0 && counts_of(
            file,
        ).removed == 0,
        (forall|k: int| 0 <= k < file.before@.len() ==> #[trigger] file.before@[k] != 0) && (
        forall|k: int| 0 <= k < file.after@.len() ==> #[trigger] file.after@[k] != 0) ==> counts_of(
            file,
        ).added == line_changes(file.before@, file.after@).0 && counts_of(file).removed
            == line_changes(file.before@, file.after@).1,
        counts_of(file).path == Some(utf8_lossy(file.path@)),
{
}

/// An untracked file is among the untracked ones, a tracked one is not, and one
/// item that could not be read leaves none.
pub proof fn untracked_items_are_found(items: Seq<Option<StatusItem>>, i: int)
    requires
        0 <= i < items.len(),
    ensures
        items[i] is None ==> untracked_of(items) is None,
        untracked_of(items) matches Some(paths) ==> {
            &&& items[i]->0.untracked ==> paths.contains(items[i]->0.path@)
            &&& paths.len() <= items.len()
        },
    decreases items.len(),
{
    let front = items.drop_last();
    if i < front.len() {
        untracked_items_are_found(front, i);
        assert(front[i] == items[i]);
        if untracked_of(items) is Some && items[i]->0.untracked {
            let before = untracked_of(front)->0;
            let k = choose|k: int| 0 <= k < before.len() && before[k] == items[i]->0.path@;
            assert(untracked_of(items)->0[k] == items[i]->0.path@);
        }
    } else if untracked_of(items) is Some {
        if front.len() > 0 {
            untracked_items_are_found(front, 0);
        }
        let paths = untracked_of(items)->0;
        if items[i]->0.untracked {
            assert(paths[paths.len() - 1] == items[i]->0.path@);
        }
    }
}

/// Only untracked files are among the untracked ones, and where every item could
/// be read there is an answer.
pub proof fn only_untracked_items_are_found(items: Seq<Option<StatusItem>>, path: Seq<u8>)
    ensures
        (forall|i: int| 0 <= i < items.len() ==> #[trigger] items[i] is Some) ==> untracked_of(
            items,
        ) is Some,
        untracked_of(items) matches Some(paths) ==> (paths.contains(path) ==> exists|i: int|
            0 <= i < items.len() && items[i] is Some && (#[trigger] items[i])->0.untracked
                && items[i]->0.path@ == path),
    decreases items.len(),
{
    if items.len() > 0 {
        let front = items.drop_last();
        only_untracked_items_are_found(front, path);
        if forall|i: int| 0 <= i < items.len() ==> #[trigger] items[i] is Some {
            assert forall|i: int| 0 <= i < front.len() implies #[trigger] front[i] is Some by {
                assert(items[i] is Some);
            }
            assert(items[items.len() - 1] is Some);
        }
        if untracked_of(items) is Some && untracked_of(items)->0.contains(path) {
            let before = untracked_of(front)->0;
            let paths = untracked_of(items)->0;
            let k = choose|k: int| 0 <= k < paths.len() && paths[k] == path;
            if k < before.len() {
                assert(before[k] == path);
                assert(before.contains(path));
                let i = choose|i: int|
                    0 <= i < front.len() && front[i] is Some && (#[trigger] front[i])->0.untracked
                        && front[i]->0.path@ == path;
                assert(items[i]->0.untracked);
            } else {
                assert(items[items.len() - 1]->0.untracked);
            }
        }
    }
}

/// The totals of two lists of counts are those of the one and those of the other
/// together, and a file alone counts what was counted of it.
pub proof fn totals_add_up(first: Seq<CountsModel>, second: Seq<CountsModel>, counts: CountsModel)
    ensures
        added_in(first + second) == added_in(first) + added_in(second),
        removed_in(first + second) == removed_in(first) + removed_in(second),
        added_in(seq![counts]) == counts.added,
        removed_in(seq![counts]) == counts.removed,
    decreases second.len(),
{
    assert(seq![counts].drop_last() == Seq::<CountsModel>::empty());
    assert(added_in(Seq::<CountsModel>::empty()) == 0);
    assert(removed_in(Seq::<CountsModel>::empty()) == 0);
    if second.len() == 0 {
        assert(first + second == first);
    } else {
        totals_add_up(first, second.drop_last(), counts);
        assert((first + second).drop_last() == first + second.drop_last());
    }
}

/// A new file counts with each of its lines as an added one, and takes none away:
/// one more untracked file makes just as many lines more.
pub proof fn untracked_files_add_their_lines(
    counts: Seq<CountsModel>,
    contents: Seq<Option<Seq<char>>>,
    text: Seq<char>,
)
    ensures
        diff_stats(Some(counts), Some(contents.push(Some(text)))) matches Some((added, removed))
            ==> diff_stats(Some(counts), Some(contents)) == Some(
            ((added - lines_seq(text).len()) as nat, removed),
        ) && lines_seq(text).len() <= added,
        diff_stats(Some(counts), Some(contents.push(None))) == diff_stats(
            Some(counts),
            Some(contents),
        ),
{
    assert(contents.push(Some(text)).drop_last() == contents);
    assert(contents.push(None).drop_last() == contents);
}

/// Every file that was counted is summed up under its own path as no new file, and
/// every untracked one as a new file with all its lines added.
pub proof fn every_file_is_summed_up(
    counts: Seq<CountsModel>,
    untracked: Seq<(Seq<char>, Option<Seq<char>>)>,
    i: int,
    path: Seq<char>,
)
    ensures
        0 <= i < counts.len() && counts[i].path == Some(path) ==> unordered_summaries(
            Some(counts),
            untracked,
        ).contains(
            DiffModel { path, added: counts[i].added, removed: counts[i].removed, is_new: false },
        ),
        0 <= i < untracked.len() ==> unordered_summaries(Some(counts), untracked).contains(
            DiffModel {
                path: untracked[i].0,
                added: match untracked[i].1 {
                    Some(text) => lines_seq(text).len(),
                    None => 0,
                },
                removed: 0,
                is_new: true,
            },
        ),
{
    let known_ones = tracked_summaries(counts);
    let all = unordered_summaries(Some(counts), untracked);
    if 0 <= i < counts.len() && counts[i].path == Some(path) {
        let k = counted_file_is_there(counts, i);
        assert(all[k] == known_ones[k]);
    }
    if 0 <= i < untracked.len() {
        assert(all[known_ones.len() + i] == untracked_summary(untracked[i]));
    }
}

proof fn counted_file_is_there(counts: Seq<CountsModel>, i: int) -> (k: int)
    requires
        0 <= i < counts.len(),
        counts[i].path is Some,
    ensures
        0 <= k < tracked_summaries(counts).len(),
        tracked_summaries(counts)[k] == (DiffModel {
            path: counts[i].path->0,
            added: counts[i].added,
            removed: counts[i].removed,
            is_new: false,
        }),
    decreases counts.len(),
{
    if i < counts.len() - 1 {
        assert(counts.drop_last()[i] == counts[i]);
        counted_file_is_there(counts.drop_last(), i)
    } else {
        tracked_summaries(counts).len() - 1
    }
}

/// Files stand in the order of their paths: none stands before one whose path comes
/// first.
pub proof fn files_stand_in_order(sorted: Seq<DiffModel>, files: Seq<DiffModel>, i: int, j: int)
    requires
        is_sorting(sorted, files),
        0 <= i < j < sorted.len(),
    ensures
        sorted[i].path == sorted[j].path || comes_before(sorted[i].path, sorted[j].path),
{
    order_is_total(sorted[i].path, sorted[j].path);
}

/// No file is lost or made up by sorting.
pub proof fn sorting_keeps_the_files(sorted: Seq<DiffModel>, files: Seq<DiffModel>, file: DiffModel)
    requires
        is_sorting(sorted, files),
    ensures
        sorted.contains(file) <==> files.contains(file),
{
    at_path_has_the_file(sorted, file);
    at_path_has_the_file(files, file);
    assert(at_path(sorted, file.path) == at_path(files, file.path));
}

proof fn at_path_has_the_file(files: Seq<DiffModel>, file: DiffModel)
    ensures
        at_path(files, file.path).contains(file) <==> files.contains(file),
    decreases files.len(),
{
    reveal(Seq::filter);
    let is_there = |other: DiffModel| other.path == file.path;
    if files.len() > 0 {
        let front = files.drop_last();
        at_path_has_the_file(front, file);
        let kept = front.filter(is_there);
        assert(files == front.push(files.last()));
        if files.contains(file) && !front.contains(file) {
            let i = choose|i: int| 0 <= i < files.len() && files[i] == file;
            assert(i < front.len() ==> front[i] == file);
        }
        if front.contains(file) {
            let i = choose|i: int| 0 <= i < front.len() && front[i] == file;
            assert(files[i] == file);
        }
        if is_there(files.last()) {
            let all = kept.push(files.last());
            if all.contains(file) && !kept.contains(file) {
                let i = choose|i: int| 0 <= i < all.len() && all[i] == file;
                assert(i < kept.len() ==> kept[i] == file);
            }
            if kept.contains(file) {
                let i = choose|i: int| 0 <= i < kept.len() && kept[i] == file;
                assert(all[i] == file);
            }
            assert(all[kept.len() as int] == files.last());
        }
        assert(files[front.len() as int] == files.last());
    }
}

} // verus!
