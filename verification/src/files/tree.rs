//! The file tree beside the tabs. A folder is known by its path in the
//! project; the project itself is the empty path.

use crate::text::{
    chars_of, concat, concat3, contains_text, join_seq, join_splits_back, joined_lacks, same,
    split, split_seq, starts_with,
};
use crate::text_map::TextMap;
use vstd::prelude::*;

verus! {

broadcast use vstd::string::group_string_axioms;

/// A file or folder in a listing.
#[derive(Clone, Debug, PartialEq, Eq)]
pub struct DirEntry {
    pub name: String,
    pub is_dir: bool,
}

/// `s` with every backslash as a slash.
pub open spec fn slashed(s: Seq<char>) -> Seq<char> {
    Seq::new(
        s.len(),
        |i: int|
            if s[i] == '\\' {
                '/'
            } else {
                s[i]
            },
    )
}

fn with_slashes(text: &str) -> (r: String)
    ensures
        r@ == slashed(text@),
{
    let chars: Vec<char> = chars_of(text);
    let mut r: String = String::new();
    let mut i: usize = 0;
    while i < chars.len()
        invariant
            i <= chars@.len(),
            r@ == slashed(chars@).take(i as int),
        decreases chars@.len() - i,
    {
        r.push(
            if chars[i] == '\\' {
                '/'
            } else {
                chars[i]
            },
        );
        i = i + 1;
        assert(slashed(chars@).take(i as int) == slashed(chars@).take(i - 1).push(
            slashed(chars@)[i - 1],
        ));
    }
    assert(slashed(chars@).take(chars@.len() as int) == slashed(chars@));
    r
}

/// The path of an entry below a folder.
pub open spec fn child_path_model(parent: Seq<char>, name: Seq<char>) -> Seq<char> {
    if parent.len() == 0 {
        name
    } else {
        parent + "/"@ + name
    }
}

fn child_path(parent: &str, name: &str) -> (r: String)
    ensures
        r@ == child_path_model(parent@, name@),
{
    if parent.is_empty() {
        name.to_owned()
    } else {
        concat3(parent, "/", name)
    }
}

/// The path made of the first `n` parts.
pub open spec fn leading_path(parts: Seq<Seq<char>>, n: int) -> Seq<char>
    decreases n,
{
    if n <= 0 {
        Seq::empty()
    } else {
        child_path_model(leading_path(parts, n - 1), parts[n - 1])
    }
}

/// The folders that a file lies in, from the outermost on.
pub open spec fn ancestors(relative_path: Seq<char>) -> Seq<Seq<char>> {
    let parts = split_seq(slashed(relative_path), "/"@);
    Seq::new((parts.len() - 1) as nat, |i: int| leading_path(parts, i + 1))
}

/// The folders to unfold so that a file is seen.
pub fn compute_expanded_for_relative(relative_path: &str) -> (r: Vec<String>)
    ensures
        r.deep_view() == ancestors(relative_path@),
{
    proof {
        reveal_strlit("/");
    }
    let text: String = with_slashes(relative_path);
    let parts: Vec<String> = split(text.as_str(), "/");
    let ghost all = parts.deep_view();
    let mut r: Vec<String> = Vec::new();
    let mut so_far: String = String::new();
    let mut i: usize = 0;
    while i < parts.len() - 1
        invariant
            i <= parts@.len() - 1,
            all == parts.deep_view(),
            so_far@ == leading_path(all, i as int),
            r@.len() == i,
            forall|j: int| 0 <= j < i ==> (#[trigger] r@[j])@ == leading_path(all, j + 1),
        decreases parts@.len() - i,
    {
        assert(all[i as int] == parts@[i as int]@);
        so_far = child_path(so_far.as_str(), parts[i].as_str());
        r.push(so_far.clone());
        i = i + 1;
    }
    assert(r.deep_view() == ancestors(relative_path@));
    r
}

// ---------------------------------------------------------------------------
// Listings
// ---------------------------------------------------------------------------

/// The listings that were fetched, those on their way, and the unfolded
/// folders.
#[derive(Debug)]
pub struct FileTree {
    loaded_dirs: TextMap<Vec<DirEntry>>,
    loading_dirs: TextMap<()>,
    expanded_folders: TextMap<()>,
    loading: bool,
    show_ignored: bool,
}

/// A [`FileTree`] as maps and sets.
pub struct TreeModel {
    pub loaded: Map<Seq<char>, Vec<DirEntry>>,
    pub pending: Set<Seq<char>>,
    pub expanded: Set<Seq<char>>,
    /// Until the listing of the project itself has arrived.
    pub loading: bool,
    /// Whether files that git ignores are listed.
    pub show_ignored: bool,
}

impl TreeModel {
    /// Whether the listing of a folder is to be fetched: it is neither here
    /// nor on its way.
    pub open spec fn wants(self, path: Seq<char>) -> bool {
        !self.loaded.contains_key(path) && !self.pending.contains(path)
    }
}

/// Whether `path` is the folder `dir` or lies below it.
pub open spec fn is_within(path: Seq<char>, dir: Seq<char>) -> bool {
    path == dir || dir.len() == 0 || (dir + "/"@).is_prefix_of(path)
}

/// `after` is `before` with the folders of a file unfolded, and `fetches` are
/// the listings that this takes, none twice.
pub open spec fn has_expanded(
    before: TreeModel,
    after: TreeModel,
    fetches: Seq<Seq<char>>,
    relative_path: Seq<char>,
) -> bool {
    &&& after.loaded == before.loaded
    &&& forall|path: Seq<char>|
        #[trigger] after.expanded.contains(path) == (before.expanded.contains(path)
            || ancestors(relative_path).contains(path))
    &&& forall|path: Seq<char>|
        #[trigger] fetches.contains(path) == (ancestors(relative_path).contains(path)
            && before.wants(path))
    &&& forall|path: Seq<char>|
        #[trigger] after.pending.contains(path) == (before.pending.contains(path)
            || fetches.contains(path))
    &&& fetches.no_duplicates()
    &&& after.loading == before.loading
    &&& after.show_ignored == before.show_ignored
}

/// `fetches` are the listings of the project itself and the unfolded folders
/// that are neither here nor on their way, and `after` is `before` with them on
/// their way.
pub open spec fn has_fetched_shown(
    before: TreeModel,
    after: TreeModel,
    fetches: Seq<Seq<char>>,
) -> bool {
    &&& after.loaded == before.loaded
    &&& after.expanded == before.expanded
    &&& forall|path: Seq<char>|
        #[trigger] fetches.contains(path) == ((path.len() == 0 || before.expanded.contains(path))
            && before.wants(path))
    &&& forall|path: Seq<char>|
        #[trigger] after.pending.contains(path) == (before.pending.contains(path)
            || fetches.contains(path))
    &&& fetches.no_duplicates()
    &&& after.loading == before.loading
    &&& after.show_ignored == before.show_ignored
}

impl FileTree {
    pub closed spec fn wf(&self) -> bool {
        &&& self.loaded_dirs.wf()
        &&& self.loading_dirs.wf()
        &&& self.expanded_folders.wf()
        &&& paths_within(self.view(), (usize::MAX - 2) as nat)
    }

    pub closed spec fn view(&self) -> TreeModel {
        TreeModel {
            loaded: self.loaded_dirs.view(),
            pending: self.loading_dirs.view().dom(),
            expanded: self.expanded_folders.view().dom(),
            loading: self.loading,
            show_ignored: self.show_ignored,
        }
    }

    /// A tree of which nothing was fetched.
    pub fn new() -> (r: FileTree)
        ensures
            r.wf(),
            r.view().loaded == Map::<Seq<char>, Vec<DirEntry>>::empty(),
            r.view().pending == Set::<Seq<char>>::empty(),
            r.view().expanded == Set::<Seq<char>>::empty(),
            r.view().loading,
            !r.view().show_ignored,
    {
        let r: FileTree = FileTree {
            loaded_dirs: TextMap::new(),
            loading_dirs: TextMap::new(),
            expanded_folders: TextMap::new(),
            loading: true,
            show_ignored: false,
        };
        assert(r.view().pending == Set::<Seq<char>>::empty());
        assert(r.view().expanded == Set::<Seq<char>>::empty());
        r
    }

    /// Notes that the listing of a folder is wanted, and says whether it has to
    /// be fetched.
    pub fn fetch_directory(&mut self, path: &str) -> (r: bool)
        requires
            old(self).wf(),
        ensures
            final(self).wf(),
            r == old(self).view().wants(path@),
            final(self).view() == (if r {
                TreeModel { pending: old(self).view().pending.insert(path@), ..old(self).view() }
            } else {
                old(self).view()
            }),
    {
        if self.loaded_dirs.contains_key(path) || self.loading_dirs.contains_key(path) {
            return false;
        }
        let ghost before = self.view();
        self.loading_dirs.insert(path, ());
        assert(self.view().pending == before.pending.insert(path@));
        true
    }

    /// Takes in a listing that arrived; a failed one counts as empty, so that
    /// it is not fetched again and again.
    pub fn directory_listed(&mut self, path: &str, result: Result<Vec<DirEntry>, String>)
        requires
            old(self).wf(),
            path@.len() <= usize::MAX - 2,
        ensures
            final(self).wf(),
            final(self).view().pending == old(self).view().pending.remove(path@),
            final(self).view().expanded == old(self).view().expanded,
            ({
                let entries = final(self).view().loaded[path@];
                &&& final(self).view().loaded == old(self).view().loaded.insert(path@, entries)
                &&& match result {
                    Ok(listed) => entries == listed,
                    Err(_) => entries@.len() == 0,
                }
            }),
            final(self).view().loading == (old(self).view().loading && path@.len() > 0),
            final(self).view().show_ignored == old(self).view().show_ignored,
    {
        let ghost before = self.view();
        self.loading_dirs.remove(path);
        assert(self.view().pending == before.pending.remove(path@));
        let entries: Vec<DirEntry> = match result {
            Ok(entries) => entries,
            Err(_) => Vec::new(),
        };
        self.loaded_dirs.insert(path, entries);
        if path.is_empty() {
            self.loading = false;
        }
        proof {
            let after = self.view().loaded;
            assert forall|p: Seq<char>| #[trigger] after.contains_key(p) implies p.len()
                <= usize::MAX - 2 by {
                assert(p == path@ || before.loaded.contains_key(p));
            }
            assert(paths_within(self.view(), (usize::MAX - 2) as nat));
        }
    }

    /// Fetches the folders of a list, and says which have to be.
    fn fetch_all(&mut self, paths: &Vec<String>) -> (r: Vec<String>)
        requires
            old(self).wf(),
        ensures
            final(self).wf(),
            final(self).view().loaded == old(self).view().loaded,
            final(self).view().expanded == old(self).view().expanded,
            forall|path: Seq<char>|
                #![trigger r.deep_view().contains(path)]
                #![trigger final(self).view().pending.contains(path)]
                r.deep_view().contains(path) == (paths.deep_view().contains(path) && old(
                    self,
                ).view().wants(path)),
            forall|path: Seq<char>|
                #![trigger final(self).view().pending.contains(path)]
                final(self).view().pending.contains(path) == (old(self).view().pending.contains(
                    path,
                ) || r.deep_view().contains(path)),
            r.deep_view().no_duplicates(),
            final(self).view().loading == old(self).view().loading,
            final(self).view().show_ignored == old(self).view().show_ignored,
    {
        let ghost start = self.view();
        let ghost all = paths.deep_view();
        let mut r: Vec<String> = Vec::new();
        let mut i: usize = 0;
        assert forall|path: Seq<char>| !(#[trigger] r.deep_view().contains(path)) by {}
        while i < paths.len()
            invariant
                i <= paths@.len(),
                all == paths.deep_view(),
                self.wf(),
                self.view().loaded == start.loaded,
                self.view().expanded == start.expanded,
                start == old(self).view(),
                self.loading == old(self).loading,
                self.show_ignored == old(self).show_ignored,
                forall|path: Seq<char>|
                    #![trigger r.deep_view().contains(path)]
                    r.deep_view().contains(path) == (all.take(i as int).contains(path)
                        && start.wants(path)),
                forall|path: Seq<char>|
                    #![trigger self.view().pending.contains(path)]
                    self.view().pending.contains(path) == (start.pending.contains(path)
                        || r.deep_view().contains(path)),
                r.deep_view().no_duplicates(),
            decreases paths@.len() - i,
        {
            let ghost before = r.deep_view();
            let ghost pending = self.view().pending;
            let ghost next = all[i as int];
            assert(all.take(i + 1) == all.take(i as int).push(next));
            assert(pending.contains(next) == (start.pending.contains(next) || before.contains(
                next,
            )));
            if self.fetch_directory(paths[i].as_str()) {
                r.push(paths[i].clone());
                assert(r.deep_view() == before.push(next));
                assert(!before.contains(next));
                assert forall|a: int, b: int|
                    0 <= a < r.deep_view().len() && 0 <= b < r.deep_view().len() && a
                        != b implies r.deep_view()[a] != r.deep_view()[b] by {
                    if a < before.len() && b < before.len() {
                        assert(before[a] != before[b]);
                    } else if a < before.len() {
                        assert(before.contains(before[a]));
                    } else {
                        assert(before.contains(before[b]));
                    }
                }
            }
            assert forall|path: Seq<char>|
                #![trigger r.deep_view().contains(path)]
                r.deep_view().contains(path) == (all.take(i + 1).contains(path) && start.wants(
                    path,
                )) by {
                push_contains(all.take(i as int), next, path);
                push_contains(before, next, path);
                assert(before.contains(path) == (all.take(i as int).contains(path)
                    && start.wants(path)));
            }
            assert forall|path: Seq<char>|
                #![trigger self.view().pending.contains(path)]
                self.view().pending.contains(path) == (start.pending.contains(path)
                    || r.deep_view().contains(path)) by {
                push_contains(before, next, path);
                assert(pending.contains(path) == (start.pending.contains(path)
                    || before.contains(path)));
            }
            i = i + 1;
        }
        assert(all.take(all.len() as int) == all);
        r
    }

    /// Unfolds the folders that a file lies in, and says which listings have to
    /// be fetched for that.
    pub fn expand_ancestors(&mut self, relative_path: &str) -> (r: Vec<String>)
        requires
            old(self).wf(),
        ensures
            final(self).wf(),
            has_expanded(old(self).view(), final(self).view(), r.deep_view(), relative_path@),
    {
        let folders: Vec<String> = compute_expanded_for_relative(relative_path);
        let fetches: Vec<String> = self.fetch_all(&folders);
        let ghost start = self.view();
        let ghost all = folders.deep_view();
        let mut i: usize = 0;
        while i < folders.len()
            invariant
                i <= folders@.len(),
                all == folders.deep_view(),
                self.wf(),
                self.view().loaded == start.loaded,
                self.view().pending == start.pending,
                self.loading == old(self).loading,
                self.show_ignored == old(self).show_ignored,
                forall|path: Seq<char>|
                    #[trigger] self.view().expanded.contains(path) == (start.expanded.contains(path)
                        || all.take(i as int).contains(path)),
            decreases folders@.len() - i,
        {
            let ghost before = self.view();
            let ghost next = all[i as int];
            assert(all.take(i + 1) == all.take(i as int).push(next));
            self.expanded_folders.insert(folders[i].as_str(), ());
            assert(self.view().expanded == before.expanded.insert(next));
            assert forall|path: Seq<char>|
                #[trigger] self.view().expanded.contains(path) == (start.expanded.contains(path)
                    || all.take(i + 1).contains(path)) by {
                push_contains(all.take(i as int), next, path);
                assert(before.expanded.contains(path) == (start.expanded.contains(path)
                    || all.take(i as int).contains(path)));
            }
            i = i + 1;
        }
        assert(all.take(all.len() as int) == all);
        fetches
    }

    /// Fetches the listings that a viewer begins with: the project itself and
    /// the unfolded folders.
    pub fn fetch_initial_dirs(&mut self) -> (r: Vec<String>)
        requires
            old(self).wf(),
        ensures
            final(self).wf(),
            has_fetched_shown(old(self).view(), final(self).view(), r.deep_view()),
    {
        let mut paths: Vec<String> = self.expanded_folders.keys();
        let ghost keys = paths.deep_view();
        let ghost before = *self;
        let root: String = String::new();
        paths.push(root);
        assert(paths.deep_view() == keys.push(root@));
        assert forall|path: Seq<char>|
            #[trigger] paths.deep_view().contains(path) == (path.len() == 0
                || before.view().expanded.contains(path)) by {
            push_contains(keys, root@, path);
            assert(before.expanded_folders.view().contains_key(path) <==> keys.contains(path));
            assert(path.len() == 0 ==> path =~= root@);
        }
        let r: Vec<String> = self.fetch_all(&paths);
        assert forall|path: Seq<char>|
            #[trigger] r.deep_view().contains(path) == ((path.len() == 0
                || before.view().expanded.contains(path)) && before.view().wants(path)) by {
            assert(paths.deep_view().contains(path) == (path.len() == 0
                || before.view().expanded.contains(path)));
        }
        r
    }

    /// Forgets every listing and fetches again what is shown.
    pub fn refresh_file_tree(&mut self) -> (r: Vec<String>)
        requires
            old(self).wf(),
        ensures
            final(self).wf(),
            final(self).view().loaded == Map::<Seq<char>, Vec<DirEntry>>::empty(),
            final(self).view().expanded == old(self).view().expanded,
            forall|path: Seq<char>|
                #[trigger] r.deep_view().contains(path) == (path.len() == 0 || old(
                    self,
                ).view().expanded.contains(path)),
            forall|path: Seq<char>|
                #[trigger] final(self).view().pending.contains(path) == r.deep_view().contains(
                    path,
                ),
            r.deep_view().no_duplicates(),
            final(self).view().loading == old(self).view().loading,
            final(self).view().show_ignored == old(self).view().show_ignored,
    {
        self.loaded_dirs.clear();
        self.loading_dirs.clear();
        let ghost cleared = self.view();
        assert forall|path: Seq<char>| #[trigger] cleared.wants(path) by {}
        self.fetch_initial_dirs()
    }

    /// Fetches the listing of a folder again, and those below it that are here.
    pub fn invalidate_directory(&mut self, dir: &str) -> (r: Vec<String>)
        requires
            old(self).wf(),
        ensures
            final(self).wf(),
            final(self).view().expanded == old(self).view().expanded,
            final(self).view().loaded == old(self).view().loaded.restrict(
                Set::new(|path: Seq<char>| !is_within(path, dir@)),
            ),
            forall|path: Seq<char>|
                #[trigger] r.deep_view().contains(path) == (is_within(path, dir@) && old(
                    self,
                ).view().loaded.contains_key(path) || path == dir@ && old(self).view().wants(path)),
            forall|path: Seq<char>|
                #[trigger] final(self).view().pending.contains(path) == (old(
                    self,
                ).view().pending.contains(path) || r.deep_view().contains(path)),
            r.deep_view().no_duplicates(),
            final(self).view().loading == old(self).view().loading,
            final(self).view().show_ignored == old(self).view().show_ignored,
    {
        let ghost start = self.view();
        let prefix: String = if dir.is_empty() {
            String::new()
        } else {
            concat(dir, "/")
        };
        let keys: Vec<String> = self.loaded_dirs.keys();
        let ghost all = keys.deep_view();
        let mut affected: Vec<String> = Vec::new();
        let mut i: usize = 0;
        assert forall|path: Seq<char>| !(#[trigger] affected.deep_view().contains(path)) by {}
        assert(start.loaded == start.loaded.restrict(Set::new(|path: Seq<char>| true)));
        assert(start.pending.difference(Set::empty()) == start.pending);
        while i < keys.len()
            invariant
                i <= keys@.len(),
                all == keys.deep_view(),
                all.no_duplicates(),
                start == old(self).view(),
                prefix@ == (if dir@.len() == 0 {
                    Seq::empty()
                } else {
                    dir@ + "/"@
                }),
                self.wf(),
                self.view().expanded == start.expanded,
                self.loading == old(self).loading,
                self.show_ignored == old(self).show_ignored,
                forall|path: Seq<char>|
                    #[trigger] affected.deep_view().contains(path) == (all.take(i as int).contains(
                        path,
                    ) && is_within(path, dir@)),
                forall|path: Seq<char>| #[trigger]
                    self.view().loaded.contains_key(path) == (start.loaded.contains_key(path)
                        && !affected.deep_view().contains(path)),
                forall|path: Seq<char>|
                    #[trigger] self.view().loaded.contains_key(path) ==> self.view().loaded[path]
                        == start.loaded[path],
                forall|path: Seq<char>| #[trigger]
                    self.view().pending.contains(path) == (start.pending.contains(path)
                        && !affected.deep_view().contains(path)),
            decreases keys@.len() - i,
        {
            let ghost before = *self;
            let ghost gone = affected.deep_view();
            let ghost next = all[i as int];
            assert(all.take(i + 1) == all.take(i as int).push(next));
            assert(keys@[i as int]@ == next);
            assert(dir@.len() == 0 ==> prefix@.is_prefix_of(next)) by {
                assert(next.take(0) == Seq::<char>::empty());
            }
            if same(keys[i].as_str(), dir) || starts_with(keys[i].as_str(), prefix.as_str()) {
                self.loaded_dirs.remove(keys[i].as_str());
                self.loading_dirs.remove(keys[i].as_str());
                affected.push(keys[i].clone());
                assert(affected.deep_view() == gone.push(next));
                assert(self.view().pending == before.view().pending.remove(next));
                assert(is_within(next, dir@));
                assert forall|p: Seq<char>| #[trigger]
                    self.view().loaded.contains_key(p) implies p.len() <= usize::MAX - 2 by {
                    assert(before.view().loaded.contains_key(p));
                }
                assert(paths_within(self.view(), (usize::MAX - 2) as nat));
            } else {
                assert(!is_within(next, dir@));
            }
            assert forall|path: Seq<char>|
                #[trigger] affected.deep_view().contains(path) == (all.take(i + 1).contains(path)
                    && is_within(path, dir@)) by {
                push_contains(all.take(i as int), next, path);
                push_contains(gone, next, path);
                assert(gone.contains(path) == (all.take(i as int).contains(path) && is_within(
                    path,
                    dir@,
                )));
            }
            assert forall|path: Seq<char>| #[trigger]
                self.view().loaded.contains_key(path) == (start.loaded.contains_key(path)
                    && !affected.deep_view().contains(path)) by {
                push_contains(gone, next, path);
                assert(before.view().loaded.contains_key(path) == (start.loaded.contains_key(path)
                    && !gone.contains(path)));
            }
            assert forall|path: Seq<char>| #[trigger]
                self.view().pending.contains(path) == (start.pending.contains(path)
                    && !affected.deep_view().contains(path)) by {
                push_contains(gone, next, path);
                assert(before.view().pending.contains(path) == (start.pending.contains(path)
                    && !gone.contains(path)));
            }
            assert forall|path: Seq<char>| #[trigger]
                self.view().loaded.contains_key(path) implies self.view().loaded[path]
                == start.loaded[path] by {
                assert(before.view().loaded.contains_key(path));
            }
            i = i + 1;
        }
        assert(all.take(all.len() as int) == all);
        let ghost stripped = self.view();
        let ghost gone = affected.deep_view();
        assert forall|path: Seq<char>|
            #[trigger] gone.contains(path) == (start.loaded.contains_key(path) && is_within(
                path,
                dir@,
            )) by {
            assert(all.contains(path) <==> start.loaded.contains_key(path));
        }
        assert(stripped.loaded == start.loaded.restrict(
            Set::new(|path: Seq<char>| !is_within(path, dir@)),
        ));
        affected.push(dir.to_owned());
        assert(affected.deep_view() == gone.push(dir@));
        let r: Vec<String> = self.fetch_all(&affected);
        assert forall|path: Seq<char>|
            #[trigger] r.deep_view().contains(path) == (is_within(path, dir@)
                && start.loaded.contains_key(path) || path == dir@ && start.wants(path)) by {
            push_contains(gone, dir@, path);
            assert(stripped.loaded.contains_key(path) == (start.loaded.contains_key(path)
                && !gone.contains(path)));
            assert(stripped.pending.contains(path) == (start.pending.contains(path)
                && !gone.contains(path)));
        }
        assert forall|path: Seq<char>|
            #[trigger] self.view().pending.contains(path) == (start.pending.contains(path)
                || r.deep_view().contains(path)) by {
            assert(stripped.pending.contains(path) == (start.pending.contains(path)
                && !gone.contains(path)));
            assert(r.deep_view().contains(path) == (is_within(path, dir@)
                && start.loaded.contains_key(path) || path == dir@ && start.wants(path)));
            assert(gone.contains(path) == (start.loaded.contains_key(path) && is_within(
                path,
                dir@,
            )));
        }
        r
    }
}

// ---------------------------------------------------------------------------
// Rows
// ---------------------------------------------------------------------------

/// A row of the tree as it is shown.
#[derive(Clone, Debug, PartialEq, Eq)]
pub enum TreeRow {
    /// In place of a listing that is on its way.
    Loading { depth: usize },
    Folder { path: String, name: String, depth: usize, expanded: bool },
    File { path: String, name: String, depth: usize, active: bool, open: bool },
}

/// A [`TreeRow`] with its texts as sequences.
pub enum RowModel {
    Loading { depth: nat },
    Folder { path: Seq<char>, name: Seq<char>, depth: nat, expanded: bool },
    File { path: Seq<char>, name: Seq<char>, depth: nat, active: bool, open: bool },
}

impl DeepView for TreeRow {
    type V = RowModel;

    open spec fn deep_view(&self) -> RowModel {
        match self {
            TreeRow::Loading { depth } => RowModel::Loading { depth: *depth as nat },
            TreeRow::Folder { path, name, depth, expanded } => RowModel::Folder {
                path: path@,
                name: name@,
                depth: *depth as nat,
                expanded: *expanded,
            },
            TreeRow::File { path, name, depth, active, open } => RowModel::File {
                path: path@,
                name: name@,
                depth: *depth as nat,
                active: *active,
                open: *open,
            },
        }
    }
}

/// What the rows are drawn from: the tree, the active file, and the open files.
pub struct Scene {
    pub tree: TreeModel,
    pub active: Seq<char>,
    pub open: Seq<Seq<char>>,
}

/// The rows of a folder's entries, down to `levels` levels. A folder is followed
/// by its own rows where it is unfolded.
pub open spec fn folder_rows(scene: Scene, parent: Seq<char>, depth: nat, levels: nat) -> Seq<
    RowModel,
>
    decreases levels, 1nat, 0int,
{
    if levels == 0 {
        Seq::empty()
    } else if scene.tree.loaded.contains_key(parent) {
        let entries = scene.tree.loaded[parent]@;
        entry_rows(scene, parent, entries, entries.len() as int, depth, levels)
    } else if scene.tree.pending.contains(parent) {
        seq![RowModel::Loading { depth }]
    } else {
        Seq::empty()
    }
}

/// The rows of the first `n` entries of a folder.
pub open spec fn entry_rows(
    scene: Scene,
    parent: Seq<char>,
    entries: Seq<DirEntry>,
    n: int,
    depth: nat,
    levels: nat,
) -> Seq<RowModel>
    decreases levels, 0nat, n,
{
    if n <= 0 || levels == 0 {
        Seq::empty()
    } else {
        let name = entries[n - 1].name@;
        let path = child_path_model(parent, name);
        let before = entry_rows(scene, parent, entries, n - 1, depth, levels);
        if entries[n - 1].is_dir {
            let expanded = scene.tree.expanded.contains(path);
            before.push(RowModel::Folder { path, name, depth, expanded }) + (if expanded {
                folder_rows(scene, path, depth + 1, (levels - 1) as nat)
            } else {
                Seq::empty()
            })
        } else {
            before.push(
                RowModel::File {
                    path,
                    name,
                    depth,
                    active: path == scene.active,
                    open: scene.open.contains(path),
                },
            )
        }
    }
}

/// No listed folder has a path longer than `bound`.
pub open spec fn paths_within(tree: TreeModel, bound: nat) -> bool {
    forall|path: Seq<char>| #[trigger] tree.loaded.contains_key(path) ==> path.len() <= bound
}

/// Whether the rows come to an end. They would not where a folder without a name
/// in the listing of the project itself is unfolded: its path is that of the
/// project, and so its rows would hold it again.
pub open spec fn rows_end(tree: TreeModel) -> bool {
    tree.expanded.contains(Seq::<char>::empty()) && tree.loaded.contains_key(Seq::<char>::empty())
        ==> forall|i: int|
        0 <= i < tree.loaded[Seq::<char>::empty()]@.len() ==> ((
        #[trigger] tree.loaded[Seq::<char>::empty()]@[i]).is_dir
            ==> tree.loaded[Seq::<char>::empty()]@[i].name@.len() > 0)
}

/// With more levels than the listed paths are long, further levels add nothing:
/// the rows show the whole tree.
pub proof fn rows_are_complete(
    scene: Scene,
    parent: Seq<char>,
    depth: nat,
    levels: nat,
    more: nat,
    bound: nat,
)
    requires
        paths_within(scene.tree, bound),
        rows_end(scene.tree),
        levels <= more,
        levels >= 1,
        parent.len() + levels >= bound + 2,
    ensures
        folder_rows(scene, parent, depth, levels) == folder_rows(scene, parent, depth, more),
    decreases levels, 1nat, 0int,
{
    if scene.tree.loaded.contains_key(parent) {
        let entries = scene.tree.loaded[parent]@;
        entry_rows_complete(scene, parent, entries.len() as int, depth, levels, more, bound);
    }
}

proof fn entry_rows_complete(
    scene: Scene,
    parent: Seq<char>,
    n: int,
    depth: nat,
    levels: nat,
    more: nat,
    bound: nat,
)
    requires
        paths_within(scene.tree, bound),
        rows_end(scene.tree),
        scene.tree.loaded.contains_key(parent),
        0 <= n <= scene.tree.loaded[parent]@.len(),
        1 <= levels <= more,
        parent.len() + levels >= bound + 2,
    ensures
        entry_rows(scene, parent, scene.tree.loaded[parent]@, n, depth, levels) == entry_rows(
            scene,
            parent,
            scene.tree.loaded[parent]@,
            n,
            depth,
            more,
        ),
    decreases levels, 0nat, n,
{
    if n > 0 {
        entry_rows_complete(scene, parent, n - 1, depth, levels, more, bound);
        let entries = scene.tree.loaded[parent]@;
        let path = child_path_model(parent, entries[n - 1].name@);
        if entries[n - 1].is_dir && scene.tree.expanded.contains(path) {
            reveal_strlit("/");
            if parent.len() == 0 {
                assert(parent =~= Seq::<char>::empty());
                if path.len() == 0 {
                    assert(path =~= Seq::<char>::empty());
                }
            }
            assert(path.len() > parent.len());
            assert(levels >= 2);
            rows_are_complete(
                scene,
                path,
                depth + 1,
                (levels - 1) as nat,
                (more - 1) as nat,
                bound,
            );
        }
    }
}

/// Whether `rows` are the rows of the whole tree: those of every sufficient
/// number of levels.
pub open spec fn are_all_rows(scene: Scene, rows: Seq<RowModel>) -> bool {
    exists|enough: nat| #[trigger] are_rows_from(scene, rows, enough)
}

/// Whether `rows` are the rows of the tree down to `enough` or more levels.
pub open spec fn are_rows_from(scene: Scene, rows: Seq<RowModel>, enough: nat) -> bool {
    forall|levels: nat|
        enough <= levels ==> #[trigger] folder_rows(scene, Seq::empty(), 0, levels) == rows
}

fn push_row(rows: &mut Vec<TreeRow>, row: TreeRow)
    ensures
        final(rows).deep_view() == old(rows).deep_view().push(row.deep_view()),
{
    let ghost before = rows.deep_view();
    rows.push(row);
    assert(rows.deep_view() == before.push(row.deep_view()));
}

impl FileTree {
    /// Whether a folder is unfolded.
    pub fn is_expanded(&self, path: &str) -> (r: bool)
        requires
            self.wf(),
        ensures
            r == self.view().expanded.contains(path@),
    {
        self.expanded_folders.contains_key(path)
    }

    /// Whether the listing of the project itself is still on its way.
    pub fn is_loading(&self) -> (r: bool)
        ensures
            r == self.view().loading,
    {
        self.loading
    }

    fn push_folder_rows(
        &self,
        rows: &mut Vec<TreeRow>,
        active: &str,
        open: &Vec<String>,
        parent: &str,
        depth: usize,
        levels: usize,
    )
        requires
            self.wf(),
            depth + levels <= usize::MAX,
        ensures
            final(rows).deep_view() == old(rows).deep_view() + folder_rows(
                Scene { tree: self.view(), active: active@, open: open.deep_view() },
                parent@,
                depth as nat,
                levels as nat,
            ),
        decreases levels,
    {
        let ghost scene = Scene {
            tree: self.view(),
            active: active@,
            open: open.deep_view(),
        };
        let ghost start = rows.deep_view();
        assert(start + Seq::<RowModel>::empty() == start);
        if levels == 0 {
            return;
        }
        let entries: &Vec<DirEntry> = match self.loaded_dirs.get(parent) {
            Some(entries) => entries,
            None => {
                if self.loading_dirs.contains_key(parent) {
                    push_row(rows, TreeRow::Loading { depth });
                }
                return;
            },
        };
        let mut i: usize = 0;
        while i < entries.len()
            invariant
                i <= entries@.len(),
                self.wf(),
                1 <= levels,
                depth + levels <= usize::MAX,
                scene == (Scene { tree: self.view(), active: active@, open: open.deep_view() }),
                rows.deep_view() == start + entry_rows(
                    scene,
                    parent@,
                    entries@,
                    i as int,
                    depth as nat,
                    levels as nat,
                ),
            decreases entries@.len() - i,
        {
            let ghost so_far = entry_rows(
                scene,
                parent@,
                entries@,
                i as int,
                depth as nat,
                levels as nat,
            );
            let name: &String = &entries[i].name;
            let path: String = child_path(parent, name.as_str());
            if entries[i].is_dir {
                let expanded: bool = self.expanded_folders.contains_key(path.as_str());
                let ghost row = RowModel::Folder {
                    path: path@,
                    name: name@,
                    depth: depth as nat,
                    expanded,
                };
                let child: String = path.clone();
                push_row(rows, TreeRow::Folder { path, name: name.clone(), depth, expanded });
                assert((start + so_far).push(row) == start + so_far.push(row));
                let ghost below = folder_rows(
                    scene,
                    child@,
                    (depth + 1) as nat,
                    (levels - 1) as nat,
                );
                assert(start + so_far.push(row) + below == start + (so_far.push(row) + below));
                assert(start + so_far.push(row) + Seq::<RowModel>::empty() == start + (so_far.push(
                    row,
                ) + Seq::<RowModel>::empty()));
                if expanded {
                    self.push_folder_rows(
                        rows,
                        active,
                        open,
                        child.as_str(),
                        depth + 1,
                        levels - 1,
                    );
                }
            } else {
                let is_active: bool = same(path.as_str(), active);
                let is_open: bool = contains_text(open, path.as_str());
                let ghost row = RowModel::File {
                    path: path@,
                    name: name@,
                    depth: depth as nat,
                    active: is_active,
                    open: is_open,
                };
                push_row(
                    rows,
                    TreeRow::File {
                        path,
                        name: name.clone(),
                        depth,
                        active: is_active,
                        open: is_open,
                    },
                );
                assert((start + so_far).push(row) == start + so_far.push(row));
            }
            i = i + 1;
        }
    }

    /// The length of the longest path of a listed folder.
    fn longest_path(&self) -> (r: usize)
        requires
            self.wf(),
        ensures
            paths_within(self.view(), r as nat),
            r <= usize::MAX - 2,
    {
        let keys: Vec<String> = self.loaded_dirs.keys();
        let ghost all = keys.deep_view();
        assert forall|j: int| 0 <= j < all.len() implies (#[trigger] all[j]).len() <= usize::MAX
            - 2 by {
            assert(all.contains(all[j]));
            assert(self.view().loaded.contains_key(all[j]));
        }
        let mut longest: usize = 0;
        let mut i: usize = 0;
        while i < keys.len()
            invariant
                i <= keys@.len(),
                all == keys.deep_view(),
                forall|j: int| 0 <= j < i ==> (#[trigger] all[j]).len() <= longest,
                longest <= usize::MAX - 2,
                forall|j: int| 0 <= j < all.len() ==> (#[trigger] all[j]).len() <= usize::MAX - 2,
            decreases keys@.len() - i,
        {
            let n: usize = chars_of(keys[i].as_str()).len();
            assert(all[i as int].len() == n);
            if n > longest {
                longest = n;
            }
            i = i + 1;
        }
        assert forall|path: Seq<char>| #[trigger]
            self.view().loaded.contains_key(path) implies path.len() <= longest by {
            assert(all.contains(path));
            let j = choose|j: int| 0 <= j < all.len() && all[j] == path;
            assert(all[j].len() <= longest);
        }
        longest
    }

    /// Whether the rows of the tree come to an end.
    pub fn rows_end(&self) -> (r: bool)
        requires
            self.wf(),
        ensures
            r == rows_end(self.view()),
    {
        proof {
            reveal_strlit("");
            assert(""@ == Seq::<char>::empty());
        }
        if !self.expanded_folders.contains_key("") {
            return true;
        }
        let entries: &Vec<DirEntry> = match self.loaded_dirs.get("") {
            Some(entries) => entries,
            None => return true,
        };
        let mut i: usize = 0;
        while i < entries.len()
            invariant
                i <= entries@.len(),
                self.view().expanded.contains(Seq::<char>::empty()),
                self.view().loaded.contains_key(Seq::<char>::empty()),
                self.view().loaded[Seq::<char>::empty()] == *entries,
                forall|j: int|
                    0 <= j < i ==> ((#[trigger] entries@[j]).is_dir ==> entries@[j].name@.len()
                        > 0),
            decreases entries@.len() - i,
        {
            if entries[i].is_dir && entries[i].name.as_str().is_empty() {
                assert(self.view().loaded[Seq::<char>::empty()]@[i as int].is_dir);
                return false;
            }
            i = i + 1;
        }
        true
    }

    /// The rows of the whole tree. `active` is the path of the active file and
    /// `open` holds those of all open ones.
    pub fn rows(&self, active: &str, open: &Vec<String>) -> (r: Vec<TreeRow>)
        requires
            self.wf(),
            rows_end(self.view()),
        ensures
            are_all_rows(
                Scene { tree: self.view(), active: active@, open: open.deep_view() },
                r.deep_view(),
            ),
    {
        let ghost scene = Scene { tree: self.view(), active: active@, open: open.deep_view() };
        let longest: usize = self.longest_path();
        let mut rows: Vec<TreeRow> = Vec::new();
        let levels: usize = longest + 2;
        self.push_folder_rows(&mut rows, active, open, "", 0, levels);
        proof {
            reveal_strlit("");
            assert(""@ == Seq::<char>::empty());
            assert(rows.deep_view() == folder_rows(scene, Seq::empty(), 0, levels as nat));
            assert forall|more: nat| levels as nat <= more implies #[trigger] folder_rows(
                scene,
                Seq::empty(),
                0,
                more,
            ) == rows.deep_view() by {
                rows_are_complete(
                    scene,
                    Seq::empty(),
                    0,
                    levels as nat,
                    more,
                    longest as nat,
                );
            }
            assert(are_rows_from(scene, rows.deep_view(), levels as nat));
        }
        rows
    }
}

proof fn push_contains<A>(s: Seq<A>, x: A, y: A)
    ensures
        s.push(x).contains(y) == (s.contains(y) || x == y),
{
    if s.contains(y) {
        let i = choose|i: int| 0 <= i < s.len() && s[i] == y;
        assert(s.push(x)[i] == y);
    }
    if x == y {
        assert(s.push(x)[s.len() as int] == y);
    }
}

proof fn leading_path_is_joined(parts: Seq<Seq<char>>, n: int)
    requires
        1 <= n <= parts.len(),
        parts[0].len() > 0,
    ensures
        leading_path(parts, n) == join_seq(parts.take(n), "/"@),
        leading_path(parts, n).len() > 0,
    decreases n,
{
    if n == 1 {
        assert(leading_path(parts, 0) == Seq::<char>::empty());
        assert(parts.take(1)[0] == parts[0]);
    } else {
        leading_path_is_joined(parts, n - 1);
        assert(parts.take(n).drop_last() == parts.take(n - 1));
        assert(parts.take(n).last() == parts[n - 1]);
    }
}

/// The folders above a file are those that its path names, the outermost first, and
/// the file itself is none of them.
pub proof fn folders_above_are_named(names: Seq<Seq<char>>, i: int)
    requires
        0 <= i < names.len() - 1,
        forall|k: int|
            0 <= k < names.len() ==> (#[trigger] names[k]).len() > 0 && !names[k].contains('/')
                && !names[k].contains('\\'),
    ensures
        ancestors(join_seq(names, "/"@)).len() == names.len() - 1,
        ancestors(join_seq(names, "/"@))[i] == join_seq(names.take(i + 1), "/"@),
{
    reveal_strlit("/");
    assert("/"@ == seq!['/']);
    let path = join_seq(names, "/"@);
    joined_lacks(names, "/"@, '\\');
    assert forall|k: int| 0 <= k < path.len() implies slashed(path)[k] == path[k] by {
        assert(path[k] != '\\');
    }
    assert(slashed(path) =~= path);
    join_splits_back(names, '/');
    leading_path_is_joined(names, i + 1);
}

/// Showing a file opens every folder above it and closes none, and asks for just
/// those listings that are neither there nor on their way.
pub proof fn folders_above_are_opened(
    before: TreeModel,
    after: TreeModel,
    fetches: Seq<Seq<char>>,
    relative_path: Seq<char>,
    path: Seq<char>,
)
    requires
        has_expanded(before, after, fetches, relative_path),
    ensures
        ancestors(relative_path).contains(path) ==> after.expanded.contains(path),
        before.expanded.contains(path) ==> after.expanded.contains(path),
        ancestors(relative_path).contains(path) ==> after.loaded.contains_key(path)
            || after.pending.contains(path),
        before.loaded.contains_key(path) || before.pending.contains(path) ==> !fetches.contains(
            path,
        ),
        after.loaded == before.loaded,
{
    assert(after.expanded.contains(path) == (before.expanded.contains(path) || ancestors(
        relative_path,
    ).contains(path)));
    assert(fetches.contains(path) == (ancestors(relative_path).contains(path) && before.wants(
        path,
    )));
    assert(after.pending.contains(path) == (before.pending.contains(path) || fetches.contains(
        path,
    )));
}

/// A folder holds itself, what lies below it, and no folder whose name merely begins
/// like its own.
pub proof fn folders_hold_what_is_below(dir: Seq<char>, name: Seq<char>)
    requires
        dir.len() > 0,
    ensures
        is_within(dir, dir),
        is_within(child_path_model(dir, name), dir),
        is_within(dir + name, dir) ==> name.len() == 0 || name[0] == '/',
        is_within(name, Seq::empty()),
{
    reveal_strlit("/");
    assert((dir + "/"@).is_prefix_of(dir + "/"@ + name));
    if is_within(dir + name, dir) && name.len() > 0 {
        if (dir + "/"@).is_prefix_of(dir + name) {
            assert((dir + name)[dir.len() as int] == (dir + "/"@)[dir.len() as int]);
        } else {
            assert((dir + name).len() == dir.len());
        }
    }
}

/// Every entry of a folder that is listed has its row, a file with whether it is
/// active and whether it is open, a folder with whether it is expanded.
pub proof fn entries_have_rows(
    scene: Scene,
    parent: Seq<char>,
    entries: Seq<DirEntry>,
    n: int,
    i: int,
    depth: nat,
    levels: nat,
)
    requires
        levels > 0,
        0 <= i < n <= entries.len(),
    ensures
        ({
            let name = entries[i].name@;
            let path = child_path_model(parent, name);
            entry_rows(scene, parent, entries, n, depth, levels).contains(
                if entries[i].is_dir {
                    RowModel::Folder {
                        path,
                        name,
                        depth,
                        expanded: scene.tree.expanded.contains(path),
                    }
                } else {
                    RowModel::File {
                        path,
                        name,
                        depth,
                        active: path == scene.active,
                        open: scene.open.contains(path),
                    }
                },
            )
        }),
    decreases n,
{
    let name = entries[i].name@;
    let path = child_path_model(parent, name);
    let row = if entries[i].is_dir {
        RowModel::Folder { path, name, depth, expanded: scene.tree.expanded.contains(path) }
    } else {
        RowModel::File {
            path,
            name,
            depth,
            active: path == scene.active,
            open: scene.open.contains(path),
        }
    };
    let before = entry_rows(scene, parent, entries, n - 1, depth, levels);
    let all = entry_rows(scene, parent, entries, n, depth, levels);
    if i < n - 1 {
        entries_have_rows(scene, parent, entries, n - 1, i, depth, levels);
        let k = choose|k: int| 0 <= k < before.len() && before[k] == row;
        assert(all[k] == row);
    } else {
        assert(all[before.len() as int] == row);
    }
}

/// A folder that is not expanded shows nothing of what it holds, and one whose
/// listing is on its way says so.
pub proof fn closed_folders_show_nothing(
    scene: Scene,
    parent: Seq<char>,
    entries: Seq<DirEntry>,
    n: int,
    depth: nat,
    levels: nat,
)
    requires
        levels > 0,
        0 <= n <= entries.len(),
        forall|i: int|
            0 <= i < n ==> !((#[trigger] entries[i]).is_dir && scene.tree.expanded.contains(
                child_path_model(parent, entries[i].name@),
            )),
    ensures
        entry_rows(scene, parent, entries, n, depth, levels).len() == n,
        !scene.tree.loaded.contains_key(parent) && scene.tree.pending.contains(parent)
            ==> folder_rows(scene, parent, depth, levels) == seq![RowModel::Loading { depth }],
    decreases n,
{
    if n > 0 {
        closed_folders_show_nothing(scene, parent, entries, n - 1, depth, levels);
        assert(!(entries[n - 1].is_dir && scene.tree.expanded.contains(
            child_path_model(parent, entries[n - 1].name@),
        )));
    }
}

/// Everything that is shown is there or on its way once it was asked for: the project
/// itself and every folder that is expanded.
pub proof fn shown_folders_are_fetched(
    before: TreeModel,
    after: TreeModel,
    fetches: Seq<Seq<char>>,
    path: Seq<char>,
)
    requires
        has_fetched_shown(before, after, fetches),
    ensures
        path.len() == 0 || before.expanded.contains(path) ==> after.loaded.contains_key(path)
            || after.pending.contains(path),
        path.len() > 0 && !before.expanded.contains(path) ==> !fetches.contains(path),
        before.loaded.contains_key(path) || before.pending.contains(path) ==> !fetches.contains(
            path,
        ),
{
    assert(fetches.contains(path) == ((path.len() == 0 || before.expanded.contains(path))
        && before.wants(path)));
    assert(after.pending.contains(path) == (before.pending.contains(path) || fetches.contains(
        path,
    )));
}

/// What lies in a folder stands one step further in than the folder.
pub proof fn rows_step_in(
    scene: Scene,
    parent: Seq<char>,
    entries: Seq<DirEntry>,
    i: int,
    depth: nat,
    levels: nat,
)
    requires
        levels > 1,
        0 <= i < entries.len(),
        entries[i].is_dir,
        scene.tree.expanded.contains(child_path_model(parent, entries[i].name@)),
    ensures
        ({
            let path = child_path_model(parent, entries[i].name@);
            let rows = entry_rows(scene, parent, entries, i + 1, depth, levels);
            let below = folder_rows(scene, path, depth + 1, (levels - 1) as nat);
            &&& below.is_suffix_of(rows)
            &&& !scene.tree.loaded.contains_key(path) && scene.tree.pending.contains(path)
                ==> rows.last() == (RowModel::Loading { depth: depth + 1 })
        }),
{
    let path = child_path_model(parent, entries[i].name@);
    let rows = entry_rows(scene, parent, entries, i + 1, depth, levels);
    let below = folder_rows(scene, path, depth + 1, (levels - 1) as nat);
    assert(rows.skip(rows.len() - below.len()) =~= below);
}

} // verus!
