//! The file viewer: its tabs and its tree together.

use crate::files::tab::{is_empty_tab, FileMeta, FileViewerTab, TabRefresh};
use crate::files::history::forward_undoes_back;
use crate::files::tabs::{
    has_navigated, has_opened, is_started_tab, navigation_shows_the_file, refreshed_tabs, refreshes, OpenOutcome, TabList,
    TabsModel,
};
use crate::files::tree::{ancestors, has_expanded, DirEntry, FileTree, TreeModel};
use crate::path::{join_path, join_path_seq};
use vstd::prelude::*;

verus! {

broadcast use vstd::string::group_string_axioms;

/// The state of a file viewer.
#[derive(Debug)]
pub struct FileViewer {
    pub tabs: TabList,
    pub tree: FileTree,
    /// Where the project lies, where it is on this machine.
    pub project_root: Option<String>,
    pub is_dark: bool,
    pub sidebar_visible: bool,
    pub is_detached: bool,
    pub blame_visible: bool,
}

/// Work for the owner of a viewer: listings to fetch, and a file to load.
#[derive(Debug)]
pub struct ViewerWork {
    pub fetches: Vec<String>,
    pub outcome: OpenOutcome,
}

/// Work for the owner of a viewer after a change of its configuration.
#[derive(Debug)]
pub struct ConfigWork {
    /// The listings to fetch.
    pub fetches: Vec<String>,
    /// What becomes of each tab.
    pub tabs: Vec<TabRefresh>,
    /// Whether to load the blame of the active tab, where it is out of date.
    pub load_blame: bool,
}

/// Where a file of the project lies; the path itself for a remote project.
pub open spec fn absolute_model(root: Option<Seq<char>>, relative_path: Seq<char>) -> Seq<char> {
    match root {
        Some(dir) => join_path_seq(dir, relative_path),
        None => relative_path,
    }
}

/// Where a file of the project lies.
pub fn resolve_absolute(root: &Option<String>, relative_path: &str) -> (r: String)
    ensures
        r@ == absolute_model(root.deep_view(), relative_path@),
{
    match root {
        Some(dir) => join_path(dir.as_str(), relative_path),
        None => relative_path.to_owned(),
    }
}

/// `after` is `before` with the folders around a file unfolded, where it had no
/// tab yet.
pub open spec fn has_unfolded(
    before: FileViewer,
    after: FileViewer,
    relative_path: Seq<char>,
    work: ViewerWork,
) -> bool {
    if work.outcome is AlreadyOpen {
        after.tree == before.tree && work.fetches@.len() == 0
    } else {
        has_expanded(
            before.tree.view(),
            after.tree.view(),
            work.fetches.deep_view(),
            relative_path,
        )
    }
}

impl FileViewer {
    /// Tabs and tree are sound.
    pub open spec fn wf(&self) -> bool {
        self.tabs.view().wf() && self.tree.wf()
    }

    fn with_tab(
        tab: FileViewerTab,
        project_root: Option<String>,
        blame_visible: bool,
        is_dark: bool,
    ) -> (r: FileViewer)
        ensures
            r.wf(),
            r.tabs.view().tabs == seq![tab],
            r.tabs.view().active == 0,
            r.tabs.view().history.back.len() == 0,
            r.tabs.view().history.forward.len() == 0,
            r.tabs.view().generation == 0,
            r.tree.view() == (TreeModel {
                loaded: Map::empty(),
                pending: Set::empty(),
                expanded: Set::empty(),
                loading: true,
                show_ignored: false,
            }),
            r.project_root == project_root,
            r.is_dark == is_dark,
            r.sidebar_visible,
            !r.is_detached,
            r.blame_visible == blame_visible,
    {
        FileViewer {
            tabs: TabList::new(tab),
            tree: FileTree::new(),
            project_root,
            is_dark,
            sidebar_visible: true,
            is_detached: false,
            blame_visible,
        }
    }

    /// A viewer with a file in its only tab, the folders around it unfolded.
    pub fn new(
        relative_path: String,
        project_root: Option<String>,
        blame_visible: bool,
        is_dark: bool,
    ) -> (r: (FileViewer, ViewerWork))
        ensures
            r.0.wf(),
            r.0.tabs.view().tabs.len() == 1,
            is_started_tab(
                r.0.tabs.view().tabs[0],
                relative_path@,
                absolute_model(project_root.deep_view(), relative_path@),
                1,
            ),
            r.0.tabs.view().active == 0,
            r.0.tabs.view().history.back.len() == 0,
            r.0.tabs.view().history.forward.len() == 0,
            r.0.tabs.view().generation == 1,
            r.1.outcome == (OpenOutcome::Load { generation: 1, dropped: None }),
            forall|path: Seq<char>|
                #[trigger] r.1.fetches.deep_view().contains(path) == (path.len() == 0 || ancestors(
                    relative_path@,
                ).contains(path)),
            forall|path: Seq<char>|
                #[trigger] r.0.tree.view().expanded.contains(path) == ancestors(
                    relative_path@,
                ).contains(path),
            forall|path: Seq<char>|
                #[trigger] r.0.tree.view().pending.contains(path)
                    == r.1.fetches.deep_view().contains(path),
            r.0.tree.view().loaded == Map::<Seq<char>, Vec<DirEntry>>::empty(),
            r.0.tree.view().loading,
            !r.0.tree.view().show_ignored,
            r.0.project_root == project_root,
            r.0.is_dark == is_dark,
            r.0.sidebar_visible,
            !r.0.is_detached,
            r.0.blame_visible == blame_visible,
    {
        let file_path: String = resolve_absolute(&project_root, relative_path.as_str());
        let path: String = relative_path.clone();
        let tab: FileViewerTab = FileViewerTab::new_loading(relative_path, file_path);
        let mut viewer: FileViewer = Self::with_tab(tab, project_root, blame_visible, is_dark);
        let ghost fresh = viewer.tree.view();
        let mut fetches: Vec<String> = viewer.tree.expand_ancestors(path.as_str());
        let ghost first = fetches.deep_view();
        let ghost unfolded = viewer.tree.view();
        let mut rest: Vec<String> = viewer.tree.fetch_initial_dirs();
        let ghost second = rest.deep_view();
        fetches.append(&mut rest);
        assert(fetches.deep_view() == first + second);
        assert forall|p: Seq<char>|
            #[trigger] fetches.deep_view().contains(p) == (first.contains(p) || second.contains(
                p,
            )) by {
            if first.contains(p) {
                let i = choose|i: int| 0 <= i < first.len() && first[i] == p;
                assert((first + second)[i] == p);
            }
            if second.contains(p) {
                let i = choose|i: int| 0 <= i < second.len() && second[i] == p;
                assert((first + second)[first.len() + i] == p);
            }
        }
        assert forall|p: Seq<char>|
            #[trigger] fetches.deep_view().contains(p) == (p.len() == 0 || ancestors(
                path@,
            ).contains(p)) by {
            assert(fresh.wants(p));
            assert(first.contains(p) == (ancestors(path@).contains(p) && fresh.wants(p)));
            assert(unfolded.pending.contains(p) == (fresh.pending.contains(p) || first.contains(
                p,
            )));
            assert(unfolded.expanded.contains(p) == (fresh.expanded.contains(p) || ancestors(
                path@,
            ).contains(p)));
            assert(second.contains(p) == ((p.len() == 0 || unfolded.expanded.contains(p))
                && unfolded.wants(p)));
        }
        assert forall|p: Seq<char>|
            #[trigger] viewer.tree.view().pending.contains(p) == fetches.deep_view().contains(p) by {
            assert(unfolded.pending.contains(p) == (fresh.pending.contains(p) || first.contains(
                p,
            )));
        }
        let generation: u64 = viewer.tabs.start_load(path.as_str());
        (viewer, ViewerWork { fetches, outcome: OpenOutcome::Load { generation, dropped: None } })
    }

    /// A viewer without a file.
    pub fn new_browse(project_root: Option<String>, blame_visible: bool, is_dark: bool) -> (r: (
        FileViewer,
        Vec<String>,
    ))
        ensures
            r.0.wf(),
            r.0.tabs.view().tabs.len() == 1,
            is_empty_tab(r.0.tabs.view().tabs[0]),
            r.0.tabs.view().active == 0,
            r.0.tabs.view().history.back.len() == 0,
            r.0.tabs.view().history.forward.len() == 0,
            r.0.tabs.view().generation == 0,
            r.1.deep_view() == seq![Seq::<char>::empty()],
            r.0.tree.view().pending == set![Seq::<char>::empty()],
            r.0.tree.view().loaded == Map::<Seq<char>, Vec<DirEntry>>::empty(),
            r.0.tree.view().expanded == Set::<Seq<char>>::empty(),
            r.0.tree.view().loading,
            !r.0.tree.view().show_ignored,
            r.0.project_root == project_root,
            r.0.is_dark == is_dark,
            r.0.sidebar_visible,
            !r.0.is_detached,
            r.0.blame_visible == blame_visible,
    {
        let tab: FileViewerTab = FileViewerTab::new_empty();
        let mut viewer: FileViewer = Self::with_tab(tab, project_root, blame_visible, is_dark);
        let ghost before = viewer.tree.view();
        let fetches: Vec<String> = viewer.tree.fetch_initial_dirs();
        proof {
            let all = fetches.deep_view();
            let root = Seq::<char>::empty();
            assert(before.wants(root));
            assert(all.contains(root));
            assert forall|i: int| 0 <= i < all.len() implies all[i] == root by {
                assert(all.contains(all[i]));
                assert(all[i] =~= root);
            }
            assert(all.len() == 1) by {
                if all.len() > 1 {
                    assert(all[0] != all[1]);
                }
            }
            assert(all == seq![root]);
            assert(viewer.tree.view().pending =~= set![root]) by {
                assert forall|p: Seq<char>|
                    viewer.tree.view().pending.contains(p) == set![root].contains(p) by {
                    if p.len() == 0 {
                        assert(p =~= root);
                    }
                }
            }
        }
        (viewer, fetches)
    }

    /// Says whether the viewer is in a window of its own.
    pub fn set_detached(&mut self, detached: bool) -> (r: bool)
        ensures
            r == (old(self).is_detached != detached),
            *final(self) == (FileViewer { is_detached: detached, ..*old(self) }),
    {
        let changed: bool = self.is_detached != detached;
        self.is_detached = detached;
        changed
    }

    /// Whether the viewer is in a window of its own.
    pub fn is_detached(&self) -> (r: bool)
        ensures
            r == self.is_detached,
    {
        self.is_detached
    }

    /// Takes over the theme, fetches what is shown of the tree again, and goes
    /// through the tabs. Says which listings that takes, what becomes of each tab,
    /// and whether the blame of the active one has to be there. `metadata` is what
    /// is known of the file of each tab, where it could be asked.
    pub fn update_config(&mut self, is_dark: bool, metadata: &Vec<Option<FileMeta>>) -> (r:
        ConfigWork)
        requires
            old(self).wf(),
        ensures
            final(self).wf(),
            *final(self) == (FileViewer {
                is_dark,
                tree: final(self).tree,
                tabs: final(self).tabs,
                ..*old(self)
            }),
            ({
                let before = old(self).tabs.view();
                let rehighlight = old(self).is_dark != is_dark;
                &&& final(self).tabs.view() == (TabsModel {
                    tabs: refreshed_tabs(before.tabs, metadata@, rehighlight),
                    ..before
                })
                &&& r.tabs@ == refreshes(before.tabs, metadata@, rehighlight)
            }),
            r.load_blame == old(self).blame_visible,
            final(self).tree.view().loaded == Map::<Seq<char>, Vec<DirEntry>>::empty(),
            final(self).tree.view().expanded == old(self).tree.view().expanded,
            forall|path: Seq<char>|
                #[trigger] r.fetches.deep_view().contains(path) == (path.len() == 0 || old(
                    self,
                ).tree.view().expanded.contains(path)),
            forall|path: Seq<char>|
                #[trigger] final(self).tree.view().pending.contains(path)
                    == r.fetches.deep_view().contains(path),
            r.fetches.deep_view().no_duplicates(),
            final(self).tree.view().loading == old(self).tree.view().loading,
            final(self).tree.view().show_ignored == old(self).tree.view().show_ignored,
    {
        let rehighlight: bool = is_dark != self.is_dark;
        self.is_dark = is_dark;
        let fetches: Vec<String> = self.tree.refresh_file_tree();
        let tabs: Vec<TabRefresh> = self.tabs.refresh_tabs(metadata, rehighlight);
        ConfigWork { fetches, tabs, load_blame: self.blame_visible }
    }

    /// Opens a file in a tab and unfolds the folders around it.
    pub fn open_file_in_tab(&mut self, relative_path: String) -> (r: ViewerWork)
        requires
            old(self).wf(),
        ensures
            final(self).wf(),
            *final(self) == (FileViewer {
                tabs: final(self).tabs,
                tree: final(self).tree,
                ..*old(self)
            }),
            has_opened(
                old(self).tabs.view(),
                final(self).tabs.view(),
                relative_path@,
                absolute_model(old(self).project_root.deep_view(), relative_path@),
                r.outcome,
            ),
            has_expanded(
                old(self).tree.view(),
                final(self).tree.view(),
                r.fetches.deep_view(),
                relative_path@,
            ),
    {
        let fetches: Vec<String> = self.tree.expand_ancestors(relative_path.as_str());
        let file_path: String = resolve_absolute(&self.project_root, relative_path.as_str());
        let outcome: OpenOutcome = self.tabs.open_file_in_tab(relative_path, file_path);
        ViewerWork { fetches, outcome }
    }

    /// Shows a file that the history led to. The folders around it are only
    /// unfolded where it has no tab yet.
    fn navigate(&mut self, relative_path: String) -> (r: ViewerWork)
        requires
            old(self).wf(),
        ensures
            final(self).wf(),
            *final(self) == (FileViewer {
                tabs: final(self).tabs,
                tree: final(self).tree,
                ..*old(self)
            }),
            has_navigated(
                old(self).tabs.view(),
                final(self).tabs.view(),
                relative_path@,
                absolute_model(old(self).project_root.deep_view(), relative_path@),
                r.outcome,
            ),
            has_unfolded(*old(self), *final(self), relative_path@, r),
    {
        let path: String = relative_path.clone();
        let file_path: String = resolve_absolute(&self.project_root, relative_path.as_str());
        let outcome: OpenOutcome = self.tabs.navigate_to_file_no_history(relative_path, file_path);
        let fetches: Vec<String> = match outcome {
            OpenOutcome::AlreadyOpen => Vec::new(),
            OpenOutcome::Load { .. } => self.tree.expand_ancestors(path.as_str()),
        };
        ViewerWork { fetches, outcome }
    }

    /// Goes back in the history, where it leads anywhere.
    pub fn go_back(&mut self) -> (r: Option<ViewerWork>)
        requires
            old(self).wf(),
        ensures
            final(self).wf(),
            *final(self) == (FileViewer {
                tabs: final(self).tabs,
                tree: final(self).tree,
                ..*old(self)
            }),
            ({
                let before = old(self).tabs.view();
                let history = before.history.gone_back(before.current());
                let gone = TabsModel { history, ..before };
                if before.history.back.len() == 0 {
                    r is None && final(self).tabs.view() == before && final(self).tree == old(
                        self,
                    ).tree
                } else {
                    &&& r matches Some(work)
                    &&& has_navigated(
                        gone,
                        final(self).tabs.view(),
                        before.history.back.last(),
                        absolute_model(
                            old(self).project_root.deep_view(),
                            before.history.back.last(),
                        ),
                        work.outcome,
                    )
                    &&& has_unfolded(*old(self), *final(self), before.history.back.last(), work)
                }
            }),
    {
        match self.tabs.go_back() {
            Some(target) => Some(self.navigate(target)),
            None => None,
        }
    }

    /// Goes forward in the history, where it leads anywhere.
    pub fn go_forward(&mut self) -> (r: Option<ViewerWork>)
        requires
            old(self).wf(),
        ensures
            final(self).wf(),
            *final(self) == (FileViewer {
                tabs: final(self).tabs,
                tree: final(self).tree,
                ..*old(self)
            }),
            ({
                let before = old(self).tabs.view();
                let history = before.history.gone_forward(before.current());
                let gone = TabsModel { history, ..before };
                if before.history.forward.len() == 0 {
                    r is None && final(self).tabs.view() == before && final(self).tree == old(
                        self,
                    ).tree
                } else {
                    &&& r matches Some(work)
                    &&& has_navigated(
                        gone,
                        final(self).tabs.view(),
                        before.history.forward.last(),
                        absolute_model(
                            old(self).project_root.deep_view(),
                            before.history.forward.last(),
                        ),
                        work.outcome,
                    )
                    &&& has_unfolded(*old(self), *final(self), before.history.forward.last(), work)
                }
            }),
    {
        match self.tabs.go_forward() {
            Some(target) => Some(self.navigate(target)),
            None => None,
        }
    }

    /// Makes a tab active and unfolds the folders around its file.
    pub fn set_active_tab(&mut self, index: usize) -> (r: Option<Vec<String>>)
        requires
            old(self).wf(),
        ensures
            final(self).wf(),
            *final(self) == (FileViewer {
                tabs: final(self).tabs,
                tree: final(self).tree,
                ..*old(self)
            }),
            ({
                let before = old(self).tabs.view();
                if index < before.tabs.len() && index != before.active {
                    &&& final(self).tabs.view() == before.with_active(index as int)
                    &&& r matches Some(fetches)
                    &&& has_expanded(
                        old(self).tree.view(),
                        final(self).tree.view(),
                        fetches.deep_view(),
                        before.tabs[index as int].relative_path@,
                    )
                } else {
                    r is None && final(self).tabs.view() == before && final(self).tree == old(
                        self,
                    ).tree
                }
            }),
    {
        if self.tabs.set_active_tab(index) {
            let path: String = self.tabs.tabs[index].relative_path.clone();
            Some(self.tree.expand_ancestors(path.as_str()))
        } else {
            None
        }
    }
}

// ---------------------------------------------------------------------------
// Laws
// ---------------------------------------------------------------------------

/// Forward leads back to where back came from: the file that was shown before going
/// back is shown again, and the history is what it was.
pub proof fn forward_returns(
    start: TabsModel,
    there: TabsModel,
    again: TabsModel,
    first: OpenOutcome,
    second: OpenOutcome,
    first_path: Seq<char>,
    second_path: Seq<char>,
)
    requires
        start.wf(),
        there.wf(),
        again.wf(),
        start.history.back.len() > 0,
        start.current().len() > 0,
        has_navigated(
            TabsModel { history: start.history.gone_back(start.current()), ..start },
            there,
            start.history.back.last(),
            first_path,
            first,
        ),
        there.history.forward.len() > 0 ==> has_navigated(
            TabsModel { history: there.history.gone_forward(there.current()), ..there },
            again,
            there.history.forward.last(),
            second_path,
            second,
        ),
    ensures
        there.current() == start.history.back.last(),
        there.history.forward.len() > 0,
        again.current() == start.current(),
        again.history == start.history,
{
    let gone = TabsModel { history: start.history.gone_back(start.current()), ..start };
    forward_undoes_back(start.history, start.current());
    assert(gone.history.wf()) by {
        let before = start.history;
        let after = gone.history;
        assert forall|i: int| 0 <= i < after.back.len() implies (
        #[trigger] after.back[i]).len() > 0 by {
            assert(before.back[i].len() > 0);
        }
        assert forall|i: int| 0 <= i < after.forward.len() implies (
        #[trigger] after.forward[i]).len() > 0 by {
            if i < before.forward.len() {
                assert(before.forward[i].len() > 0);
            }
        }
    }
    navigation_shows_the_file(gone, there, start.history.back.last(), first_path, first);
    let onward = TabsModel { history: there.history.gone_forward(there.current()), ..there };
    assert(onward.history == start.history);
    navigation_shows_the_file(
        onward,
        again,
        there.history.forward.last(),
        second_path,
        second,
    );
}

/// A file of the project lies below its directory; without one it is where its path
/// says.
pub proof fn files_lie_below_the_project(root: Seq<char>, relative_path: Seq<char>)
    ensures
        absolute_model(None, relative_path) == relative_path,
        !"/"@.is_prefix_of(relative_path) && root.len() > 0 && !"/"@.is_suffix_of(root)
            ==> absolute_model(Some(root), relative_path) == root + "/"@ + relative_path,
{
}

/// Following the history to a file that has a tab asks for nothing and leaves the tree.
pub proof fn open_files_ask_for_nothing(
    before: FileViewer,
    after: FileViewer,
    relative_path: Seq<char>,
    work: ViewerWork,
    path: Seq<char>,
)
    requires
        has_unfolded(before, after, relative_path, work),
    ensures
        work.outcome is AlreadyOpen ==> work.fetches@.len() == 0 && after.tree == before.tree,
        !(work.outcome is AlreadyOpen) && ancestors(relative_path).contains(path)
            ==> after.tree.view().expanded.contains(path),
{
    if !(work.outcome is AlreadyOpen) {
        assert(after.tree.view().expanded.contains(path) == (
        before.tree.view().expanded.contains(path) || ancestors(relative_path).contains(path)));
    }
}

} // verus!
