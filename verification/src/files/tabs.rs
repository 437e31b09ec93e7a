//! The tabs of the file viewer.

use crate::files::history::{top, HistoryModel, NavigationHistory};
use crate::files::loading::DecodedImage;
use crate::files::tab::{
    has_applied, has_refreshed, is_empty_tab, is_loading_tab, refresh_of, refreshed,
    BlameLoadState, FileMeta, FileViewerTab, FreshnessOutcome, LoadedContent, TabRefresh,
};
use crate::text::same;
use vstd::prelude::*;

verus! {

broadcast use vstd::string::group_string_axioms;

/// The most tabs that are open at once.
pub const MAX_TABS: usize = 50;

/// The tab that makes room for another: the oldest, but never the active one.
pub open spec fn evicted(tabs: Seq<FileViewerTab>, active: int) -> Option<int> {
    if tabs.len() >= MAX_TABS {
        Some(if active == 0 {
            1
        } else {
            0
        })
    } else {
        None
    }
}

/// The tabs once room was made.
pub open spec fn with_room(tabs: Seq<FileViewerTab>, active: int) -> Seq<FileViewerTab> {
    match evicted(tabs, active) {
        Some(i) => tabs.remove(i),
        None => tabs,
    }
}

/// The place of the active tab once room was made.
pub open spec fn active_with_room(tabs: Seq<FileViewerTab>, active: int) -> int {
    match evicted(tabs, active) {
        Some(i) => if i < active {
            active - 1
        } else {
            active
        },
        None => active,
    }
}

/// The tabs with one more right after the active one.
pub open spec fn with_tab_after(
    tabs: Seq<FileViewerTab>,
    active: int,
    tab: FileViewerTab,
) -> Seq<FileViewerTab> {
    with_room(tabs, active).insert(active_with_room(tabs, active) + 1, tab)
}

/// Puts a tab right after the active one and says where it is, and which tab
/// had to make room for it.
pub fn insert_tab_after_active(
    tabs: &mut Vec<FileViewerTab>,
    active: usize,
    new_tab: FileViewerTab,
) -> (r: (usize, Option<FileViewerTab>))
    requires
        active < old(tabs)@.len() <= MAX_TABS,
    ensures
        final(tabs)@ == with_tab_after(old(tabs)@, active as int, new_tab),
        r.0 == active_with_room(old(tabs)@, active as int) + 1,
        r.1 == (match evicted(old(tabs)@, active as int) {
            Some(i) => Some(old(tabs)@[i]),
            None => None,
        }),
        final(tabs)@.len() <= MAX_TABS,
{
    let mut place: usize = active;
    let mut gone: Option<FileViewerTab> = None;
    if tabs.len() >= MAX_TABS {
        let evict: usize = if active == 0 {
            1
        } else {
            0
        };
        gone = Some(tabs.remove(evict));
        if evict < place {
            place = place - 1;
        }
    }
    tabs.insert(place + 1, new_tab);
    (place + 1, gone)
}

/// Making room never takes the active tab, and it stays in front of the new
/// one.
pub proof fn active_tab_stays(tabs: Seq<FileViewerTab>, active: int, tab: FileViewerTab)
    requires
        0 <= active < tabs.len() <= MAX_TABS,
    ensures
        with_tab_after(tabs, active, tab)[active_with_room(tabs, active)] == tabs[active],
        with_tab_after(tabs, active, tab)[active_with_room(tabs, active) + 1] == tab,
        with_tab_after(tabs, active, tab).len() <= MAX_TABS,
{
}

/// The first tab with a path.
pub open spec fn tab_with_path(tabs: Seq<FileViewerTab>, path: Seq<char>, from: int) -> Option<int>
    decreases tabs.len() - from,
{
    if from < 0 || from >= tabs.len() {
        None
    } else if tabs[from].relative_path@ == path {
        Some(from)
    } else {
        tab_with_path(tabs, path, from + 1)
    }
}

proof fn tab_with_path_is_first(tabs: Seq<FileViewerTab>, path: Seq<char>, from: int)
    requires
        0 <= from <= tabs.len(),
    ensures
        match tab_with_path(tabs, path, from) {
            Some(i) => from <= i < tabs.len() && tabs[i].relative_path@ == path,
            None => forall|i: int|
                from <= i < tabs.len() ==> (#[trigger] tabs[i]).relative_path@ != path,
        },
    decreases tabs.len() - from,
{
    if from < tabs.len() && tabs[from].relative_path@ != path {
        tab_with_path_is_first(tabs, path, from + 1);
    }
}

fn find_tab(tabs: &Vec<FileViewerTab>, path: &str) -> (r: Option<usize>)
    ensures
        match r {
            Some(i) => tab_with_path(tabs@, path@, 0) == Some(i as int) && i < tabs@.len(),
            None => tab_with_path(tabs@, path@, 0) is None,
        },
{
    let mut i: usize = 0;
    while i < tabs.len()
        invariant
            i <= tabs@.len(),
            tab_with_path(tabs@, path@, i as int) == tab_with_path(tabs@, path@, 0),
        decreases tabs@.len() - i,
    {
        if same(tabs[i].relative_path.as_str(), path) {
            return Some(i);
        }
        i = i + 1;
    }
    None
}

/// No two tabs show the same file.
pub open spec fn paths_differ(tabs: Seq<FileViewerTab>) -> bool {
    forall|i: int, j: int|
        0 <= i < j < tabs.len() ==> (#[trigger] tabs[i]).relative_path@ != (
        #[trigger] tabs[j]).relative_path@
}

/// The tabs, which one is active, and the way through the files.
#[derive(Debug)]
pub struct TabList {
    pub tabs: Vec<FileViewerTab>,
    pub active_tab: usize,
    pub history: NavigationHistory,
    /// The number of the last load.
    pub next_load_generation: u64,
}

/// A [`TabList`] with its history as a model.
pub struct TabsModel {
    pub tabs: Seq<FileViewerTab>,
    pub active: int,
    pub history: HistoryModel,
    pub generation: u64,
}

/// The number after another, from the start again after the last.
pub open spec fn next_generation(n: u64) -> u64 {
    if n == u64::MAX {
        0
    } else {
        (n + 1) as u64
    }
}

/// A tab whose load number `generation` was just started.
pub open spec fn is_started_tab(
    tab: FileViewerTab,
    relative: Seq<char>,
    path: Seq<char>,
    generation: u64,
) -> bool {
    &&& tab.load_generation == generation
    &&& is_loading_tab(FileViewerTab { load_generation: 0, ..tab }, relative, path)
}

/// What opening a file came to.
#[derive(Debug)]
pub enum OpenOutcome {
    /// A tab had it already.
    AlreadyOpen,
    /// A new tab has it, whose content is to be loaded. `dropped` made room.
    Load { generation: u64, dropped: Option<FileViewerTab> },
}

/// What closing a tab came to.
#[derive(Debug)]
pub enum CloseOutcome {
    /// It was the last one: the viewer closes.
    CloseViewer,
    Closed { dropped: FileViewerTab },
}

/// What the end of a load or a check came to.
#[derive(Debug, PartialEq, Eq)]
pub enum FinishOutcome {
    /// Nobody waits for it.
    Ignored,
    /// The tab took it in. `released` is the picture that it showed before.
    Applied { released: Option<DecodedImage> },
}

/// The tab that waits for a load.
pub open spec fn awaited(tabs: TabsModel, path: Seq<char>, generation: u64) -> Option<int> {
    match tab_with_path(tabs.tabs, path, 0) {
        Some(i) => if tabs.tabs[i].load_generation == generation {
            Some(i)
        } else {
            None
        },
        None => None,
    }
}

impl TabsModel {
    /// There is an active tab, no more tabs than allowed, no file twice, and a
    /// sound history.
    pub open spec fn wf(self) -> bool {
        &&& 0 <= self.active < self.tabs.len() <= MAX_TABS
        &&& paths_differ(self.tabs)
        &&& self.history.wf()
    }

    /// The path of the active tab.
    pub open spec fn current(self) -> Seq<char> {
        self.tabs[self.active].relative_path@
    }

    /// The tabs after a file was opened in the new tab `tab`.
    pub open spec fn with_opened(self, tab: FileViewerTab) -> TabsModel {
        let generation = next_generation(self.generation);
        if self.current().len() == 0 {
            TabsModel { tabs: self.tabs.update(self.active, tab), generation, ..self }
        } else {
            TabsModel {
                tabs: with_tab_after(self.tabs, self.active, tab),
                active: active_with_room(self.tabs, self.active) + 1,
                history: self.history.pushed(self.current()),
                generation,
            }
        }
    }

    /// The tabs after a switch to tab `i`.
    pub open spec fn with_active(self, i: int) -> TabsModel {
        if i == self.active {
            self
        } else {
            TabsModel { active: i, history: self.history.pushed(self.current()), ..self }
        }
    }

    /// The tabs without tab `i`. The tab to the right takes the place of the
    /// active one, or the last tab where there is none.
    pub open spec fn without(self, i: int) -> TabsModel {
        TabsModel {
            tabs: self.tabs.remove(i),
            active: if self.active > i || self.active == self.tabs.len() - 1 {
                self.active - 1
            } else {
                self.active
            },
            ..self
        }
    }
}

/// `after` is `before` with a file opened, and `outcome` says what that came to.
pub open spec fn has_opened(
    before: TabsModel,
    after: TabsModel,
    relative_path: Seq<char>,
    file_path: Seq<char>,
    outcome: OpenOutcome,
) -> bool {
    match tab_with_path(before.tabs, relative_path, 0) {
        Some(i) => outcome is AlreadyOpen && after == before.with_active(i),
        None => {
            let tab = after.tabs[after.active];
            let number = next_generation(before.generation);
            &&& is_started_tab(tab, relative_path, file_path, number)
            &&& after == before.with_opened(tab)
            &&& outcome matches OpenOutcome::Load { generation, dropped }
            &&& generation == number
            &&& dropped == (if before.current().len() == 0 {
                Some(before.tabs[before.active])
            } else {
                match evicted(before.tabs, before.active) {
                    Some(i) => Some(before.tabs[i]),
                    None => None,
                }
            })
        },
    }
}

/// `after` is `before` with a file shown that the history led to.
pub open spec fn has_navigated(
    before: TabsModel,
    after: TabsModel,
    relative_path: Seq<char>,
    file_path: Seq<char>,
    outcome: OpenOutcome,
) -> bool {
    match tab_with_path(before.tabs, relative_path, 0) {
        Some(i) => outcome is AlreadyOpen && after == (TabsModel { active: i, ..before }),
        None => {
            let tab = after.tabs[before.active];
            let number = next_generation(before.generation);
            &&& is_started_tab(tab, relative_path, file_path, number)
            &&& after == (TabsModel {
                tabs: before.tabs.update(before.active, tab),
                generation: number,
                ..before
            })
            &&& outcome matches OpenOutcome::Load { generation, dropped }
            &&& generation == number
            &&& dropped == Some(before.tabs[before.active])
        },
    }
}

proof fn differ_after_update(tabs: Seq<FileViewerTab>, i: int, tab: FileViewerTab)
    requires
        paths_differ(tabs),
        0 <= i < tabs.len(),
        forall|j: int|
            0 <= j < tabs.len() && j != i ==> (#[trigger] tabs[j]).relative_path@
                != tab.relative_path@,
    ensures
        paths_differ(tabs.update(i, tab)),
{
    let after = tabs.update(i, tab);
    assert forall|a: int, b: int| 0 <= a < b < after.len() implies (
    #[trigger] after[a]).relative_path@ != (#[trigger] after[b]).relative_path@ by {
        if a != i && b != i {
            assert(tabs[a].relative_path@ != tabs[b].relative_path@);
        } else if a == i {
            assert(tabs[b].relative_path@ != tab.relative_path@);
        } else {
            assert(tabs[a].relative_path@ != tab.relative_path@);
        }
    }
}

proof fn differ_after_remove(tabs: Seq<FileViewerTab>, i: int)
    requires
        paths_differ(tabs),
        0 <= i < tabs.len(),
    ensures
        paths_differ(tabs.remove(i)),
{
    let after = tabs.remove(i);
    assert forall|a: int, b: int| 0 <= a < b < after.len() implies (
    #[trigger] after[a]).relative_path@ != (#[trigger] after[b]).relative_path@ by {
        let x = if a < i {
            a
        } else {
            a + 1
        };
        let y = if b < i {
            b
        } else {
            b + 1
        };
        assert(tabs[x].relative_path@ != tabs[y].relative_path@);
    }
}

proof fn differ_after_insert(tabs: Seq<FileViewerTab>, i: int, tab: FileViewerTab)
    requires
        paths_differ(tabs),
        0 <= i <= tabs.len(),
        forall|j: int|
            0 <= j < tabs.len() ==> (#[trigger] tabs[j]).relative_path@ != tab.relative_path@,
    ensures
        paths_differ(tabs.insert(i, tab)),
{
    let after = tabs.insert(i, tab);
    assert forall|a: int, b: int| 0 <= a < b < after.len() implies (
    #[trigger] after[a]).relative_path@ != (#[trigger] after[b]).relative_path@ by {
        let x = if a < i {
            a
        } else {
            a - 1
        };
        let y = if b < i {
            b
        } else {
            b - 1
        };
        if a == i {
            assert(tabs[y].relative_path@ != tab.relative_path@);
        } else if b == i {
            assert(tabs[x].relative_path@ != tab.relative_path@);
        } else {
            assert(tabs[x].relative_path@ != tabs[y].relative_path@);
        }
    }
}

proof fn differ_after_insertion(tabs: Seq<FileViewerTab>, active: int, tab: FileViewerTab)
    requires
        paths_differ(tabs),
        0 <= active < tabs.len() <= MAX_TABS,
        forall|j: int|
            0 <= j < tabs.len() ==> (#[trigger] tabs[j]).relative_path@ != tab.relative_path@,
    ensures
        paths_differ(with_tab_after(tabs, active, tab)),
{
    let roomy = with_room(tabs, active);
    match evicted(tabs, active) {
        Some(i) => {
            differ_after_remove(tabs, i);
            assert forall|j: int| 0 <= j < roomy.len() implies (#[trigger] roomy[j]).relative_path@
                != tab.relative_path@ by {
                let x = if j < i {
                    j
                } else {
                    j + 1
                };
                assert(tabs[x].relative_path@ != tab.relative_path@);
            }
        },
        None => {},
    }
    differ_after_insert(roomy, active_with_room(tabs, active) + 1, tab);
}

impl TabList {
    /// The tabs as a model.
    pub open spec fn view(&self) -> TabsModel {
        TabsModel {
            tabs: self.tabs@,
            active: self.active_tab as int,
            history: self.history.deep_view(),
            generation: self.next_load_generation,
        }
    }

    /// A list with one tab.
    pub fn new(tab: FileViewerTab) -> (r: TabList)
        ensures
            r.view().wf(),
            r.view().tabs == seq![tab],
            r.view().active == 0,
            r.view().history == (HistoryModel { back: Seq::empty(), forward: Seq::empty() }),
            r.view().generation == 0,
    {
        let mut tabs: Vec<FileViewerTab> = Vec::new();
        tabs.push(tab);
        TabList {
            tabs,
            active_tab: 0,
            history: NavigationHistory::new(),
            next_load_generation: 0,
        }
    }

    /// The active tab.
    pub fn active(&self) -> (r: &FileViewerTab)
        requires
            self.view().wf(),
        ensures
            *r == self.view().tabs[self.view().active],
    {
        &self.tabs[self.active_tab]
    }

    fn next_generation(&mut self) -> (r: u64)
        ensures
            r == next_generation(old(self).next_load_generation),
            *final(self) == (TabList { next_load_generation: r, ..*old(self) }),
    {
        self.next_load_generation = if self.next_load_generation == u64::MAX {
            0
        } else {
            self.next_load_generation + 1
        };
        self.next_load_generation
    }

    /// Numbers a new load of the tab with a path.
    pub fn start_load(&mut self, relative_path: &str) -> (r: u64)
        requires
            old(self).view().wf(),
        ensures
            final(self).view().wf(),
            r == next_generation(old(self).view().generation),
            final(self).view() == (TabsModel {
                tabs: match tab_with_path(old(self).view().tabs, relative_path@, 0) {
                    Some(i) => old(self).view().tabs.update(
                        i,
                        FileViewerTab { load_generation: r, ..old(self).view().tabs[i] },
                    ),
                    None => old(self).view().tabs,
                },
                generation: r,
                ..old(self).view()
            }),
    {
        let generation: u64 = self.next_generation();
        if let Some(i) = find_tab(&self.tabs, relative_path) {
            let ghost before = self.tabs@;
            proof {
                let changed = FileViewerTab { load_generation: generation, ..before[i as int] };
                differ_after_update(before, i as int, changed);
            }
            self.tabs[i].load_generation = generation;
            assert(self.tabs@ == before.update(
                i as int,
                FileViewerTab { load_generation: generation, ..before[i as int] },
            ));
        }
        generation
    }

    /// Opens a file: in its tab where it has one, in place of the active tab
    /// where that has no file, and otherwise in a new tab after the active one.
    pub fn open_file_in_tab(&mut self, relative_path: String, file_path: String) -> (r: OpenOutcome)
        requires
            old(self).view().wf(),
        ensures
            final(self).view().wf(),
            has_opened(old(self).view(), final(self).view(), relative_path@, file_path@, r),
    {
        if let Some(i) = find_tab(&self.tabs, relative_path.as_str()) {
            if i != self.active_tab {
                let current: String = self.tabs[self.active_tab].relative_path.clone();
                self.history.push(current.as_str());
                self.active_tab = i;
            }
            return OpenOutcome::AlreadyOpen;
        }
        let ghost before = self.view();
        proof {
            tab_with_path_is_first(before.tabs, relative_path@, 0);
        }
        let generation: u64 = self.next_generation();
        let ghost path = relative_path@;
        let mut new_tab: FileViewerTab = FileViewerTab::new_loading(relative_path, file_path);
        new_tab.load_generation = generation;
        let ghost tab = new_tab;
        let active: usize = self.active_tab;
        if self.tabs[active].is_empty() {
            proof {
                differ_after_update(before.tabs, active as int, tab);
            }
            let dropped: FileViewerTab = replace_tab(&mut self.tabs, active, new_tab);
            return OpenOutcome::Load { generation, dropped: Some(dropped) };
        }
        let current: String = self.tabs[active].relative_path.clone();
        self.history.push(current.as_str());
        proof {
            differ_after_insertion(before.tabs, active as int, tab);
            active_tab_stays(before.tabs, active as int, tab);
        }
        let (place, dropped): (usize, Option<FileViewerTab>) = insert_tab_after_active(
            &mut self.tabs,
            active,
            new_tab,
        );
        self.active_tab = place;
        OpenOutcome::Load { generation, dropped }
    }

    /// Closes a tab.
    pub fn close_tab(&mut self, index: usize) -> (r: CloseOutcome)
        requires
            old(self).view().wf(),
            old(self).view().tabs.len() > 1 ==> index < old(self).view().tabs.len(),
        ensures
            final(self).view().wf(),
            if old(self).view().tabs.len() <= 1 {
                r is CloseViewer && final(self).view() == old(self).view()
            } else {
                &&& r matches CloseOutcome::Closed { dropped }
                &&& dropped == old(self).view().tabs[index as int]
                &&& final(self).view() == old(self).view().without(index as int)
                &&& index != old(self).view().active ==> final(self).view().current()
                    == old(self).view().current()
            },
    {
        if self.tabs.len() <= 1 {
            return CloseOutcome::CloseViewer;
        }
        proof {
            differ_after_remove(self.tabs@, index as int);
        }
        let dropped: FileViewerTab = self.tabs.remove(index);
        if index == self.active_tab {
            if index > self.tabs.len() - 1 {
                self.active_tab = self.tabs.len() - 1;
            }
        } else if self.active_tab > index {
            self.active_tab = self.active_tab - 1;
        }
        CloseOutcome::Closed { dropped }
    }

    /// Closes every tab but one, where there is such a tab, and hands out the
    /// closed ones.
    pub fn close_other_tabs(&mut self, index: usize) -> (r: Vec<FileViewerTab>)
        requires
            old(self).view().wf(),
        ensures
            final(self).view().wf(),
            if index < old(self).view().tabs.len() {
                &&& r@ == old(self).view().tabs.remove(index as int)
                &&& final(self).view() == (TabsModel {
                    tabs: seq![old(self).view().tabs[index as int]],
                    active: 0,
                    ..old(self).view()
                })
            } else {
                &&& r@ == Seq::<FileViewerTab>::empty()
                &&& final(self).view() == old(self).view()
            },
    {
        let mut rest: Vec<FileViewerTab> = Vec::new();
        if index < self.tabs.len() {
            let kept: FileViewerTab = self.tabs.remove(index);
            let mut only: Vec<FileViewerTab> = Vec::new();
            only.push(kept);
            std::mem::swap(&mut self.tabs, &mut rest);
            self.tabs = only;
            self.active_tab = 0;
            assert(self.tabs@ == seq![kept]);
        }
        rest
    }

    /// Closes every tab, leaves one without a file, and hands out the closed
    /// ones.
    pub fn close_all_tabs(&mut self) -> (r: Vec<FileViewerTab>)
        requires
            old(self).view().wf(),
        ensures
            final(self).view().wf(),
            r@ == old(self).view().tabs,
            final(self).view().tabs.len() == 1,
            is_empty_tab(final(self).view().tabs[0]),
            final(self).view() == (TabsModel {
                tabs: final(self).view().tabs,
                active: 0,
                ..old(self).view()
            }),
    {
        let mut only: Vec<FileViewerTab> = Vec::new();
        only.push(FileViewerTab::new_empty());
        std::mem::swap(&mut self.tabs, &mut only);
        self.active_tab = 0;
        only
    }

    /// Makes a tab active, where there is such a tab and it is not so already.
    pub fn set_active_tab(&mut self, index: usize) -> (r: bool)
        requires
            old(self).view().wf(),
        ensures
            final(self).view().wf(),
            r == (index < old(self).view().tabs.len() && index != old(self).view().active),
            final(self).view() == (if r {
                old(self).view().with_active(index as int)
            } else {
                old(self).view()
            }),
    {
        if index < self.tabs.len() && index != self.active_tab {
            let current: String = self.tabs[self.active_tab].relative_path.clone();
            self.history.push(current.as_str());
            self.active_tab = index;
            true
        } else {
            false
        }
    }

    /// Goes back, and says which file that leads to.
    pub fn go_back(&mut self) -> (r: Option<String>)
        requires
            old(self).view().wf(),
        ensures
            final(self).view().wf(),
            r.deep_view() == top(old(self).view().history.back),
            final(self).view() == (TabsModel {
                history: old(self).view().history.gone_back(old(self).view().current()),
                ..old(self).view()
            }),
    {
        let current: String = self.tabs[self.active_tab].relative_path.clone();
        self.history.go_back(current.as_str())
    }

    /// Goes forward, and says which file that leads to.
    pub fn go_forward(&mut self) -> (r: Option<String>)
        requires
            old(self).view().wf(),
        ensures
            final(self).view().wf(),
            r.deep_view() == top(old(self).view().history.forward),
            final(self).view() == (TabsModel {
                history: old(self).view().history.gone_forward(old(self).view().current()),
                ..old(self).view()
            }),
    {
        let current: String = self.tabs[self.active_tab].relative_path.clone();
        self.history.go_forward(current.as_str())
    }

    /// Shows a file without recording it: in its tab where it has one, in place
    /// of the active tab otherwise.
    pub fn navigate_to_file_no_history(&mut self, relative_path: String, file_path: String) -> (r:
        OpenOutcome)
        requires
            old(self).view().wf(),
        ensures
            final(self).view().wf(),
            has_navigated(old(self).view(), final(self).view(), relative_path@, file_path@, r),
    {
        if let Some(i) = find_tab(&self.tabs, relative_path.as_str()) {
            self.active_tab = i;
            return OpenOutcome::AlreadyOpen;
        }
        let ghost before = self.view();
        proof {
            tab_with_path_is_first(before.tabs, relative_path@, 0);
        }
        let generation: u64 = self.next_generation();
        let mut new_tab: FileViewerTab = FileViewerTab::new_loading(relative_path, file_path);
        new_tab.load_generation = generation;
        let active: usize = self.active_tab;
        proof {
            differ_after_update(before.tabs, active as int, new_tab);
        }
        let dropped: FileViewerTab = replace_tab(&mut self.tabs, active, new_tab);
        OpenOutcome::Load { generation, dropped: Some(dropped) }
    }

    /// Takes in what a load brought, unless a newer load of that file was
    /// started in the meantime or its tab is gone. The picture that the tab
    /// showed before is handed out.
    pub fn finish_load(
        &mut self,
        relative_path: &str,
        generation: u64,
        result: Result<LoadedContent, String>,
        modified: Option<i128>,
    ) -> (r: FinishOutcome)
        requires
            old(self).view().wf(),
        ensures
            final(self).view().wf(),
            match awaited(old(self).view(), relative_path@, generation) {
                Some(i) => {
                    let before = old(self).view().tabs[i];
                    let tab = final(self).view().tabs[i];
                    &&& final(self).view() == (TabsModel {
                        tabs: old(self).view().tabs.update(i, tab),
                        ..old(self).view()
                    })
                    &&& tab.blame == BlameLoadState::NotLoaded
                    &&& has_applied(
                        FileViewerTab { blame: before.blame, ..tab },
                        FileViewerTab { image_data: None, ..before },
                        result,
                        modified,
                    )
                    &&& r == (FinishOutcome::Applied { released: before.image_data })
                },
                None => r is Ignored && final(self).view() == old(self).view(),
            },
    {
        let i: usize = match find_tab(&self.tabs, relative_path) {
            Some(i) => i,
            None => return FinishOutcome::Ignored,
        };
        if self.tabs[i].load_generation != generation {
            return FinishOutcome::Ignored;
        }
        let ghost before = self.tabs@;
        let mut tab: FileViewerTab = replace_tab(&mut self.tabs, i, FileViewerTab::new_empty());
        let mut released: Option<DecodedImage> = None;
        std::mem::swap(&mut released, &mut tab.image_data);
        tab.apply_loaded_content(result, modified);
        tab.blame = BlameLoadState::NotLoaded;
        proof {
            differ_after_update(before, i as int, tab);
        }
        self.tabs.set(i, tab);
        assert(self.tabs@ == before.update(i as int, tab));
        FinishOutcome::Applied { released }
    }

    /// Takes in the outcome of a check for changes of a file, where it still
    /// has a tab. A tab that was read again hands out the picture that it
    /// showed before, and its blame is out of date.
    pub fn finish_freshness(&mut self, relative_path: &str, outcome: FreshnessOutcome) -> (r:
        FinishOutcome)
        requires
            old(self).view().wf(),
        ensures
            final(self).view().wf(),
            match tab_with_path(old(self).view().tabs, relative_path@, 0) {
                Some(i) => {
                    let before = old(self).view().tabs[i];
                    let tab = final(self).view().tabs[i];
                    let reloaded = outcome is Reloaded;
                    &&& final(self).view() == (TabsModel {
                        tabs: old(self).view().tabs.update(i, tab),
                        ..old(self).view()
                    })
                    &&& tab.blame == (if reloaded {
                        BlameLoadState::NotLoaded
                    } else {
                        before.blame
                    })
                    &&& has_refreshed(FileViewerTab { blame: before.blame, ..tab }, before, outcome)
                    &&& r == (FinishOutcome::Applied {
                        released: if reloaded {
                            before.image_data
                        } else {
                            None
                        },
                    })
                },
                None => r is Ignored && final(self).view() == old(self).view(),
            },
    {
        let i: usize = match find_tab(&self.tabs, relative_path) {
            Some(i) => i,
            None => return FinishOutcome::Ignored,
        };
        let reloaded: bool = matches!(outcome, FreshnessOutcome::Reloaded { .. });
        let ghost before = self.tabs@;
        let mut tab: FileViewerTab = replace_tab(&mut self.tabs, i, FileViewerTab::new_empty());
        let mut released: Option<DecodedImage> = None;
        if reloaded {
            std::mem::swap(&mut released, &mut tab.image_data);
        }
        tab.apply_freshness_reload(outcome);
        if reloaded {
            tab.blame = BlameLoadState::NotLoaded;
        }
        proof {
            differ_after_update(before, i as int, tab);
        }
        self.tabs.set(i, tab);
        assert(self.tabs@ == before.update(i as int, tab));
        FinishOutcome::Applied { released }
    }
}

/// What is known of the file of tab number `i`; nothing where the list ends
/// before it.
pub open spec fn metadata_at(metadata: Seq<Option<FileMeta>>, i: int) -> Option<FileMeta> {
    if 0 <= i < metadata.len() {
        metadata[i]
    } else {
        None
    }
}

/// What becomes of each tab when all are gone through.
pub open spec fn refreshes(
    tabs: Seq<FileViewerTab>,
    metadata: Seq<Option<FileMeta>>,
    rehighlight: bool,
) -> Seq<TabRefresh> {
    Seq::new(tabs.len(), |i: int| refresh_of(tabs[i], metadata_at(metadata, i), rehighlight))
}

/// The tabs once all were gone through.
pub open spec fn refreshed_tabs(
    tabs: Seq<FileViewerTab>,
    metadata: Seq<Option<FileMeta>>,
    rehighlight: bool,
) -> Seq<FileViewerTab> {
    Seq::new(
        tabs.len(),
        |i: int| refreshed(tabs[i], refresh_of(tabs[i], metadata_at(metadata, i), rehighlight)),
    )
}

impl TabList {
    /// Goes through all tabs: says which have to be loaded again because their
    /// files have changed, and which to be highlighted again. `metadata` is what
    /// is known of the file of each tab, where it could be asked.
    pub fn refresh_tabs(&mut self, metadata: &Vec<Option<FileMeta>>, rehighlight: bool) -> (r: Vec<
        TabRefresh,
    >)
        requires
            old(self).view().wf(),
        ensures
            final(self).view().wf(),
            final(self).view() == (TabsModel {
                tabs: refreshed_tabs(old(self).view().tabs, metadata@, rehighlight),
                ..old(self).view()
            }),
            r@ == refreshes(old(self).view().tabs, metadata@, rehighlight),
    {
        let ghost before = self.tabs@;
        let ghost start = self.view();
        let ghost after = refreshed_tabs(before, metadata@, rehighlight);
        let mut r: Vec<TabRefresh> = Vec::new();
        let mut i: usize = 0;
        while i < self.tabs.len()
            invariant
                i <= self.tabs@.len(),
                self.tabs@.len() == before.len(),
                after == refreshed_tabs(before, metadata@, rehighlight),
                start.tabs == before,
                start.wf(),
                self.view() == (TabsModel { tabs: self.tabs@, ..start }),
                r@ == refreshes(before, metadata@, rehighlight).take(i as int),
                forall|j: int| 0 <= j < i ==> #[trigger] self.tabs@[j] == after[j],
                forall|j: int| i <= j < before.len() ==> #[trigger] self.tabs@[j] == before[j],
            decreases self.tabs@.len() - i,
        {
            let known: Option<FileMeta> = if i < metadata.len() {
                metadata[i]
            } else {
                None
            };
            let ghost done = r@;
            let step: TabRefresh = self.tabs[i].refresh(known, rehighlight);
            r.push(step);
            let ghost all = refreshes(before, metadata@, rehighlight);
            assert(all.take(i + 1) == all.take(i as int).push(all[i as int]));
            i = i + 1;
        }
        let ghost all = refreshes(before, metadata@, rehighlight);
        assert(all.take(all.len() as int) == all);
        assert(self.tabs@ == after);
        assert forall|a: int, b: int| 0 <= a < b < after.len() implies (
        #[trigger] after[a]).relative_path@ != (#[trigger] after[b]).relative_path@ by {
            assert(before[a].relative_path@ != before[b].relative_path@);
        }
        r
    }
}

/// A load that was overtaken by a newer one of the same file changes nothing.
pub proof fn overtaken_load_is_ignored(tabs: TabsModel, path: Seq<char>, i: int, generation: u64)
    requires
        tab_with_path(tabs.tabs, path, 0) == Some(i),
        tabs.tabs[i].load_generation != generation,
    ensures
        awaited(tabs, path, generation) is None,
{
}

fn replace_tab(tabs: &mut Vec<FileViewerTab>, index: usize, tab: FileViewerTab) -> (r:
    FileViewerTab)
    requires
        index < old(tabs)@.len(),
    ensures
        final(tabs)@ == old(tabs)@.update(index as int, tab),
        r == old(tabs)@[index as int],
{
    let ghost before = tabs@;
    let mut other: FileViewerTab = tab;
    std::mem::swap(&mut other, &mut tabs[index]);
    assert(tabs@ == before.update(index as int, tab));
    other
}

/// Closing a tab that is not the active one leaves the same tab active, on which
/// side of it the closed one may have been.
pub proof fn closing_another_tab_keeps_the_active_one(tabs: TabsModel, i: int)
    requires
        tabs.wf(),
        0 <= i < tabs.tabs.len(),
        i != tabs.active,
    ensures
        ({
            let after = tabs.without(i);
            &&& 0 <= after.active < after.tabs.len()
            &&& after.tabs[after.active] == tabs.tabs[tabs.active]
        }),
{
}

/// Closing the active tab shows its neighbour: the one to the right, or where it
/// was the last one the one to the left.
pub proof fn closing_the_active_tab_shows_its_neighbour(tabs: TabsModel)
    requires
        tabs.wf(),
        tabs.tabs.len() > 1,
    ensures
        ({
            let after = tabs.without(tabs.active);
            &&& 0 <= after.active < after.tabs.len()
            &&& tabs.active + 1 < tabs.tabs.len() ==> after.tabs[after.active]
                == tabs.tabs[tabs.active + 1]
            &&& tabs.active + 1 == tabs.tabs.len() ==> after.tabs[after.active]
                == tabs.tabs[tabs.active - 1]
        }),
{
}

/// Closing a tab takes just that one: every other tab stays, in its place among
/// the others, and the history and the numbers of loads are as they were.
pub proof fn closing_takes_one_tab(tabs: TabsModel, i: int, j: int)
    requires
        0 <= i < tabs.tabs.len(),
        0 <= j < tabs.tabs.len(),
        i != j,
    ensures
        ({
            let after = tabs.without(i);
            &&& after.tabs.len() == tabs.tabs.len() - 1
            &&& after.tabs[if j < i {
                j
            } else {
                j - 1
            }] == tabs.tabs[j]
            &&& after.history == tabs.history
            &&& after.generation == tabs.generation
        }),
{
}

/// A file that was opened is the one shown. Its load is the one that is waited
/// for where it was not open before, and going back leads to the file that was
/// shown until then.
pub proof fn opened_file_is_shown(
    before: TabsModel,
    after: TabsModel,
    relative_path: Seq<char>,
    file_path: Seq<char>,
    outcome: OpenOutcome,
)
    requires
        before.wf(),
        after.wf(),
        has_opened(before, after, relative_path, file_path, outcome),
    ensures
        after.current() == relative_path,
        outcome matches OpenOutcome::Load { generation, .. } ==> awaited(
            after,
            relative_path,
            generation,
        ) == Some(after.active),
        outcome matches OpenOutcome::Load { .. } ==> after.tabs[after.active].loading
            && after.tabs[after.active].file_path@ == file_path,
        outcome is AlreadyOpen ==> after.tabs == before.tabs,
        before.current() != relative_path && before.current().len() > 0 ==> top(
            after.history.back,
        ) == Some(before.current()) && after.history.forward.len() == 0,
        before.current() == relative_path ==> after == before,
{
    tab_with_path_is_first(before.tabs, relative_path, 0);
    active_tab_stays(before.tabs, before.active, after.tabs[after.active]);
    match tab_with_path(before.tabs, relative_path, 0) {
        Some(i) => {
            if i < before.active {
                assert(before.tabs[i].relative_path@ != before.tabs[before.active].relative_path@);
            } else if i > before.active {
                assert(before.tabs[before.active].relative_path@ != before.tabs[i].relative_path@);
            }
        },
        None => {
            tab_with_path_is_first(after.tabs, relative_path, 0);
            let j = tab_with_path(after.tabs, relative_path, 0);
            assert(after.tabs[after.active].relative_path@ == relative_path);
            assert(j is Some);
            if j->0 < after.active {
                assert(after.tabs[j->0].relative_path@ != after.tabs[after.active].relative_path@);
            } else if j->0 > after.active {
                assert(after.tabs[after.active].relative_path@ != after.tabs[j->0].relative_path@);
            }
            assert(before.tabs[before.active].relative_path@ != relative_path);
        },
    }
    if before.current() != relative_path && before.current().len() > 0 {
        let moved = before.history.pushed(before.current());
        assert(moved.back.last() == before.current());
    }
}

/// Opening a file closes no other, unless the limit is reached: a tab with a file
/// stays, with all that it shows.
pub proof fn opening_keeps_other_tabs(
    before: TabsModel,
    after: TabsModel,
    relative_path: Seq<char>,
    file_path: Seq<char>,
    outcome: OpenOutcome,
    i: int,
)
    requires
        before.wf(),
        before.tabs.len() < MAX_TABS,
        has_opened(before, after, relative_path, file_path, outcome),
        0 <= i < before.tabs.len(),
        before.tabs[i].relative_path@.len() > 0,
    ensures
        after.tabs.contains(before.tabs[i]),
{
    let tab = before.tabs[i];
    if tab_with_path(before.tabs, relative_path, 0) is Some {
        assert(after.tabs[i] == tab);
    } else if before.current().len() == 0 {
        assert(i != before.active);
        assert(after.tabs[i] == tab);
    } else if i <= before.active {
        assert(after.tabs[i] == tab);
    } else {
        assert(after.tabs[i + 1] == tab);
    }
}

/// Where the limit is reached, one tab alone makes room for the new one, and never
/// the one that was shown.
pub proof fn one_tab_makes_room(tabs: Seq<FileViewerTab>, active: int, tab: FileViewerTab, i: int)
    requires
        tabs.len() == MAX_TABS,
        0 <= active < tabs.len(),
        0 <= i < tabs.len(),
    ensures
        evicted(tabs, active) matches Some(gone) && gone != active && 0 <= gone < tabs.len() && (i
            != gone ==> with_tab_after(tabs, active, tab).contains(tabs[i])),
{
    let gone = evicted(tabs, active)->0;
    if i != gone {
        let roomy = with_room(tabs, active);
        let j = if i < gone {
            i
        } else {
            i - 1
        };
        assert(roomy[j] == tabs[i]);
        let place = active_with_room(tabs, active) + 1;
        let all = with_tab_after(tabs, active, tab);
        if j < place {
            assert(all[j] == tabs[i]);
        } else {
            assert(all[j + 1] == tabs[i]);
        }
    }
}

/// Following the history shows the file that it leads to and records nothing.
pub proof fn navigation_shows_the_file(
    before: TabsModel,
    after: TabsModel,
    relative_path: Seq<char>,
    file_path: Seq<char>,
    outcome: OpenOutcome,
)
    requires
        before.wf(),
        after.wf(),
        has_navigated(before, after, relative_path, file_path, outcome),
    ensures
        after.current() == relative_path,
        after.history == before.history,
        after.tabs.len() == before.tabs.len(),
        outcome is AlreadyOpen ==> after.tabs == before.tabs,
        outcome matches OpenOutcome::Load { generation, .. } ==> awaited(
            after,
            relative_path,
            generation,
        ) == Some(after.active),
{
    tab_with_path_is_first(before.tabs, relative_path, 0);
    if tab_with_path(before.tabs, relative_path, 0) is None {
        tab_with_path_is_first(after.tabs, relative_path, 0);
        let j = tab_with_path(after.tabs, relative_path, 0);
        assert(after.tabs[after.active].relative_path@ == relative_path);
        assert(j is Some);
        if j->0 < after.active {
            assert(after.tabs[j->0].relative_path@ != after.tabs[after.active].relative_path@);
        } else if j->0 > after.active {
            assert(after.tabs[after.active].relative_path@ != after.tabs[j->0].relative_path@);
        }
    }
}

/// Switching to a tab shows it and changes no tab, and going back leads to the
/// file that was shown until then.
pub proof fn switching_can_be_undone(tabs: TabsModel, i: int)
    requires
        tabs.wf(),
        0 <= i < tabs.tabs.len(),
        i != tabs.active,
        tabs.current().len() > 0,
    ensures
        ({
            let after = tabs.with_active(i);
            &&& after.active == i
            &&& after.tabs == tabs.tabs
            &&& top(after.history.back) == Some(tabs.current())
            &&& after.wf()
        }),
{
    let moved = tabs.history.pushed(tabs.current());
    assert(moved.back.last() == tabs.current());
}

/// Going through all tabs asks for a load of just those whose files have another
/// time than the one that was read, and takes the text of none.
pub proof fn changed_files_are_loaded_again(
    tabs: Seq<FileViewerTab>,
    metadata: Seq<Option<FileMeta>>,
    rehighlight: bool,
    i: int,
    read: i128,
    now: i128,
)
    requires
        0 <= i < tabs.len(),
        i < metadata.len(),
        tabs[i].relative_path@.len() > 0,
        tabs[i].modified_at == Some(read),
        metadata[i] is Some,
        metadata[i]->0.modified == Some(now),
    ensures
        refreshes(tabs, metadata, rehighlight).len() == tabs.len(),
        refreshes(tabs, metadata, rehighlight)[i] == TabRefresh::Reload <==> read != now,
        !rehighlight && read == now ==> refreshes(tabs, metadata, rehighlight)[i]
            == TabRefresh::Keep,
        refreshed_tabs(tabs, metadata, rehighlight)[i].content == tabs[i].content,
        refreshed_tabs(tabs, metadata, rehighlight)[i].relative_path == tabs[i].relative_path,
        read == now ==> refreshed_tabs(tabs, metadata, rehighlight)[i] == tabs[i],
        read != now ==> refreshed_tabs(tabs, metadata, rehighlight)[i].error_message is None,
{
}

/// Loads have numbers of their own: a number is not that of the load before it.
pub proof fn loads_have_their_own_numbers(n: u64)
    ensures
        next_generation(n) != n,
        n < u64::MAX ==> next_generation(n) == n + 1,
{
}

/// A load that was started for a tab is the one that it waits for, and no earlier one
/// is.
pub proof fn newest_load_is_awaited(tabs: TabsModel, path: Seq<char>, i: int, generation: u64)
    requires
        tabs.wf(),
        0 <= i < tabs.tabs.len(),
        tabs.tabs[i].relative_path@ == path,
    ensures
        awaited(tabs, path, generation) == (if tabs.tabs[i].load_generation == generation {
            Some(i)
        } else {
            None
        }),
{
    tab_with_path_is_first(tabs.tabs, path, 0);
    let j = tab_with_path(tabs.tabs, path, 0)->0;
    if j < i {
        assert(tabs.tabs[j].relative_path@ != tabs.tabs[i].relative_path@);
    } else if j > i {
        assert(tabs.tabs[i].relative_path@ != tabs.tabs[j].relative_path@);
    }
}

/// A load of a file that has no tab is waited for by none.
pub proof fn loads_of_closed_files_are_ignored(tabs: TabsModel, path: Seq<char>, generation: u64)
    requires
        forall|i: int| 0 <= i < tabs.tabs.len() ==> (#[trigger] tabs.tabs[i]).relative_path@ != path,
    ensures
        awaited(tabs, path, generation) is None,
{
    tab_with_path_is_first(tabs.tabs, path, 0);
}

} // verus!
