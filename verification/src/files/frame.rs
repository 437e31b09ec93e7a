//! One frame of the file viewer: all that is on the screen at a time.

use crate::files::tab::{tab_label, DisplayMode, FileViewerTab};
use crate::files::tabs::TabsModel;
use crate::files::tree::{are_all_rows, rows_end, RowModel, Scene, TreeRow};
use crate::files::view::{footer_model, footer_text, pane, pane_model, tab_labels, title, Overlays, Pane};
use crate::files::viewer::{absolute_model, resolve_absolute, FileViewer};
use crate::path::{components_seq, file_name_seq, same_path};
use crate::text::same;
use vstd::prelude::*;

verus! {

broadcast use vstd::string::group_string_axioms;

/// What a frame depends on besides the viewer's own state.
#[derive(Clone, Copy, Debug, PartialEq, Eq)]
pub struct Surroundings {
    /// Whether the keys are those of a Mac.
    pub mac: bool,
    /// Whether the project can tell who wrote a line.
    pub has_blame: bool,
    /// Whether the active tab's document has been rendered.
    pub has_document: bool,
    pub searching: bool,
    pub renaming: bool,
    /// Whether the keyboard is the viewer's already.
    pub focused: bool,
    /// Whether the menu of a selection was asked for.
    pub selection_menu: bool,
    /// Whether text of the active tab is selected.
    pub source_selected: bool,
}

/// All that is on the screen.
#[derive(Debug)]
pub struct Frame {
    /// The name of the file and its path.
    pub title: (String, String),
    /// Whether the title is on one line.
    pub compact: bool,
    /// The rows of the tree, where the sidebar is shown.
    pub sidebar: Option<Vec<TreeRow>>,
    /// The tabs and which is active, where there is more than one.
    pub tab_bar: Option<Vec<(String, bool)>>,
    pub can_go_back: bool,
    pub can_go_forward: bool,
    /// Whether blame is on, where it can be.
    pub blame_toggle: Option<bool>,
    /// Whether the preview is on, where there is one.
    pub preview_toggle: Option<bool>,
    pub detach_button: bool,
    pub search_bar: bool,
    pub pane: Pane,
    pub error: Option<String>,
    /// The keys to know, and what each does.
    pub hints: Vec<(&'static str, &'static str)>,
    pub footer: String,
    /// Whether the viewer takes the keyboard.
    pub takes_focus: bool,
    pub selection_menu: bool,
}

/// A key that goes with the system's own modifier.
pub open spec fn on_system(mac: bool, mac_key: Seq<char>, other_key: Seq<char>) -> Seq<char> {
    if mac {
        mac_key
    } else {
        other_key
    }
}

/// The keys to know, and what each does.
pub open spec fn hints_model(is_markdown: bool, mac: bool) -> Seq<(Seq<char>, Seq<char>)> {
    seq![("B"@, "files"@)] + (if is_markdown {
        seq![("Tab"@, "toggle preview"@)]
    } else {
        Seq::empty()
    }) + seq![
        (on_system(mac, "Cmd+C"@, "Ctrl+C"@), "copy"@),
        (on_system(mac, "Cmd+A"@, "Ctrl+A"@), "select all"@),
        (on_system(mac, "Cmd+W"@, "Ctrl+W"@), "close tab"@),
        ("Alt+\u{2190}/\u{2192}"@, "back/fwd"@),
        ("Esc"@, "close"@),
    ]
}

fn hints(is_markdown: bool, mac: bool) -> (r: Vec<(&'static str, &'static str)>)
    ensures
        r.deep_view() == hints_model(is_markdown, mac),
{
    let mut r: Vec<(&'static str, &'static str)> = Vec::new();
    r.push(("B", "files"));
    if is_markdown {
        r.push(("Tab", "toggle preview"));
    }
    r.push(
        (
            if mac {
                "Cmd+C"
            } else {
                "Ctrl+C"
            },
            "copy",
        ),
    );
    r.push(
        (
            if mac {
                "Cmd+A"
            } else {
                "Ctrl+A"
            },
            "select all",
        ),
    );
    r.push(
        (
            if mac {
                "Cmd+W"
            } else {
                "Ctrl+W"
            },
            "close tab",
        ),
    );
    r.push(("Alt+\u{2190}/\u{2192}", "back/fwd"));
    r.push(("Esc", "close"));
    assert(r.deep_view() =~= hints_model(is_markdown, mac));
    r
}

/// What can lie over the viewer.
#[derive(Clone, Copy, Debug, PartialEq, Eq, Structural)]
pub enum Overlay {
    /// What takes the clicks beside the filter popover.
    FilterBackdrop,
    FilterPopover,
    TreeMenu,
    TabMenu,
    SelectionMenu,
    DeleteDialog,
}

/// One overlay, where it is there.
pub open spec fn overlay_if(shown: bool, overlay: Overlay) -> Seq<Overlay> {
    if shown {
        seq![overlay]
    } else {
        Seq::empty()
    }
}

/// What lies over the viewer, the lowest first. The filter popover waits until it
/// is known where its button lies, and the menu of a selection needs one.
pub open spec fn overlays_model(
    o: Overlays,
    filter_open: bool,
    filter_placed: bool,
) -> Seq<Overlay> {
    overlay_if(filter_open, Overlay::FilterBackdrop) + overlay_if(
        filter_open && filter_placed,
        Overlay::FilterPopover,
    ) + overlay_if(o.tree_menu, Overlay::TreeMenu) + overlay_if(o.tab_menu, Overlay::TabMenu)
        + overlay_if(o.selection_menu && o.source_selected, Overlay::SelectionMenu) + overlay_if(
        o.delete_confirm,
        Overlay::DeleteDialog,
    )
}

fn push_if(r: &mut Vec<Overlay>, shown: bool, overlay: Overlay)
    ensures
        final(r)@ == old(r)@ + overlay_if(shown, overlay),
{
    let ghost before = r@;
    if shown {
        r.push(overlay);
    }
    assert(r@ == before + overlay_if(shown, overlay));
}

/// What lies over the viewer, the lowest first.
pub fn render_overlays(o: &Overlays, filter_open: bool, filter_placed: bool) -> (r: Vec<Overlay>)
    ensures
        r@ == overlays_model(*o, filter_open, filter_placed),
{
    let mut r: Vec<Overlay> = Vec::new();
    push_if(&mut r, filter_open, Overlay::FilterBackdrop);
    push_if(&mut r, filter_open && filter_placed, Overlay::FilterPopover);
    push_if(&mut r, o.tree_menu, Overlay::TreeMenu);
    push_if(&mut r, o.tab_menu, Overlay::TabMenu);
    push_if(&mut r, o.selection_menu && o.source_selected, Overlay::SelectionMenu);
    push_if(&mut r, o.delete_confirm, Overlay::DeleteDialog);
    r
}

/// The paths of the files that are open; a tab without a file has none.
pub open spec fn open_paths(tabs: Seq<FileViewerTab>) -> Seq<Seq<char>>
    decreases tabs.len(),
{
    if tabs.len() == 0 {
        Seq::empty()
    } else if tabs.last().relative_path@.len() == 0 {
        open_paths(tabs.drop_last())
    } else {
        open_paths(tabs.drop_last()).push(tabs.last().relative_path@)
    }
}

fn paths_of(tabs: &Vec<FileViewerTab>) -> (r: Vec<String>)
    ensures
        r.deep_view() == open_paths(tabs@),
{
    let mut r: Vec<String> = Vec::new();
    let mut i: usize = 0;
    assert(r.deep_view() == open_paths(tabs@.take(0)));
    while i < tabs.len()
        invariant
            i <= tabs@.len(),
            r.deep_view() == open_paths(tabs@.take(i as int)),
        decreases tabs@.len() - i,
    {
        let ghost before = r.deep_view();
        assert(tabs@.take(i + 1).drop_last() == tabs@.take(i as int));
        if !tabs[i].is_empty() {
            r.push(tabs[i].relative_path.clone());
            assert(r.deep_view() == before.push(tabs@[i as int].relative_path@));
        }
        i = i + 1;
    }
    assert(tabs@.take(tabs@.len() as int) == tabs@);
    r
}

// ---------------------------------------------------------------------------
// Rows of the tree
// ---------------------------------------------------------------------------

/// A row of the tree that is renamed, or that a menu was opened on.
#[derive(Clone, Debug, PartialEq, Eq)]
pub enum TreeNodeTarget {
    /// Where the file lies.
    File(String),
    /// The folder's path in the project.
    Folder(String),
}

/// Whether a row is the one that is meant: a folder by its path in the project, a
/// file by the place where it lies.
pub open spec fn is_target(
    row: RowModel,
    root: Option<Seq<char>>,
    target: Option<TreeNodeTarget>,
) -> bool {
    match (row, target) {
        (RowModel::Folder { path, .. }, Some(TreeNodeTarget::Folder(meant))) => path == meant@,
        (RowModel::File { path, .. }, Some(TreeNodeTarget::File(meant))) => components_seq(
            absolute_model(root, path),
        ) == components_seq(meant@),
        _ => false,
    }
}

/// How a row is drawn.
#[derive(Clone, Copy, Debug, PartialEq, Eq, Structural)]
pub struct RowLook {
    /// Whether an input stands in place of the name.
    pub renaming: bool,
    pub highlighted: bool,
}

/// How a row is drawn: a file is highlighted where it is active or a menu was
/// opened on it, a folder only for the menu.
pub open spec fn look_of(
    row: RowModel,
    root: Option<Seq<char>>,
    renaming: Option<TreeNodeTarget>,
    menu: Option<TreeNodeTarget>,
) -> RowLook {
    RowLook {
        renaming: is_target(row, root, renaming),
        highlighted: (row matches RowModel::File { active, .. } && active) || is_target(
            row,
            root,
            menu,
        ),
    }
}

fn is_meant(row: &TreeRow, root: &Option<String>, target: &Option<TreeNodeTarget>) -> (r: bool)
    ensures
        r == is_target(row.deep_view(), root.deep_view(), *target),
{
    match (row, target) {
        (TreeRow::Folder { path, .. }, Some(TreeNodeTarget::Folder(meant))) => same(
            path.as_str(),
            meant.as_str(),
        ),
        (TreeRow::File { path, .. }, Some(TreeNodeTarget::File(meant))) => {
            let place: String = resolve_absolute(root, path.as_str());
            same_path(place.as_str(), meant.as_str())
        },
        _ => false,
    }
}

/// How the rows of the tree are drawn, row by row. `root` is where the project
/// lies; `renaming` is the row that is renamed, and `menu` the one that a menu was
/// opened on.
pub fn row_looks(
    rows: &Vec<TreeRow>,
    root: &Option<String>,
    renaming: &Option<TreeNodeTarget>,
    menu: &Option<TreeNodeTarget>,
) -> (r: Vec<RowLook>)
    ensures
        r@ == rows.deep_view().map_values(
            |row: RowModel| look_of(row, root.deep_view(), *renaming, *menu),
        ),
{
    let ghost look = |row: RowModel| look_of(row, root.deep_view(), *renaming, *menu);
    let ghost all = rows.deep_view().map_values(look);
    let mut r: Vec<RowLook> = Vec::new();
    let mut i: usize = 0;
    assert(r@ == all.take(0));
    while i < rows.len()
        invariant
            i <= rows@.len(),
            look == (|row: RowModel| look_of(row, root.deep_view(), *renaming, *menu)),
            all == rows.deep_view().map_values(look),
            r@ == all.take(i as int),
        decreases rows@.len() - i,
    {
        let active: bool = match &rows[i] {
            TreeRow::File { active, .. } => *active,
            _ => false,
        };
        r.push(
            RowLook {
                renaming: is_meant(&rows[i], root, renaming),
                highlighted: active || is_meant(&rows[i], root, menu),
            },
        );
        assert(r@.last() == all[i as int]);
        assert(all.take(i + 1) == all.take(i as int).push(all[i as int]));
        i = i + 1;
    }
    assert(all.take(all.len() as int) == all);
    r
}

/// Whether a frame shows the tabs of a viewer as they are.
pub open spec fn shows_tabs(frame: Frame, tabs: TabsModel) -> bool {
    if tabs.tabs.len() > 1 {
        &&& frame.tab_bar matches Some(labels)
        &&& labels@.len() == tabs.tabs.len()
        &&& forall|i: int|
            0 <= i < tabs.tabs.len() ==> (#[trigger] labels@[i]).0@ == tab_label(
                tabs.tabs[i].file_path@,
                tabs.tabs[i].relative_path@,
            ) && labels@[i].1 == (i == tabs.active)
    } else {
        frame.tab_bar is None
    }
}

/// Whether a frame shows the tree of a viewer as it is.
pub open spec fn shows_tree(frame: Frame, viewer: FileViewer) -> bool {
    if viewer.sidebar_visible {
        &&& frame.sidebar matches Some(rows)
        &&& are_all_rows(
            Scene {
                tree: viewer.tree.view(),
                active: viewer.tabs.view().current(),
                open: open_paths(viewer.tabs.view().tabs),
            },
            rows.deep_view(),
        )
    } else {
        frame.sidebar is None
    }
}

/// What is on the screen.
pub fn render(viewer: &FileViewer, around: Surroundings) -> (r: Frame)
    requires
        viewer.wf(),
        viewer.sidebar_visible ==> rows_end(viewer.tree.view()),
    ensures
        ({
            let tabs = viewer.tabs.view();
            let tab = tabs.tabs[tabs.active];
            &&& r.title.0@ == (match file_name_seq(tab.file_path@) {
                Some(name) => name,
                None => "File"@,
            })
            &&& r.title.1@ == (if tab.relative_path@.len() > 0 {
                tab.relative_path@
            } else {
                tab.file_path@
            })
            &&& r.preview_toggle == (if tab.is_markdown {
                Some(tab.display_mode == DisplayMode::Preview)
            } else {
                None
            })
            &&& r.pane == pane_model(tab, around.has_document)
            &&& r.error.deep_view() == tab.error_message.deep_view()
            &&& r.hints.deep_view() == hints_model(tab.is_markdown, around.mac)
            &&& r.footer@ == footer_model(tab)
            &&& r.can_go_back == (tabs.history.back.len() > 0)
            &&& r.can_go_forward == (tabs.history.forward.len() > 0)
        }),
        shows_tabs(r, viewer.tabs.view()),
        shows_tree(r, *viewer),
        r.compact == viewer.is_detached,
        r.detach_button == !viewer.is_detached,
        r.blame_toggle == (if around.has_blame {
            Some(viewer.blame_visible)
        } else {
            None
        }),
        r.search_bar == around.searching,
        r.takes_focus == (!around.renaming && !around.searching && !around.focused),
        r.selection_menu == (around.selection_menu && around.source_selected),
{
    let tab: &FileViewerTab = viewer.tabs.active();
    let sidebar: Option<Vec<TreeRow>> = if viewer.sidebar_visible {
        let open: Vec<String> = paths_of(&viewer.tabs.tabs);
        Some(viewer.tree.rows(tab.relative_path.as_str(), &open))
    } else {
        None
    };
    let tab_bar: Option<Vec<(String, bool)>> = if viewer.tabs.tabs.len() > 1 {
        Some(tab_labels(&viewer.tabs.tabs, viewer.tabs.active_tab))
    } else {
        None
    };
    Frame {
        title: title(tab),
        compact: viewer.is_detached,
        sidebar,
        tab_bar,
        can_go_back: viewer.tabs.history.can_go_back(),
        can_go_forward: viewer.tabs.history.can_go_forward(),
        blame_toggle: if around.has_blame {
            Some(viewer.blame_visible)
        } else {
            None
        },
        preview_toggle: if tab.is_markdown {
            Some(tab.display_mode == DisplayMode::Preview)
        } else {
            None
        },
        detach_button: !viewer.is_detached,
        search_bar: around.searching,
        pane: pane(tab, around.has_document),
        error: match &tab.error_message {
            Some(message) => Some(message.clone()),
            None => None,
        },
        hints: hints(tab.is_markdown, around.mac),
        footer: footer_text(tab),
        takes_focus: !around.renaming && !around.searching && !around.focused,
        selection_menu: around.selection_menu && around.source_selected,
    }
}

// ---------------------------------------------------------------------------
// Laws
// ---------------------------------------------------------------------------

/// A hint is given for the preview just where there is one, and every other hint is
/// given always, with the keys of the system.
pub proof fn hints_fit_the_file(is_markdown: bool, mac: bool)
    ensures
        hints_model(is_markdown, mac).len() == (if is_markdown {
            7int
        } else {
            6
        }),
        is_markdown ==> hints_model(is_markdown, mac).contains(("Tab"@, "toggle preview"@)),
        hints_model(is_markdown, mac).contains(
            (
                if mac {
                    "Cmd+W"@
                } else {
                    "Ctrl+W"@
                },
                "close tab"@,
            ),
        ),
        hints_model(is_markdown, mac).contains(
            (
                if mac {
                    "Cmd+C"@
                } else {
                    "Ctrl+C"@
                },
                "copy"@,
            ),
        ),
        hints_model(is_markdown, mac).contains(("Esc"@, "close"@)),
{
    let hints = hints_model(is_markdown, mac);
    let k = if is_markdown {
        1int
    } else {
        0
    };
    if is_markdown {
        assert(hints[1] == ("Tab"@, "toggle preview"@));
    }
    assert(hints[1 + k] == (on_system(mac, "Cmd+C"@, "Ctrl+C"@), "copy"@));
    assert(hints[3 + k] == (on_system(mac, "Cmd+W"@, "Ctrl+W"@), "close tab"@));
    assert(hints[5 + k] == ("Esc"@, "close"@));
}

/// Everything that is open is drawn, the dialog that asks before it deletes above all
/// else; where nothing is open nothing is drawn.
pub proof fn open_overlays_are_drawn(o: Overlays, filter_open: bool, filter_placed: bool)
    ensures
        ({
            let drawn = overlays_model(o, filter_open, filter_placed);
            &&& drawn.contains(Overlay::DeleteDialog) <==> o.delete_confirm
            &&& o.delete_confirm ==> drawn.last() == Overlay::DeleteDialog
            &&& drawn.contains(Overlay::TreeMenu) <==> o.tree_menu
            &&& drawn.contains(Overlay::TabMenu) <==> o.tab_menu
            &&& drawn.contains(Overlay::SelectionMenu) <==> o.selection_menu && o.source_selected
            &&& drawn.contains(Overlay::FilterBackdrop) <==> filter_open
            &&& drawn.contains(Overlay::FilterPopover) <==> filter_open && filter_placed
            &&& filter_open ==> drawn[0] == Overlay::FilterBackdrop
        }),
{
    let drawn = overlays_model(o, filter_open, filter_placed);
    drawn_if_shown(o, filter_open, filter_placed, Overlay::FilterBackdrop);
    drawn_if_shown(o, filter_open, filter_placed, Overlay::FilterPopover);
    drawn_if_shown(o, filter_open, filter_placed, Overlay::TreeMenu);
    drawn_if_shown(o, filter_open, filter_placed, Overlay::TabMenu);
    drawn_if_shown(o, filter_open, filter_placed, Overlay::SelectionMenu);
    drawn_if_shown(o, filter_open, filter_placed, Overlay::DeleteDialog);
    if o.delete_confirm {
        assert(drawn.last() == Overlay::DeleteDialog);
    }
    if filter_open {
        assert(drawn[0] == Overlay::FilterBackdrop);
    }
}

proof fn drawn_if_shown(o: Overlays, filter_open: bool, filter_placed: bool, x: Overlay)
    ensures
        overlays_model(o, filter_open, filter_placed).contains(x) <==> match x {
            Overlay::FilterBackdrop => filter_open,
            Overlay::FilterPopover => filter_open && filter_placed,
            Overlay::TreeMenu => o.tree_menu,
            Overlay::TabMenu => o.tab_menu,
            Overlay::SelectionMenu => o.selection_menu && o.source_selected,
            Overlay::DeleteDialog => o.delete_confirm,
        },
{
    let p0 = overlay_if(filter_open, Overlay::FilterBackdrop);
    let p1 = overlay_if(filter_open && filter_placed, Overlay::FilterPopover);
    let p2 = overlay_if(o.tree_menu, Overlay::TreeMenu);
    let p3 = overlay_if(o.tab_menu, Overlay::TabMenu);
    let p4 = overlay_if(o.selection_menu && o.source_selected, Overlay::SelectionMenu);
    let p5 = overlay_if(o.delete_confirm, Overlay::DeleteDialog);
    only_if_shown(filter_open, Overlay::FilterBackdrop, x);
    only_if_shown(filter_open && filter_placed, Overlay::FilterPopover, x);
    only_if_shown(o.tree_menu, Overlay::TreeMenu, x);
    only_if_shown(o.tab_menu, Overlay::TabMenu, x);
    only_if_shown(o.selection_menu && o.source_selected, Overlay::SelectionMenu, x);
    only_if_shown(o.delete_confirm, Overlay::DeleteDialog, x);
    in_either(p0, p1, x);
    in_either(p0 + p1, p2, x);
    in_either(p0 + p1 + p2, p3, x);
    in_either(p0 + p1 + p2 + p3, p4, x);
    in_either(p0 + p1 + p2 + p3 + p4, p5, x);
}

proof fn only_if_shown(shown: bool, overlay: Overlay, x: Overlay)
    ensures
        overlay_if(shown, overlay).contains(x) <==> shown && x == overlay,
{
    if shown {
        assert(overlay_if(shown, overlay)[0] == overlay);
    }
}

proof fn in_either(a: Seq<Overlay>, b: Seq<Overlay>, x: Overlay)
    ensures
        (a + b).contains(x) <==> a.contains(x) || b.contains(x),
{
    let all = a + b;
    if a.contains(x) {
        let i = choose|i: int| 0 <= i < a.len() && a[i] == x;
        assert(all[i] == x);
    }
    if b.contains(x) {
        let i = choose|i: int| 0 <= i < b.len() && b[i] == x;
        assert(all[a.len() + i] == x);
    }
    if all.contains(x) {
        let i = choose|i: int| 0 <= i < all.len() && all[i] == x;
        if i < a.len() {
            assert(a[i] == x);
        } else {
            assert(b[i - a.len()] == x);
        }
    }
}

/// The file of every tab counts as open, and no other.
pub proof fn files_of_tabs_are_open(tabs: Seq<FileViewerTab>, path: Seq<char>)
    requires
        path.len() > 0,
    ensures
        open_paths(tabs).contains(path) <==> exists|i: int|
            0 <= i < tabs.len() && (#[trigger] tabs[i]).relative_path@ == path,
        !open_paths(tabs).contains(Seq::empty()),
    decreases tabs.len(),
{
    if tabs.len() > 0 {
        let front = tabs.drop_last();
        files_of_tabs_are_open(front, path);
        let before = open_paths(front);
        let all = open_paths(tabs);
        if before.contains(path) {
            let i = choose|i: int|
                0 <= i < front.len() && (#[trigger] front[i]).relative_path@ == path;
            assert(tabs[i].relative_path@ == path);
            let k = choose|k: int| 0 <= k < before.len() && before[k] == path;
            assert(all[k] == path);
        }
        if all.contains(path) && !before.contains(path) {
            let k = choose|k: int| 0 <= k < all.len() && all[k] == path;
            if k < before.len() {
                assert(before[k] == path);
            }
            assert(tabs[tabs.len() - 1].relative_path@ == path);
        }
        if exists|i: int| 0 <= i < tabs.len() && (#[trigger] tabs[i]).relative_path@ == path {
            let i = choose|i: int|
                0 <= i < tabs.len() && (#[trigger] tabs[i]).relative_path@ == path;
            if i < front.len() {
                assert(front[i].relative_path@ == path);
            } else {
                assert(all[before.len() as int] == path);
            }
        }
        if all.contains(Seq::empty()) {
            let k = choose|k: int| 0 <= k < all.len() && all[k] == Seq::<char>::empty();
            if k < before.len() {
                assert(before[k] == Seq::<char>::empty());
            }
        }
    }
}

/// A folder is marked just where it is meant, and a file also where it is active; an
/// input stands only in the row that is being renamed.
pub proof fn meant_rows_are_marked(
    row: RowModel,
    root: Option<Seq<char>>,
    renaming: Option<TreeNodeTarget>,
    menu: Option<TreeNodeTarget>,
)
    ensures
        menu is None ==> (look_of(row, root, renaming, menu).highlighted <==> (row
            matches RowModel::File { active, .. } && active)),
        renaming is None ==> !look_of(row, root, renaming, menu).renaming,
        row is Loading ==> !look_of(row, root, renaming, menu).renaming && !look_of(
            row,
            root,
            renaming,
            menu,
        ).highlighted,
        row matches RowModel::Folder { path, .. } ==> (menu matches Some(TreeNodeTarget::Folder(
            meant,
        )) ==> (look_of(row, root, renaming, menu).highlighted <==> path == meant@)),
        row is Folder && menu is Some && menu->0 is File ==> !look_of(
            row,
            root,
            renaming,
            menu,
        ).highlighted,
{
}

/// The bar has a label for every tab, in order, and just the active one stands out; one tab
/// alone needs no bar.
pub proof fn active_tab_stands_out(frame: Frame, tabs: TabsModel, i: int)
    requires
        shows_tabs(frame, tabs),
        0 <= i < tabs.tabs.len(),
    ensures
        frame.tab_bar is Some <==> tabs.tabs.len() > 1,
        frame.tab_bar matches Some(labels) ==> {
            &&& labels@.len() == tabs.tabs.len()
            &&& labels@[i].1 <==> i == tabs.active
            &&& labels@[i].0@ == tab_label(
                tabs.tabs[i].file_path@,
                tabs.tabs[i].relative_path@,
            )
        },
{
}

/// The tree is shown just where the sidebar is.
pub proof fn sidebar_shows_the_tree(frame: Frame, viewer: FileViewer)
    requires
        shows_tree(frame, viewer),
    ensures
        frame.sidebar is Some <==> viewer.sidebar_visible,
{
}

/// The first hint is how to get at the files.
pub proof fn files_are_hinted_at_first(is_markdown: bool, mac: bool)
    ensures
        hints_model(is_markdown, mac)[0] == ("B"@, "files"@),
        hints_model(is_markdown, mac).last() == ("Esc"@, "close"@),
{
}

} // verus!
