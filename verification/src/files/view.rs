//! What the file viewer shows, and what keys and clicks do to it.

use crate::files::tab::{DisplayMode, FileViewerTab};
use crate::path::{file_name, file_name_seq};
use crate::text::{
    chars_of, concat, decimal, decimal_string, pad_right_seq, padding_keeps_the_text, push_spaces,
    same, spaces,
};
use vstd::prelude::*;

verus! {

broadcast use vstd::string::group_string_axioms;

// ---------------------------------------------------------------------------
// Panes and labels
// ---------------------------------------------------------------------------

/// What fills the viewer below its tabs.
#[derive(Clone, Copy, Debug, PartialEq, Eq, Structural)]
pub enum Pane {
    /// A note that the file is on its way.
    Loading,
    /// The error of the tab.
    Error,
    /// The lines of the file.
    Source,
    /// The rendered document.
    Preview,
    /// Nothing: a preview without a document.
    Blank,
}

/// The pane of a tab. `has_document` says whether a rendered document is there.
pub open spec fn pane_model(tab: FileViewerTab, has_document: bool) -> Pane {
    if tab.loading {
        Pane::Loading
    } else if tab.error_message is Some {
        Pane::Error
    } else if tab.display_mode == DisplayMode::Source {
        Pane::Source
    } else if tab.is_markdown && has_document {
        Pane::Preview
    } else {
        Pane::Blank
    }
}

/// The pane of a tab: its error outweighs its content, and its loading both.
pub fn pane(tab: &FileViewerTab, has_document: bool) -> (r: Pane)
    ensures
        r == pane_model(*tab, has_document),
{
    if tab.loading {
        Pane::Loading
    } else if tab.error_message.is_some() {
        Pane::Error
    } else if tab.display_mode == DisplayMode::Source {
        Pane::Source
    } else if tab.is_markdown && has_document {
        Pane::Preview
    } else {
        Pane::Blank
    }
}

/// The title of a tab: the name of its file, and its path below.
pub fn title(tab: &FileViewerTab) -> (r: (String, String))
    ensures
        r.0@ == (match file_name_seq(tab.file_path@) {
            Some(name) => name,
            None => "File"@,
        }),
        r.1@ == (if tab.relative_path@.len() > 0 {
            tab.relative_path@
        } else {
            tab.file_path@
        }),
{
    let name: String = match file_name(tab.file_path.as_str()) {
        Some(name) => name,
        None => "File".to_owned(),
    };
    let path: String = if tab.relative_path.as_str().is_empty() {
        tab.file_path.clone()
    } else {
        tab.relative_path.clone()
    };
    (name, path)
}

/// The right end of the footer.
pub open spec fn footer_model(tab: FileViewerTab) -> Seq<char> {
    if tab.display_mode == DisplayMode::Source {
        decimal(tab.line_count as nat) + " lines"@
    } else {
        "Preview mode"@
    }
}

/// The right end of the footer.
pub fn footer_text(tab: &FileViewerTab) -> (r: String)
    ensures
        r@ == footer_model(*tab),
{
    if tab.display_mode == DisplayMode::Source {
        concat(decimal_string(tab.line_count as u64).as_str(), " lines")
    } else {
        "Preview mode".to_owned()
    }
}

/// The number of a line, counted from 0, set to the right in `width` columns.
pub open spec fn line_number_text(line: nat, width: nat) -> Seq<char> {
    spaces(width - decimal(line + 1).len()) + decimal(line + 1)
}

/// The number of a line in the gutter.
pub fn line_number_label(line: usize, width: usize) -> (r: String)
    requires
        line < u64::MAX,
    ensures
        r@ == line_number_text(line as nat, width as nat),
{
    let number: String = decimal_string(line as u64 + 1);
    let digits: usize = chars_of(number.as_str()).len();
    let mut r: String = String::new();
    if digits < width {
        push_spaces(&mut r, width - digits);
    }
    assert(r@ == spaces(width - digits));
    r.push_str(number.as_str());
    r
}

/// The labels of the tabs, and which one is active.
pub fn tab_labels(tabs: &Vec<FileViewerTab>, active: usize) -> (r: Vec<(String, bool)>)
    ensures
        r@.len() == tabs@.len(),
        forall|i: int|
            0 <= i < tabs@.len() ==> (#[trigger] r@[i]).0@ == crate::files::tab::tab_label(
                tabs@[i].file_path@,
                tabs@[i].relative_path@,
            ) && r@[i].1 == (i == active),
{
    let mut r: Vec<(String, bool)> = Vec::new();
    let mut i: usize = 0;
    while i < tabs.len()
        invariant
            i <= tabs@.len(),
            r@.len() == i,
            forall|j: int|
                0 <= j < i ==> (#[trigger] r@[j]).0@ == crate::files::tab::tab_label(
                    tabs@[j].file_path@,
                    tabs@[j].relative_path@,
                ) && r@[j].1 == (j == active),
        decreases tabs@.len() - i,
    {
        r.push((tabs[i].filename(), i == active));
        i = i + 1;
    }
    r
}

/// What is done to the heights that a rendered document was measured with.
#[derive(Clone, Copy, Debug, PartialEq, Eq, Structural)]
pub enum ListUpdate {
    /// Measured anew from the start: the document has changed.
    Rebuild,
    /// Measured again: only the font has.
    Remeasure,
    Keep,
}

/// What to do to the measured heights. `measured` is the number of blocks they
/// were measured for, where they were at all.
pub fn list_update(measured: Option<usize>, blocks: usize, font_changed: bool) -> (r: ListUpdate)
    ensures
        r == (if measured != Some(blocks) {
            ListUpdate::Rebuild
        } else if font_changed {
            ListUpdate::Remeasure
        } else {
            ListUpdate::Keep
        }),
{
    match measured {
        Some(n) => if n != blocks {
            ListUpdate::Rebuild
        } else if font_changed {
            ListUpdate::Remeasure
        } else {
            ListUpdate::Keep
        },
        None => ListUpdate::Rebuild,
    }
}

// ---------------------------------------------------------------------------
// Escape
// ---------------------------------------------------------------------------

/// What lies over the viewer, and what is selected in it.
#[derive(Clone, Copy, Debug, PartialEq, Eq)]
pub struct Overlays {
    pub selection_menu: bool,
    pub tab_menu: bool,
    pub tree_menu: bool,
    pub rename: bool,
    pub delete_confirm: bool,
    pub search: bool,
    pub is_preview: bool,
    pub markdown_selected: bool,
    pub source_selected: bool,
}

/// What the escape key does.
#[derive(Clone, Copy, Debug, PartialEq, Eq, Structural)]
pub enum CancelAction {
    CloseSelectionMenu,
    CloseTabMenu,
    CloseTreeMenu,
    CancelRename,
    CancelDelete,
    CloseSearch,
    ClearMarkdownSelection,
    ClearSelection,
    CloseViewer,
}

/// The topmost overlay goes first, then the selection, and only without either
/// does the viewer close.
pub open spec fn cancel_model(o: Overlays) -> CancelAction {
    if o.selection_menu {
        CancelAction::CloseSelectionMenu
    } else if o.tab_menu {
        CancelAction::CloseTabMenu
    } else if o.tree_menu {
        CancelAction::CloseTreeMenu
    } else if o.rename {
        CancelAction::CancelRename
    } else if o.delete_confirm {
        CancelAction::CancelDelete
    } else if o.search {
        CancelAction::CloseSearch
    } else if o.is_preview && o.markdown_selected {
        CancelAction::ClearMarkdownSelection
    } else if o.source_selected {
        CancelAction::ClearSelection
    } else {
        CancelAction::CloseViewer
    }
}

/// What the escape key does.
pub fn cancel_action(o: &Overlays) -> (r: CancelAction)
    ensures
        r == cancel_model(*o),
{
    if o.selection_menu {
        CancelAction::CloseSelectionMenu
    } else if o.tab_menu {
        CancelAction::CloseTabMenu
    } else if o.tree_menu {
        CancelAction::CloseTreeMenu
    } else if o.rename {
        CancelAction::CancelRename
    } else if o.delete_confirm {
        CancelAction::CancelDelete
    } else if o.search {
        CancelAction::CloseSearch
    } else if o.is_preview && o.markdown_selected {
        CancelAction::ClearMarkdownSelection
    } else if o.source_selected {
        CancelAction::ClearSelection
    } else {
        CancelAction::CloseViewer
    }
}

/// The viewer never closes under an open overlay or with a visible selection.
pub proof fn escape_closes_last(o: Overlays)
    ensures
        cancel_model(o) == CancelAction::CloseViewer <==> !(o.selection_menu || o.tab_menu
            || o.tree_menu || o.rename || o.delete_confirm || o.search || o.source_selected || (
        o.is_preview && o.markdown_selected)),
{
}

// ---------------------------------------------------------------------------
// Keys
// ---------------------------------------------------------------------------

/// The modifier keys that are held.
#[derive(Clone, Copy, Debug, PartialEq, Eq)]
pub struct Modifiers {
    pub control: bool,
    pub alt: bool,
    pub shift: bool,
    /// Command on a Mac, the Windows key elsewhere.
    pub platform: bool,
}

/// What the keys depend on.
#[derive(Clone, Copy, Debug, PartialEq, Eq)]
pub struct KeyContext {
    /// Whether the search field has the keys.
    pub search_focused: bool,
    pub is_preview: bool,
    pub is_markdown: bool,
    /// Whether blame can be shown.
    pub has_blame: bool,
}

/// What a key does.
#[derive(Clone, Copy, Debug, PartialEq, Eq, Structural)]
pub enum KeyAction {
    OpenSearch,
    ToggleDisplayMode,
    PreviousTab,
    NextTab,
    ToggleBlame,
    ToggleSidebar,
    CopyMarkdownSelection,
    CopySelection,
    SelectAllMarkdown,
    SelectAll,
    CloseTab,
    RefreshTree,
    GoBack,
    GoForward,
}

/// What a key does, where it does anything.
pub open spec fn key_model(key: Seq<char>, m: Modifiers, c: KeyContext) -> Option<KeyAction> {
    let command = m.platform || m.control;
    if c.search_focused {
        None
    } else if key == "f"@ && command {
        if c.is_preview {
            None
        } else {
            Some(KeyAction::OpenSearch)
        }
    } else if key == "tab"@ && c.is_markdown && !m.control && !m.shift {
        Some(KeyAction::ToggleDisplayMode)
    } else if key == "tab"@ && m.control {
        Some(if m.shift {
            KeyAction::PreviousTab
        } else {
            KeyAction::NextTab
        })
    } else if key == "b"@ && command && m.alt {
        if c.has_blame {
            Some(KeyAction::ToggleBlame)
        } else {
            None
        }
    } else if key == "b"@ && !command {
        Some(KeyAction::ToggleSidebar)
    } else if key == "c"@ && command {
        Some(if c.is_preview {
            KeyAction::CopyMarkdownSelection
        } else {
            KeyAction::CopySelection
        })
    } else if key == "a"@ && command {
        Some(if c.is_preview {
            KeyAction::SelectAllMarkdown
        } else {
            KeyAction::SelectAll
        })
    } else if key == "w"@ && command {
        Some(KeyAction::CloseTab)
    } else if key == "r"@ && !command {
        Some(KeyAction::RefreshTree)
    } else if key == "left"@ && m.alt {
        Some(KeyAction::GoBack)
    } else if key == "right"@ && m.alt {
        Some(KeyAction::GoForward)
    } else {
        None
    }
}

/// What a key does.
pub fn key_action(key: &str, m: Modifiers, c: KeyContext) -> (r: Option<KeyAction>)
    ensures
        r == key_model(key@, m, c),
{
    let command: bool = m.platform || m.control;
    if c.search_focused {
        return None;
    }
    if same(key, "f") && command {
        if c.is_preview {
            None
        } else {
            Some(KeyAction::OpenSearch)
        }
    } else if same(key, "tab") && c.is_markdown && !m.control && !m.shift {
        Some(KeyAction::ToggleDisplayMode)
    } else if same(key, "tab") && m.control {
        Some(
            if m.shift {
                KeyAction::PreviousTab
            } else {
                KeyAction::NextTab
            },
        )
    } else if same(key, "b") && command && m.alt {
        if c.has_blame {
            Some(KeyAction::ToggleBlame)
        } else {
            None
        }
    } else if same(key, "b") && !command {
        Some(KeyAction::ToggleSidebar)
    } else if same(key, "c") && command {
        Some(
            if c.is_preview {
                KeyAction::CopyMarkdownSelection
            } else {
                KeyAction::CopySelection
            },
        )
    } else if same(key, "a") && command {
        Some(
            if c.is_preview {
                KeyAction::SelectAllMarkdown
            } else {
                KeyAction::SelectAll
            },
        )
    } else if same(key, "w") && command {
        Some(KeyAction::CloseTab)
    } else if same(key, "r") && !command {
        Some(KeyAction::RefreshTree)
    } else if same(key, "left") && m.alt {
        Some(KeyAction::GoBack)
    } else if same(key, "right") && m.alt {
        Some(KeyAction::GoForward)
    } else {
        None
    }
}

// ---------------------------------------------------------------------------
// Selecting
// ---------------------------------------------------------------------------

/// A selection in the source, by line and column.
#[derive(Clone, Copy, Debug, PartialEq, Eq)]
pub struct Selection {
    pub start: Option<(usize, usize)>,
    pub end: Option<(usize, usize)>,
    /// Whether the mouse is still dragging it out.
    pub is_selecting: bool,
}

/// The selection that a press of the mouse begins: three clicks take the line,
/// two the word, one starts to drag.
pub fn press_in_line(
    click_count: usize,
    line: usize,
    column: usize,
    line_len: usize,
    word: (usize, usize),
) -> (r: Selection)
    ensures
        ({
            let col = if column < line_len {
                column
            } else {
                line_len
            };
            r == (if click_count >= 3 {
                Selection {
                    start: Some((line, 0usize)),
                    end: Some((line, line_len)),
                    is_selecting: false,
                }
            } else if click_count == 2 {
                Selection {
                    start: Some((line, word.0)),
                    end: Some((line, word.1)),
                    is_selecting: false,
                }
            } else {
                Selection { start: Some((line, col)), end: Some((line, col)), is_selecting: true }
            })
        }),
{
    let col: usize = if column < line_len {
        column
    } else {
        line_len
    };
    if click_count >= 3 {
        Selection { start: Some((line, 0)), end: Some((line, line_len)), is_selecting: false }
    } else if click_count == 2 {
        Selection {
            start: Some((line, word.0)),
            end: Some((line, word.1)),
            is_selecting: false,
        }
    } else {
        Selection { start: Some((line, col)), end: Some((line, col)), is_selecting: true }
    }
}

/// The selection while the mouse moves over a line.
pub fn drag_over_line(
    selection: Selection,
    line: usize,
    column: usize,
    line_len: usize,
) -> (r: Selection)
    ensures
        r == (if selection.is_selecting {
            Selection {
                end: Some(
                    (
                        line,
                        if column < line_len {
                            column
                        } else {
                            line_len
                        },
                    ),
                ),
                ..selection
            }
        } else {
            selection
        }),
{
    if selection.is_selecting {
        let col: usize = if column < line_len {
            column
        } else {
            line_len
        };
        Selection { start: selection.start, end: Some((line, col)), is_selecting: true }
    } else {
        selection
    }
}

/// A selection in a rendered document, by offset.
#[derive(Clone, Copy, Debug, PartialEq, Eq)]
pub struct DocumentSelection {
    pub start: Option<usize>,
    pub end: Option<usize>,
    pub is_selecting: bool,
}

/// The last offset of a block that ends before `end_offset`.
pub open spec fn block_end(end_offset: usize) -> usize {
    if end_offset == 0 {
        0
    } else {
        (end_offset - 1) as usize
    }
}

/// The selection that a press on a block begins: two clicks take the block.
pub fn press_on_block(click_count: usize, start_offset: usize, end_offset: usize) -> (r:
    DocumentSelection)
    ensures
        r == (if click_count == 2 {
            DocumentSelection {
                start: Some(start_offset),
                end: Some(block_end(end_offset)),
                is_selecting: false,
            }
        } else {
            DocumentSelection {
                start: Some(start_offset),
                end: Some(start_offset),
                is_selecting: true,
            }
        }),
{
    if click_count == 2 {
        let last: usize = if end_offset == 0 {
            0
        } else {
            end_offset - 1
        };
        DocumentSelection { start: Some(start_offset), end: Some(last), is_selecting: false }
    } else {
        DocumentSelection {
            start: Some(start_offset),
            end: Some(start_offset),
            is_selecting: true,
        }
    }
}

/// The selection while the mouse moves over a block: from where it began up to
/// the far end of the block.
pub fn drag_over_block(
    selection: DocumentSelection,
    start_offset: usize,
    end_offset: usize,
) -> (r: DocumentSelection)
    ensures
        r == (match selection.start {
            Some(from) => if selection.is_selecting {
                DocumentSelection {
                    end: Some(
                        if start_offset >= from {
                            block_end(end_offset)
                        } else {
                            start_offset
                        },
                    ),
                    ..selection
                }
            } else {
                selection
            },
            None => selection,
        }),
{
    match selection.start {
        Some(from) if selection.is_selecting => {
            let last: usize = if end_offset == 0 {
                0
            } else {
                end_offset - 1
            };
            DocumentSelection {
                start: selection.start,
                end: Some(
                    if start_offset >= from {
                        last
                    } else {
                        start_offset
                    },
                ),
                is_selecting: true,
            }
        },
        _ => selection,
    }
}

/// What a tab shows goes by what is known of it: that it is on its way first, then
/// its error, then the way that was chosen. Source is never blank.
pub proof fn panes_go_by_what_is_known(tab: FileViewerTab, has_document: bool)
    ensures
        pane_model(tab, has_document) is Loading <==> tab.loading,
        pane_model(tab, has_document) is Error <==> !tab.loading && tab.error_message is Some,
        !tab.loading && tab.error_message is None ==> {
            &&& tab.display_mode is Source ==> pane_model(tab, has_document) is Source
            &&& tab.display_mode is Preview && tab.is_markdown ==> pane_model(tab, true) is Preview
            &&& tab.display_mode is Preview ==> pane_model(tab, false) is Blank
        },
{
}

/// Escape undoes something that is there: each step is taken only where there is
/// what it undoes, menus before everything else.
pub proof fn escape_undoes_what_is_there(o: Overlays)
    ensures
        cancel_model(o) is CloseSelectionMenu <==> o.selection_menu,
        cancel_model(o) is CloseTabMenu ==> o.tab_menu,
        cancel_model(o) is CloseTreeMenu ==> o.tree_menu,
        cancel_model(o) is CancelRename ==> o.rename,
        cancel_model(o) is CancelDelete ==> o.delete_confirm,
        cancel_model(o) is CloseSearch ==> o.search,
        cancel_model(o) is ClearMarkdownSelection ==> o.is_preview && o.markdown_selected,
        cancel_model(o) is ClearSelection ==> o.source_selected,
        o.tab_menu && !o.selection_menu ==> cancel_model(o) is CloseTabMenu,
        o.search ==> !(cancel_model(o) is ClearSelection) && !(cancel_model(o) is
            ClearMarkdownSelection),
{
}

proof fn keys_differ()
    ensures
        "f"@ != "tab"@ && "f"@ != "b"@ && "f"@ != "c"@ && "f"@ != "a"@ && "f"@ != "w"@ && "f"@
            != "r"@ && "f"@ != "left"@ && "f"@ != "right"@,
        "tab"@ != "b"@ && "tab"@ != "c"@ && "tab"@ != "a"@ && "tab"@ != "w"@ && "tab"@ != "r"@
            && "tab"@ != "left"@ && "tab"@ != "right"@,
        "b"@ != "c"@ && "b"@ != "a"@ && "b"@ != "w"@ && "b"@ != "r"@ && "b"@ != "left"@ && "b"@
            != "right"@,
        "c"@ != "a"@ && "c"@ != "w"@ && "c"@ != "r"@ && "c"@ != "left"@ && "c"@ != "right"@,
        "a"@ != "w"@ && "a"@ != "r"@ && "a"@ != "left"@ && "a"@ != "right"@,
        "w"@ != "r"@ && "w"@ != "left"@ && "w"@ != "right"@,
        "r"@ != "left"@ && "r"@ != "right"@,
        "left"@ != "right"@,
{
    reveal_strlit("f");
    reveal_strlit("tab");
    reveal_strlit("b");
    reveal_strlit("c");
    reveal_strlit("a");
    reveal_strlit("w");
    reveal_strlit("r");
    reveal_strlit("left");
    reveal_strlit("right");
    assert("f"@.len() == 1 && "f"@[0] == 'f');
    assert("tab"@.len() == 3);
    assert("b"@.len() == 1 && "b"@[0] == 'b');
    assert("c"@.len() == 1 && "c"@[0] == 'c');
    assert("a"@.len() == 1 && "a"@[0] == 'a');
    assert("w"@.len() == 1 && "w"@[0] == 'w');
    assert("r"@.len() == 1 && "r"@[0] == 'r');
    assert("left"@.len() == 4);
    assert("right"@.len() == 5);
}

/// Each thing that a key can do has its own key: with the command key on any system,
/// with alt, or alone. While the search field has the keys, none does anything.
pub proof fn keys_do_their_own(key: Seq<char>, m: Modifiers, c: KeyContext)
    ensures
        c.search_focused ==> key_model(key, m, c) is None,
        !c.search_focused ==> {
            let command = m.platform || m.control;
            let r = key_model(key, m, c);
            &&& r == Some(KeyAction::OpenSearch) <==> key == "f"@ && command && !c.is_preview
            &&& r == Some(KeyAction::CloseTab) <==> key == "w"@ && command
            &&& r == Some(KeyAction::CopySelection) <==> key == "c"@ && command && !c.is_preview
            &&& r == Some(KeyAction::CopyMarkdownSelection) <==> key == "c"@ && command
                && c.is_preview
            &&& r == Some(KeyAction::SelectAll) <==> key == "a"@ && command && !c.is_preview
            &&& r == Some(KeyAction::SelectAllMarkdown) <==> key == "a"@ && command
                && c.is_preview
            &&& r == Some(KeyAction::ToggleSidebar) <==> key == "b"@ && !command
            &&& r == Some(KeyAction::ToggleBlame) <==> key == "b"@ && command && m.alt
                && c.has_blame
            &&& r == Some(KeyAction::RefreshTree) <==> key == "r"@ && !command
            &&& r == Some(KeyAction::GoBack) <==> key == "left"@ && m.alt
            &&& r == Some(KeyAction::GoForward) <==> key == "right"@ && m.alt
            &&& r == Some(KeyAction::NextTab) <==> key == "tab"@ && m.control && !m.shift
            &&& r == Some(KeyAction::PreviousTab) <==> key == "tab"@ && m.control && m.shift
            &&& r == Some(KeyAction::ToggleDisplayMode) <==> key == "tab"@ && c.is_markdown
                && !m.control && !m.shift
        },
{
    keys_differ();
}

/// A line is labelled with its number, counted from one, at the right edge of the
/// column.
pub proof fn line_numbers_stand_at_the_right(line: nat, width: nat)
    ensures
        decimal(line + 1).is_suffix_of(line_number_text(line, width)),
        decimal(line + 1).len() <= width ==> line_number_text(line, width).len() == width,
{
    let text = line_number_text(line, width);
    let n = width - decimal(line + 1).len();
    padding_keeps_the_text(Seq::empty(), n);
    assert(pad_right_seq(Seq::empty(), n) =~= spaces(n));
    assert(text.skip(spaces(n).len() as int) == decimal(line + 1));
}

/// The footer counts the lines of what is shown as source, and of nothing else.
pub proof fn footers_count_lines(tab: FileViewerTab, other: FileViewerTab)
    ensures
        tab.display_mode is Source ==> footer_model(tab) == decimal(tab.line_count as nat)
            + " lines"@,
        tab.display_mode is Preview && other.display_mode is Preview ==> footer_model(tab)
            == footer_model(other),
        tab.display_mode is Preview ==> footer_model(tab) == "Preview mode"@,
{
}

/// A block ends at its last character.
pub proof fn blocks_end_at_their_last_character(end_offset: usize)
    ensures
        end_offset > 0 ==> block_end(end_offset) + 1 == end_offset,
        end_offset == 0 ==> block_end(end_offset) == 0,
{
}

} // verus!
