//! One tab of the file viewer.

use crate::files::formats::{
    file_kind, image_format_for_path, image_format_model, is_markdown_file, is_markdown_model,
    kind_model, size_error, too_large_text, FileKind, ImageFormat, MAX_LINES,
};
use crate::files::loading::{DecodedImage, FontData};
use crate::path::{file_name, file_name_seq, is_absolute};
use crate::text::{
    chars_of, concat, decimal, decimal_string, lines, lines_seq, string_of,
};
use vstd::prelude::*;

verus! {

broadcast use vstd::string::group_string_axioms;

/// How a file is shown.
#[derive(Clone, Copy, Debug, PartialEq, Eq, Structural)]
pub enum DisplayMode {
    Source,
    Preview,
}

/// How far the blame of a file is.
#[derive(Clone, Copy, Debug, PartialEq, Eq, Structural)]
pub enum BlameLoadState {
    NotLoaded,
    Loading,
    Loaded,
    Error,
}

/// The least number of columns for line numbers.
pub const MIN_LINE_NUM_WIDTH: usize = 3;

/// A tab. Times are nanoseconds since the epoch.
#[derive(Clone, Debug, PartialEq, Eq)]
pub struct FileViewerTab {
    /// Where the file lies.
    pub file_path: String,
    /// The file's path in the project, which identifies the tab; empty for a
    /// tab without a file.
    pub relative_path: String,
    pub content: String,
    pub line_count: usize,
    pub line_num_width: usize,
    pub error_message: Option<String>,
    pub display_mode: DisplayMode,
    pub is_markdown: bool,
    /// When the file was last changed, as far as known.
    pub modified_at: Option<i128>,
    /// Whether the content is still on its way.
    pub loading: bool,
    pub blame: BlameLoadState,
    /// The number of the last load that was started for this tab.
    pub load_generation: u64,
    pub is_image: bool,
    pub is_svg: bool,
    pub image_data: Option<DecodedImage>,
    pub is_font: bool,
    pub font_data: Option<FontData>,
}

/// What is known of a file without reading it.
#[derive(Clone, Copy, Debug, PartialEq, Eq)]
pub struct FileMeta {
    pub len: u64,
    pub modified: Option<i128>,
}

/// Text, with the number of its lines.
#[derive(Clone, Debug, PartialEq, Eq)]
pub struct SourceText {
    pub content: String,
    pub line_count: usize,
}

/// A text as it is shown: no more than [`MAX_LINES`] of its lines count.
pub fn source_text(content: String) -> (r: SourceText)
    ensures
        r.content == content,
        r.line_count == (if lines_seq(content@).len() < MAX_LINES {
            lines_seq(content@).len()
        } else {
            MAX_LINES as nat
        }),
{
    let all: Vec<String> = lines(content.as_str());
    assert(all.deep_view().len() == all@.len());
    let line_count: usize = if all.len() < MAX_LINES {
        all.len()
    } else {
        MAX_LINES
    };
    SourceText { content, line_count }
}

/// What was read of a file.
#[derive(Clone, Debug, PartialEq, Eq)]
pub enum LoadedContent {
    Text(SourceText),
    /// An image, with its source where it is a vector image.
    Image { decoded: DecodedImage, source: Option<SourceText> },
    Font(FontData),
}

/// The columns that the numbers of `n` lines take.
pub open spec fn line_num_width_model(n: nat) -> nat {
    if decimal(n).len() > MIN_LINE_NUM_WIDTH {
        decimal(n).len()
    } else {
        MIN_LINE_NUM_WIDTH as nat
    }
}

/// The columns that the numbers of `n` lines take.
pub fn line_num_width(n: usize) -> (r: usize)
    ensures
        r == line_num_width_model(n as nat),
{
    let text: String = decimal_string(n as u64);
    let width: usize = chars_of(text.as_str()).len();
    if width > MIN_LINE_NUM_WIDTH {
        width
    } else {
        MIN_LINE_NUM_WIDTH
    }
}

/// A tab's path and mode: what its extension decides.
pub open spec fn is_fresh_tab(tab: FileViewerTab, relative: Seq<char>, path: Seq<char>) -> bool {
    &&& tab.relative_path@ == relative
    &&& tab.file_path@ == path
    &&& tab.content@ == Seq::<char>::empty()
    &&& tab.line_count == 0
    &&& tab.line_num_width == MIN_LINE_NUM_WIDTH
    &&& tab.error_message is None
    &&& tab.modified_at is None
    &&& tab.blame == BlameLoadState::NotLoaded
    &&& tab.load_generation == 0
    &&& tab.image_data is None
    &&& tab.font_data is None
}

/// A tab for a file whose content is still on its way.
pub open spec fn is_loading_tab(tab: FileViewerTab, relative: Seq<char>, path: Seq<char>) -> bool {
    &&& is_fresh_tab(tab, relative, path)
    &&& tab.loading
    &&& tab.is_image == (kind_model(path) == FileKind::Image)
    &&& tab.is_font == (kind_model(path) == FileKind::Font)
    &&& tab.is_svg == (image_format_model(path) == Some(ImageFormat::Svg))
    &&& tab.is_markdown == (kind_model(path) == FileKind::Text && is_markdown_model(path))
    &&& tab.display_mode == (if tab.is_markdown || tab.is_svg {
        DisplayMode::Preview
    } else {
        DisplayMode::Source
    })
}

/// A tab without a file.
pub open spec fn is_empty_tab(tab: FileViewerTab) -> bool {
    &&& is_fresh_tab(tab, Seq::empty(), Seq::empty())
    &&& !tab.loading
    &&& !tab.is_image
    &&& !tab.is_font
    &&& !tab.is_svg
    &&& !tab.is_markdown
    &&& tab.display_mode == DisplayMode::Source
}

/// The last position of a slash or backslash, or -1.
pub open spec fn last_separator(s: Seq<char>) -> int
    decreases s.len(),
{
    if s.len() == 0 {
        -1
    } else if s.last() == '/' || s.last() == '\\' {
        s.len() - 1
    } else {
        last_separator(s.drop_last())
    }
}

/// The name that a tab is labelled with.
pub open spec fn tab_label(path: Seq<char>, relative: Seq<char>) -> Seq<char> {
    match file_name_seq(path) {
        Some(name) => name,
        None => if last_separator(relative) >= 0 {
            relative.skip(last_separator(relative) + 1)
        } else if relative.len() > 0 {
            relative
        } else {
            "Untitled"@
        },
    }
}

/// What loading a file does next.
#[derive(Clone, Copy, Debug, PartialEq, Eq, Structural)]
pub enum LoadStep {
    /// Nothing: the file cannot be shown.
    Done,
    /// Read the bytes of an image or a font.
    ReadBytes,
    /// Read the file as text.
    ReadText,
}

/// The kind that a tab was opened for.
pub open spec fn tab_kind(tab: FileViewerTab) -> FileKind {
    if tab.is_image {
        FileKind::Image
    } else if tab.is_font {
        FileKind::Font
    } else {
        FileKind::Text
    }
}

/// `tab` with an error, which takes the picture or the font away but leaves
/// text as it is.
pub open spec fn has_failed(
    after: FileViewerTab,
    before: FileViewerTab,
    message: Seq<char>,
) -> bool {
    &&& after.error_message.deep_view() == Some(message)
    &&& after == (FileViewerTab {
        error_message: after.error_message,
        image_data: if before.is_image {
            None
        } else {
            before.image_data
        },
        font_data: if !before.is_image && before.is_font {
            None
        } else {
            before.font_data
        },
        ..before
    })
}

/// `after` shows `source`, or no text where there is none, and is otherwise
/// `before`.
pub open spec fn shows_source(
    after: FileViewerTab,
    before: FileViewerTab,
    source: Option<SourceText>,
) -> bool {
    &&& after == (FileViewerTab {
        content: after.content,
        line_count: after.line_count,
        line_num_width: after.line_num_width,
        ..before
    })
    &&& match source {
        Some(text) => after.content@ == text.content@ && after.line_count == text.line_count
            && after.line_num_width == line_num_width_model(text.line_count as nat),
        None => after.content@ == Seq::<char>::empty() && after.line_count == 0
            && after.line_num_width == MIN_LINE_NUM_WIDTH,
    }
}

/// The source that goes with what was read.
pub open spec fn source_of(content: LoadedContent) -> Option<SourceText> {
    match content {
        LoadedContent::Text(text) => Some(text),
        LoadedContent::Image { source, .. } => source,
        LoadedContent::Font(_) => None,
    }
}

/// `after` is `before` with what was read taken in.
pub open spec fn has_applied(
    after: FileViewerTab,
    before: FileViewerTab,
    result: Result<LoadedContent, String>,
    modified: Option<i128>,
) -> bool {
    match result {
        Err(message) => {
            &&& after.error_message.deep_view() == Some(message@)
            &&& after == (FileViewerTab {
                error_message: after.error_message,
                loading: false,
                ..before
            })
        },
        Ok(content) => shows_source(
            after,
            FileViewerTab {
                loading: false,
                modified_at: if "/"@.is_prefix_of(before.file_path@) {
                    modified
                } else {
                    None
                },
                image_data: match content {
                    LoadedContent::Image { decoded, .. } => Some(decoded),
                    LoadedContent::Font(_) => None,
                    LoadedContent::Text(_) => before.image_data,
                },
                font_data: match content {
                    LoadedContent::Font(data) => Some(data),
                    LoadedContent::Image { .. } => None,
                    LoadedContent::Text(_) => before.font_data,
                },
                ..before
            },
            source_of(content),
        ),
    }
}

/// `after` is `before` with the outcome of a check for changes taken in.
pub open spec fn has_refreshed(
    after: FileViewerTab,
    before: FileViewerTab,
    outcome: FreshnessOutcome,
) -> bool {
    match outcome {
        FreshnessOutcome::Unchanged => after == before,
        FreshnessOutcome::Failed { message, new_mtime } => {
            &&& after.error_message.deep_view() == Some(message@)
            &&& after == (FileViewerTab {
                error_message: after.error_message,
                modified_at: match new_mtime {
                    Some(time) => Some(time),
                    None => before.modified_at,
                },
                ..before
            })
        },
        FreshnessOutcome::Reloaded { content, modified_at } => shows_source(
            after,
            FileViewerTab {
                error_message: None,
                modified_at,
                image_data: match content {
                    LoadedContent::Image { decoded, .. } => Some(decoded),
                    _ => None,
                },
                font_data: match content {
                    LoadedContent::Font(data) => Some(data),
                    LoadedContent::Image { .. } => None,
                    LoadedContent::Text(_) => before.font_data,
                },
                ..before
            },
            source_of(content),
        ),
    }
}

impl FileViewerTab {
    /// A tab without a file.
    pub fn new_empty() -> (r: FileViewerTab)
        ensures
            is_empty_tab(r),
    {
        FileViewerTab {
            file_path: String::new(),
            relative_path: String::new(),
            content: String::new(),
            line_count: 0,
            line_num_width: MIN_LINE_NUM_WIDTH,
            error_message: None,
            display_mode: DisplayMode::Source,
            is_markdown: false,
            modified_at: None,
            loading: false,
            blame: BlameLoadState::NotLoaded,
            load_generation: 0,
            is_image: false,
            is_svg: false,
            image_data: None,
            is_font: false,
            font_data: None,
        }
    }

    /// A tab for a file whose content is still on its way. Its path decides how
    /// it is shown.
    pub fn new_loading(relative_path: String, file_path: String) -> (r: FileViewerTab)
        ensures
            is_loading_tab(r, relative_path@, file_path@),
    {
        let kind: FileKind = file_kind(file_path.as_str());
        let is_svg: bool = match image_format_for_path(file_path.as_str()) {
            Some(ImageFormat::Svg) => true,
            _ => false,
        };
        let is_markdown: bool = kind == FileKind::Text && is_markdown_file(file_path.as_str());
        FileViewerTab {
            file_path,
            relative_path,
            content: String::new(),
            line_count: 0,
            line_num_width: MIN_LINE_NUM_WIDTH,
            error_message: None,
            display_mode: if is_markdown || is_svg {
                DisplayMode::Preview
            } else {
                DisplayMode::Source
            },
            is_markdown,
            modified_at: None,
            loading: true,
            blame: BlameLoadState::NotLoaded,
            load_generation: 0,
            is_image: kind == FileKind::Image,
            is_svg,
            image_data: None,
            is_font: kind == FileKind::Font,
            font_data: None,
        }
    }

    /// The name that the tab is labelled with.
    pub fn filename(&self) -> (r: String)
        ensures
            r@ == tab_label(self.file_path@, self.relative_path@),
    {
        if let Some(name) = file_name(self.file_path.as_str()) {
            return name;
        }
        let chars: Vec<char> = chars_of(self.relative_path.as_str());
        let n: usize = chars.len();
        let mut end: usize = n;
        assert(chars@.take(n as int) == chars@);
        while end > 0
            invariant
                end <= n == chars@.len(),
                chars@ == self.relative_path@,
                file_name_seq(self.file_path@) is None,
                last_separator(chars@.take(end as int)) == last_separator(chars@),
            decreases end,
        {
            assert(chars@.take(end as int).drop_last() == chars@.take(end - 1));
            if chars[end - 1] == '/' || chars[end - 1] == '\\' {
                assert(chars@.subrange(end as int, n as int) == chars@.skip(end as int));
                return string_of(&chars, end, n);
            }
            end = end - 1;
        }
        if n > 0 {
            self.relative_path.clone()
        } else {
            "Untitled".to_owned()
        }
    }

    /// Whether the tab has no file.
    pub fn is_empty(&self) -> (r: bool)
        ensures
            r == (self.relative_path@.len() == 0),
    {
        self.relative_path.as_str().is_empty()
    }

    fn kind(&self) -> (r: FileKind)
        ensures
            r == tab_kind(*self),
    {
        if self.is_image {
            FileKind::Image
        } else if self.is_font {
            FileKind::Font
        } else {
            FileKind::Text
        }
    }

    fn fail(&mut self, message: String)
        ensures
            has_failed(*final(self), *old(self), message@),
    {
        self.error_message = Some(message);
        if self.is_image {
            self.image_data = None;
        } else if self.is_font {
            self.font_data = None;
        }
    }

    fn show_source(&mut self, source: Option<SourceText>)
        ensures
            shows_source(*final(self), *old(self), source),
    {
        match source {
            Some(text) => {
                self.line_num_width = line_num_width(text.line_count);
                self.line_count = text.line_count;
                self.content = text.content;
            },
            None => {
                self.content = String::new();
                self.line_count = 0;
                self.line_num_width = MIN_LINE_NUM_WIDTH;
            },
        }
    }

    /// Begins to load the tab's file: a file that cannot be found, or is too
    /// large, is not read. The time of a text file is taken before it is read.
    pub fn load_file(&mut self, metadata: Result<FileMeta, String>) -> (r: LoadStep)
        ensures
            match metadata {
                Err(e) => {
                    &&& r == LoadStep::Done
                    &&& final(self).error_message.deep_view() == Some("Cannot read file: "@ + e@)
                    &&& *final(self) == (FileViewerTab {
                        error_message: final(self).error_message,
                        ..*old(self)
                    })
                },
                Ok(meta) => if meta.len > tab_kind(*old(self)).limit_model() {
                    &&& r == LoadStep::Done
                    &&& has_failed(
                        *final(self),
                        *old(self),
                        too_large_text(tab_kind(*old(self)), meta.len as nat),
                    )
                } else if tab_kind(*old(self)) == FileKind::Text {
                    &&& r == LoadStep::ReadText
                    &&& *final(self) == (FileViewerTab {
                        modified_at: meta.modified,
                        ..*old(self)
                    })
                } else {
                    &&& r == LoadStep::ReadBytes
                    &&& *final(self) == *old(self)
                },
            },
    {
        let meta: FileMeta = match metadata {
            Ok(meta) => meta,
            Err(e) => {
                self.error_message = Some(concat("Cannot read file: ", e.as_str()));
                return LoadStep::Done;
            },
        };
        let kind: FileKind = self.kind();
        if let Some(message) = size_error(kind, meta.len) {
            self.fail(message);
            return LoadStep::Done;
        }
        if kind == FileKind::Text {
            self.modified_at = meta.modified;
            LoadStep::ReadText
        } else {
            LoadStep::ReadBytes
        }
    }

    /// Ends the load of an image or a font. The time is only taken over with
    /// the content, so that a file that could not be decoded is tried again.
    pub fn finish_bytes(&mut self, result: Result<LoadedContent, String>, modified: Option<i128>)
        requires
            tab_kind(*old(self)) != FileKind::Text,
        ensures
            match result {
                Err(message) => has_failed(*final(self), *old(self), message@),
                Ok(LoadedContent::Image { decoded, source }) => if old(self).is_image {
                    shows_source(
                        *final(self),
                        FileViewerTab {
                            image_data: Some(decoded),
                            modified_at: modified,
                            ..*old(self)
                        },
                        source,
                    )
                } else {
                    has_failed(*final(self), *old(self), "Internal error decoding font"@)
                },
                Ok(LoadedContent::Font(data)) => if old(self).is_image {
                    has_failed(*final(self), *old(self), "Internal error decoding image"@)
                } else {
                    shows_source(
                        *final(self),
                        FileViewerTab {
                            font_data: Some(data),
                            image_data: None,
                            modified_at: modified,
                            ..*old(self)
                        },
                        None,
                    )
                },
                Ok(LoadedContent::Text(_)) => has_failed(
                    *final(self),
                    *old(self),
                    if old(self).is_image {
                        "Internal error decoding image"@
                    } else {
                        "Internal error decoding font"@
                    },
                ),
            },
    {
        match result {
            Err(message) => self.fail(message),
            Ok(LoadedContent::Image { decoded, source }) if self.is_image => {
                self.image_data = Some(decoded);
                self.show_source(source);
                self.modified_at = modified;
            },
            Ok(LoadedContent::Font(data)) if !self.is_image => {
                self.font_data = Some(data);
                self.image_data = None;
                self.show_source(None);
                self.modified_at = modified;
            },
            Ok(_) => {
                let message: String = (if self.is_image {
                    "Internal error decoding image"
                } else {
                    "Internal error decoding font"
                }).to_owned();
                self.fail(message);
            },
        }
    }

    /// Ends the load of a text file.
    pub fn finish_text(&mut self, result: Result<SourceText, String>)
        requires
            tab_kind(*old(self)) == FileKind::Text,
        ensures
            match result {
                Ok(text) => shows_source(*final(self), *old(self), Some(text)),
                Err(message) => has_failed(*final(self), *old(self), message@),
            },
    {
        match result {
            Ok(text) => self.show_source(Some(text)),
            Err(message) => self.fail(message),
        }
    }

    /// Takes in what was read in the background. `modified` is the time of the
    /// file at the tab's path, which is only trusted where that path is
    /// absolute.
    pub fn apply_loaded_content(
        &mut self,
        result: Result<LoadedContent, String>,
        modified: Option<i128>,
    )
        ensures
            has_applied(*final(self), *old(self), result, modified),
    {
        self.loading = false;
        let trusted: Option<i128> = if is_absolute(self.file_path.as_str()) {
            modified
        } else {
            None
        };
        match result {
            Ok(LoadedContent::Text(text)) => {
                self.show_source(Some(text));
                self.modified_at = trusted;
            },
            Ok(LoadedContent::Image { decoded, source }) => {
                self.image_data = Some(decoded);
                self.font_data = None;
                self.show_source(source);
                self.modified_at = trusted;
            },
            Ok(LoadedContent::Font(data)) => {
                self.font_data = Some(data);
                self.image_data = None;
                self.show_source(None);
                self.modified_at = trusted;
            },
            Err(message) => {
                self.error_message = Some(message);
            },
        }
    }

    /// Whether the file was changed since the tab read it.
    pub open spec fn is_stale_model(modified_at: Option<i128>, metadata: Option<FileMeta>) -> bool {
        match (modified_at, metadata) {
            (Some(old_time), Some(meta)) => match meta.modified {
                Some(new_time) => new_time != old_time,
                None => false,
            },
            _ => false,
        }
    }

    /// Whether the file was changed since the tab read it; then its error is
    /// forgotten and it is to be loaded again.
    pub fn reload_if_changed(&mut self, metadata: Option<FileMeta>) -> (r: bool)
        ensures
            r == Self::is_stale_model(old(self).modified_at, metadata),
            *final(self) == (FileViewerTab {
                error_message: if r {
                    None
                } else {
                    old(self).error_message
                },
                ..*old(self)
            }),
    {
        let stale: bool = is_stale(self.modified_at, metadata);
        if stale {
            self.error_message = None;
        }
        stale
    }

    /// Takes in the outcome of a check for changes. A failure pins the time of
    /// the file, so that a bad file is not read again until it changes again.
    pub fn apply_freshness_reload(&mut self, outcome: FreshnessOutcome)
        ensures
            has_refreshed(*final(self), *old(self), outcome),
    {
        match outcome {
            FreshnessOutcome::Unchanged => {},
            FreshnessOutcome::Failed { message, new_mtime } => {
                self.error_message = Some(message);
                if let Some(time) = new_mtime {
                    self.modified_at = Some(time);
                }
            },
            FreshnessOutcome::Reloaded { content, modified_at } => {
                self.error_message = None;
                self.modified_at = modified_at;
                match content {
                    LoadedContent::Text(text) => {
                        self.image_data = None;
                        self.show_source(Some(text));
                    },
                    LoadedContent::Image { decoded, source } => {
                        self.image_data = Some(decoded);
                        self.font_data = None;
                        self.show_source(source);
                    },
                    LoadedContent::Font(data) => {
                        self.font_data = Some(data);
                        self.image_data = None;
                        self.show_source(None);
                    },
                }
            },
        }
    }
}

fn is_stale(modified_at: Option<i128>, metadata: Option<FileMeta>) -> (r: bool)
    ensures
        r == FileViewerTab::is_stale_model(modified_at, metadata),
{
    match (modified_at, metadata) {
        (Some(old_time), Some(meta)) => match meta.modified {
            Some(new_time) => new_time != old_time,
            None => false,
        },
        _ => false,
    }
}

// ---------------------------------------------------------------------------
// All tabs at once
// ---------------------------------------------------------------------------

/// Whether a tab's text is highlighted: fonts and bitmaps have none.
pub open spec fn has_highlighting(tab: FileViewerTab) -> bool {
    !tab.is_font && (!tab.is_image || tab.is_svg)
}

/// Whether a tab's text is highlighted anew when the theme changes.
pub fn needs_rehighlight(tab: &FileViewerTab) -> (r: bool)
    ensures
        r == has_highlighting(*tab),
{
    !tab.is_font && (!tab.is_image || tab.is_svg)
}

/// What becomes of a tab when all are gone through.
#[derive(Clone, Copy, Debug, PartialEq, Eq, Structural)]
pub enum TabRefresh {
    Keep,
    /// Its file has changed: load it again.
    Reload,
    /// The theme has changed: highlight its text again.
    Rehighlight,
}

/// What becomes of a tab: a tab without a file is left alone, and a changed file
/// outweighs a changed theme.
pub open spec fn refresh_of(
    tab: FileViewerTab,
    metadata: Option<FileMeta>,
    rehighlight: bool,
) -> TabRefresh {
    if tab.relative_path@.len() == 0 {
        TabRefresh::Keep
    } else if FileViewerTab::is_stale_model(tab.modified_at, metadata) {
        TabRefresh::Reload
    } else if rehighlight && has_highlighting(tab) {
        TabRefresh::Rehighlight
    } else {
        TabRefresh::Keep
    }
}

/// A tab once all were gone through: one that is loaded again forgets its error
/// and its blame.
pub open spec fn refreshed(tab: FileViewerTab, step: TabRefresh) -> FileViewerTab {
    if step == TabRefresh::Reload {
        FileViewerTab { error_message: None, blame: BlameLoadState::NotLoaded, ..tab }
    } else {
        tab
    }
}

impl FileViewerTab {
    /// Looks whether the tab's file or the theme has changed.
    pub fn refresh(&mut self, metadata: Option<FileMeta>, rehighlight: bool) -> (r: TabRefresh)
        ensures
            r == refresh_of(*old(self), metadata, rehighlight),
            *final(self) == refreshed(*old(self), r),
    {
        if self.is_empty() {
            return TabRefresh::Keep;
        }
        if self.reload_if_changed(metadata) {
            self.blame = BlameLoadState::NotLoaded;
            return TabRefresh::Reload;
        }
        if rehighlight && needs_rehighlight(self) {
            return TabRefresh::Rehighlight;
        }
        TabRefresh::Keep
    }
}

// ---------------------------------------------------------------------------
// Checks for changes
// ---------------------------------------------------------------------------

/// The outcome of a check for changes.
#[derive(Clone, Debug, PartialEq, Eq)]
pub enum FreshnessOutcome {
    /// The file is as it was, or could not be asked.
    Unchanged,
    Reloaded { content: LoadedContent, modified_at: Option<i128> },
    /// The file changed but cannot be shown.
    Failed { message: String, new_mtime: Option<i128> },
}

/// What a check for changes does next.
#[derive(Clone, Debug, PartialEq, Eq)]
pub enum FreshnessStep {
    Finished(FreshnessOutcome),
    /// Read the file in the way of its kind.
    Read { kind: FileKind, new_mtime: i128 },
}

/// A failed check.
pub open spec fn is_failure(outcome: FreshnessOutcome, message: Seq<char>, time: i128) -> bool {
    outcome matches FreshnessOutcome::Failed { message: told, new_mtime } && told@ == message
        && new_mtime == Some(time)
}

/// Begins a check for changes: a file with the time it had is left alone, one
/// that has grown too large is not read.
pub fn compute_freshness_reload(
    path: &str,
    old_mtime: Option<i128>,
    metadata: Option<FileMeta>,
) -> (r: FreshnessStep)
    ensures
        if FileViewerTab::is_stale_model(old_mtime, metadata) {
            let meta = metadata->0;
            let time = meta.modified->0;
            if meta.len > kind_model(path@).limit_model() {
                r matches FreshnessStep::Finished(outcome) && is_failure(
                    outcome,
                    too_large_text(kind_model(path@), meta.len as nat),
                    time,
                )
            } else {
                r == (FreshnessStep::Read { kind: kind_model(path@), new_mtime: time })
            }
        } else {
            r == FreshnessStep::Finished(FreshnessOutcome::Unchanged)
        },
{
    if !is_stale(old_mtime, metadata) {
        return FreshnessStep::Finished(FreshnessOutcome::Unchanged);
    }
    match metadata {
        Some(FileMeta { len, modified: Some(new_mtime) }) => {
            let kind: FileKind = file_kind(path);
            match size_error(kind, len) {
                Some(message) => FreshnessStep::Finished(
                    FreshnessOutcome::Failed { message, new_mtime: Some(new_mtime) },
                ),
                None => FreshnessStep::Read { kind, new_mtime },
            }
        },
        _ => FreshnessStep::Finished(FreshnessOutcome::Unchanged),
    }
}

/// Whether what was read is of the kind that was asked for.
pub open spec fn content_is(content: LoadedContent, kind: FileKind) -> bool {
    match kind {
        FileKind::Image => content is Image,
        FileKind::Font => content is Font,
        FileKind::Text => content is Text,
    }
}

/// Ends a check for changes with what was read; a file read as text is text.
pub fn finish_freshness_reload(
    kind: FileKind,
    new_mtime: i128,
    result: Result<LoadedContent, String>,
) -> (r: FreshnessOutcome)
    requires
        kind == FileKind::Text ==> (result matches Ok(content) ==> content is Text),
    ensures
        match result {
            Ok(content) => if content_is(content, kind) {
                r == (FreshnessOutcome::Reloaded { content, modified_at: Some(new_mtime) })
            } else {
                is_failure(
                    r,
                    if kind == FileKind::Image {
                        "Internal error decoding image"@
                    } else {
                        "Internal error decoding font"@
                    },
                    new_mtime,
                )
            },
            Err(message) => is_failure(r, message@, new_mtime),
        },
{
    match result {
        Ok(content) => {
            let fits: bool = match (&content, kind) {
                (LoadedContent::Image { .. }, FileKind::Image) => true,
                (LoadedContent::Font(_), FileKind::Font) => true,
                (LoadedContent::Text(_), FileKind::Text) => true,
                _ => false,
            };
            if fits {
                return FreshnessOutcome::Reloaded { content, modified_at: Some(new_mtime) };
            }
            let message: &str = if kind == FileKind::Image {
                "Internal error decoding image"
            } else {
                "Internal error decoding font"
            };
            FreshnessOutcome::Failed { message: message.to_owned(), new_mtime: Some(new_mtime) }
        },
        Err(message) => FreshnessOutcome::Failed { message, new_mtime: Some(new_mtime) },
    }
}

/// A check that fails is not repeated until the file changes again: with the
/// time that it pinned, the same file is no longer stale.
pub proof fn failure_is_not_repeated(before: Option<i128>, metadata: Option<FileMeta>, time: i128)
    requires
        FileViewerTab::is_stale_model(before, metadata),
        time == metadata->0.modified->0,
    ensures
        !FileViewerTab::is_stale_model(Some(time), metadata),
{
}

/// What was read is what is shown: text with all its characters and lines, a picture
/// or a font as it was decoded; and nothing is on its way any more. A failure is
/// told and leaves what was shown.
pub proof fn loaded_content_is_shown(
    after: FileViewerTab,
    before: FileViewerTab,
    result: Result<LoadedContent, String>,
    modified: Option<i128>,
)
    requires
        has_applied(after, before, result, modified),
    ensures
        !after.loading,
        after.relative_path == before.relative_path && after.file_path == before.file_path,
        result matches Ok(LoadedContent::Text(text)) ==> after.content@ == text.content@
            && after.line_count == text.line_count,
        result matches Ok(LoadedContent::Image { decoded, .. }) ==> after.image_data == Some(
            decoded,
        ),
        result matches Ok(LoadedContent::Font(data)) ==> after.font_data == Some(data)
            && after.content@.len() == 0,
        result is Ok && "/"@.is_prefix_of(before.file_path@) ==> after.modified_at == modified,
        result matches Err(message) ==> after.error_message is Some && after.error_message->0@
            == message@ && after.content == before.content,
{
}

/// A file that was read again is shown as it is now and with no error, one that was
/// not changed is left alone, and one that could not be read keeps what it showed.
pub proof fn changed_content_is_shown(
    after: FileViewerTab,
    before: FileViewerTab,
    outcome: FreshnessOutcome,
)
    requires
        has_refreshed(after, before, outcome),
    ensures
        outcome is Unchanged ==> after == before,
        outcome matches FreshnessOutcome::Reloaded { content, modified_at } ==> {
            &&& after.error_message is None
            &&& after.modified_at == modified_at
            &&& content matches LoadedContent::Text(text) ==> after.content@ == text.content@
            &&& content matches LoadedContent::Image { decoded, .. } ==> after.image_data == Some(
                decoded,
            )
        },
        outcome matches FreshnessOutcome::Failed { message, .. } ==> after.error_message is Some
            && after.error_message->0@ == message@ && after.content == before.content,
        after.relative_path == before.relative_path,
{
}

/// A file is stale just where its time is known, now and then, and is another.
pub proof fn only_other_times_are_stale(read: Option<i128>, meta: FileMeta)
    ensures
        FileViewerTab::is_stale_model(read, Some(meta)) <==> read is Some && meta.modified is Some
            && read != meta.modified,
        !FileViewerTab::is_stale_model(read, None),
{
}

/// A tab is labelled with the name of its file, and without one with what it has.
pub proof fn tabs_are_labelled_with_names(path: Seq<char>, relative: Seq<char>, name: Seq<char>)
    ensures
        file_name_seq(path) == Some(name) ==> tab_label(path, relative) == name,
        file_name_seq(path) is None && relative.len() == 0 ==> tab_label(path, relative)
            == "Untitled"@,
        file_name_seq(path) is None && relative.len() > 0 ==> tab_label(path, relative).is_suffix_of(
            relative,
        ),
{
    last_separator_is_within(relative);
    if file_name_seq(path) is None && relative.len() > 0 {
        let label = tab_label(path, relative);
        assert(relative.skip(relative.len() - label.len()) == label);
    }
}

proof fn last_separator_is_within(s: Seq<char>)
    ensures
        -1 <= last_separator(s) < s.len(),
    decreases s.len(),
{
    if s.len() > 0 {
        last_separator_is_within(s.drop_last());
    }
}

/// Numbers of lines have at least three columns, and as many as the last one needs.
pub proof fn numbers_fit_their_columns(n: nat)
    ensures
        line_num_width_model(n) >= decimal(n).len(),
        line_num_width_model(n) >= 3,
        line_num_width_model(n) == 3 || line_num_width_model(n) == decimal(n).len(),
{
}

/// A tab begins in the way that suits its file: documents and vector images rendered,
/// everything else as it is written; it shows nothing yet and says that it loads.
pub proof fn tabs_begin_in_a_fitting_way(tab: FileViewerTab, relative: Seq<char>, path: Seq<char>)
    requires
        is_loading_tab(tab, relative, path),
    ensures
        tab.loading && tab.content@.len() == 0 && tab.error_message is None,
        tab.relative_path@ == relative && tab.file_path@ == path,
        tab.display_mode is Preview <==> tab.is_markdown || tab.is_svg,
        tab.is_svg ==> tab.is_image,
        tab.is_image ==> !tab.is_font && !tab.is_markdown,
        tab.is_font ==> !tab.is_markdown && !tab.is_svg,
        kind_model(path) is Text && is_markdown_model(path) ==> tab.is_markdown,
        tab_kind(tab) == kind_model(path),
{
}

/// A tab without a file has neither a path nor anything to show, and nothing is on its
/// way.
pub proof fn empty_tabs_show_nothing(tab: FileViewerTab)
    requires
        is_empty_tab(tab),
    ensures
        tab.relative_path@.len() == 0 && tab.content@.len() == 0 && !tab.loading,
        tab.error_message is None && tab.image_data is None && tab.font_data is None,
        refresh_of(tab, None, true) is Keep,
        tab_kind(tab) is Text,
{
}

/// A new theme calls for new highlighting of every tab with text, vector images among
/// them, and of no other; a changed file is read again instead.
pub proof fn themes_change_text_alone(tab: FileViewerTab, metadata: Option<FileMeta>)
    requires
        tab.relative_path@.len() > 0,
    ensures
        refresh_of(tab, metadata, true) is Rehighlight <==> !FileViewerTab::is_stale_model(
            tab.modified_at,
            metadata,
        ) && !tab.is_font && (tab.is_image ==> tab.is_svg),
        !(refresh_of(tab, metadata, false) is Rehighlight),
        FileViewerTab::is_stale_model(tab.modified_at, metadata) ==> refresh_of(
            tab,
            metadata,
            true,
        ) is Reload,
        refreshed(tab, TabRefresh::Keep) == tab,
        refreshed(tab, TabRefresh::Rehighlight) == tab,
        refreshed(tab, TabRefresh::Reload).blame == BlameLoadState::NotLoaded,
{
}

/// A failure takes away just what could not be shown: the picture of an image, the
/// font of a font, and never text.
pub proof fn failures_leave_text(after: FileViewerTab, before: FileViewerTab, message: Seq<char>)
    requires
        has_failed(after, before, message),
    ensures
        after.error_message is Some && after.error_message->0@ == message,
        after.content == before.content,
        before.is_image ==> after.image_data is None,
        before.is_font && !before.is_image ==> after.font_data is None,
        !before.is_image ==> after.image_data == before.image_data,
{
}

/// What was read goes with the kind that it was read as, and with no other.
pub proof fn content_has_one_kind(content: LoadedContent, a: FileKind, b: FileKind)
    requires
        content_is(content, a),
        content_is(content, b),
    ensures
        a == b,
        content is Text <==> a is Text,
{
}

/// A fresh tab holds nothing of a file but where it lies.
pub proof fn fresh_tabs_hold_nothing(tab: FileViewerTab, relative: Seq<char>, path: Seq<char>)
    requires
        is_fresh_tab(tab, relative, path),
    ensures
        tab.relative_path@ == relative && tab.file_path@ == path,
        tab.content@.len() == 0 && tab.line_count == 0 && tab.line_num_width == 3,
        tab.error_message is None && tab.modified_at is None,
        tab.blame == BlameLoadState::NotLoaded && tab.load_generation == 0,
        tab.image_data is None && tab.font_data is None,
{
}

} // verus!
