use okena::files::formats::{
    file_kind, font_format_for_path, image_format_for_path, is_markdown_file, size_error, FileKind,
    FontFormat, ImageFormat, MAX_FILE_SIZE,
};
use okena::files::frame::{
    render, render_overlays, row_looks, Overlay, RowLook, Surroundings, TreeNodeTarget,
};
use okena::files::history::NavigationHistory;
use okena::files::loading::{
    build_font_content, build_image_content, check_svg_size, font_data, unreadable_message,
    DecodedImage, FaceInfo, ImageContent,
};
use okena::files::tab::{
    compute_freshness_reload, finish_freshness_reload, line_num_width, needs_rehighlight,
    source_text, BlameLoadState, DisplayMode, FileMeta, FileViewerTab, FreshnessOutcome,
    FreshnessStep, LoadStep, LoadedContent, SourceText, TabRefresh,
};
use okena::files::tabs::{
    insert_tab_after_active, CloseOutcome, FinishOutcome, OpenOutcome, TabList, MAX_TABS,
};
use okena::files::tree::{compute_expanded_for_relative, DirEntry, FileTree, TreeRow};
use okena::files::upkeep::{FontRegistry, FreshnessGate, RasterOutcome, SvgPicture, SvgState};
use okena::files::view::{
    cancel_action, drag_over_block, drag_over_line, footer_text, key_action, line_number_label,
    list_update, pane, press_in_line, press_on_block, tab_labels, title, CancelAction, KeyAction,
    KeyContext, ListUpdate, Modifiers, Overlays, Pane, Selection,
};
use okena::files::viewer::{resolve_absolute, FileViewer};

fn tab(name: &str) -> FileViewerTab {
    FileViewerTab::new_loading(name.to_string(), name.to_string())
}

fn paths(tabs: &[FileViewerTab]) -> Vec<&str> {
    tabs.iter().map(|t| t.relative_path.as_str()).collect()
}

fn source(content: &str) -> SourceText {
    SourceText {
        content: content.to_string(),
        line_count: content.lines().count(),
    }
}

fn image() -> DecodedImage {
    DecodedImage::Rendered {
        svg_bytes: vec![1],
        width: 2,
        height: 3,
    }
}

fn sorted(mut items: Vec<String>) -> Vec<String> {
    items.sort();
    items
}

// ---------------------------------------------------------------------------
// Tabs
// ---------------------------------------------------------------------------

#[test]
fn insert_tab_below_limit_inserts_after_active() {
    let mut tabs = vec![tab("a"), tab("b"), tab("c")];
    let (active, evicted) = insert_tab_after_active(&mut tabs, 0, tab("new"));
    assert_eq!(active, 1);
    assert!(evicted.is_none());
    assert_eq!(paths(&tabs), ["a", "new", "b", "c"]);
}

#[test]
fn insert_tab_at_limit_evicts_oldest_and_keeps_active() {
    let mut tabs: Vec<FileViewerTab> = (0..MAX_TABS).map(|i| tab(&format!("f{i}"))).collect();
    // Active is somewhere in the middle.
    let (active, evicted) = insert_tab_after_active(&mut tabs, 10, tab("new"));
    assert_eq!(tabs.len(), MAX_TABS);
    // Oldest (index 0) was evicted; everything shifted left by one, so the
    // active file f10 stays active and the new tab lands right after it.
    assert_eq!(evicted.expect("oldest tab returned").relative_path, "f0");
    assert_eq!(tabs[0].relative_path, "f1");
    assert_eq!(tabs[active - 1].relative_path, "f10");
    assert_eq!(tabs[active].relative_path, "new");
}

#[test]
fn insert_tab_at_limit_skips_active_when_active_is_oldest() {
    let mut tabs: Vec<FileViewerTab> = (0..MAX_TABS).map(|i| tab(&format!("f{i}"))).collect();
    // Active IS the oldest tab — must not evict it.
    let (active, evicted) = insert_tab_after_active(&mut tabs, 0, tab("new"));
    assert_eq!(tabs.len(), MAX_TABS);
    assert_eq!(active, 1);
    // f0 (active) preserved at index 0; f1 (next oldest) evicted.
    assert_eq!(evicted.expect("next-oldest tab returned").relative_path, "f1");
    assert_eq!(tabs[0].relative_path, "f0");
    assert_eq!(tabs[1].relative_path, "new");
    assert_eq!(tabs[2].relative_path, "f2");
}

fn list(names: &[&str]) -> TabList {
    let mut list = TabList::new(FileViewerTab::new_empty());
    for name in names {
        let _ = list.open_file_in_tab(name.to_string(), format!("/p/{name}"));
    }
    list
}

#[test]
fn opening_fills_an_empty_tab_first() {
    let mut tabs = TabList::new(FileViewerTab::new_empty());
    match tabs.open_file_in_tab("a.rs".to_string(), "/p/a.rs".to_string()) {
        OpenOutcome::Load { generation, dropped } => {
            assert_eq!(generation, 1);
            assert!(dropped.unwrap().is_empty());
        }
        other => panic!("{:?}", other),
    }
    assert_eq!(paths(&tabs.tabs), ["a.rs"]);
    assert!(tabs.active().loading);
    assert!(!tabs.history.can_go_back());
}

#[test]
fn opening_twice_only_switches() {
    let mut tabs = list(&["a", "b", "c"]);
    assert_eq!(tabs.active_tab, 2);
    assert!(matches!(
        tabs.open_file_in_tab("a".to_string(), "/p/a".to_string()),
        OpenOutcome::AlreadyOpen
    ));
    assert_eq!(tabs.active_tab, 0);
    assert_eq!(tabs.go_back().as_deref(), Some("c"));
    assert_eq!(tabs.go_forward().as_deref(), Some("a"));
}

#[test]
fn closing_moves_to_a_neighbour() {
    let mut tabs = list(&["a", "b", "c"]);
    assert!(tabs.set_active_tab(1));
    assert!(!tabs.set_active_tab(1));
    assert!(!tabs.set_active_tab(9));
    match tabs.close_tab(1) {
        CloseOutcome::Closed { dropped } => assert_eq!(dropped.relative_path, "b"),
        other => panic!("{:?}", other),
    }
    // The tab to the right takes its place.
    assert_eq!((tabs.active_tab, tabs.active().relative_path.as_str()), (1, "c"));
    let _ = tabs.close_tab(0);
    assert_eq!(tabs.active().relative_path, "c");
    assert!(matches!(tabs.close_tab(0), CloseOutcome::CloseViewer));
    assert_eq!(tabs.tabs.len(), 1);
}

#[test]
fn closing_many_hands_them_out() {
    let mut tabs = list(&["a", "b", "c"]);
    assert!(tabs.close_other_tabs(7).is_empty());
    assert_eq!(paths(&tabs.close_other_tabs(1)), ["a", "c"]);
    assert_eq!(paths(&tabs.tabs), ["b"]);
    assert_eq!(paths(&tabs.close_all_tabs()), ["b"]);
    assert!(tabs.active().is_empty());
}

#[test]
fn an_overtaken_load_is_ignored() {
    let mut tabs = list(&["a"]);
    let newer = tabs.start_load("a");
    assert_eq!(newer, 2);
    let late = Ok(LoadedContent::Text(source("old")));
    assert_eq!(tabs.finish_load("a", 1, late, None), FinishOutcome::Ignored);
    assert!(tabs.active().loading);
    let fresh = Ok(LoadedContent::Text(source("new\ntext\n")));
    assert_eq!(
        tabs.finish_load("a", 2, fresh, Some(7)),
        FinishOutcome::Applied { released: None }
    );
    let tab = tabs.active();
    assert_eq!((tab.content.as_str(), tab.line_count), ("new\ntext\n", 2));
    assert_eq!(tab.modified_at, Some(7));
    assert!(!tab.loading);
    assert_eq!(tabs.finish_load("gone", 2, Err(String::new()), None), FinishOutcome::Ignored);
}

#[test]
fn navigating_keeps_the_history() {
    let mut tabs = list(&["a", "b"]);
    let target = tabs.go_back().unwrap();
    assert_eq!(target, "a");
    assert!(matches!(
        tabs.navigate_to_file_no_history(target, "/p/a".to_string()),
        OpenOutcome::AlreadyOpen
    ));
    assert_eq!(tabs.active_tab, 0);
    match tabs.navigate_to_file_no_history("z".to_string(), "/p/z".to_string()) {
        OpenOutcome::Load { generation, dropped } => {
            assert_eq!(generation, 3);
            assert_eq!(dropped.unwrap().relative_path, "a");
        }
        other => panic!("{:?}", other),
    }
    assert_eq!(paths(&tabs.tabs), ["z", "b"]);
}

#[test]
fn a_check_for_changes_releases_the_old_picture() {
    let mut tabs = list(&["a.svg"]);
    let picture = Ok(LoadedContent::Image {
        decoded: image(),
        source: Some(source("<svg/>")),
    });
    let _ = tabs.finish_load("a.svg", 1, picture, Some(1));
    tabs.tabs[0].blame = BlameLoadState::Loaded;
    let unchanged = tabs.finish_freshness("a.svg", FreshnessOutcome::Unchanged);
    assert_eq!(unchanged, FinishOutcome::Applied { released: None });
    assert_eq!(tabs.active().blame, BlameLoadState::Loaded);
    let reloaded = FreshnessOutcome::Reloaded {
        content: LoadedContent::Image {
            decoded: image(),
            source: None,
        },
        modified_at: Some(2),
    };
    assert_eq!(
        tabs.finish_freshness("a.svg", reloaded),
        FinishOutcome::Applied { released: Some(image()) }
    );
    assert_eq!(tabs.active().blame, BlameLoadState::NotLoaded);
    assert_eq!(tabs.active().content, "");
}

// ---------------------------------------------------------------------------
// One tab
// ---------------------------------------------------------------------------

#[test]
fn paths_decide_how_a_file_is_shown() {
    let markdown = tab("/p/README.MD");
    assert!(markdown.is_markdown);
    assert_eq!(markdown.display_mode, DisplayMode::Preview);
    let svg = tab("/p/logo.svg");
    assert!(svg.is_image && svg.is_svg);
    assert_eq!(svg.display_mode, DisplayMode::Preview);
    let png = tab("/p/photo.PNG");
    assert!(png.is_image && !png.is_svg);
    assert_eq!(png.display_mode, DisplayMode::Source);
    assert!(tab("/p/font.ttf").is_font);
    assert_eq!(tab("/p/a.rs").filename(), "a.rs");
    assert_eq!(FileViewerTab::new_empty().filename(), "Untitled");
    let remote = FileViewerTab::new_loading("dir\\x".to_string(), "..".to_string());
    assert_eq!(remote.filename(), "x");
}

#[test]
fn loading_begins_with_the_size() {
    let meta = |len| {
        Ok(FileMeta {
            len,
            modified: Some(5),
        })
    };
    let mut text = tab("/p/a.rs");
    assert_eq!(text.load_file(Err("gone".to_string())), LoadStep::Done);
    assert_eq!(text.error_message.as_deref(), Some("Cannot read file: gone"));
    assert_eq!(text.load_file(meta(MAX_FILE_SIZE)), LoadStep::ReadText);
    assert_eq!(text.modified_at, Some(5));
    assert_eq!(text.load_file(meta(MAX_FILE_SIZE + 1)), LoadStep::Done);
    assert_eq!(
        text.error_message.as_deref(),
        Some("File too large (5.0 MB). Maximum size is 5 MB.")
    );
    let mut picture = tab("/p/a.png");
    assert_eq!(picture.load_file(meta(MAX_FILE_SIZE + 1)), LoadStep::ReadBytes);
    assert_eq!(picture.modified_at, None);
}

#[test]
fn loads_end_with_content_or_an_error() {
    let mut text = tab("/p/a.rs");
    text.finish_text(Ok(source(&"x\n".repeat(1000))));
    assert_eq!((text.line_count, text.line_num_width), (1000, 4));
    text.finish_text(Err("no".to_string()));
    assert_eq!(text.error_message.as_deref(), Some("no"));
    assert_eq!(text.line_count, 1000);

    let mut picture = tab("/p/a.svg");
    let content = LoadedContent::Image {
        decoded: image(),
        source: Some(source("<svg/>")),
    };
    picture.finish_bytes(Ok(content), Some(3));
    assert_eq!(picture.image_data, Some(image()));
    assert_eq!((picture.content.as_str(), picture.modified_at), ("<svg/>", Some(3)));
    picture.finish_bytes(Ok(LoadedContent::Text(source("x"))), Some(4));
    assert_eq!(picture.error_message.as_deref(), Some("Internal error decoding image"));
    assert_eq!((picture.image_data, picture.modified_at), (None, Some(3)));
}

#[test]
fn times_of_relative_paths_are_not_trusted() {
    let mut remote = tab("a.rs");
    remote.apply_loaded_content(Ok(LoadedContent::Text(source("x"))), Some(9));
    assert_eq!(remote.modified_at, None);
    remote.apply_loaded_content(Err("down".to_string()), Some(9));
    assert_eq!(remote.error_message.as_deref(), Some("down"));
    assert_eq!(remote.content, "x");
}

#[test]
fn a_failure_is_not_repeated() {
    let meta = |len, modified| Some(FileMeta { len, modified });
    let unchanged = FreshnessStep::Finished(FreshnessOutcome::Unchanged);
    assert_eq!(compute_freshness_reload("/a.rs", Some(1), meta(1, Some(1))), unchanged);
    assert_eq!(compute_freshness_reload("/a.rs", None, meta(1, Some(1))), unchanged);
    assert_eq!(compute_freshness_reload("/a.rs", Some(1), None), unchanged);
    assert_eq!(
        compute_freshness_reload("/a.png", Some(1), meta(1, Some(2))),
        FreshnessStep::Read {
            kind: FileKind::Image,
            new_mtime: 2,
        }
    );
    let failed = finish_freshness_reload(FileKind::Image, 2, Err("bad".to_string()));
    let mut picture = tab("/a.png");
    picture.modified_at = Some(1);
    picture.apply_freshness_reload(failed);
    assert_eq!(picture.error_message.as_deref(), Some("bad"));
    assert!(!picture.reload_if_changed(meta(1, Some(2))));
    assert!(picture.error_message.is_some());
    assert!(picture.reload_if_changed(meta(1, Some(3))));
    assert!(picture.error_message.is_none());
    match compute_freshness_reload("/a.rs", Some(1), meta(MAX_FILE_SIZE + 1, Some(2))) {
        FreshnessStep::Finished(FreshnessOutcome::Failed { new_mtime, .. }) => {
            assert_eq!(new_mtime, Some(2));
        }
        other => panic!("{:?}", other),
    }
    assert!(matches!(
        finish_freshness_reload(FileKind::Font, 2, Ok(LoadedContent::Text(source("")))),
        FreshnessOutcome::Failed { .. }
    ));
}

#[test]
fn line_numbers_take_three_columns_at_least() {
    assert_eq!(line_num_width(0), 3);
    assert_eq!(line_num_width(999), 3);
    assert_eq!(line_num_width(1000), 4);
    assert_eq!(line_number_label(0, 3), "  1");
    assert_eq!(line_number_label(9999, 3), "10000");
}

// ---------------------------------------------------------------------------
// Formats
// ---------------------------------------------------------------------------

#[test]
fn extensions_name_formats() {
    assert_eq!(image_format_for_path("a.JPeG"), Some(ImageFormat::Jpeg));
    assert_eq!(image_format_for_path("a.tif"), Some(ImageFormat::Tiff));
    assert_eq!(image_format_for_path(".png"), None);
    assert_eq!(font_format_for_path("a.woff2"), Some(FontFormat::Woff));
    assert_eq!(font_format_for_path("a.otf"), Some(FontFormat::OpenType));
    assert!(is_markdown_file("x.Markdown"));
    assert!(!is_markdown_file("md"));
    assert_eq!(file_kind("/a/b.ico"), FileKind::Image);
    assert_eq!(file_kind("/a/b"), FileKind::Text);
}

#[test]
fn sizes_are_told_in_megabytes() {
    assert_eq!(size_error(FileKind::Image, 20 * 1024 * 1024), None);
    assert_eq!(
        size_error(FileKind::Image, 22 * 1024 * 1024 + 500_000).as_deref(),
        Some("Image too large (22.5 MB). Maximum size is 20 MB.")
    );
    assert_eq!(
        size_error(FileKind::Font, 21 * 1024 * 1024).as_deref(),
        Some("Font too large (21.0 MB). Maximum size is 20 MB.")
    );
}

// ---------------------------------------------------------------------------
// Images and fonts
// ---------------------------------------------------------------------------

fn png() -> Vec<u8> {
    vec![
        0x89, 0x50, 0x4e, 0x47, 0x0d, 0x0a, 0x1a, 0x0a, 0x00, 0x00, 0x00, 0x0d, 0x49, 0x48, 0x44,
        0x52, 0x00, 0x00, 0x00, 0x01, 0x00, 0x00, 0x00, 0x01, 0x08, 0x06, 0x00, 0x00, 0x00, 0x1f,
        0x15, 0xc4, 0x89, 0x00, 0x00, 0x00, 0x0d, 0x49, 0x44, 0x41, 0x54, 0x78, 0x9c, 0x62, 0x00,
        0x01, 0x00, 0x00, 0x05, 0x00, 0x01, 0x0d, 0x0a, 0x2d, 0xb4, 0x00, 0x00, 0x00, 0x00, 0x49,
        0x45, 0x4e, 0x44, 0xae, 0x42, 0x60, 0x82,
    ]
}

#[test]
fn bytes_decide_the_format_of_an_image() {
    // A PNG under another name.
    match build_image_content("photo.jpg", png()) {
        Ok(ImageContent::Ready(image)) => {
            assert_eq!(image.dimensions(), (1, 1));
            assert!(matches!(
                image,
                DecodedImage::Raster {
                    format: ImageFormat::Png,
                    ..
                }
            ));
        }
        other => panic!("{:?}", other),
    }
    let broken = build_image_content("photo.png", vec![1, 2, 3]).unwrap_err();
    let reason = image::guess_format(&[1, 2, 3]).unwrap_err().to_string();
    assert_eq!(broken, format!("Cannot read image dimensions: {reason}"));
    assert_eq!(
        build_image_content("notes", Vec::new()),
        Err("Unsupported image extension: (none)".to_string())
    );
    assert_eq!(
        build_image_content("logo.svg", b"<svg/>".to_vec()),
        Ok(ImageContent::Svg {
            svg_bytes: b"<svg/>".to_vec(),
        })
    );
}

#[test]
fn vector_images_have_a_bounded_size() {
    assert_eq!(check_svg_size(8192, 8192), Ok((8192, 8192)));
    let message = "SVG dimensions out of range (8193\u{d7}8192). Max 64 megapixels.";
    assert_eq!(check_svg_size(8193, 8192), Err(message.to_string()));
    assert!(check_svg_size(0, 10).is_err());
    assert!(check_svg_size(u64::MAX, u64::MAX).is_err());
}

/// A font with nothing but its name, `Ab`, and three glyphs.
fn font() -> Vec<u8> {
    let mut head = vec![0u8; 54];
    head[1] = 1;
    head[18..20].copy_from_slice(&1000u16.to_be_bytes());
    let mut hhea = vec![0u8; 36];
    hhea[1] = 1;
    hhea[35] = 1;
    let mut maxp = vec![0x00, 0x00, 0x50, 0x00];
    maxp.extend(3u16.to_be_bytes());
    let mut name = Vec::new();
    for field in [0u16, 1, 18, 3, 1, 0x409, 1, 4, 0] {
        name.extend(field.to_be_bytes());
    }
    name.extend([0, b'A', 0, b'b']);
    let tables = [(b"head", head), (b"hhea", hhea), (b"maxp", maxp), (b"name", name)];
    let mut font = vec![0, 1, 0, 0, 0, 4, 0, 0, 0, 0, 0, 0];
    let mut offset = 12 + 16 * tables.len() as u32;
    for (tag, data) in &tables {
        font.extend(tag.iter());
        font.extend([0; 4]);
        font.extend(offset.to_be_bytes());
        font.extend((data.len() as u32).to_be_bytes());
        offset += data.len() as u32;
    }
    for (_, data) in &tables {
        font.extend(data);
    }
    font
}

#[test]
fn fonts_tell_their_names() {
    let data = build_font_content("/f/some.ttf", &font()).unwrap();
    assert_eq!(data.family_name, "Ab");
    assert_eq!(data.full_name, "Ab");
    assert_eq!(data.style, "Regular");
    assert_eq!(data.version, "");
    assert_eq!((data.num_glyphs, data.units_per_em), (3, 1000));
    let reason = ttf_parser::Face::parse(b"junk", 0).unwrap_err().to_string();
    assert_eq!(
        build_font_content("/f/some.ttf", &b"junk".to_vec()),
        Err(format!("Cannot parse font: {reason}"))
    );
    assert_eq!(
        build_font_content("/f/some.woff", &font()),
        Err("WOFF/WOFF2 preview is not supported yet \u{2014} only OTF and TTF are.".to_string())
    );
    assert_eq!(
        build_font_content("/f/some.txt", &font()),
        Err("Unsupported font extension: txt".to_string())
    );
}

#[test]
fn missing_names_of_a_font_are_filled_in() {
    let face = FaceInfo {
        names: vec![(1, None), (2, Some("Bold".to_string())), (2, Some("Other".to_string()))],
        num_glyphs: 1,
        units_per_em: 2,
        weight_class: 700,
        is_italic: true,
    };
    let data = font_data("/f/My Font.otf", &face);
    assert_eq!(data.family_name, "My Font");
    assert_eq!(data.full_name, "My Font");
    assert_eq!(data.style, "Bold");
    let bare = FaceInfo {
        names: Vec::new(),
        ..face
    };
    assert_eq!(font_data("/f/x.otf", &bare).style, "Italic");
}

#[test]
fn binary_files_are_called_so() {
    let mut bytes = vec![b'a'; 1024];
    assert_eq!(unreadable_message("bad", &Some(bytes.clone())), "Cannot read file: bad");
    bytes[1023] = 0;
    assert_eq!(unreadable_message("bad", &Some(bytes)), "Cannot display binary file");
    assert_eq!(unreadable_message("bad", &None), "Cannot read file: bad");
}

// ---------------------------------------------------------------------------
// The tree
// ---------------------------------------------------------------------------

#[test]
fn test_compute_expanded_root_file() {
    let expanded = compute_expanded_for_relative("README.md");
    assert!(expanded.is_empty());
}

#[test]
fn test_compute_expanded_nested_file() {
    let expanded = compute_expanded_for_relative("src/views/mod.rs");
    assert_eq!(expanded.len(), 2);
    assert!(expanded.contains(&"src".to_string()));
    assert!(expanded.contains(&"src/views".to_string()));
}

#[test]
fn test_compute_expanded_empty_string() {
    let expanded = compute_expanded_for_relative("");
    assert!(expanded.is_empty());
}

#[test]
fn test_compute_expanded_no_slash() {
    let expanded = compute_expanded_for_relative("Cargo.toml");
    assert!(expanded.is_empty());
}

fn entry(name: &str, is_dir: bool) -> DirEntry {
    DirEntry {
        name: name.to_string(),
        is_dir,
    }
}

#[test]
fn rows_follow_the_unfolded_folders() {
    let mut tree = FileTree::new();
    assert!(tree.is_loading());
    assert_eq!(tree.expand_ancestors("src/deep/a.rs"), ["src", "src/deep"]);
    assert_eq!(tree.fetch_initial_dirs(), [""]);
    assert!(!tree.fetch_directory("src"));
    tree.directory_listed("", Ok(vec![entry("src", true), entry("b.rs", false)]));
    assert!(!tree.is_loading());
    tree.directory_listed("src", Ok(vec![entry("deep", true)]));
    let rows = tree.rows("b.rs", &vec!["b.rs".to_string()]);
    assert_eq!(
        rows,
        [
            TreeRow::Folder {
                path: "src".to_string(),
                name: "src".to_string(),
                depth: 0,
                expanded: true,
            },
            TreeRow::Folder {
                path: "src/deep".to_string(),
                name: "deep".to_string(),
                depth: 1,
                expanded: true,
            },
            TreeRow::Loading { depth: 2 },
            TreeRow::File {
                path: "b.rs".to_string(),
                name: "b.rs".to_string(),
                depth: 0,
                active: true,
                open: true,
            },
        ]
    );
    assert!(tree.is_expanded("src"));
    assert!(!tree.is_expanded("b.rs"));
}

#[test]
fn listings_are_fetched_again_when_out_of_date() {
    let mut tree = FileTree::new();
    let _ = tree.expand_ancestors("src/a.rs");
    let _ = tree.fetch_initial_dirs();
    tree.directory_listed("", Ok(vec![entry("src", true), entry("srcs", true)]));
    tree.directory_listed("src", Err("gone".to_string()));
    assert!(!tree.fetch_directory("src"));
    assert!(tree.fetch_directory("srcs"));
    tree.directory_listed("srcs", Ok(Vec::new()));
    assert_eq!(tree.invalidate_directory("src"), ["src"]);
    assert!(!tree.fetch_directory("srcs"));
    assert_eq!(sorted(tree.refresh_file_tree()), ["", "src"]);
    tree.directory_listed("", Ok(Vec::new()));
    tree.directory_listed("src", Ok(Vec::new()));
    assert_eq!(sorted(tree.invalidate_directory("")), ["", "src"]);
}

// ---------------------------------------------------------------------------
// The viewer
// ---------------------------------------------------------------------------

#[test]
fn a_viewer_opens_on_its_file() {
    let root = Some("/p".to_string());
    let (mut viewer, work) = FileViewer::new("src/a.rs".to_string(), root, true, false);
    assert_eq!(sorted(work.fetches), ["", "src"]);
    assert!(matches!(work.outcome, OpenOutcome::Load { generation: 1, dropped: None }));
    assert_eq!(viewer.tabs.active().file_path, "/p/src/a.rs");

    let work = viewer.open_file_in_tab("lib/b.rs".to_string());
    assert_eq!(work.fetches, ["lib"]);
    assert_eq!(viewer.tabs.tabs.len(), 2);
    let back = viewer.go_back().unwrap();
    assert!(matches!(back.outcome, OpenOutcome::AlreadyOpen));
    assert_eq!(viewer.tabs.active_tab, 0);
    assert!(viewer.go_forward().is_some());
    assert!(viewer.go_forward().is_none());
    assert_eq!(viewer.set_active_tab(0), Some(Vec::new()));
    assert_eq!(viewer.set_active_tab(0), None);

    assert!(viewer.set_detached(true));
    assert!(!viewer.set_detached(true));
    assert!(viewer.is_detached());
    let work = viewer.update_config(true, &vec![]);
    assert_eq!(sorted(work.fetches), ["", "lib", "src"]);
    assert!(work.tabs.iter().all(|step| *step == TabRefresh::Rehighlight));
}

#[test]
fn a_viewer_may_begin_without_a_file() {
    let (viewer, fetches) = FileViewer::new_browse(None, false, true);
    assert_eq!(fetches, [""]);
    assert!(viewer.tabs.active().is_empty());
    assert_eq!(resolve_absolute(&None, "a/b"), "a/b");
    assert_eq!(resolve_absolute(&Some("/p".to_string()), "a/b"), "/p/a/b");
    assert!(needs_rehighlight(&tab("a.svg")));
    assert!(!needs_rehighlight(&tab("a.png")));
    assert!(!needs_rehighlight(&tab("a.ttf")));
}

// ---------------------------------------------------------------------------
// History
// ---------------------------------------------------------------------------

#[test]
fn test_history_back_forward() {
    let mut history = NavigationHistory::new();

    // Navigate a -> b -> c
    history.push("a.rs");
    history.push("b.rs");

    assert!(history.can_go_back());
    assert!(!history.can_go_forward());

    // Go back from c
    let target = history.go_back("c.rs").unwrap();
    assert_eq!(target, "b.rs");
    assert!(history.can_go_forward());

    // Go back again
    let target = history.go_back("b.rs").unwrap();
    assert_eq!(target, "a.rs");

    // Go forward
    let target = history.go_forward("a.rs").unwrap();
    assert_eq!(target, "b.rs");

    let target = history.go_forward("b.rs").unwrap();
    assert_eq!(target, "c.rs");

    assert!(!history.can_go_forward());
}

#[test]
fn test_history_new_navigation_clears_forward() {
    let mut history = NavigationHistory::new();

    history.push("a.rs");
    history.push("b.rs");

    // Go back from c to b
    history.go_back("c.rs");

    // New navigation from b
    history.push("b.rs");

    // Forward should be empty
    assert!(!history.can_go_forward());

    // Back should give b then a
    let target = history.go_back("d.rs").unwrap();
    assert_eq!(target, "b.rs");
    let target = history.go_back("b.rs").unwrap();
    assert_eq!(target, "a.rs");
}

#[test]
fn test_history_limit() {
    let mut history = NavigationHistory::new();

    for i in 0..60 {
        history.push(&format!("file_{}.rs", i));
    }

    assert_eq!(history.back_stack.len(), 50);

    // First entry should be file_59 (0-9 were trimmed)
    let mut target = history.go_back("current.rs").unwrap();
    assert_eq!(target, "file_59.rs");

    // Drain remaining
    let mut count = 1;
    while let Some(t) = history.go_back(&target) {
        target = t;
        count += 1;
    }
    assert_eq!(count, 50);
}

// ---------------------------------------------------------------------------
// What is shown
// ---------------------------------------------------------------------------

#[test]
fn panes_show_errors_before_content() {
    let mut t = tab("/p/README.md");
    assert_eq!(pane(&t, true), Pane::Loading);
    t.loading = false;
    assert_eq!(pane(&t, true), Pane::Preview);
    assert_eq!(pane(&t, false), Pane::Blank);
    t.display_mode = DisplayMode::Source;
    assert_eq!(pane(&t, true), Pane::Source);
    t.error_message = Some("bad".to_string());
    assert_eq!(pane(&t, true), Pane::Error);
}

#[test]
fn labels_of_a_tab() {
    let mut t = FileViewerTab::new_loading("src/a.rs".to_string(), "/p/src/a.rs".to_string());
    t.line_count = 12;
    assert_eq!(title(&t), ("a.rs".to_string(), "src/a.rs".to_string()));
    assert_eq!(footer_text(&t), "12 lines");
    t.display_mode = DisplayMode::Preview;
    assert_eq!(footer_text(&t), "Preview mode");
    assert_eq!(title(&FileViewerTab::new_empty()).0, "File");
    assert_eq!(
        tab_labels(&vec![tab("a"), tab("b")], 1),
        [("a".to_string(), false), ("b".to_string(), true)]
    );
    assert_eq!(list_update(None, 3, false), ListUpdate::Rebuild);
    assert_eq!(list_update(Some(2), 3, true), ListUpdate::Rebuild);
    assert_eq!(list_update(Some(3), 3, true), ListUpdate::Remeasure);
    assert_eq!(list_update(Some(3), 3, false), ListUpdate::Keep);
}

#[test]
fn escape_closes_the_viewer_last() {
    let mut o = Overlays {
        selection_menu: true,
        tab_menu: true,
        tree_menu: true,
        rename: true,
        delete_confirm: true,
        search: true,
        is_preview: true,
        markdown_selected: true,
        source_selected: true,
    };
    assert_eq!(cancel_action(&o), CancelAction::CloseSelectionMenu);
    o.selection_menu = false;
    assert_eq!(cancel_action(&o), CancelAction::CloseTabMenu);
    o.tab_menu = false;
    assert_eq!(cancel_action(&o), CancelAction::CloseTreeMenu);
    o.tree_menu = false;
    assert_eq!(cancel_action(&o), CancelAction::CancelRename);
    o.rename = false;
    assert_eq!(cancel_action(&o), CancelAction::CancelDelete);
    o.delete_confirm = false;
    assert_eq!(cancel_action(&o), CancelAction::CloseSearch);
    o.search = false;
    assert_eq!(cancel_action(&o), CancelAction::ClearMarkdownSelection);
    o.is_preview = false;
    assert_eq!(cancel_action(&o), CancelAction::ClearSelection);
    o.source_selected = false;
    assert_eq!(cancel_action(&o), CancelAction::CloseViewer);
}

#[test]
fn keys_act_on_what_is_shown() {
    let plain = Modifiers {
        control: false,
        alt: false,
        shift: false,
        platform: false,
    };
    let control = Modifiers {
        control: true,
        ..plain
    };
    let alt = Modifiers { alt: true, ..plain };
    let context = KeyContext {
        search_focused: false,
        is_preview: false,
        is_markdown: true,
        has_blame: true,
    };
    let preview = KeyContext {
        is_preview: true,
        ..context
    };
    assert_eq!(key_action("f", control, context), Some(KeyAction::OpenSearch));
    assert_eq!(key_action("f", control, preview), None);
    assert_eq!(key_action("tab", plain, context), Some(KeyAction::ToggleDisplayMode));
    assert_eq!(key_action("tab", control, context), Some(KeyAction::NextTab));
    let back = Modifiers {
        shift: true,
        ..control
    };
    assert_eq!(key_action("tab", back, context), Some(KeyAction::PreviousTab));
    let blame = Modifiers {
        alt: true,
        ..control
    };
    assert_eq!(key_action("b", blame, context), Some(KeyAction::ToggleBlame));
    assert_eq!(key_action("b", plain, context), Some(KeyAction::ToggleSidebar));
    assert_eq!(key_action("c", control, preview), Some(KeyAction::CopyMarkdownSelection));
    assert_eq!(key_action("a", control, context), Some(KeyAction::SelectAll));
    assert_eq!(key_action("w", control, context), Some(KeyAction::CloseTab));
    assert_eq!(key_action("r", plain, context), Some(KeyAction::RefreshTree));
    assert_eq!(key_action("left", alt, context), Some(KeyAction::GoBack));
    assert_eq!(key_action("right", alt, context), Some(KeyAction::GoForward));
    let searching = KeyContext {
        search_focused: true,
        ..context
    };
    assert_eq!(key_action("w", control, searching), None);
}

#[test]
fn clicks_select() {
    let one = press_in_line(1, 4, 99, 10, (0, 0));
    assert_eq!(
        one,
        Selection {
            start: Some((4, 10)),
            end: Some((4, 10)),
            is_selecting: true,
        }
    );
    assert_eq!(drag_over_line(one, 6, 2, 8).end, Some((6, 2)));
    let two = press_in_line(2, 4, 5, 10, (3, 7));
    assert_eq!((two.start, two.end), (Some((4, 3)), Some((4, 7))));
    assert_eq!(drag_over_line(two, 6, 2, 8), two);
    let three = press_in_line(3, 4, 5, 10, (3, 7));
    assert_eq!((three.start, three.end), (Some((4, 0)), Some((4, 10))));

    let block = press_on_block(1, 20, 30);
    assert_eq!((block.start, block.end), (Some(20), Some(20)));
    assert_eq!(drag_over_block(block, 40, 50).end, Some(49));
    assert_eq!(drag_over_block(block, 5, 10).end, Some(5));
    assert_eq!(press_on_block(2, 20, 30).end, Some(29));
}

#[test]
fn a_frame_shows_the_viewer_as_it_is() {
    let around = Surroundings {
        mac: false,
        has_blame: true,
        has_document: false,
        searching: false,
        renaming: false,
        focused: false,
        selection_menu: true,
        source_selected: false,
    };
    let root = Some("/p".to_string());
    let (mut viewer, _) = FileViewer::new("docs/guide.md".to_string(), root, true, false);
    let frame = render(&viewer, around);
    assert_eq!(frame.title, ("guide.md".to_string(), "docs/guide.md".to_string()));
    assert_eq!(frame.pane, Pane::Loading);
    assert!(frame.tab_bar.is_none());
    assert_eq!(frame.blame_toggle, Some(true));
    assert_eq!(frame.preview_toggle, Some(true));
    assert_eq!(frame.hints[1], ("Tab", "toggle preview"));
    assert_eq!(frame.hints[2], ("Ctrl+C", "copy"));
    assert_eq!(frame.hints.len(), 7);
    assert!(frame.detach_button && !frame.compact);
    assert!(frame.takes_focus && !frame.selection_menu);
    assert!(!frame.can_go_back);
    assert!(frame.sidebar.is_some());

    viewer.open_file_in_tab("src/main.rs".to_string());
    viewer.set_detached(true);
    viewer.sidebar_visible = false;
    let frame = render(
        &viewer,
        Surroundings {
            mac: true,
            has_blame: false,
            searching: true,
            source_selected: true,
            ..around
        },
    );
    let labels: Vec<bool> = frame.tab_bar.unwrap().iter().map(|l| l.1).collect();
    assert_eq!(labels, [false, true]);
    assert_eq!(frame.hints[1], ("Cmd+C", "copy"));
    assert_eq!(frame.footer, "0 lines");
    assert_eq!((frame.blame_toggle, frame.preview_toggle), (None, None));
    assert!(frame.can_go_back && frame.compact && frame.search_bar);
    assert!(!frame.takes_focus && frame.selection_menu && frame.sidebar.is_none());
}

#[test]
fn files_are_looked_at_once_a_second() {
    let mut gate = FreshnessGate::new(0);
    assert!(!gate.check(999, false));
    assert!(gate.check(1000, false));
    assert!(!gate.check(5000, false));
    gate.finish();
    assert!(!gate.check(1999, false));
    assert!(!gate.check(2000, true));
    assert!(!gate.check(2500, false));
    assert!(gate.check(3000, false));
}

#[test]
fn a_stale_drawing_replaces_nothing() {
    let mut state = SvgState {
        is_svg: true,
        auto_fit: false,
        in_flight: false,
        picture: Some(SvgPicture {
            source: 1,
            scale: 10,
        }),
    };
    assert_eq!(state.maybe_rerender(None), None);
    let job = state.maybe_rerender(Some(20)).unwrap();
    assert_eq!((job.source, job.scale), (1, 20));
    assert_eq!(state.maybe_rerender(Some(30)), None);
    let other = SvgPicture {
        source: 2,
        scale: 10,
    };
    state.picture = Some(other);
    assert_eq!(state.finish_rerender(job, true), RasterOutcome::Discard);
    assert_eq!(state.picture, Some(other));
    let job = state.maybe_rerender(Some(40)).unwrap();
    assert_eq!(state.finish_rerender(job, false), RasterOutcome::Nothing);
    assert_eq!(state.picture.unwrap().scale, 40);
    let job = state.maybe_rerender(Some(50)).unwrap();
    assert_eq!(state.finish_rerender(job, true), RasterOutcome::Replace);
    state.auto_fit = true;
    assert_eq!(state.maybe_rerender(Some(60)), None);
}

#[test]
fn fonts_are_made_known_once() {
    let mut fonts = FontRegistry::new();
    assert!(fonts.register(7));
    assert!(!fonts.register(7));
    fonts.roll_back(7);
    assert!(fonts.register(7));
}

#[test]
fn changed_files_are_loaded_again_when_the_configuration_changes() {
    let root = Some("/p".to_string());
    let (mut viewer, _) = FileViewer::new("a.rs".to_string(), root, true, false);
    viewer.open_file_in_tab("b.png".to_string());
    viewer.open_file_in_tab("c.rs".to_string());
    for tab in &mut viewer.tabs.tabs {
        tab.modified_at = Some(1);
        tab.error_message = Some("bad".to_string());
        tab.blame = BlameLoadState::Loaded;
    }
    let meta = |time| {
        Some(FileMeta {
            len: 1,
            modified: Some(time),
        })
    };
    let work = viewer.update_config(true, &vec![meta(2), meta(1)]);
    assert_eq!(
        work.tabs,
        [TabRefresh::Reload, TabRefresh::Keep, TabRefresh::Rehighlight]
    );
    assert!(work.load_blame);
    let tabs = &viewer.tabs.tabs;
    assert_eq!(tabs[0].error_message, None);
    assert_eq!(tabs[0].blame, BlameLoadState::NotLoaded);
    assert_eq!(tabs[2].blame, BlameLoadState::Loaded);
    assert!(tabs[2].error_message.is_some());
    let work = viewer.update_config(true, &vec![meta(2)]);
    assert_eq!(work.tabs, [TabRefresh::Reload, TabRefresh::Keep, TabRefresh::Keep]);

    let (mut browsing, _) = FileViewer::new_browse(None, false, false);
    assert_eq!(browsing.update_config(true, &vec![meta(2)]).tabs, [TabRefresh::Keep]);
}

#[test]
fn only_so_many_lines_count() {
    assert_eq!(source_text("a\nb\n".to_string()).line_count, 2);
    assert_eq!(source_text("x\n".repeat(10_001)).line_count, 10_000);
}

fn named(name: &str, is_dir: bool) -> DirEntry {
    DirEntry {
        name: name.to_string(),
        is_dir,
    }
}

#[test]
fn listings_are_kept_as_they_come() {
    let mut tree = FileTree::new();
    tree.fetch_directory("");
    tree.directory_listed("", Ok(vec![named("", false), named("a", true), named("", true)]));
    assert!(tree.rows_end());
    let rows = tree.rows("", &vec![]);
    assert_eq!(rows.len(), 3);
    assert!(matches!(&rows[0], TreeRow::File { active: true, open: false, .. }));

    tree.expand_ancestors("a//b");
    tree.directory_listed("a", Ok(vec![named("", true)]));
    tree.directory_listed("a/", Ok(vec![named("b", false)]));
    let rows = tree.rows("", &vec![]);
    assert!(matches!(&rows[2], TreeRow::Folder { path, .. } if path == "a/"));
    assert!(matches!(&rows[3], TreeRow::File { path, .. } if path == "a//b"));

    tree.expand_ancestors("/x");
    assert!(!tree.rows_end());
}

#[test]
fn tabs_without_a_file_open_nothing_in_the_tree() {
    let (mut viewer, _) = FileViewer::new_browse(None, false, false);
    viewer.tree.directory_listed("", Ok(vec![named("", false)]));
    let around = Surroundings {
        mac: false,
        has_blame: false,
        has_document: false,
        searching: false,
        renaming: false,
        focused: true,
        selection_menu: false,
        source_selected: false,
    };
    let rows = render(&viewer, around).sidebar.unwrap();
    assert!(matches!(&rows[0], TreeRow::File { active: true, open: false, .. }));
}

#[test]
fn renamed_rows_and_the_menus_row_stand_out() {
    let mut tree = FileTree::new();
    tree.directory_listed("", Ok(vec![named("src", true), named("a", false), named("b", false)]));
    let rows = tree.rows("a", &vec![]);
    let root = Some("/p".to_string());
    let look = |renaming, highlighted| RowLook {
        renaming,
        highlighted,
    };
    let plain = row_looks(&rows, &root, &None, &None);
    assert_eq!(plain, [look(false, false), look(false, true), look(false, false)]);

    let folder = Some(TreeNodeTarget::Folder("src".to_string()));
    let file = Some(TreeNodeTarget::File("/p/./b".to_string()));
    let looks = row_looks(&rows, &root, &folder, &file);
    assert_eq!(looks, [look(true, false), look(false, true), look(false, true)]);
    let looks = row_looks(&rows, &root, &file, &folder);
    assert_eq!(looks, [look(false, true), look(false, true), look(true, false)]);
    let elsewhere = Some(TreeNodeTarget::File("/q/b".to_string()));
    assert_eq!(row_looks(&rows, &root, &elsewhere, &None), plain);
    let as_file = Some(TreeNodeTarget::File("/p/src".to_string()));
    assert_eq!(row_looks(&rows, &root, &None, &as_file), plain);
}

#[test]
fn overlays_lie_one_over_the_other() {
    let mut o = Overlays {
        selection_menu: true,
        tab_menu: true,
        tree_menu: true,
        rename: true,
        delete_confirm: true,
        search: true,
        is_preview: false,
        markdown_selected: false,
        source_selected: true,
    };
    assert_eq!(
        render_overlays(&o, true, true),
        [
            Overlay::FilterBackdrop,
            Overlay::FilterPopover,
            Overlay::TreeMenu,
            Overlay::TabMenu,
            Overlay::SelectionMenu,
            Overlay::DeleteDialog,
        ]
    );
    o.source_selected = false;
    o.tree_menu = false;
    o.tab_menu = false;
    o.delete_confirm = false;
    assert_eq!(render_overlays(&o, true, false), [Overlay::FilterBackdrop]);
    assert!(render_overlays(&o, false, true).is_empty());
}
