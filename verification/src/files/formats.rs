//! What kind of file a path names, and how large it may be.

use crate::path::{extension, extension_seq};
use crate::text::{
    ascii_lower_seq, concat3, decimal, decimal_string, lowercase, same, to_ascii_lower,
    to_lowercase,
};
use vstd::prelude::*;

verus! {

broadcast use vstd::string::group_string_axioms;

/// The largest text file that is shown: 5 MB.
pub const MAX_FILE_SIZE: u64 = 5 * 1024 * 1024;

/// The largest image that is shown: 20 MB.
pub const MAX_IMAGE_FILE_SIZE: u64 = 20 * 1024 * 1024;

/// The largest font that is shown: 20 MB.
pub const MAX_FONT_FILE_SIZE: u64 = 20 * 1024 * 1024;

/// The most lines that are shown.
pub const MAX_LINES: usize = 10000;

/// The most pixels that a vector image is drawn with: 64 megapixels.
pub const MAX_SVG_PIXELS: u64 = 64 * 1024 * 1024;

/// An image format that can be shown.
#[derive(Clone, Copy, Debug, PartialEq, Eq, Structural)]
pub enum ImageFormat {
    Png,
    Jpeg,
    Gif,
    Webp,
    Bmp,
    Tiff,
    Ico,
    Svg,
}

/// A font container.
#[derive(Clone, Copy, Debug, PartialEq, Eq, Structural)]
pub enum FontFormat {
    /// OpenType or TrueType.
    OpenType,
    /// WOFF or WOFF2, which are recognized but not read.
    Woff,
}

/// The image format of an extension in lower case.
pub open spec fn image_format_of(ext: Seq<char>) -> Option<ImageFormat> {
    if ext == "png"@ {
        Some(ImageFormat::Png)
    } else if ext == "jpg"@ || ext == "jpeg"@ {
        Some(ImageFormat::Jpeg)
    } else if ext == "gif"@ {
        Some(ImageFormat::Gif)
    } else if ext == "webp"@ {
        Some(ImageFormat::Webp)
    } else if ext == "bmp"@ {
        Some(ImageFormat::Bmp)
    } else if ext == "tif"@ || ext == "tiff"@ {
        Some(ImageFormat::Tiff)
    } else if ext == "ico"@ {
        Some(ImageFormat::Ico)
    } else if ext == "svg"@ {
        Some(ImageFormat::Svg)
    } else {
        None
    }
}

/// The font container of an extension in lower case.
pub open spec fn font_format_of(ext: Seq<char>) -> Option<FontFormat> {
    if ext == "ttf"@ || ext == "otf"@ {
        Some(FontFormat::OpenType)
    } else if ext == "woff"@ || ext == "woff2"@ {
        Some(FontFormat::Woff)
    } else {
        None
    }
}

/// The image format that a path's extension names.
pub open spec fn image_format_model(path: Seq<char>) -> Option<ImageFormat> {
    match extension_seq(path) {
        Some(ext) => image_format_of(ascii_lower_seq(ext)),
        None => None,
    }
}

/// The font container that a path's extension names.
pub open spec fn font_format_model(path: Seq<char>) -> Option<FontFormat> {
    match extension_seq(path) {
        Some(ext) => font_format_of(ascii_lower_seq(ext)),
        None => None,
    }
}

/// Whether a path's extension names Markdown.
pub open spec fn is_markdown_model(path: Seq<char>) -> bool {
    match extension_seq(path) {
        Some(ext) => lowercase(ext) == "md"@ || lowercase(ext) == "markdown"@,
        None => false,
    }
}

/// The image format that a path's extension names.
pub fn image_format_for_path(path: &str) -> (r: Option<ImageFormat>)
    ensures
        r == image_format_model(path@),
{
    let found: String = match extension(path) {
        Some(found) => found,
        None => return None,
    };
    let lower: String = to_ascii_lower(found.as_str());
    let ext: &str = lower.as_str();
    if same(ext, "png") {
        Some(ImageFormat::Png)
    } else if same(ext, "jpg") || same(ext, "jpeg") {
        Some(ImageFormat::Jpeg)
    } else if same(ext, "gif") {
        Some(ImageFormat::Gif)
    } else if same(ext, "webp") {
        Some(ImageFormat::Webp)
    } else if same(ext, "bmp") {
        Some(ImageFormat::Bmp)
    } else if same(ext, "tif") || same(ext, "tiff") {
        Some(ImageFormat::Tiff)
    } else if same(ext, "ico") {
        Some(ImageFormat::Ico)
    } else if same(ext, "svg") {
        Some(ImageFormat::Svg)
    } else {
        None
    }
}

/// The font container that a path's extension names.
pub fn font_format_for_path(path: &str) -> (r: Option<FontFormat>)
    ensures
        r == font_format_model(path@),
{
    let found: String = match extension(path) {
        Some(found) => found,
        None => return None,
    };
    let lower: String = to_ascii_lower(found.as_str());
    let ext: &str = lower.as_str();
    if same(ext, "ttf") || same(ext, "otf") {
        Some(FontFormat::OpenType)
    } else if same(ext, "woff") || same(ext, "woff2") {
        Some(FontFormat::Woff)
    } else {
        None
    }
}

/// Whether a path's extension names Markdown.
pub fn is_markdown_file(path: &str) -> (r: bool)
    ensures
        r == is_markdown_model(path@),
{
    match extension(path) {
        Some(ext) => {
            let lower: String = to_lowercase(ext.as_str());
            same(lower.as_str(), "md") || same(lower.as_str(), "markdown")
        },
        None => false,
    }
}

/// How a file is read.
#[derive(Clone, Copy, Debug, PartialEq, Eq, Structural)]
pub enum FileKind {
    Image,
    Font,
    Text,
}

/// How the file at a path is read: by its extension, as an image before all.
pub open spec fn kind_model(path: Seq<char>) -> FileKind {
    if image_format_model(path) is Some {
        FileKind::Image
    } else if font_format_model(path) is Some {
        FileKind::Font
    } else {
        FileKind::Text
    }
}

/// How the file at a path is read.
pub fn file_kind(path: &str) -> (r: FileKind)
    ensures
        r == kind_model(path@),
{
    if image_format_for_path(path).is_some() {
        FileKind::Image
    } else if font_format_for_path(path).is_some() {
        FileKind::Font
    } else {
        FileKind::Text
    }
}

impl FileKind {
    /// The largest file of a kind that is shown.
    pub open spec fn limit_model(self) -> u64 {
        match self {
            FileKind::Image => MAX_IMAGE_FILE_SIZE,
            FileKind::Font => MAX_FONT_FILE_SIZE,
            FileKind::Text => MAX_FILE_SIZE,
        }
    }

    /// The largest file of this kind that is shown.
    pub fn limit(self) -> (r: u64)
        ensures
            r == self.limit_model(),
    {
        match self {
            FileKind::Image => MAX_IMAGE_FILE_SIZE,
            FileKind::Font => MAX_FONT_FILE_SIZE,
            FileKind::Text => MAX_FILE_SIZE,
        }
    }
}

/// `bytes` in tenths of a megabyte, rounded to the nearest, and to the even one
/// where two are as near.
pub open spec fn tenths_of_megabyte(bytes: nat) -> nat {
    let whole = bytes * 10 / 1048576;
    let rest = bytes * 10 % 1048576;
    if rest > 524288 || (rest == 524288 && whole % 2 == 1) {
        whole + 1
    } else {
        whole
    }
}

/// A size in megabytes, to one decimal.
pub open spec fn megabytes_text(bytes: nat) -> Seq<char> {
    let tenths = tenths_of_megabyte(bytes);
    decimal(tenths / 10) + "."@ + decimal(tenths % 10)
}

fn megabytes(bytes: u64) -> (r: String)
    ensures
        r@ == megabytes_text(bytes as nat),
{
    let scaled: u128 = bytes as u128 * 10;
    let whole: u128 = scaled / 1048576;
    let rest: u128 = scaled % 1048576;
    let tenths: u64 = if rest > 524288 || (rest == 524288 && whole % 2 == 1) {
        (whole + 1) as u64
    } else {
        whole as u64
    };
    let left: String = decimal_string(tenths / 10);
    let right: String = decimal_string(tenths % 10);
    concat3(left.as_str(), ".", right.as_str())
}

/// What is told of a file that is too large.
pub open spec fn too_large_text(kind: FileKind, bytes: nat) -> Seq<char> {
    match kind {
        FileKind::Image => "Image too large ("@ + megabytes_text(bytes)
            + " MB). Maximum size is 20 MB."@,
        FileKind::Font => "Font too large ("@ + megabytes_text(bytes)
            + " MB). Maximum size is 20 MB."@,
        FileKind::Text => "File too large ("@ + megabytes_text(bytes)
            + " MB). Maximum size is 5 MB."@,
    }
}

/// What is told of a file that is too large; `None` where it is not.
pub fn size_error(kind: FileKind, bytes: u64) -> (r: Option<String>)
    ensures
        r.deep_view() == (if bytes > kind.limit_model() {
            Some(too_large_text(kind, bytes as nat))
        } else {
            None
        }),
{
    if bytes <= kind.limit() {
        return None;
    }
    let size: String = megabytes(bytes);
    Some(
        match kind {
            FileKind::Image => concat3(
                "Image too large (",
                size.as_str(),
                " MB). Maximum size is 20 MB.",
            ),
            FileKind::Font => concat3(
                "Font too large (",
                size.as_str(),
                " MB). Maximum size is 20 MB.",
            ),
            FileKind::Text => concat3(
                "File too large (",
                size.as_str(),
                " MB). Maximum size is 5 MB.",
            ),
        },
    )
}

// ---------------------------------------------------------------------------
// Laws
// ---------------------------------------------------------------------------

/// The kind of a file goes by its extension, however that is written.
pub proof fn kinds_ignore_case(a: Seq<char>, b: Seq<char>, x: Seq<char>, y: Seq<char>)
    requires
        extension_seq(a) == Some(x),
        extension_seq(b) == Some(y),
        ascii_lower_seq(x) == ascii_lower_seq(y),
    ensures
        image_format_model(a) == image_format_model(b),
        font_format_model(a) == font_format_model(b),
        kind_model(a) == kind_model(b),
{
}

/// A file is shown as a picture just where its extension is that of a picture, as a
/// font just where it is that of a font, and as text otherwise; vector graphics are
/// pictures, and packed fonts are fonts.
pub proof fn extensions_tell_the_kind(path: Seq<char>, ext: Seq<char>)
    requires
        extension_seq(path) == Some(ext),
    ensures
        ({
            let e = ascii_lower_seq(ext);
            &&& kind_model(path) is Image <==> e == "png"@ || e == "jpg"@ || e == "jpeg"@ || e
                == "gif"@ || e == "webp"@ || e == "bmp"@ || e == "tif"@ || e == "tiff"@ || e
                == "ico"@ || e == "svg"@
            &&& kind_model(path) is Font <==> e == "ttf"@ || e == "otf"@ || e == "woff"@ || e
                == "woff2"@
            &&& image_format_model(path) == Some(ImageFormat::Svg) <==> e == "svg"@
            &&& image_format_model(path) == Some(ImageFormat::Png) <==> e == "png"@
            &&& image_format_model(path) == Some(ImageFormat::Jpeg) <==> e == "jpg"@ || e
                == "jpeg"@
            &&& image_format_model(path) == Some(ImageFormat::Gif) <==> e == "gif"@
            &&& image_format_model(path) == Some(ImageFormat::Webp) <==> e == "webp"@
            &&& image_format_model(path) == Some(ImageFormat::Bmp) <==> e == "bmp"@
            &&& image_format_model(path) == Some(ImageFormat::Tiff) <==> e == "tif"@ || e
                == "tiff"@
            &&& image_format_model(path) == Some(ImageFormat::Ico) <==> e == "ico"@
            &&& font_format_model(path) == Some(FontFormat::OpenType) <==> e == "ttf"@ || e
                == "otf"@
            &&& font_format_model(path) == Some(FontFormat::Woff) <==> e == "woff"@ || e
                == "woff2"@
        }),
{
    reveal_strlit("png");
    reveal_strlit("jpg");
    reveal_strlit("jpeg");
    reveal_strlit("gif");
    reveal_strlit("webp");
    reveal_strlit("bmp");
    reveal_strlit("tif");
    reveal_strlit("tiff");
    reveal_strlit("ico");
    reveal_strlit("svg");
    reveal_strlit("ttf");
    reveal_strlit("otf");
    reveal_strlit("woff");
    reveal_strlit("woff2");
    assert("png"@.len() == 3 && "png"@[0] == 'p');
    assert("jpg"@.len() == 3 && "jpg"@[0] == 'j');
    assert("jpeg"@.len() == 4 && "jpeg"@[0] == 'j');
    assert("gif"@.len() == 3 && "gif"@[0] == 'g');
    assert("webp"@.len() == 4 && "webp"@[0] == 'w' && "webp"@[1] == 'e');
    assert("bmp"@.len() == 3 && "bmp"@[0] == 'b');
    assert("tif"@.len() == 3 && "tif"@[0] == 't' && "tif"@[1] == 'i');
    assert("tiff"@.len() == 4 && "tiff"@[0] == 't');
    assert("ico"@.len() == 3 && "ico"@[0] == 'i');
    assert("svg"@.len() == 3 && "svg"@[0] == 's');
    assert("ttf"@.len() == 3 && "ttf"@[0] == 't' && "ttf"@[1] == 't');
    assert("otf"@.len() == 3 && "otf"@[0] == 'o');
    assert("woff"@.len() == 4 && "woff"@[0] == 'w' && "woff"@[1] == 'o');
    assert("woff2"@.len() == 5);
}

/// A size is told to the nearest tenth of a megabyte.
pub proof fn sizes_are_told_to_the_nearest_tenth(bytes: nat)
    ensures
        -524288 <= 10 * bytes - 1048576 * tenths_of_megabyte(bytes) <= 524288,
{
}

/// Pictures and fonts may be equally large, and text a quarter of that.
pub proof fn limits_go_by_kind()
    ensures
        FileKind::Image.limit_model() == FileKind::Font.limit_model(),
        FileKind::Image.limit_model() == 4 * FileKind::Text.limit_model(),
        FileKind::Text.limit_model() == 5 * 1048576,
{
}

/// A document is one by its extension alone, in either of its two forms.
pub proof fn documents_are_told_by_extension(path: Seq<char>, ext: Seq<char>)
    ensures
        extension_seq(path) == Some(ext) ==> (is_markdown_model(path) <==> lowercase(ext) == "md"@
            || lowercase(ext) == "markdown"@),
        extension_seq(path) is None ==> !is_markdown_model(path) && kind_model(path) is Text,
{
}

/// A file that is too large is told with its own size.
pub proof fn sizes_are_told(kind: FileKind, bytes: nat, whole: nat, tenth: nat)
    requires
        tenths_of_megabyte(bytes) == 10 * whole + tenth,
        tenth < 10,
    ensures
        megabytes_text(bytes) == decimal(whole) + "."@ + decimal(tenth),
        kind is Text ==> ("File too large ("@ + megabytes_text(bytes)).is_prefix_of(
            too_large_text(kind, bytes),
        ),
        kind is Image ==> ("Image too large ("@ + megabytes_text(bytes)).is_prefix_of(
            too_large_text(kind, bytes),
        ),
        kind is Font ==> ("Font too large ("@ + megabytes_text(bytes)).is_prefix_of(
            too_large_text(kind, bytes),
        ),
{
    assert((10 * whole + tenth) / 10 == whole && (10 * whole + tenth) % 10 == tenth)
        by (nonlinear_arith)
        requires
            tenth < 10,
    ;
    assert(("File too large ("@ + megabytes_text(bytes)).is_prefix_of(
        too_large_text(FileKind::Text, bytes),
    ));
    assert(("Image too large ("@ + megabytes_text(bytes)).is_prefix_of(
        too_large_text(FileKind::Image, bytes),
    ));
    assert(("Font too large ("@ + megabytes_text(bytes)).is_prefix_of(
        too_large_text(FileKind::Font, bytes),
    ));
}

} // verus!
