//! Images and fonts out of their bytes.

use crate::files::formats::{
    font_format_for_path, font_format_model, image_format_for_path, image_format_model, FontFormat,
    ImageFormat, MAX_SVG_PIXELS,
};
use crate::path::{extension, extension_seq, file_stem, file_stem_seq};
use crate::text::{concat, decimal, decimal_string};
use vstd::prelude::*;

verus! {

broadcast use vstd::string::group_string_axioms;

/// An image that can be shown.
#[derive(Clone, Debug, PartialEq, Eq)]
pub enum DecodedImage {
    /// A bitmap file, with its bytes.
    Raster { format: ImageFormat, bytes: Vec<u8>, width: u32, height: u32 },
    /// A vector image, with its bytes, to be drawn again at other sizes.
    Rendered { svg_bytes: Vec<u8>, width: u32, height: u32 },
}

impl DecodedImage {
    /// The width and the height in pixels.
    pub fn dimensions(&self) -> (r: (u32, u32))
        ensures
            match self {
                DecodedImage::Raster { width, height, .. } => r == (*width, *height),
                DecodedImage::Rendered { width, height, .. } => r == (*width, *height),
            },
    {
        match self {
            DecodedImage::Raster { width, height, .. } => (*width, *height),
            DecodedImage::Rendered { width, height, .. } => (*width, *height),
        }
    }
}

/// `what` and the path's extension.
pub open spec fn unsupported_text(what: Seq<char>, path: Seq<char>) -> Seq<char> {
    what + (match extension_seq(path) {
        Some(ext) => ext,
        None => "(none)"@,
    })
}

fn unsupported(what: &str, path: &str) -> (r: String)
    ensures
        r@ == unsupported_text(what@, path@),
{
    match extension(path) {
        Some(ext) => concat(what, ext.as_str()),
        None => concat(what, "(none)"),
    }
}

// ---------------------------------------------------------------------------
// Bitmaps
// ---------------------------------------------------------------------------

/// The format that an image's first bytes tell, where it can be shown.
pub uninterp spec fn image_signature(bytes: Seq<u8>) -> Option<ImageFormat>;

/// The size that an image's header tells, or what is wrong with it.
pub uninterp spec fn image_size(bytes: Seq<u8>) -> Result<(u32, u32), Seq<char>>;

/// `image::guess_format`: the format by the magic bytes at the beginning, as
/// one of those that can be shown; `None` for an unknown or another format.
#[verifier::external_body]
fn sniff_format(bytes: &Vec<u8>) -> (r: Option<ImageFormat>)
    ensures
        r == image_signature(bytes@),
{
    match image::guess_format(bytes) {
        Ok(image::ImageFormat::Png) => Some(ImageFormat::Png),
        Ok(image::ImageFormat::Jpeg) => Some(ImageFormat::Jpeg),
        Ok(image::ImageFormat::Gif) => Some(ImageFormat::Gif),
        Ok(image::ImageFormat::WebP) => Some(ImageFormat::Webp),
        Ok(image::ImageFormat::Bmp) => Some(ImageFormat::Bmp),
        Ok(image::ImageFormat::Tiff) => Some(ImageFormat::Tiff),
        Ok(image::ImageFormat::Ico) => Some(ImageFormat::Ico),
        _ => None,
    }
}

/// `image::ImageReader::into_dimensions` in the format that
/// `image::guess_format` gives: the width and the height that the header
/// tells, without decoding the pixels, or the error's text.
#[verifier::external_body]
fn read_dimensions(bytes: &Vec<u8>) -> (r: Result<(u32, u32), String>)
    ensures
        match r {
            Ok(size) => image_size(bytes@) == Ok::<(u32, u32), Seq<char>>(size),
            Err(report) => image_size(bytes@) == Err::<(u32, u32), Seq<char>>(report@),
        },
{
    let format = image::guess_format(bytes).map_err(|e| e.to_string())?;
    image::ImageReader::with_format(std::io::Cursor::new(bytes), format)
        .into_dimensions()
        .map_err(|e| e.to_string())
}

/// Whether a result is the bitmap that a header describes: in the format that
/// the bytes tell, or else the one that the path names.
pub open spec fn is_raster(
    r: Result<DecodedImage, String>,
    named: ImageFormat,
    sniffed: Option<ImageFormat>,
    size: Result<(u32, u32), Seq<char>>,
    content: Seq<u8>,
) -> bool {
    match size {
        Ok((w, h)) => {
            &&& r matches Ok(DecodedImage::Raster { format, bytes, width, height })
            &&& width == w
            &&& height == h
            &&& bytes@ == content
            &&& format == (match sniffed {
                Some(f) => f,
                None => named,
            })
        },
        Err(report) => r matches Err(message) && message@ == "Cannot read image dimensions: "@
            + report,
    }
}

/// The bitmap that a header describes.
pub fn raster_image(
    named: ImageFormat,
    sniffed: Option<ImageFormat>,
    size: Result<(u32, u32), String>,
    bytes: Vec<u8>,
) -> (r: Result<DecodedImage, String>)
    ensures
        is_raster(
            r,
            named,
            sniffed,
            match size {
                Ok(s) => Ok(s),
                Err(report) => Err(report@),
            },
            bytes@,
        ),
{
    match size {
        Ok((width, height)) => Ok(
            DecodedImage::Raster {
                format: match sniffed {
                    Some(f) => f,
                    None => named,
                },
                bytes,
                width,
                height,
            },
        ),
        Err(report) => Err(concat("Cannot read image dimensions: ", report.as_str())),
    }
}

/// How the image at a path is built.
#[derive(Clone, Debug, PartialEq, Eq)]
pub enum ImageContent {
    /// It is built.
    Ready(DecodedImage),
    /// It is a vector image, to be measured and drawn.
    Svg { svg_bytes: Vec<u8> },
}

/// Builds the image at a path out of its bytes. The bytes decide the format,
/// not the extension, so that a file with the wrong one is still shown.
pub fn build_image_content(path: &str, bytes: Vec<u8>) -> (r: Result<ImageContent, String>)
    ensures
        match image_format_model(path@) {
            None => r matches Err(message) && message@ == unsupported_text(
                "Unsupported image extension: "@,
                path@,
            ),
            Some(ImageFormat::Svg) => r matches Ok(ImageContent::Svg { svg_bytes }) && svg_bytes@
                == bytes@,
            Some(named) => match r {
                Ok(ImageContent::Ready(image)) => is_raster(
                    Ok(image),
                    named,
                    image_signature(bytes@),
                    image_size(bytes@),
                    bytes@,
                ),
                Ok(_) => false,
                Err(message) => is_raster(
                    Err(message),
                    named,
                    image_signature(bytes@),
                    image_size(bytes@),
                    bytes@,
                ),
            },
        },
{
    let format: ImageFormat = match image_format_for_path(path) {
        Some(format) => format,
        None => return Err(unsupported("Unsupported image extension: ", path)),
    };
    if format == ImageFormat::Svg {
        return Ok(ImageContent::Svg { svg_bytes: bytes });
    }
    let sniffed: Option<ImageFormat> = sniff_format(&bytes);
    let size: Result<(u32, u32), String> = read_dimensions(&bytes);
    match raster_image(format, sniffed, size, bytes) {
        Ok(image) => Ok(ImageContent::Ready(image)),
        Err(message) => Err(message),
    }
}

// ---------------------------------------------------------------------------
// Vector images
// ---------------------------------------------------------------------------

/// Whether a vector image can be drawn at a size.
pub open spec fn svg_size_fits(width: u64, height: u64) -> bool {
    0 < width * height <= MAX_SVG_PIXELS
}

/// What is told of a vector image that cannot be drawn at its size.
pub open spec fn svg_size_text(width: u64, height: u64) -> Seq<char> {
    "SVG dimensions out of range ("@ + decimal(width as nat) + "\u{00d7}"@ + decimal(height as nat)
        + "). Max "@ + decimal(64) + " megapixels."@
}

/// Checks the size of a vector image, in whole pixels, before it is drawn.
pub fn check_svg_size(width: u64, height: u64) -> (r: Result<(u32, u32), String>)
    ensures
        match r {
            Ok((w, h)) => svg_size_fits(width, height) && w == width && h == height,
            Err(message) => !svg_size_fits(width, height) && message@ == svg_size_text(
                width,
                height,
            ),
        },
{
    let fits: bool = if width == 0 || height == 0 {
        false
    } else if width > MAX_SVG_PIXELS || height > MAX_SVG_PIXELS {
        false
    } else {
        assert(width * height <= 0x4000000 * 0x4000000) by (nonlinear_arith)
            requires
                width <= 0x4000000,
                height <= 0x4000000,
        ;
        width * height <= MAX_SVG_PIXELS
    };
    assert(fits == svg_size_fits(width, height)) by {
        if width == 0 || height == 0 {
            assert(width * height == 0) by (nonlinear_arith)
                requires
                    width == 0 || height == 0,
            ;
        } else {
            assert(width * height >= width && width * height >= height) by (nonlinear_arith)
                requires
                    width > 0,
                    height > 0,
            ;
        }
    }
    if fits {
        assert(width <= 0x4000000 && height <= 0x4000000);
        return Ok((width as u32, height as u32));
    }
    let mut message: String = "SVG dimensions out of range (".to_owned();
    message.push_str(decimal_string(width).as_str());
    message.push_str("\u{00d7}");
    message.push_str(decimal_string(height).as_str());
    message.push_str("). Max ");
    message.push_str(decimal_string(MAX_SVG_PIXELS / 1024 / 1024).as_str());
    message.push_str(" megapixels.");
    Err(message)
}

// ---------------------------------------------------------------------------
// Fonts
// ---------------------------------------------------------------------------

/// The names of a font by their number in its name table.
pub const NAME_FAMILY: u16 = 1;
pub const NAME_SUBFAMILY: u16 = 2;
pub const NAME_FULL: u16 = 4;
pub const NAME_VERSION: u16 = 5;

/// What the tables of a font tell.
#[derive(Clone, Debug, PartialEq, Eq)]
pub struct FaceInfo {
    /// The name records in order, each with its text where it is Unicode.
    pub names: Vec<(u16, Option<String>)>,
    pub num_glyphs: u16,
    pub units_per_em: u16,
    pub weight_class: u16,
    pub is_italic: bool,
}

/// A [`FaceInfo`] with its texts as sequences.
pub struct FaceModel {
    pub names: Seq<(u16, Option<Seq<char>>)>,
    pub num_glyphs: u16,
    pub units_per_em: u16,
    pub weight_class: u16,
    pub is_italic: bool,
}

impl DeepView for FaceInfo {
    type V = FaceModel;

    open spec fn deep_view(&self) -> FaceModel {
        FaceModel {
            names: self.names.deep_view(),
            num_glyphs: self.num_glyphs,
            units_per_em: self.units_per_em,
            weight_class: self.weight_class,
            is_italic: self.is_italic,
        }
    }
}

/// What the tables of a font tell, or what is wrong with it.
pub uninterp spec fn font_face(bytes: Seq<u8>) -> Result<FaceModel, Seq<char>>;

/// `ttf_parser::Face::parse` for the first face, and the face's names, number
/// of glyphs, units per em, weight and slant; or the error's text.
#[verifier::external_body]
fn read_face(bytes: &Vec<u8>) -> (r: Result<FaceInfo, String>)
    ensures
        match r {
            Ok(face) => font_face(bytes@) == Ok::<FaceModel, Seq<char>>(face.deep_view()),
            Err(report) => font_face(bytes@) == Err::<FaceModel, Seq<char>>(report@),
        },
{
    let face = ttf_parser::Face::parse(bytes, 0).map_err(|e| e.to_string())?;
    Ok(FaceInfo {
        names: face.names().into_iter().map(|n| (n.name_id, n.to_string())).collect(),
        num_glyphs: face.number_of_glyphs(),
        units_per_em: face.units_per_em(),
        weight_class: face.weight().to_number(),
        is_italic: face.is_italic(),
    })
}

/// What is shown of a font.
#[derive(Clone, Debug, PartialEq, Eq)]
pub struct FontData {
    pub family_name: String,
    pub full_name: String,
    pub style: String,
    pub version: String,
    pub num_glyphs: u16,
    pub units_per_em: u16,
    pub weight_class: u16,
    pub is_italic: bool,
}

/// A [`FontData`] with its texts as sequences.
pub struct FontModel {
    pub family_name: Seq<char>,
    pub full_name: Seq<char>,
    pub style: Seq<char>,
    pub version: Seq<char>,
    pub num_glyphs: u16,
    pub units_per_em: u16,
    pub weight_class: u16,
    pub is_italic: bool,
}

impl DeepView for FontData {
    type V = FontModel;

    open spec fn deep_view(&self) -> FontModel {
        FontModel {
            family_name: self.family_name@,
            full_name: self.full_name@,
            style: self.style@,
            version: self.version@,
            num_glyphs: self.num_glyphs,
            units_per_em: self.units_per_em,
            weight_class: self.weight_class,
            is_italic: self.is_italic,
        }
    }
}

/// The first readable name with a number.
pub open spec fn name_of(names: Seq<(u16, Option<Seq<char>>)>, id: u16) -> Option<Seq<char>>
    decreases names.len(),
{
    if names.len() == 0 {
        None
    } else if names[0].0 == id && names[0].1 is Some {
        names[0].1
    } else {
        name_of(names.skip(1), id)
    }
}

/// A text, or another.
pub open spec fn or_text(text: Option<Seq<char>>, other: Seq<char>) -> Seq<char> {
    match text {
        Some(t) => t,
        None => other,
    }
}

/// What is shown of a font: its names where it has them. The file's name stands
/// in for the family, the family for the full name, and the slant for the style.
pub open spec fn font_model(path: Seq<char>, face: FaceModel) -> FontModel {
    let family = or_text(
        name_of(face.names, NAME_FAMILY),
        or_text(file_stem_seq(path), "Unknown"@),
    );
    FontModel {
        family_name: family,
        full_name: or_text(name_of(face.names, NAME_FULL), family),
        style: or_text(
            name_of(face.names, NAME_SUBFAMILY),
            if face.is_italic {
                "Italic"@
            } else {
                "Regular"@
            },
        ),
        version: or_text(name_of(face.names, NAME_VERSION), Seq::empty()),
        num_glyphs: face.num_glyphs,
        units_per_em: face.units_per_em,
        weight_class: face.weight_class,
        is_italic: face.is_italic,
    }
}

fn read_name(names: &Vec<(u16, Option<String>)>, id: u16) -> (r: Option<String>)
    ensures
        r.deep_view() == name_of(names.deep_view(), id),
{
    let ghost all = names.deep_view();
    let mut i: usize = 0;
    assert(all.skip(0) == all);
    while i < names.len()
        invariant
            i <= names@.len(),
            all == names.deep_view(),
            name_of(all.skip(i as int), id) == name_of(all, id),
        decreases names@.len() - i,
    {
        assert(all.skip(i as int).skip(1) == all.skip(i + 1));
        assert(all.skip(i as int)[0] == names@[i as int].deep_view());
        if names[i].0 == id {
            if let Some(text) = &names[i].1 {
                return Some(text.clone());
            }
        }
        i = i + 1;
    }
    None
}

/// What is shown of a font, from what its tables tell.
pub fn font_data(path: &str, face: &FaceInfo) -> (r: FontData)
    ensures
        r.deep_view() == font_model(path@, face.deep_view()),
{
    let family_name: String = match read_name(&face.names, NAME_FAMILY) {
        Some(name) => name,
        None => match file_stem(path) {
            Some(stem) => stem,
            None => "Unknown".to_owned(),
        },
    };
    let full_name: String = match read_name(&face.names, NAME_FULL) {
        Some(name) => name,
        None => family_name.clone(),
    };
    let style: String = match read_name(&face.names, NAME_SUBFAMILY) {
        Some(name) => name,
        None => (if face.is_italic {
            "Italic"
        } else {
            "Regular"
        }).to_owned(),
    };
    let version: String = match read_name(&face.names, NAME_VERSION) {
        Some(name) => name,
        None => String::new(),
    };
    FontData {
        family_name,
        full_name,
        style,
        version,
        num_glyphs: face.num_glyphs,
        units_per_em: face.units_per_em,
        weight_class: face.weight_class,
        is_italic: face.is_italic,
    }
}

/// What is told of a font in a web container.
pub open spec fn woff_text() -> Seq<char> {
    "WOFF/WOFF2 preview is not supported yet \u{2014} only OTF and TTF are."@
}

/// Reads the font at a path out of its bytes. Only bare OpenType is read.
pub fn build_font_content(path: &str, bytes: &Vec<u8>) -> (r: Result<FontData, String>)
    ensures
        match font_format_model(path@) {
            None => r matches Err(message) && message@ == unsupported_text(
                "Unsupported font extension: "@,
                path@,
            ),
            Some(FontFormat::Woff) => r matches Err(message) && message@ == woff_text(),
            Some(FontFormat::OpenType) => match font_face(bytes@) {
                Ok(face) => r matches Ok(data) && data.deep_view() == font_model(path@, face),
                Err(report) => r matches Err(message) && message@ == "Cannot parse font: "@
                    + report,
            },
        },
{
    match font_format_for_path(path) {
        None => Err(unsupported("Unsupported font extension: ", path)),
        Some(FontFormat::Woff) => Err(
            "WOFF/WOFF2 preview is not supported yet \u{2014} only OTF and TTF are.".to_owned(),
        ),
        Some(FontFormat::OpenType) => match read_face(bytes) {
            Ok(face) => Ok(font_data(path, &face)),
            Err(report) => Err(concat("Cannot parse font: ", report.as_str())),
        },
    }
}

// ---------------------------------------------------------------------------
// Text
// ---------------------------------------------------------------------------

/// Whether a zero byte occurs among the first `n` bytes.
pub open spec fn has_zero_among(bytes: Seq<u8>, n: int) -> bool {
    exists|i: int| 0 <= i < n && i < bytes.len() && #[trigger] bytes[i] == 0
}

/// Whether a zero byte occurs among the first `n` bytes.
pub fn zero_among(bytes: &Vec<u8>, n: usize) -> (r: bool)
    ensures
        r == has_zero_among(bytes@, n as int),
{
    let mut i: usize = 0;
    while i < bytes.len() && i < n
        invariant
            i <= bytes@.len(),
            i <= n,
            forall|j: int| 0 <= j < i ==> bytes@[j] != 0,
        decreases bytes@.len() - i,
    {
        if bytes[i] == 0 {
            return true;
        }
        i = i + 1;
    }
    false
}

/// What is told of a file that is not text. `bytes` is its content, where it
/// could be read at all.
pub open spec fn unreadable_text(error: Seq<char>, bytes: Option<Seq<u8>>) -> Seq<char> {
    match bytes {
        Some(b) => if has_zero_among(b, 1024) {
            "Cannot display binary file"@
        } else {
            "Cannot read file: "@ + error
        },
        None => "Cannot read file: "@ + error,
    }
}

/// What to tell of a file that could not be read as text.
pub fn unreadable_message(error: &str, bytes: &Option<Vec<u8>>) -> (r: String)
    ensures
        r@ == unreadable_text(
            error@,
            match bytes {
                Some(b) => Some(b@),
                None => None,
            },
        ),
{
    if let Some(b) = bytes {
        if zero_among(b, 1024) {
            return "Cannot display binary file".to_owned();
        }
    }
    concat("Cannot read file: ", error)
}

// ---------------------------------------------------------------------------
// Laws
// ---------------------------------------------------------------------------

/// A picture keeps all its bytes and has the size that was read; its format is the
/// one that its bytes tell, and the one of its name only where they tell none. One
/// whose size cannot be read is refused.
pub proof fn pictures_keep_their_bytes(
    r: Result<DecodedImage, String>,
    named: ImageFormat,
    sniffed: Option<ImageFormat>,
    size: Result<(u32, u32), Seq<char>>,
    content: Seq<u8>,
)
    requires
        is_raster(r, named, sniffed, size, content),
    ensures
        r is Ok <==> size is Ok,
        r matches Ok(image) ==> {
            &&& image matches DecodedImage::Raster { format, bytes, width, height }
            &&& bytes@ == content
            &&& size == Ok::<(u32, u32), Seq<char>>((width, height))
            &&& sniffed is Some ==> sniffed == Some(format)
            &&& sniffed is None ==> format == named
        },
{
}

/// The first readable name of a kind is the one of the font.
pub proof fn first_readable_name_counts(
    names: Seq<(u16, Option<Seq<char>>)>,
    id: u16,
    i: int,
    text: Seq<char>,
)
    requires
        0 <= i < names.len(),
        names[i] == (id, Some(text)),
        forall|k: int| 0 <= k < i ==> (#[trigger] names[k]).0 != id || names[k].1 is None,
    ensures
        name_of(names, id) == Some(text),
    decreases names.len(),
{
    if i > 0 {
        assert(names[0].0 != id || names[0].1 is None);
        let rest = names.skip(1);
        assert(rest[i - 1] == names[i]);
        assert forall|k: int| 0 <= k < i - 1 implies (#[trigger] rest[k]).0 != id
            || rest[k].1 is None by {
            assert(rest[k] == names[k + 1]);
        }
        first_readable_name_counts(rest, id, i - 1, text);
    }
}

/// A font is described as its face tells: its family, its full name, its style and
/// its version where it has them, and its figures in any case. A font without a name
/// goes by that of its file, one without a full name by its family, and one without
/// a style by its slant.
pub proof fn fonts_are_described(path: Seq<char>, face: FaceModel, stem: Seq<char>)
    requires
        file_stem_seq(path) == Some(stem),
    ensures
        ({
            let font = font_model(path, face);
            &&& name_of(face.names, 1) matches Some(family) ==> font.family_name == family
            &&& name_of(face.names, 1) is None ==> font.family_name == stem
            &&& name_of(face.names, 4) matches Some(full) ==> font.full_name == full
            &&& name_of(face.names, 4) is None ==> font.full_name == font.family_name
            &&& name_of(face.names, 2) matches Some(style) ==> font.style == style
            &&& name_of(face.names, 2) is None && face.is_italic ==> font.style == "Italic"@
            &&& name_of(face.names, 2) is None && !face.is_italic ==> font.style == "Regular"@
            &&& name_of(face.names, 5) matches Some(version) ==> font.version == version
            &&& font.num_glyphs == face.num_glyphs
            &&& font.units_per_em == face.units_per_em
            &&& font.weight_class == face.weight_class
            &&& font.is_italic == face.is_italic
        }),
{
}

/// A vector image may be turned on its side, and may always be smaller but never
/// empty.
pub proof fn smaller_images_fit(width: u64, height: u64, w: u64, h: u64)
    requires
        svg_size_fits(width, height),
        0 < w <= width,
        0 < h <= height,
    ensures
        svg_size_fits(height, width),
        svg_size_fits(w, h),
        !svg_size_fits(0, height),
        !svg_size_fits(width, 0),
{
    assert(0 < w * h <= width * height) by (nonlinear_arith)
        requires
            0 < w <= width,
            0 < h <= height,
    ;
    assert(width * height == height * width) by (nonlinear_arith);
}

/// A file that cannot be read as text is told to be binary just where a zero byte
/// stands near its start, and the reason is told otherwise.
pub proof fn binary_files_are_told(error: Seq<char>, bytes: Seq<u8>, i: int)
    requires
        0 <= i < bytes.len(),
        i < 1024,
    ensures
        bytes[i] == 0 ==> unreadable_text(error, Some(bytes)) == "Cannot display binary file"@,
        (forall|k: int| 0 <= k < bytes.len() ==> #[trigger] bytes[k] != 0) ==> unreadable_text(
            error,
            Some(bytes),
        ) == "Cannot read file: "@ + error,
        unreadable_text(error, None) == "Cannot read file: "@ + error,
{
}

/// A file of an unknown kind is told by its extension.
pub proof fn unknown_extensions_are_told(what: Seq<char>, path: Seq<char>, ext: Seq<char>)
    ensures
        extension_seq(path) == Some(ext) ==> unsupported_text(what, path) == what + ext,
        extension_seq(path) is None ==> unsupported_text(what, path) == what + "(none)"@,
{
}

} // verus!
