//! Cover images: settings, the recognition of image formats, and the
//! checks of a cover path.

use vstd::prelude::*;
use crate::config::validator::{answered, answered_on, Query};
use crate::error::KafError;
use crate::text::{chars_eq_str, chars_of, has_prefix, lowercase, push_str, string_of, to_lowercase};
use ::image::{ImageFormat, ImageReader};
use crate::utils::file::{extension_of, path_extension, resolve_resource_path, resource_path};

verus! {

/// The format covers are written in.
#[derive(Debug, Clone, Copy, PartialEq, Eq, Structural)]
pub enum CoverOutputFormat {
    Jpeg,
    Png,
    /// Keep the format of the source.
    Auto,
}

/// Settings of cover processing.
#[derive(Debug, Clone, Copy)]
pub struct CoverConfig {
    /// Largest width, in pixels.
    pub max_width: u32,
    /// Largest height, in pixels.
    pub max_height: u32,
    /// JPEG quality, 1 to 100.
    pub quality: u8,
    pub output_format: CoverOutputFormat,
}

impl Default for CoverConfig {
    fn default() -> (r: Self)
        ensures
            r.max_width == 1200 && r.max_height == 1600 && r.quality == 85 && r.output_format == CoverOutputFormat::Auto,
    {
        CoverConfig { max_width: 1200, max_height: 1600, quality: 85, output_format: CoverOutputFormat::Auto }
    }
}

/// Image formats that covers and images are told apart by.
#[derive(Debug, Clone, Copy, PartialEq, Eq, Structural)]
pub enum ImageKind {
    Png,
    Jpeg,
    Gif,
    WebP,
    Bmp,
    Tiff,
    Avif,
    /// Any other format that `image` recognises.
    Other,
}

/// The format that `image::guess_format` finds from the first bytes of
/// image data (its table of magic bytes), if any.
pub uninterp spec fn guessed_format(data: Seq<u8>) -> Option<ImageKind>;

/// Calls `image::guess_format` on the data, which compares its first
/// bytes with a fixed table; the result is given the name
/// `guessed_format`, `None` when nothing in the table matches.
#[verifier::external_body]
fn guess_format(data: &[u8]) -> (r: Option<ImageKind>)
    ensures
        r == guessed_format(data@),
{
    match ::image::guess_format(data) {
        Err(_) => None,
        Ok(ImageFormat::Png) => Some(ImageKind::Png),
        Ok(ImageFormat::Jpeg) => Some(ImageKind::Jpeg),
        Ok(ImageFormat::Gif) => Some(ImageKind::Gif),
        Ok(ImageFormat::WebP) => Some(ImageKind::WebP),
        Ok(ImageFormat::Bmp) => Some(ImageKind::Bmp),
        Ok(ImageFormat::Tiff) => Some(ImageKind::Tiff),
        Ok(ImageFormat::Avif) => Some(ImageKind::Avif),
        Ok(_) => Some(ImageKind::Other),
    }
}

/// `data` starts with `sig`.
pub open spec fn starts_bytes(data: Seq<u8>, sig: Seq<u8>) -> bool {
    sig.len() <= data.len() && data.take(sig.len() as int) == sig
}

/// The format a file's first bytes show: PNG, JPEG, GIF, WebP, BMP, AVIF.
pub open spec fn magic_format(d: Seq<u8>) -> Option<ImageKind> {
    if starts_bytes(d, seq![0x89u8, 0x50, 0x4E, 0x47, 0x0D, 0x0A, 0x1A, 0x0A]) {
        Some(ImageKind::Png)
    } else if starts_bytes(d, seq![0xFFu8, 0xD8, 0xFF]) {
        Some(ImageKind::Jpeg)
    } else if starts_bytes(d, seq![0x47u8, 0x49, 0x46, 0x38]) {
        Some(ImageKind::Gif)
    } else if d.len() >= 12 && d.take(4) == seq![0x52u8, 0x49, 0x46, 0x46] && d.subrange(8, 12) == seq![0x57u8,
        0x45, 0x42, 0x50] {
        Some(ImageKind::WebP)
    } else if starts_bytes(d, seq![0x42u8, 0x4D]) {
        Some(ImageKind::Bmp)
    } else if d.len() >= 12 && d.subrange(4, 8) == seq![0x66u8, 0x74, 0x79, 0x70] && (d.subrange(8, 12) == seq![
        0x61u8, 0x76, 0x69, 0x66] || d.subrange(8, 12) == seq![0x61u8, 0x76, 0x69, 0x73]) {
        Some(ImageKind::Avif)
    } else {
        None
    }
}

/// Whether `data` holds `sig` at `at`.
fn bytes_at(data: &[u8], at: usize, sig: &[u8]) -> (r: bool)
    ensures
        r == (at + sig@.len() <= data@.len() && data@.subrange(at as int, at + sig@.len()) == sig@),
{
    if at > data.len() || sig.len() > data.len() - at {
        return false;
    }
    let mut i: usize = 0;
    while i < sig.len()
        invariant
            i <= sig@.len(),
            at + sig@.len() <= data@.len(),
            at + sig.len() <= data.len(),
            forall|k: int| 0 <= k < i ==> data@[at + k] == sig@[k],
        decreases sig.len() - i,
    {
        if data[at + i] != sig[i] {
            assert(data@.subrange(at as int, at + sig@.len())[i as int] != sig@[i as int]);
            return false;
        }
        i = i + 1;
    }
    assert(data@.subrange(at as int, at + sig@.len()) =~= sig@);
    true
}

/// The format of image data: by its first bytes, else as the `image`
/// crate guesses it; no format found is an error.
pub fn detect_image_format(data: &[u8]) -> (r: Result<ImageKind, KafError>)
    ensures
        magic_format(data@) matches Some(k) ==> r == Ok::<ImageKind, KafError>(k),
        magic_format(data@) is None ==> match guessed_format(data@) {
            Some(k) => r == Ok::<ImageKind, KafError>(k),
            None => r matches Err(KafError::CoverError(m)) && m@ == "无法识别的图片格式"@,
        },
{
    if bytes_at(data, 0, &[0x89u8, 0x50, 0x4E, 0x47, 0x0D, 0x0A, 0x1A, 0x0A]) {
        assert(data@.take(8) == data@.subrange(0, 8));
        return Ok(ImageKind::Png);
    }
    if bytes_at(data, 0, &[0xFFu8, 0xD8, 0xFF]) {
        assert(data@.take(3) == data@.subrange(0, 3));
        return Ok(ImageKind::Jpeg);
    }
    if bytes_at(data, 0, &[0x47u8, 0x49, 0x46, 0x38]) {
        assert(data@.take(4) == data@.subrange(0, 4));
        return Ok(ImageKind::Gif);
    }
    if data.len() >= 12 && bytes_at(data, 0, &[0x52u8, 0x49, 0x46, 0x46]) && bytes_at(data, 8, &[0x57u8, 0x45, 0x42,
        0x50]) {
        assert(data@.take(4) == data@.subrange(0, 4));
        return Ok(ImageKind::WebP);
    }
    if bytes_at(data, 0, &[0x42u8, 0x4D]) {
        assert(data@.take(2) == data@.subrange(0, 2));
        return Ok(ImageKind::Bmp);
    }
    if data.len() >= 12 && bytes_at(data, 4, &[0x66u8, 0x74, 0x79, 0x70]) && (bytes_at(data, 8, &[0x61u8, 0x76,
        0x69, 0x66]) || bytes_at(data, 8, &[0x61u8, 0x76, 0x69, 0x73])) {
        return Ok(ImageKind::Avif);
    }
    proof {
        assert(data@.take(8) =~= data@.subrange(0, 8) || data@.len() < 8);
        assert(data@.len() >= 3 ==> data@.take(3) == data@.subrange(0, 3));
        assert(data@.len() >= 4 ==> data@.take(4) == data@.subrange(0, 4));
        assert(data@.len() >= 2 ==> data@.take(2) == data@.subrange(0, 2));
        assert(data@.len() >= 8 ==> data@.take(8) == data@.subrange(0, 8));
    }
    match guess_format(data) {
        Some(k) => Ok(k),
        None => Err(KafError::CoverError("无法识别的图片格式".to_string())),
    }
}

/// The MIME type of a format; JPEG for formats without one here.
pub open spec fn mime_of(k: ImageKind) -> Seq<char> {
    match k {
        ImageKind::Png => "image/png"@,
        ImageKind::Gif => "image/gif"@,
        ImageKind::WebP => "image/webp"@,
        ImageKind::Bmp => "image/bmp"@,
        ImageKind::Tiff => "image/tiff"@,
        ImageKind::Avif => "image/avif"@,
        _ => "image/jpeg"@,
    }
}

/// The MIME type of a format.
pub fn format_to_mime(format: &ImageKind) -> (r: String)
    ensures
        r@ == mime_of(*format),
{
    match format {
        ImageKind::Png => "image/png".to_string(),
        ImageKind::Gif => "image/gif".to_string(),
        ImageKind::WebP => "image/webp".to_string(),
        ImageKind::Bmp => "image/bmp".to_string(),
        ImageKind::Tiff => "image/tiff".to_string(),
        ImageKind::Avif => "image/avif".to_string(),
        _ => "image/jpeg".to_string(),
    }
}

/// An image file extension, in lower case.
pub open spec fn image_extension(e: Seq<char>) -> bool {
    e == "jpg"@ || e == "jpeg"@ || e == "png"@ || e == "gif"@ || e == "webp"@ || e == "bmp"@ || e == "tiff"@
        || e == "tif"@ || e == "avif"@
}

/// The path has an image extension (any case).
pub open spec fn has_image_extension(path: Seq<char>) -> bool {
    path_extension(path) matches Some(e) && image_extension(lowercase(e))
}

/// Whether the path names an image: its extension is an image extension,
/// and when something exists there its content is an image.
pub fn is_image_file<F: Fn(&Query) -> bool>(path: &str, probe: &F) -> (r: bool)
    requires
        forall|q: &Query| probe.requires((q,)),
    ensures
        !has_image_extension(path@) ==> !r,
        has_image_extension(path@) && r ==> answered_on(*probe, 3, path@, false) || answered_on(*probe, 4, path@, true),
        has_image_extension(path@) && !r ==> answered_on(*probe, 3, path@, true) && answered_on(*probe, 4, path@, false),
{
    let ext_match = match extension_of(path) {
        Some(e) => {
            let l = chars_of(to_lowercase(e.as_str()).as_str());
            chars_eq_str(&l, "jpg") || chars_eq_str(&l, "jpeg") || chars_eq_str(&l, "png") || chars_eq_str(&l, "gif")
                || chars_eq_str(&l, "webp") || chars_eq_str(&l, "bmp") || chars_eq_str(&l, "tiff")
                || chars_eq_str(&l, "tif") || chars_eq_str(&l, "avif")
        },
        None => false,
    };
    if !ext_match {
        return false;
    }
    let q = Query::Exists(string_of(&chars_of(path)));
    if probe(&q) {
        let q2 = Query::ImageContent(string_of(&chars_of(path)));
        return probe(&q2);
    }
    true
}

/// The image format an extension names, in any case.
pub open spec fn extension_format(e: Seq<char>) -> Option<ImageKind> {
    if e == "jpg"@ || e == "jpeg"@ {
        Some(ImageKind::Jpeg)
    } else if e == "png"@ {
        Some(ImageKind::Png)
    } else if e == "gif"@ {
        Some(ImageKind::Gif)
    } else if e == "webp"@ {
        Some(ImageKind::WebP)
    } else if e == "bmp"@ {
        Some(ImageKind::Bmp)
    } else if e == "tiff"@ || e == "tif"@ {
        Some(ImageKind::Tiff)
    } else if e == "avif"@ {
        Some(ImageKind::Avif)
    } else {
        None
    }
}

/// The image format the path's extension names, if any.
pub fn detect_format_by_extension(path: &str) -> (r: Option<ImageKind>)
    ensures
        r == match path_extension(path@) {
            Some(e) => extension_format(lowercase(e)),
            None => None,
        },
{
    let e = match extension_of(path) {
        Some(e) => e,
        None => return None,
    };
    let l = chars_of(to_lowercase(e.as_str()).as_str());
    if chars_eq_str(&l, "jpg") || chars_eq_str(&l, "jpeg") {
        Some(ImageKind::Jpeg)
    } else if chars_eq_str(&l, "png") {
        Some(ImageKind::Png)
    } else if chars_eq_str(&l, "gif") {
        Some(ImageKind::Gif)
    } else if chars_eq_str(&l, "webp") {
        Some(ImageKind::WebP)
    } else if chars_eq_str(&l, "bmp") {
        Some(ImageKind::Bmp)
    } else if chars_eq_str(&l, "tiff") || chars_eq_str(&l, "tif") {
        Some(ImageKind::Tiff)
    } else if chars_eq_str(&l, "avif") {
        Some(ImageKind::Avif)
    } else {
        None
    }
}

/// The outcome of checking the cover at `resolved`: nothing there is one
/// error; something there that is no image (by its extension, or by its
/// content as `probe` tells) is the other; else the path itself.
pub open spec fn image_path_outcome<F: Fn(&Query) -> bool>(probe: F, resolved: Seq<char>, r: Result<String, KafError>)
    -> bool {
    ||| answered_on(probe, 3, resolved, false) && (r matches Err(KafError::CoverError(m)) && m@ == "封面图片不存在: "@
        + resolved)
    ||| answered_on(probe, 3, resolved, true) && if !has_image_extension(resolved) {
        r matches Err(KafError::CoverError(m)) && m@ == "文件不是有效的图片: "@ + resolved
    } else {
        ||| (answered_on(probe, 3, resolved, false) || answered_on(probe, 4, resolved, true)) && (r matches Ok(p)
            && p@ == resolved)
        ||| answered_on(probe, 3, resolved, true) && answered_on(probe, 4, resolved, false) && (r matches Err(
            KafError::CoverError(m),
        ) && m@ == "文件不是有效的图片: "@ + resolved)
    }
}

/// The cover path resolved against `base_dir` (the input file's folder)
/// unless absolute; a path where nothing exists, or that is no image, is
/// an error.
pub fn validate_image_path<F: Fn(&Query) -> bool>(path: &str, base_dir: Option<&str>, probe: &F)
    -> (r: Result<String, KafError>)
    requires
        forall|q: &Query| probe.requires((q,)),
    ensures
        ({
            let resolved = resource_path(path@, match base_dir { Some(b) => Some(b@), None => None });
            &&& r matches Ok(p) ==> p@ == resolved && answered(*probe, Query::Exists(p), true)
                && has_image_extension(resolved)
            &&& image_path_outcome(*probe, resolved, r)
        }),
{
    let resolved = resolve_resource_path(path, base_dir);
    let q = Query::Exists(resolved.clone());
    assert(crate::config::validator::query_view(q) == (3u8, resolved@));
    if !probe(&q) {
        let mut m = "封面图片不存在: ".to_string();
        push_str(&mut m, resolved.as_str());
        return Err(KafError::CoverError(m));
    }
    if !is_image_file(resolved.as_str(), probe) {
        let mut m = "文件不是有效的图片: ".to_string();
        push_str(&mut m, resolved.as_str());
        return Err(KafError::CoverError(m));
    }
    Ok(resolved)
}


/// The width and height that `image` reads from the header of the image
/// in `data`, decoded as the format `image::guess_format` finds
/// (`ImageReader::with_format` then `into_dimensions`), or `None` when no
/// format is found or the size cannot be read.
pub uninterp spec fn image_dimensions_of(data: Seq<u8>) -> Option<(u32, u32)>;

/// Reads the size of the image in `data` with `image::guess_format`, then
/// `image::ImageReader::with_format` and `into_dimensions`; the size is
/// named `image_dimensions_of`. The text of an error is not stated.
#[verifier::external_body]
fn read_dimensions(data: &[u8]) -> (r: Result<(u32, u32), String>)
    ensures
        r matches Ok(d) ==> image_dimensions_of(data@) == Some(d),
        r is Err ==> image_dimensions_of(data@) is None,
{
    let format = ::image::guess_format(data).map_err(|e| e.to_string())?;
    ImageReader::with_format(std::io::Cursor::new(data), format).into_dimensions().map_err(|e| e.to_string())
}

/// The width and height of the image in `data`; data whose size cannot be
/// read is a cover error.
pub fn get_image_dimensions(data: &[u8]) -> (r: Result<(u32, u32), KafError>)
    ensures
        r is Ok <==> image_dimensions_of(data@) is Some,
        r matches Ok(d) ==> image_dimensions_of(data@) == Some(d),
        r matches Err(e) ==> (e matches KafError::CoverError(m) && has_prefix(m@, "无法获取图片尺寸: "@)),
{
    match read_dimensions(data) {
        Ok(d) => Ok(d),
        Err(text) => {
            let mut m = "无法获取图片尺寸: ".to_string();
            let ghost prefix = m@;
            push_str(&mut m, text.as_str());
            assert(m@.take(prefix.len() as int) =~= prefix);
            Err(KafError::CoverError(m))
        },
    }
}

/// The JPEG encoding that `image` writes for the image in `data`, decoded
/// as the format `image::guess_format` finds
/// (`load_from_memory_with_format`, then `write_to` as JPEG), or `None`
/// when no format is found or the data cannot be decoded or encoded.
pub uninterp spec fn jpeg_of(data: Seq<u8>) -> Option<Seq<u8>>;

/// Decodes `data` with `image::guess_format` and
/// `image::load_from_memory_with_format`, and writes it out with
/// `DynamicImage::write_to` as JPEG; the bytes are named `jpeg_of`. The
/// text of an error is not stated.
#[verifier::external_body]
fn encode_jpeg(data: &[u8]) -> (r: Result<Vec<u8>, String>)
    ensures
        r matches Ok(v) ==> jpeg_of(data@) == Some(v@),
        r is Err ==> jpeg_of(data@) is None,
{
    let format = ::image::guess_format(data).map_err(|e| e.to_string())?;
    let img = ::image::load_from_memory_with_format(data, format).map_err(|e| e.to_string())?;
    let mut buffer = Vec::new();
    img.write_to(&mut std::io::Cursor::new(&mut buffer), ImageFormat::Jpeg).map_err(|e| e.to_string())?;
    Ok(buffer)
}

/// The image in `data` encoded as JPEG; data that cannot be decoded, or
/// an image that cannot be encoded, is an image error.
pub fn convert_to_jpeg(data: &[u8]) -> (r: Result<Vec<u8>, KafError>)
    ensures
        r is Ok <==> jpeg_of(data@) is Some,
        r matches Ok(v) ==> jpeg_of(data@) == Some(v@),
        r matches Err(e) ==> e is ImageError,
{
    match encode_jpeg(data) {
        Ok(v) => Ok(v),
        Err(text) => Err(KafError::ImageError(text)),
    }
}

/// How an image is written out: as it is, or encoded anew as JPEG or PNG.
#[derive(Debug, Clone, Copy, PartialEq, Eq, Structural)]
pub enum ImageEncoding {
    Keep,
    Jpeg,
    Png,
}

/// Whether a cover of this size is larger than the configuration allows.
pub fn needs_resize(width: u32, height: u32, config: &CoverConfig) -> (r: bool)
    ensures
        r == (width > config.max_width || height > config.max_height),
{
    width > config.max_width || height > config.max_height
}

/// The encoding of a scaled cover whose source has format `format`: the
/// configured one; with `Auto`, PNG for a PNG source and JPEG otherwise.
pub fn resized_encoding(format: ImageKind, config: &CoverConfig) -> (r: ImageEncoding)
    ensures
        r == match config.output_format {
            CoverOutputFormat::Jpeg => ImageEncoding::Jpeg,
            CoverOutputFormat::Png => ImageEncoding::Png,
            CoverOutputFormat::Auto => if format == ImageKind::Png { ImageEncoding::Png } else { ImageEncoding::Jpeg },
        },
{
    match config.output_format {
        CoverOutputFormat::Jpeg => ImageEncoding::Jpeg,
        CoverOutputFormat::Png => ImageEncoding::Png,
        CoverOutputFormat::Auto => match format {
            ImageKind::Png => ImageEncoding::Png,
            _ => ImageEncoding::Jpeg,
        },
    }
}

/// What becomes of a cover whose source has format `format`, once scaled:
/// kept when the configured format is `Auto` or already the source's,
/// else encoded in the configured format; with the MIME type it then has.
pub fn cover_encoding(format: ImageKind, config: &CoverConfig) -> (r: (ImageEncoding, String))
    ensures
        (r.0, r.1@) == match config.output_format {
            CoverOutputFormat::Jpeg => (
                if format == ImageKind::Jpeg { ImageEncoding::Keep } else { ImageEncoding::Jpeg },
                "image/jpeg"@,
            ),
            CoverOutputFormat::Png => (
                if format == ImageKind::Png { ImageEncoding::Keep } else { ImageEncoding::Png },
                "image/png"@,
            ),
            CoverOutputFormat::Auto => (ImageEncoding::Keep, mime_of(format)),
        },
{
    match config.output_format {
        CoverOutputFormat::Jpeg => {
            let e = if format == ImageKind::Jpeg { ImageEncoding::Keep } else { ImageEncoding::Jpeg };
            (e, "image/jpeg".to_string())
        },
        CoverOutputFormat::Png => {
            let e = if format == ImageKind::Png { ImageEncoding::Keep } else { ImageEncoding::Png };
            (e, "image/png".to_string())
        },
        CoverOutputFormat::Auto => (ImageEncoding::Keep, format_to_mime(&format)),
    }
}

/// How an image of format `format` goes into the book: JPEG, PNG and GIF
/// as they are, any other format encoded as PNG; with the MIME type and
/// the file extension.
pub fn epub_image_encoding(format: ImageKind) -> (r: (ImageEncoding, &'static str, &'static str))
    ensures
        (r.0, r.1@, r.2@) == match format {
            ImageKind::Jpeg => (ImageEncoding::Keep, "image/jpeg"@, "jpg"@),
            ImageKind::Png => (ImageEncoding::Keep, "image/png"@, "png"@),
            ImageKind::Gif => (ImageEncoding::Keep, "image/gif"@, "gif"@),
            _ => (ImageEncoding::Png, "image/png"@, "png"@),
        },
{
    match format {
        ImageKind::Jpeg => (ImageEncoding::Keep, "image/jpeg", "jpg"),
        ImageKind::Png => (ImageEncoding::Keep, "image/png", "png"),
        ImageKind::Gif => (ImageEncoding::Keep, "image/gif", "gif"),
        _ => (ImageEncoding::Png, "image/png", "png"),
    }
}

} // verus!
