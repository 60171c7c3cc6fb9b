//! Images: which files an asset's images are read from, and which decoded
//! images the importer accepts.

use crate::asset::{Asset, ImageSource};
use crate::error::{first_error, lemma_first_error_at, lemma_first_error_none, Error, Feature};
use crate::path::{directory_end, file_name, resolve, resolved};
use vstd::prelude::*;
use vstd::string::*;

verus! {

/// Channel layout of a decoded image, eight bits per channel.
#[derive(Debug, Clone, Copy, PartialEq, Eq, Hash, Structural)]
pub enum ColorType {
    RGB,
    RGBA,
}

/// A decoded image.
#[derive(Debug)]
pub struct Image {
    pub width: u32,
    pub height: u32,
    pub color_type: ColorType,
    pub data: Vec<u8>,
}

/// File format of an image, told by the extension of its file.
#[derive(Debug, Clone, Copy, PartialEq, Eq, Structural)]
pub enum ImageKind {
    Png,
    Jpeg,
}

/// Colour type of a decoded PNG frame.
#[derive(Debug, Clone, Copy, PartialEq, Eq, Structural)]
pub enum PngColor {
    Grayscale,
    Rgb,
    Indexed,
    GrayscaleAlpha,
    Rgba,
}

/// Bits per sample of a decoded PNG frame.
#[derive(Debug, Clone, Copy, PartialEq, Eq, Structural)]
pub enum PngDepth {
    One,
    Two,
    Four,
    Eight,
    Sixteen,
}

/// Pixel format of a JPEG image.
#[derive(Debug, Clone, Copy, PartialEq, Eq, Structural)]
pub enum JpegPixelFormat {
    /// Luminance, 8 bits.
    L8,
    /// Luminance, 16 bits.
    L16,
    /// RGB, 8 bits per channel.
    RGB24,
    /// CMYK, 8 bits per channel.
    CMYK32,
}

/// The colour type of a PNG frame that is accepted: RGB or RGBA with eight
/// bits per sample.
pub open spec fn spec_png_color_type(color: PngColor, depth: PngDepth) -> Option<ColorType> {
    if color == PngColor::Rgb && depth == PngDepth::Eight {
        Some(ColorType::RGB)
    } else if color == PngColor::Rgba && depth == PngDepth::Eight {
        Some(ColorType::RGBA)
    } else {
        None
    }
}

/// The colour type of a JPEG image that is accepted: 24-bit RGB.
pub open spec fn spec_jpeg_color_type(format: JpegPixelFormat) -> Option<ColorType> {
    if format == JpegPixelFormat::RGB24 {
        Some(ColorType::RGB)
    } else {
        None
    }
}

/// Decides how a decoded PNG frame is stored. Anything but 8-bit RGB or RGBA
/// is rejected.
pub fn png_color_type(color: PngColor, depth: PngDepth) -> (accepted: Result<ColorType, Error>)
    ensures
        match accepted {
            Ok(color_type) => spec_png_color_type(color, depth) == Some(color_type),
            Err(error) => error == Error::UnsupportedImageFormat && spec_png_color_type(
                color,
                depth,
            ).is_none(),
        },
{
    match (color, depth) {
        (PngColor::Rgb, PngDepth::Eight) => Ok(ColorType::RGB),
        (PngColor::Rgba, PngDepth::Eight) => Ok(ColorType::RGBA),
        _ => Err(Error::UnsupportedImageFormat),
    }
}

/// Decides how a JPEG image is stored. Anything but 24-bit RGB is rejected.
pub fn jpeg_color_type(format: JpegPixelFormat) -> (accepted: Result<ColorType, Error>)
    ensures
        match accepted {
            Ok(color_type) => spec_jpeg_color_type(format) == Some(color_type),
            Err(error) => error == Error::UnsupportedImageFormat && spec_jpeg_color_type(
                format,
            ).is_none(),
        },
{
    match format {
        JpegPixelFormat::RGB24 => Ok(ColorType::RGB),
        _ => Err(Error::UnsupportedImageFormat),
    }
}

/// Position of the last `.` of a name, or -1 where it has none.
pub open spec fn last_dot(name: Seq<char>) -> int
    decreases name.len(),
{
    if name.len() == 0 {
        -1
    } else if name.last() == '.' {
        name.len() - 1
    } else {
        last_dot(name.drop_last())
    }
}

/// The extension of a path: what follows the last `.` of its file name,
/// the file name being what follows the last `/`. A file name without a
/// `.`, or whose only `.` comes first, has none.
pub open spec fn extension(path: Seq<char>) -> Option<Seq<char>> {
    let name = file_name(path);
    if last_dot(name) <= 0 {
        None
    } else {
        Some(name.skip(last_dot(name) + 1))
    }
}

/// The file format that an extension names.
pub open spec fn kind_of_extension(extension: Seq<char>) -> Option<ImageKind> {
    if extension == "png"@ || extension == "PNG"@ {
        Some(ImageKind::Png)
    } else if extension == "jpg"@ || extension == "JPG"@ || extension == "jpeg"@ || extension
        == "JPEG"@ {
        Some(ImageKind::Jpeg)
    } else {
        None
    }
}

/// The file format of the image at a path, told by its extension.
pub open spec fn kind_of_path(path: Seq<char>) -> Option<ImageKind> {
    match extension(path) {
        Some(extension) => kind_of_extension(extension),
        None => None,
    }
}

/// Whether the two strings hold the same characters.
fn same_text(a: &str, b: &str) -> (same: bool)
    ensures
        same == (a@ == b@),
{
    let n = a.unicode_len();
    if n != b.unicode_len() {
        return false;
    }
    let mut i: usize = 0;
    while i < n
        invariant
            i <= n,
            n == a@.len(),
            n == b@.len(),
            forall|j: int| 0 <= j < i ==> a@[j] == b@[j],
        decreases n - i,
    {
        if a.get_char(i) != b.get_char(i) {
            return false;
        }
        i += 1;
    }
    assert(a@ =~= b@);
    true
}

/// Tells the file format of the image at a path by the path's extension:
/// `png` or `PNG`, and `jpg`, `JPG`, `jpeg` or `JPEG`. The path is read with
/// `/` between its components.
pub fn image_kind(path: &str) -> (kind: Option<ImageKind>)
    ensures
        kind == kind_of_path(path@),
{
    let start = directory_end(path);
    let len = path.unicode_len();
    let ghost name = file_name(path@);
    // Walk back from the end of the file name to its last dot.
    let mut dot = len;
    proof {
        assert(name.take(name.len() as int) == name);
    }
    while dot > start && path.get_char(dot - 1) != '.'
        invariant
            start <= dot <= len,
            len == path@.len(),
            name == path@.skip(start as int),
            last_dot(name) == last_dot(name.take(dot - start)),
        decreases dot,
    {
        proof {
            assert(name.take(dot - start).drop_last() == name.take(dot - start - 1));
        }
        dot -= 1;
    }
    if dot - start <= 1 {
        // No dot, or a dot that begins the name.
        return None;
    }
    let extension = path.substring_char(dot, len);
    proof {
        assert(last_dot(name) == dot - start - 1);
        assert(extension@ =~= name.skip(last_dot(name) + 1));
    }
    if same_text(extension, "png") || same_text(extension, "PNG") {
        Some(ImageKind::Png)
    } else if same_text(extension, "jpg") || same_text(extension, "JPG") || same_text(
        extension,
        "jpeg",
    ) || same_text(extension, "JPEG") {
        Some(ImageKind::Jpeg)
    } else {
        None
    }
}

/// An image file to read and decode.
#[derive(Debug)]
pub struct ImageFile {
    pub path: String,
    pub kind: ImageKind,
}

/// Why the image cannot be read from a file, if it cannot: it is embedded in
/// the asset, or the extension of its file names no known format.
pub open spec fn image_error(source: ImageSource, asset_path: Seq<char>) -> Option<Error> {
    match source {
        ImageSource::View => Some(Error::Unimplemented(Feature::EmbeddedImage)),
        ImageSource::Uri(reference) => if kind_of_path(resolved(asset_path, reference@)).is_none() {
            Some(Error::UnsupportedImageFormat)
        } else {
            None
        },
    }
}

/// What each image has to object, in declaration order.
pub open spec fn image_errors(images: Seq<ImageSource>, asset_path: Seq<char>) -> Seq<
    Option<Error>,
> {
    Seq::new(images.len(), |i: int| image_error(images[i], asset_path))
}

/// `file` is the file that the image is read from, with its format.
pub open spec fn is_image_file(file: ImageFile, source: ImageSource, asset_path: Seq<char>) -> bool {
    match source {
        ImageSource::View => false,
        ImageSource::Uri(reference) => {
            &&& file.path@ == resolved(asset_path, reference@)
            &&& Some(file.kind) == kind_of_path(file.path@)
        },
    }
}

/// Lists, for each image of the asset in declaration order, the file to read
/// and the format to decode. References are resolved against the directory of
/// the asset file. The first image that is embedded or has an unknown
/// extension fails the listing.
pub fn image_files(asset: &Asset, asset_path: &str) -> (files: Result<Vec<ImageFile>, Error>)
    ensures
        match files {
            Ok(files) => {
                &&& first_error(image_errors(asset.images@, asset_path@)).is_none()
                &&& files@.len() == asset.images@.len()
                &&& forall|i: int|
                    0 <= i < files@.len() ==> is_image_file(
                        #[trigger] files@[i],
                        asset.images@[i],
                        asset_path@,
                    )
            },
            Err(error) => first_error(image_errors(asset.images@, asset_path@)) == Some(error),
        },
{
    let ghost steps = image_errors(asset.images@, asset_path@);
    let mut files: Vec<ImageFile> = Vec::new();
    let mut i: usize = 0;
    while i < asset.images.len()
        invariant
            i <= asset.images.len(),
            steps == image_errors(asset.images@, asset_path@),
            forall|j: int| 0 <= j < i ==> steps[j].is_none(),
            files@.len() == i,
            forall|j: int|
                0 <= j < i ==> is_image_file(#[trigger] files@[j], asset.images@[j], asset_path@),
        decreases asset.images.len() - i,
    {
        match &asset.images[i] {
            ImageSource::View => {
                proof {
                    lemma_first_error_at(steps, i as int);
                }
                return Err(Error::Unimplemented(Feature::EmbeddedImage));
            },
            ImageSource::Uri(reference) => {
                let path = resolve(asset_path, reference.as_str());
                match image_kind(path.as_str()) {
                    Some(kind) => {
                        files.push(ImageFile { path, kind });
                    },
                    None => {
                        proof {
                            lemma_first_error_at(steps, i as int);
                        }
                        return Err(Error::UnsupportedImageFormat);
                    },
                }
            },
        }
        i += 1;
    }
    proof {
        lemma_first_error_none(steps);
    }
    Ok(files)
}

} // verus!
