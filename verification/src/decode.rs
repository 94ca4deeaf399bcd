//! Telling picture formats apart by the first bytes of a file, and decoding
//! PNG and JPEG files into packed pictures.

use crate::convert::planar_of;
use crate::error::FrameError;
use crate::format::OutputFormat;
use crate::packed::{even_floor, PackedImage, PackedImageView};
use crate::planar::{Yuv420P, MAX_DIMENSION};
use crate::video::{result_view, VideoBuffer, VideoBufferView};
use vstd::prelude::*;

verus! {

/// What the first bytes of a file say of its format.
#[derive(Debug, Clone, Copy, PartialEq, Eq, Structural)]
pub enum Container {
    Png,
    Jpeg,
    WebP,
    /// Any other format, or none that is known.
    Other,
}

/// The eight bytes that every PNG file starts with.
pub open spec fn png_signature() -> Seq<u8> {
    seq![0x89u8, 0x50u8, 0x4eu8, 0x47u8, 0x0du8, 0x0au8, 0x1au8, 0x0au8]
}

/// The three bytes that every JPEG file starts with.
pub open spec fn jpeg_signature() -> Seq<u8> {
    seq![0xffu8, 0xd8u8, 0xffu8]
}

/// A WebP file starts with `RIFF`, four bytes of length, and `WEBP`.
pub open spec fn has_webp_signature(bytes: Seq<u8>) -> bool {
    &&& bytes.len() >= 12
    &&& bytes.subrange(0, 4) == seq![0x52u8, 0x49u8, 0x46u8, 0x46u8]
    &&& bytes.subrange(8, 12) == seq![0x57u8, 0x45u8, 0x42u8, 0x50u8]
}

/// What the first bytes of a file say of its format.
pub open spec fn container_of(bytes: Seq<u8>) -> Container {
    if png_signature().is_prefix_of(bytes) {
        Container::Png
    } else if jpeg_signature().is_prefix_of(bytes) {
        Container::Jpeg
    } else if has_webp_signature(bytes) {
        Container::WebP
    } else {
        Container::Other
    }
}

/// Asks `image::guess_format` for the format of a file.
///
/// The function compares the first bytes with a table of signatures and
/// returns the format of the first that fits. The signatures of PNG and
/// JPEG head the table, and no signature before that of WebP fits a file
/// that starts with `RIFF`.
#[verifier::external_body]
fn guess_container(buffer: &[u8]) -> (container: Container)
    ensures
        container == container_of(buffer@),
{
    match image::guess_format(buffer) {
        Ok(image::ImageFormat::Png) => Container::Png,
        Ok(image::ImageFormat::Jpeg) => Container::Jpeg,
        Ok(image::ImageFormat::WebP) => Container::WebP,
        _ => Container::Other,
    }
}

/// The output format that pictures of a container format are written in.
pub open spec fn format_of_container(container: Container) -> Option<OutputFormat> {
    match container {
        Container::Png => Some(OutputFormat::Png),
        Container::Jpeg => Some(OutputFormat::Jpeg),
        Container::WebP => Some(OutputFormat::Webp),
        Container::Other => None,
    }
}

/// The picture that `image::load_from_memory_with_format` decodes from the
/// bytes of a PNG file, converted to RGBA, and nothing where it rejects the
/// bytes.
pub uninterp spec fn decoded_png(bytes: Seq<u8>) -> Option<PackedImageView>;

/// What the decoder returned, in terms of mathematical values.
pub open spec fn decoded_view(decoded: Option<PackedImage>) -> Option<PackedImageView> {
    match decoded {
        Some(image) => Some(image@),
        None => None,
    }
}

/// Decodes a picture of the format given with
/// `image::load_from_memory_with_format` and converts it to RGBA. Nothing
/// is returned where the decoder rejects the bytes.
///
/// PNG is a lossless format, and the decoder and the conversion to RGBA
/// work within fixed limits and with the same routines on every processor,
/// so what they make of a PNG file depends on the bytes alone. The JPEG
/// decoder chooses its routines by the processor it runs on and does not
/// promise the same picture everywhere: nothing is said of what it
/// returns.
#[verifier::external_body]
fn decode_rgba(source: &[u8], format: OutputFormat) -> (decoded: Option<PackedImage>)
    ensures
        format == OutputFormat::Png ==> decoded_view(decoded) == decoded_png(source@),
{
    let kind = match format {
        OutputFormat::Jpeg => image::ImageFormat::Jpeg,
        OutputFormat::Png => image::ImageFormat::Png,
        OutputFormat::Webp => image::ImageFormat::WebP,
    };
    let picture = image::load_from_memory_with_format(source, kind).ok()?.into_rgba8();
    Some(PackedImage { width: picture.width(), height: picture.height(), data: picture.into_raw() })
}

/// The sequence made of the one picture given: its planar form is the only
/// frame, with the cursor on it. None is made of a picture that is too
/// large.
pub open spec fn sequence_of_image(image: PackedImageView) -> Result<VideoBufferView, FrameError> {
    if even_floor(image.width) < MAX_DIMENSION && even_floor(image.height) < MAX_DIMENSION {
        Ok(
            VideoBufferView {
                width: even_floor(image.width),
                height: even_floor(image.height),
                frames: seq![planar_of(image.trimmed())],
                cursor: 0,
            },
        )
    } else {
        Err(FrameError::TooLarge)
    }
}

/// The sequence made of what the decoder returned: of the picture, if it
/// returned one whose buffer has the right length, and none otherwise.
pub open spec fn sequence_of_decoded(decoded: Option<PackedImageView>) -> Result<
    VideoBufferView,
    FrameError,
> {
    match decoded {
        Some(image) => if image.well_formed() {
            sequence_of_image(image)
        } else {
            Err(FrameError::Decode)
        },
        None => Err(FrameError::Decode),
    }
}

impl OutputFormat {
    /// The output format that the first bytes of a file call for, if they
    /// are those of a PNG, JPEG or WebP file.
    pub fn infer_from_file_container(buffer: &[u8]) -> (format: Option<Self>)
        ensures
            format == format_of_container(container_of(buffer@)),
    {
        match guess_container(buffer) {
            Container::Png => Some(OutputFormat::Png),
            Container::Jpeg => Some(OutputFormat::Jpeg),
            Container::WebP => Some(OutputFormat::Webp),
            Container::Other => None,
        }
    }
}

impl VideoBuffer {
    /// A sequence of one frame, the planar form of the picture given.
    pub fn from_image(source: &PackedImage) -> (result: Result<Self, FrameError>)
        requires
            source@.well_formed(),
        ensures
            result_view(result) == sequence_of_image(source@),
    {
        match Yuv420P::from_image(source) {
            Ok(frame) => Ok(VideoBuffer::singleton(frame)),
            Err(error) => Err(error),
        }
    }

    /// A sequence of one frame made of what the decoder returned for a
    /// file.
    pub fn from_decoded(decoded: Option<PackedImage>) -> (result: Result<Self, FrameError>)
        ensures
            result_view(result) == sequence_of_decoded(decoded_view(decoded)),
    {
        match decoded {
            Some(image) => {
                if image.is_well_formed() {
                    VideoBuffer::from_image(&image)
                } else {
                    Err(FrameError::Decode)
                }
            },
            None => Err(FrameError::Decode),
        }
    }

    /// A sequence of one frame, decoded from the bytes of a PNG file: the
    /// planar form of the picture that the bytes decode to. Bytes that the
    /// decoder rejects are refused, and so is a picture that is too large.
    pub fn from_png(source: &[u8]) -> (result: Result<Self, FrameError>)
        ensures
            result_view(result) == sequence_of_decoded(decoded_png(source@)),
    {
        VideoBuffer::from_decoded(decode_rgba(source, OutputFormat::Png))
    }

    /// A sequence of one frame, decoded from the bytes of a JPEG file.
    ///
    /// The picture that the bytes decode to may differ from one processor
    /// to another, so the result is stated for whatever the decoder
    /// returned: it is what [`VideoBuffer::from_decoded`] makes of that.
    pub fn from_jpeg(source: &[u8]) -> (result: Result<Self, FrameError>)
        ensures
            exists|decoded: Option<PackedImageView>|
                result_view(result) == sequence_of_decoded(decoded),
    {
        VideoBuffer::from_decoded(decode_rgba(source, OutputFormat::Jpeg))
    }
}

} // verus!
