//! From the bytes of an image file to the L\*a\*b\* samples of its pixels.
use crate::decode::{
    container_for, container_of, decode_gif, decode_still, decode_webp, decoded_gif,
    decoded_still, decoded_webp, failure_kind, failure_kind_of, failure_text, failure_text_of,
    webp_header, webp_header_of, Container, FailureKind, Format,
};
use crate::frames::{
    bounded_pixels, get_bytes_for_animated_image, get_bytes_for_static_image, sampled_pixels,
    Raster, STILL_EDGE,
};
use crate::lab::{lab_samples, pixels_to_lab};
use crate::webp::{
    webp_animation_is_sound, webp_animation_sound, webp_still_is_sound, webp_still_sound,
};
use vstd::prelude::*;
use vstd::string::StringExecFns;

verus! {

/// Said of a path without an extension.
pub const NO_EXTENSION: &'static str =
    "Path has no file extension, so could not determine image format";

/// Said of an extension that names no image format.
pub const UNKNOWN_EXTENSION: &'static str = "Unable to determine image format from file extension";

/// Said of an extension that names a format which is not decoded.
pub const UNSUPPORTED_EXTENSION: &'static str = "The image format is not supported";

/// Said of an animation without frames.
pub const NO_FRAMES: &'static str = "The image holds no frames";

/// Said of an image without pixels.
pub const NO_PIXELS: &'static str = "The image holds no pixels";

/// Said of a WebP file that is not handed to the decoder.
pub const UNSOUND_WEBP: &'static str =
    "The WebP file holds a frame of another size than its image, or a canvas too large";

/// Why the colours of an image could not be had.
#[derive(Debug)]
pub enum GetImageColorsErr {
    /// The file could not be read; the text is that of the operating system.
    IoError(String),
    /// The container cannot be told: the path has no extension, or one that
    /// names no image format.
    UnknownFormat { has_extension: bool },
    /// The container, or a feature of it that the file uses, is not decoded.
    UnsupportedFormat(String),
    /// The bytes are not a well-formed file of the container.
    DecodeError { format: Format, reason: String },
}

/// The mathematical content of a [`GetImageColorsErr`].
pub enum Failure {
    Io(Seq<char>),
    UnknownFormat { has_extension: bool },
    UnsupportedFormat(Seq<char>),
    Decode { format: Format, reason: Seq<char> },
}

impl View for GetImageColorsErr {
    type V = Failure;

    open spec fn view(&self) -> Failure {
        match self {
            GetImageColorsErr::IoError(text) => Failure::Io(text@),
            GetImageColorsErr::UnknownFormat { has_extension } => Failure::UnknownFormat {
                has_extension: *has_extension,
            },
            GetImageColorsErr::UnsupportedFormat(text) => Failure::UnsupportedFormat(text@),
            GetImageColorsErr::DecodeError { format, reason } => Failure::Decode {
                format: *format,
                reason: reason@,
            },
        }
    }
}

impl Failure {
    /// The text that tells a user of the failure.
    pub open spec fn message(self) -> Seq<char> {
        match self {
            Failure::Io(text) => text,
            Failure::UnknownFormat { has_extension } => if has_extension {
                UNKNOWN_EXTENSION@
            } else {
                NO_EXTENSION@
            },
            Failure::UnsupportedFormat(text) => text,
            Failure::Decode { format, reason } => reason,
        }
    }

    /// The failure that an error of a decoder stands for: a missing feature
    /// is an unsupported format, a failed read an input failure, and every
    /// other error says that the file cannot be decoded as it is.
    pub open spec fn of_decoder(format: Format, kind: FailureKind, text: Seq<char>) -> Failure {
        match kind {
            FailureKind::Unsupported => Failure::UnsupportedFormat(text),
            FailureKind::Io => Failure::Io(text),
            FailureKind::Decoding => Failure::Decode { format, reason: text },
            FailureKind::Encoding => Failure::Decode { format, reason: text },
            FailureKind::Parameter => Failure::Decode { format, reason: text },
            FailureKind::Limits => Failure::Decode { format, reason: text },
        }
    }

    /// The failure that an error of the `image` crate stands for.
    pub open spec fn of_image_error(format: Format, error: image::ImageError) -> Failure {
        Failure::of_decoder(format, failure_kind_of(error), failure_text_of(error))
    }
}

impl GetImageColorsErr {
    /// The text that tells a user of the failure.
    pub fn message(&self) -> (out: String)
        ensures
            out@ == self@.message(),
    {
        match self {
            GetImageColorsErr::IoError(text) => text.clone(),
            GetImageColorsErr::UnknownFormat { has_extension } => if *has_extension {
                String::from_str(UNKNOWN_EXTENSION)
            } else {
                String::from_str(NO_EXTENSION)
            },
            GetImageColorsErr::UnsupportedFormat(text) => text.clone(),
            GetImageColorsErr::DecodeError { format, reason } => reason.clone(),
        }
    }

    /// The failure that an error of a decoder stands for: a missing feature
    /// as `UnsupportedFormat`, a failed read as `IoError`, anything else as
    /// `DecodeError` with the format.
    pub fn from_decoder(format: Format, kind: FailureKind, text: String) -> (out: GetImageColorsErr)
        ensures
            out@ == Failure::of_decoder(format, kind, text@),
    {
        match kind {
            FailureKind::Unsupported => GetImageColorsErr::UnsupportedFormat(text),
            FailureKind::Io => GetImageColorsErr::IoError(text),
            FailureKind::Decoding
            | FailureKind::Encoding
            | FailureKind::Parameter
            | FailureKind::Limits => GetImageColorsErr::DecodeError { format, reason: text },
        }
    }

    /// The failure that an error of the `image` crate stands for.
    pub fn from_image_error(format: Format, error: &image::ImageError) -> (out: GetImageColorsErr)
        ensures
            out@ == Failure::of_image_error(format, *error),
    {
        GetImageColorsErr::from_decoder(format, failure_kind(error), failure_text(error))
    }
}

/// The characters of an extension, where there is one.
pub open spec fn extension_text(extension: Option<&str>) -> Option<Seq<char>> {
    match extension {
        Some(e) => Some(e@),
        None => None,
    }
}

/// The format that a file extension stands for, or why there is none.
pub open spec fn format_of(extension: Option<Seq<char>>) -> Result<Format, Failure> {
    match extension {
        None => Err(Failure::UnknownFormat { has_extension: false }),
        Some(e) => match container_of(e) {
            Container::Unknown => Err(Failure::UnknownFormat { has_extension: true }),
            Container::Unsupported => Err(Failure::UnsupportedFormat(UNSUPPORTED_EXTENSION@)),
            Container::Supported(format) => Ok(format),
        },
    }
}

/// A WebP file is animated where its header flags it as animated and it
/// holds more than one frame.
pub open spec fn animated_webp(data: Seq<u8>) -> bool {
    webp_header_of(data) matches Some(header) && header.animated && header.frames > 1
}

/// The pixels of the sampled frames of a decoded animation.
pub open spec fn animation_bytes(
    format: Format,
    decoded: Result<Seq<Raster>, image::ImageError>,
) -> Result<Seq<u8>, Failure> {
    match decoded {
        Ok(frames) => if frames.len() == 0 {
            Err(Failure::Decode { format, reason: NO_FRAMES@ })
        } else {
            Ok(sampled_pixels(frames, frames.len() as int))
        },
        Err(error) => Err(Failure::of_image_error(format, error)),
    }
}

/// The pixels of a decoded still image.
pub open spec fn still_bytes(format: Format, decoded: Result<Raster, image::ImageError>) -> Result<
    Seq<u8>,
    Failure,
> {
    match decoded {
        Ok(raster) => Ok(bounded_pixels(raster, STILL_EDGE)),
        Err(error) => Err(Failure::of_image_error(format, error)),
    }
}

/// The pixels of a file with one image. A WebP file whose first frame does
/// not fit its image is not decoded.
pub open spec fn still_file(format: Format, data: Seq<u8>) -> Result<Seq<u8>, Failure> {
    if format == Format::WebP && !webp_still_sound(data) {
        Err(Failure::Decode { format, reason: UNSOUND_WEBP@ })
    } else {
        still_bytes(format, decoded_still(data, format))
    }
}

/// The pixels of the sampled frames of a WebP animation. A file with a frame
/// that does not fit its image, or with too large a canvas, is not decoded.
pub open spec fn webp_animation(data: Seq<u8>) -> Result<Seq<u8>, Failure> {
    if !webp_animation_sound(data) {
        Err(Failure::Decode { format: Format::WebP, reason: UNSOUND_WEBP@ })
    } else {
        animation_bytes(Format::WebP, decoded_webp(data))
    }
}

/// The RGBA bytes that stand for an image file: those of the sampled frames
/// of a GIF or an animated WebP, those of the one image otherwise.
pub open spec fn pixel_bytes(format: Format, data: Seq<u8>) -> Result<Seq<u8>, Failure> {
    if format == Format::Gif {
        animation_bytes(format, decoded_gif(data))
    } else if format == Format::WebP && animated_webp(data) {
        webp_animation(data)
    } else {
        still_file(format, data)
    }
}

/// The decoded animation has a frame.
pub open spec fn holds_frames(decoded: Result<Seq<Raster>, image::ImageError>) -> bool {
    decoded matches Ok(frames) && frames.len() >= 1
}

/// The file is handed to the decoder of still images and decodes.
pub open spec fn decodes_still(format: Format, data: Seq<u8>) -> bool {
    &&& format == Format::WebP ==> webp_still_sound(data)
    &&& decoded_still(data, format) is Ok
}

/// The file is handed to the decoder of still images and decodes to an
/// image with a pixel.
pub open spec fn still_with_pixels(format: Format, data: Seq<u8>) -> bool {
    &&& format == Format::WebP ==> webp_still_sound(data)
    &&& decoded_still(data, format) matches Ok(raster) && raster.has_pixels()
}

/// There are bytes, and not none.
pub open spec fn has_bytes(out: Result<Vec<u8>, GetImageColorsErr>) -> bool {
    out matches Ok(bytes) && bytes@.len() > 0
}

/// The decoded animation has a first frame with a pixel.
pub open spec fn opens_with_pixels(decoded: Result<Seq<Raster>, image::ImageError>) -> bool {
    decoded matches Ok(frames) && frames.len() >= 1 && frames[0].has_pixels()
}

/// The file is decoded, and what is looked at of it has a pixel: the one
/// image of a still, the first frame of a GIF or an animated WebP.
pub open spec fn decodes_with_pixels(format: Format, data: Seq<u8>) -> bool {
    if format == Format::Gif {
        opens_with_pixels(decoded_gif(data))
    } else if format == Format::WebP && animated_webp(data) {
        webp_animation_sound(data) && opens_with_pixels(decoded_webp(data))
    } else {
        still_with_pixels(format, data)
    }
}

/// The samples of an image file of a known format.
pub open spec fn samples_of(format: Format, data: Seq<u8>) -> Result<Seq<palette::Lab>, Failure> {
    match pixel_bytes(format, data) {
        Err(failure) => Err(failure),
        Ok(bytes) => if bytes.len() == 0 {
            Err(Failure::Decode { format, reason: NO_PIXELS@ })
        } else {
            Ok(lab_samples(bytes))
        },
    }
}

/// The extension names a format, the file is decoded, and what is looked at
/// of it has a pixel.
pub open spec fn names_image_with_pixels(extension: Option<Seq<char>>, data: Seq<u8>) -> bool {
    format_of(extension) matches Ok(format) && decodes_with_pixels(format, data)
}

/// The samples of an image file: one L\*a\*b\* sample for each pixel that
/// the sampling keeps.
pub open spec fn image_colors(extension: Option<Seq<char>>, data: Seq<u8>) -> Result<
    Seq<palette::Lab>,
    Failure,
> {
    match format_of(extension) {
        Err(failure) => Err(failure),
        Ok(format) => samples_of(format, data),
    }
}

/// The container format that the extension of a path names.
pub fn get_format(extension: Option<&str>) -> (out: Result<Format, GetImageColorsErr>)
    ensures
        match out {
            Ok(format) => format_of(extension_text(extension)) == Ok::<Format, Failure>(format),
            Err(error) => format_of(extension_text(extension)) == Err::<Format, Failure>(error@),
        },
{
    match extension {
        None => Err(GetImageColorsErr::UnknownFormat { has_extension: false }),
        Some(e) => match container_for(e) {
            Container::Unknown => Err(GetImageColorsErr::UnknownFormat { has_extension: true }),
            Container::Unsupported => Err(
                GetImageColorsErr::UnsupportedFormat(String::from_str(UNSUPPORTED_EXTENSION)),
            ),
            Container::Supported(format) => Ok(format),
        },
    }
}

/// Whether the bytes are those of an animated WebP file: one whose header
/// flags it as animated and which holds more than one frame. A file whose
/// header cannot be read is not.
pub fn is_animated_webp(data: &Vec<u8>) -> (animated: bool)
    ensures
        animated == animated_webp(data@),
{
    match webp_header(data) {
        Some(header) => header.animated && header.frames > 1,
        None => false,
    }
}

/// The RGBA bytes of the sampled frames of a GIF file. A file that decodes
/// to a frame or more gives bytes, and not none where its first frame has a
/// pixel.
pub fn gif_bytes(data: &Vec<u8>) -> (out: Result<Vec<u8>, GetImageColorsErr>)
    ensures
        match out {
            Ok(bytes) => animation_bytes(Format::Gif, decoded_gif(data@)) == Ok::<
                Seq<u8>,
                Failure,
            >(bytes@) && bytes@.len() % 4 == 0,
            Err(error) => animation_bytes(Format::Gif, decoded_gif(data@)) == Err::<
                Seq<u8>,
                Failure,
            >(error@),
        },
        holds_frames(decoded_gif(data@)) ==> out is Ok,
        opens_with_pixels(decoded_gif(data@)) ==> has_bytes(out),
{
    match decode_gif(data) {
        Ok(frames) => {
            if frames.len() == 0 {
                Err(
                    GetImageColorsErr::DecodeError {
                        format: Format::Gif,
                        reason: String::from_str(NO_FRAMES),
                    },
                )
            } else {
                Ok(get_bytes_for_animated_image(&frames))
            }
        },
        Err(error) => Err(GetImageColorsErr::from_image_error(Format::Gif, &error)),
    }
}

/// The RGBA bytes of the sampled frames of a WebP file whose header flags it
/// as animated. The frames are looked over first: a file with a frame that
/// does not fit its image, or with too large a canvas, is refused as
/// malformed. A file that is sound and decodes to a frame or more gives
/// bytes, and not none where its first frame has a pixel.
pub fn webp_animation_bytes(data: &Vec<u8>) -> (out: Result<Vec<u8>, GetImageColorsErr>)
    requires
        webp_header_of(data@) matches Some(header) && header.animated,
    ensures
        match out {
            Ok(bytes) => webp_animation(data@) == Ok::<Seq<u8>, Failure>(bytes@) && bytes@.len()
                % 4 == 0,
            Err(error) => webp_animation(data@) == Err::<Seq<u8>, Failure>(error@),
        },
        webp_animation_sound(data@) && holds_frames(decoded_webp(data@)) ==> out is Ok,
        webp_animation_sound(data@) && opens_with_pixels(decoded_webp(data@)) ==> has_bytes(out),
{
    if !webp_animation_is_sound(data) {
        return Err(
            GetImageColorsErr::DecodeError {
                format: Format::WebP,
                reason: String::from_str(UNSOUND_WEBP),
            },
        );
    }
    match decode_webp(data) {
        Ok(frames) => {
            if frames.len() == 0 {
                Err(
                    GetImageColorsErr::DecodeError {
                        format: Format::WebP,
                        reason: String::from_str(NO_FRAMES),
                    },
                )
            } else {
                Ok(get_bytes_for_animated_image(&frames))
            }
        },
        Err(error) => Err(GetImageColorsErr::from_image_error(Format::WebP, &error)),
    }
}

/// The RGBA bytes of a still image file, bounded to [`STILL_EDGE`]. Of a
/// WebP file the first frame is looked over first: where it does not fit its
/// image, the file is refused as malformed. A file that decodes gives bytes,
/// and not none where its image has a pixel.
pub fn image_bytes(format: Format, data: &Vec<u8>) -> (out: Result<Vec<u8>, GetImageColorsErr>)
    ensures
        match out {
            Ok(bytes) => still_file(format, data@) == Ok::<Seq<u8>, Failure>(bytes@) && bytes@.len()
                % 4 == 0 && bytes@.len() <= 640_000,
            Err(error) => still_file(format, data@) == Err::<Seq<u8>, Failure>(error@),
        },
        decodes_still(format, data@) ==> out is Ok,
        still_with_pixels(format, data@) ==> has_bytes(out),
{
    match format {
        Format::WebP => {
            if !webp_still_is_sound(data) {
                return Err(
                    GetImageColorsErr::DecodeError {
                        format,
                        reason: String::from_str(UNSOUND_WEBP),
                    },
                );
            }
        },
        _ => {},
    }
    match decode_still(data, format) {
        Ok(frame) => Ok(get_bytes_for_static_image(&frame)),
        Err(error) => Err(GetImageColorsErr::from_image_error(format, &error)),
    }
}

/// The L\*a\*b\* samples of an image file of a known format. There are
/// samples wherever the file is decoded and what is looked at of it has a
/// pixel.
pub fn get_colors_of_format(format: Format, data: &Vec<u8>) -> (out: Result<
    Vec<palette::Lab>,
    GetImageColorsErr,
>)
    ensures
        match out {
            Ok(lab) => samples_of(format, data@) == Ok::<Seq<palette::Lab>, Failure>(lab@)
                && lab@.len() > 0,
            Err(error) => samples_of(format, data@) == Err::<Seq<palette::Lab>, Failure>(error@),
        },
        decodes_with_pixels(format, data@) ==> out is Ok,
{
    let bytes = match format {
        Format::Gif => gif_bytes(data),
        Format::WebP => {
            if is_animated_webp(data) {
                webp_animation_bytes(data)
            } else {
                image_bytes(format, data)
            }
        },
        _ => image_bytes(format, data),
    };
    match bytes {
        Ok(bytes) => {
            if bytes.len() == 0 {
                Err(GetImageColorsErr::DecodeError { format, reason: String::from_str(NO_PIXELS) })
            } else {
                Ok(pixels_to_lab(&bytes))
            }
        },
        Err(error) => Err(error),
    }
}

/// The L\*a\*b\* samples of an image file, given the extension of its path
/// and its bytes. A GIF and an animated WebP give the pixels of their
/// sampled frames, any other file those of its one image. On success there
/// is at least one sample, and success is owed wherever the extension names
/// a format, the file is decoded and what is looked at of it has a pixel.
pub fn get_image_colors(extension: Option<&str>, data: &Vec<u8>) -> (out: Result<
    Vec<palette::Lab>,
    GetImageColorsErr,
>)
    ensures
        match out {
            Ok(lab) => image_colors(extension_text(extension), data@) == Ok::<
                Seq<palette::Lab>,
                Failure,
            >(lab@) && lab@.len() > 0,
            Err(error) => image_colors(extension_text(extension), data@) == Err::<
                Seq<palette::Lab>,
                Failure,
            >(error@),
        },
        names_image_with_pixels(extension_text(extension), data@) ==> out is Ok,
{
    match get_format(extension) {
        Ok(format) => get_colors_of_format(format, data),
        Err(error) => Err(error),
    }
}

} // verus!
