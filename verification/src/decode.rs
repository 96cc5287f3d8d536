//! From the bytes of an image file to rasters. The decoders are those of the
//! `image` crate; what they hand back is taken into this crate's own types
//! at once.
use crate::frames::{all_wf, rasters, Frame, Raster};
use crate::text::{ascii_lowercase, spells2, spells3, spells4};
use crate::webp::{webp_animation_sound, webp_still_sound};
use vstd::prelude::*;

verus! {

/// `image::ImageError`, the error of every decoder of the `image` crate. It
/// is handed to [`failure_kind`] and [`failure_text`] and to nothing else.
#[verifier::external_type_specification]
#[verifier::external_body]
pub struct ExImageError(image::ImageError);

/// A container format that this crate decodes.
#[derive(Clone, Copy, Debug, PartialEq, Eq, Structural)]
pub enum Format {
    Png,
    Jpeg,
    Gif,
    WebP,
    Tiff,
    Bmp,
}

/// What a file extension tells of a file's container.
#[derive(Clone, Copy, Debug, PartialEq, Eq, Structural)]
pub enum Container {
    /// The extension names no image format.
    Unknown,
    /// The extension names an image format that this crate does not decode.
    Unsupported,
    /// The extension names a format that this crate decodes.
    Supported(Format),
}

/// The variant of `image::ImageError` that a decoder failed with.
#[derive(Clone, Copy, Debug, PartialEq, Eq, Structural)]
pub enum FailureKind {
    /// The bytes are not what the format asks for.
    Decoding,
    /// An image could not be written in the format.
    Encoding,
    /// An argument of an operation was out of place.
    Parameter,
    /// The image asks for more memory than the decoder may take.
    Limits,
    /// The image uses a part of the format that the decoder lacks.
    Unsupported,
    /// The decoder could not read on.
    Io,
}

/// What the header of a WebP file says of its animation.
#[derive(Clone, Copy, Debug, PartialEq, Eq, Structural)]
pub struct WebpHeader {
    /// The header flags the file as animated.
    pub animated: bool,
    /// The number of animation frames in the file.
    pub frames: u32,
}

/// The extension, in small letters, is one that the `image` crate knows and
/// this crate does not decode: `avif`, `tga`, `dds`, `ico`, `hdr`, `exr`,
/// `pbm`, `pam`, `ppm`, `pgm`, `pnm`, `ff` or `qoi`.
pub open spec fn names_other_format(e: Seq<char>) -> bool {
    ||| spells4(e, 'a', 'v', 'i', 'f')
    ||| spells3(e, 't', 'g', 'a')
    ||| spells3(e, 'd', 'd', 's')
    ||| spells3(e, 'i', 'c', 'o')
    ||| spells3(e, 'h', 'd', 'r')
    ||| spells3(e, 'e', 'x', 'r')
    ||| spells3(e, 'p', 'b', 'm')
    ||| spells3(e, 'p', 'a', 'm')
    ||| spells3(e, 'p', 'p', 'm')
    ||| spells3(e, 'p', 'g', 'm')
    ||| spells3(e, 'p', 'n', 'm')
    ||| spells2(e, 'f', 'f')
    ||| spells3(e, 'q', 'o', 'i')
}

/// The container that a file extension names, whatever the case of its
/// letters: `png` and `apng`; `jpg`, `jpeg` and `jfif`; `gif`; `webp`; `tif`
/// and `tiff`; `bmp`.
pub open spec fn container_of(extension: Seq<char>) -> Container {
    let e = ascii_lowercase(extension);
    if spells3(e, 'p', 'n', 'g') || spells4(e, 'a', 'p', 'n', 'g') {
        Container::Supported(Format::Png)
    } else if spells3(e, 'j', 'p', 'g') || spells4(e, 'j', 'p', 'e', 'g') || spells4(e, 'j', 'f', 'i', 'f') {
        Container::Supported(Format::Jpeg)
    } else if spells3(e, 'g', 'i', 'f') {
        Container::Supported(Format::Gif)
    } else if spells4(e, 'w', 'e', 'b', 'p') {
        Container::Supported(Format::WebP)
    } else if spells3(e, 't', 'i', 'f') || spells4(e, 't', 'i', 'f', 'f') {
        Container::Supported(Format::Tiff)
    } else if spells3(e, 'b', 'm', 'p') {
        Container::Supported(Format::Bmp)
    } else if names_other_format(e) {
        Container::Unsupported
    } else {
        Container::Unknown
    }
}

/// Calls `image::ImageFormat::from_extension`, which makes the ASCII letters
/// of the extension small and looks the result up in a fixed table. The six
/// formats that this crate decodes are told apart; every other format of the
/// table comes back as `Unsupported`.
#[verifier::external_body]
pub(crate) fn container_for(extension: &str) -> (out: Container)
    ensures
        out == container_of(extension@),
{
    match image::ImageFormat::from_extension(extension) {
        None => Container::Unknown,
        Some(image::ImageFormat::Png) => Container::Supported(Format::Png),
        Some(image::ImageFormat::Jpeg) => Container::Supported(Format::Jpeg),
        Some(image::ImageFormat::Gif) => Container::Supported(Format::Gif),
        Some(image::ImageFormat::WebP) => Container::Supported(Format::WebP),
        Some(image::ImageFormat::Tiff) => Container::Supported(Format::Tiff),
        Some(image::ImageFormat::Bmp) => Container::Supported(Format::Bmp),
        Some(_) => Container::Unsupported,
    }
}

/// What `image::load` makes of the bytes of a still image, as RGBA.
pub uninterp spec fn decoded_still(data: Seq<u8>, format: Format) -> Result<
    Raster,
    image::ImageError,
>;

/// The frames that `image`'s GIF decoder makes of the bytes of a file.
pub uninterp spec fn decoded_gif(data: Seq<u8>) -> Result<Seq<Raster>, image::ImageError>;

/// The frames that `image`'s WebP decoder makes of the bytes of a file.
pub uninterp spec fn decoded_webp(data: Seq<u8>) -> Result<Seq<Raster>, image::ImageError>;

/// What `image_webp` reads from the header of a WebP file; `None` where it
/// cannot read one.
pub uninterp spec fn webp_header_of(data: Seq<u8>) -> Option<WebpHeader>;

/// The variant of an error of the `image` crate.
pub uninterp spec fn failure_kind_of(error: image::ImageError) -> FailureKind;

/// The text in which an error of the `image` crate describes itself.
pub uninterp spec fn failure_text_of(error: image::ImageError) -> Seq<char>;

/// Calls `image::load_from_memory_with_format` and takes the image to RGBA
/// with `DynamicImage::into_rgba8`. Image or error depend on the bytes and
/// the format alone; the buffer of an RGBA image holds four bytes for each
/// pixel. Of a WebP file that flags an animation the first frame is read
/// with `image_webp`'s `read_frame`. Where that frame holds an alpha chunk
/// and a lossy image, `read_frame` fills a buffer of the size that the frame
/// gives with an image of the size that the image gives, and panics where
/// the image is larger; so a first frame whose two sizes differ is left out.
/// A canvas too large for `read_frame` to count never gets there: `image`
/// refuses an image of more than 512 MiB before it reads any of it.
#[verifier::external_body]
pub(crate) fn decode_still(data: &Vec<u8>, format: Format) -> (out: Result<
    Frame,
    image::ImageError,
>)
    requires
        format == Format::WebP ==> webp_still_sound(data@),
    ensures
        match out {
            Ok(frame) => frame.wf() && decoded_still(data@, format) == Ok::<
                Raster,
                image::ImageError,
            >(frame@),
            Err(error) => decoded_still(data@, format) == Err::<Raster, image::ImageError>(error),
        },
{
    let kind = match format {
        Format::Png => image::ImageFormat::Png,
        Format::Jpeg => image::ImageFormat::Jpeg,
        Format::Gif => image::ImageFormat::Gif,
        Format::WebP => image::ImageFormat::WebP,
        Format::Tiff => image::ImageFormat::Tiff,
        Format::Bmp => image::ImageFormat::Bmp,
    };
    let buffer = image::load_from_memory_with_format(data, kind)?.into_rgba8();
    Ok(Frame { width: buffer.width(), height: buffer.height(), pixels: buffer.into_raw() })
}

/// Opens the bytes with `image::codecs::gif::GifDecoder::new` and collects
/// all frames with `AnimationDecoder::into_frames` and `collect_frames`.
/// Frames or error depend on the bytes alone; the buffer of each frame is an
/// RGBA image.
#[verifier::external_body]
pub(crate) fn decode_gif(data: &Vec<u8>) -> (out: Result<Vec<Frame>, image::ImageError>)
    ensures
        match out {
            Ok(frames) => all_wf(rasters(frames@)) && decoded_gif(data@) == Ok::<
                Seq<Raster>,
                image::ImageError,
            >(rasters(frames@)),
            Err(error) => decoded_gif(data@) == Err::<Seq<Raster>, image::ImageError>(error),
        },
{
    let decoder = image::codecs::gif::GifDecoder::new(std::io::Cursor::new(data))?;
    let frames = image::AnimationDecoder::into_frames(decoder).collect_frames()?;
    Ok(frames.into_iter().map(|f| f.into_buffer()).map(|b| Frame {
        width: b.width(),
        height: b.height(),
        pixels: b.into_raw(),
    }).collect())
}

/// Opens the bytes with `image::codecs::webp::WebPDecoder::new` and collects
/// all frames with `AnimationDecoder::into_frames` and `collect_frames`.
/// Frames or error depend on the bytes alone; the buffer of each frame is an
/// RGBA image. The frames are read with `image_webp`'s `read_frame`, which
/// panics on a file whose header does not flag it as animated, so the flag
/// is asked for. Where a frame holds an alpha chunk and a lossy image,
/// `read_frame` fills a buffer of the size that the frame gives with an
/// image of the size that the image gives, and panics where the image is
/// larger; and it counts the bytes of the canvas in 32 bits, so that the
/// canvas of a larger one comes out too short for its frames. Files with a
/// frame whose two sizes differ, or with such a canvas, are left out.
#[verifier::external_body]
pub(crate) fn decode_webp(data: &Vec<u8>) -> (out: Result<Vec<Frame>, image::ImageError>)
    requires
        webp_header_of(data@) matches Some(header) && header.animated,
        webp_animation_sound(data@),
    ensures
        match out {
            Ok(frames) => all_wf(rasters(frames@)) && decoded_webp(data@) == Ok::<
                Seq<Raster>,
                image::ImageError,
            >(rasters(frames@)),
            Err(error) => decoded_webp(data@) == Err::<Seq<Raster>, image::ImageError>(error),
        },
{
    let decoder = image::codecs::webp::WebPDecoder::new(std::io::Cursor::new(data))?;
    let frames = image::AnimationDecoder::into_frames(decoder).collect_frames()?;
    Ok(frames.into_iter().map(|f| f.into_buffer()).map(|b| Frame {
        width: b.width(),
        height: b.height(),
        pixels: b.into_raw(),
    }).collect())
}

/// Reads the header of a WebP file with `image_webp::WebPDecoder::new` and
/// asks `is_animated` for the animation flag and `num_frames` for the number
/// of animation frames. The count is that of the frame chunks in the file,
/// whatever the flag says. `None` where the header cannot be read. The
/// answer depends on the bytes alone.
#[verifier::external_body]
pub(crate) fn webp_header(data: &Vec<u8>) -> (header: Option<WebpHeader>)
    ensures
        header == webp_header_of(data@),
{
    image_webp::WebPDecoder::new(std::io::Cursor::new(data)).ok().map(|decoder| WebpHeader {
        animated: decoder.is_animated(),
        frames: decoder.num_frames(),
    })
}

/// Tells the six variants of `image::ImageError` apart.
#[verifier::external_body]
pub(crate) fn failure_kind(error: &image::ImageError) -> (kind: FailureKind)
    ensures
        kind == failure_kind_of(*error),
{
    match error {
        image::ImageError::Decoding(_) => FailureKind::Decoding,
        image::ImageError::Encoding(_) => FailureKind::Encoding,
        image::ImageError::Parameter(_) => FailureKind::Parameter,
        image::ImageError::Limits(_) => FailureKind::Limits,
        image::ImageError::Unsupported(_) => FailureKind::Unsupported,
        image::ImageError::IoError(_) => FailureKind::Io,
    }
}

/// The text that the `Display` impl of `image::ImageError` writes.
#[verifier::external_body]
pub(crate) fn failure_text(error: &image::ImageError) -> (text: String)
    ensures
        text@ == failure_text_of(*error),
{
    format!("{}", error)
}

} // verus!
