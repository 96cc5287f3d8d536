//! The RGBA bytes of an image file, for callers that convert them
//! themselves.
use crate::decode::{decode_gif, decoded_gif, decoded_still, Format};
use crate::frames::{get_bytes_for_animated_image, sampled_pixels, Raster};
use crate::get_image_colors::{
    extension_text, format_of, get_format, has_bytes, image_bytes, opens_with_pixels, still_file,
    still_with_pixels, Failure, GetImageColorsErr,
};
use vstd::prelude::*;

verus! {

/// The bytes of the one image of a file, whatever its container.
pub open spec fn still_file_bytes(extension: Option<Seq<char>>, data: Seq<u8>) -> Result<
    Seq<u8>,
    Failure,
> {
    match format_of(extension) {
        Err(failure) => Err(failure),
        Ok(format) => still_file(format, data),
    }
}

/// The extension names a format, and the file decodes as a still image with
/// a pixel.
pub open spec fn names_still_with_pixels(extension: Option<Seq<char>>, data: Seq<u8>) -> bool {
    format_of(extension) matches Ok(format) && still_with_pixels(format, data)
}

/// The bytes of the sampled frames of a GIF file; none for a file without
/// frames.
pub open spec fn gif_file_bytes(data: Seq<u8>) -> Result<Seq<u8>, Failure> {
    match decoded_gif(data) {
        Ok(frames) => Ok(sampled_pixels(frames, frames.len() as int)),
        Err(error) => Err(Failure::of_image_error(Format::Gif, error)),
    }
}

/// The RGBA bytes of an image file taken as a still image, with its longer
/// edge bounded to 400 pixels. Of an animation the first frame is taken.
/// There are bytes wherever the extension names a format and the file
/// decodes to an image with a pixel.
pub fn get_bytes_for_image(extension: Option<&str>, data: &Vec<u8>) -> (out: Result<
    Vec<u8>,
    GetImageColorsErr,
>)
    ensures
        match out {
            Ok(bytes) => still_file_bytes(extension_text(extension), data@) == Ok::<
                Seq<u8>,
                Failure,
            >(bytes@),
            Err(error) => still_file_bytes(extension_text(extension), data@) == Err::<
                Seq<u8>,
                Failure,
            >(error@),
        },
        names_still_with_pixels(extension_text(extension), data@) ==> has_bytes(out),
{
    match get_format(extension) {
        Ok(format) => image_bytes(format, data),
        Err(error) => Err(error),
    }
}

/// The RGBA bytes of the sampled frames of a GIF file, one frame after the
/// other: four bytes for each pixel, and not nothing where the file has a
/// first frame with a pixel.
pub fn get_bytes_for_gif(data: &Vec<u8>) -> (out: Result<Vec<u8>, GetImageColorsErr>)
    ensures
        match out {
            Ok(bytes) => {
                &&& gif_file_bytes(data@) == Ok::<Seq<u8>, Failure>(bytes@)
                &&& bytes@.len() % 4 == 0
                &&& bytes@.len() <= 2_000_000
                &&& opens_with_pixels(decoded_gif(data@)) ==> bytes@.len() > 0
            },
            Err(error) => gif_file_bytes(data@) == Err::<Seq<u8>, Failure>(error@),
        },
        decoded_gif(data@) is Ok ==> out is Ok,
{
    match decode_gif(data) {
        Ok(frames) => {
            if frames.len() == 0 {
                Ok(Vec::new())
            } else {
                Ok(get_bytes_for_animated_image(&frames))
            }
        },
        Err(error) => Err(GetImageColorsErr::from_image_error(Format::Gif, &error)),
    }
}

} // verus!
