//! The whole way from the bytes of an image file to its colours.
use crate::colour::Rgb;
use crate::find_dominant_colors::{
    best_colour, choose_best_color_for_bg, dominant_centroids, find_dominant_colors,
    min_contrast,
};
use crate::get_image_colors::{
    extension_text, get_image_colors, image_colors, names_image_with_pixels, Failure,
    GetImageColorsErr,
};
use crate::lab::{lab_to_colours, srgb_colours};
use vstd::prelude::*;

verus! {

/// What was asked of an image, with the answer.
#[derive(Debug)]
pub enum Extraction {
    /// The dominant colours, in the order of the clustering.
    DominantColours(Vec<Rgb>),
    /// The colour that stands out best on the background.
    BestAgainstBackground(Rgb),
}

/// The mathematical content of an [`Extraction`].
pub enum Selection {
    DominantColours(Seq<Rgb>),
    BestAgainstBackground(Rgb),
}

impl View for Extraction {
    type V = Selection;

    open spec fn view(&self) -> Selection {
        match self {
            Extraction::DominantColours(colours) => Selection::DominantColours(colours@),
            Extraction::BestAgainstBackground(best) => Selection::BestAgainstBackground(*best),
        }
    }
}

/// The display colours of the dominant centroids of a set of samples.
pub open spec fn dominant_colours(samples: Seq<palette::Lab>, max_colours: usize) -> Seq<Rgb> {
    srgb_colours(dominant_centroids(samples, max_colours))
}

/// The answer for a set of samples: the dominant colours where no background
/// is given, the best of them against the background otherwise.
pub open spec fn selection_of(
    samples: Seq<palette::Lab>,
    max_colours: usize,
    background: Option<Rgb>,
) -> Selection {
    match background {
        None => Selection::DominantColours(dominant_colours(samples, max_colours)),
        Some(on) => Selection::BestAgainstBackground(
            best_colour(dominant_colours(samples, max_colours), on).unwrap(),
        ),
    }
}

/// The answer for an image file.
pub open spec fn extraction_of(
    extension: Option<Seq<char>>,
    data: Seq<u8>,
    max_colours: usize,
    background: Option<Rgb>,
) -> Result<Selection, Failure> {
    match image_colors(extension, data) {
        Err(failure) => Err(failure),
        Ok(samples) => Ok(selection_of(samples, max_colours, background)),
    }
}

/// The dominant colours of a set of samples as display colours: at least
/// one, at most `max_colours`.
pub fn dominant_colours_of(lab: &Vec<palette::Lab>, max_colours: usize) -> (colours: Vec<Rgb>)
    requires
        lab@.len() > 0,
        max_colours >= 1,
    ensures
        colours@ == dominant_colours(lab@, max_colours),
        1 <= colours@.len() <= max_colours,
{
    let centroids = find_dominant_colors(lab, max_colours);
    lab_to_colours(&centroids)
}

/// Clusters the samples and answers with the dominant colours or, where a
/// background is given, with the one of them that stands out best on it.
pub fn select_colours(lab: &Vec<palette::Lab>, max_colours: usize, background: Option<Rgb>) -> (out:
    Extraction)
    requires
        lab@.len() > 0,
        max_colours >= 1,
    ensures
        out@ == selection_of(lab@, max_colours, background),
        out matches Extraction::DominantColours(colours) ==> 1 <= colours@.len() <= max_colours,
        out matches Extraction::BestAgainstBackground(colour) ==> best_colour(
            dominant_colours(lab@, max_colours),
            background.unwrap(),
        ) == Some(colour) && min_contrast(background.unwrap(), colour),
        background is Some <==> out is BestAgainstBackground,
{
    let colours = dominant_colours_of(lab, max_colours);
    match background {
        None => Extraction::DominantColours(colours),
        Some(on) => Extraction::BestAgainstBackground(choose_best_color_for_bg(colours, &on)),
    }
}

/// The colours of an image file, given the extension of its path and its
/// bytes: its dominant colours, at most `max_colours` of them, or the one
/// that stands out best on `background`. There is an answer wherever the
/// extension names a format, the file is decoded and what is looked at of
/// it has a pixel.
pub fn extract(
    extension: Option<&str>,
    data: &Vec<u8>,
    max_colours: usize,
    background: Option<Rgb>,
) -> (out: Result<Extraction, GetImageColorsErr>)
    requires
        max_colours >= 1,
    ensures
        match out {
            Ok(found) => {
                &&& extraction_of(extension_text(extension), data@, max_colours, background)
                    == Ok::<Selection, Failure>(found@)
                &&& found matches Extraction::DominantColours(colours) ==> 1 <= colours@.len()
                    <= max_colours
                &&& found matches Extraction::BestAgainstBackground(colour) ==> min_contrast(
                    background.unwrap(),
                    colour,
                )
                &&& background is Some <==> found is BestAgainstBackground
            },
            Err(error) => extraction_of(
                extension_text(extension),
                data@,
                max_colours,
                background,
            ) == Err::<Selection, Failure>(error@),
        },
        names_image_with_pixels(extension_text(extension), data@) ==> out is Ok,
{
    match get_image_colors(extension, data) {
        Ok(lab) => Ok(select_colours(&lab, max_colours, background)),
        Err(error) => Err(error),
    }
}

/// Two runs on the same bytes, with the same extension, bound and
/// background, end in the same answer: the same colours in the same order,
/// or the same failure.
pub proof fn lemma_extraction_is_deterministic(
    extension: Option<Seq<char>>,
    data: Seq<u8>,
    max_colours: usize,
    background: Option<Rgb>,
    first: Result<Selection, Failure>,
    second: Result<Selection, Failure>,
)
    requires
        first == extraction_of(extension, data, max_colours, background),
        second == extraction_of(extension, data, max_colours, background),
    ensures
        first == second,
{
}

} // verus!
