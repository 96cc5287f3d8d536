//! What a run is asked to do.
use crate::colour::Rgb;
use vstd::prelude::*;

verus! {

/// One run: the image to look at and what to find in it.
#[derive(Debug)]
pub struct Action {
    pub path: String,
    pub no_palette: bool,
    pub max_colours: usize,
    pub options: ActionOptions,
}

/// What to find in the image.
#[derive(Clone, Copy, Debug, PartialEq, Eq, Structural)]
pub enum ActionOptions {
    /// Its dominant colours.
    GetDominantColours,
    /// The one of its dominant colours that stands out best on a background.
    GetBestColourWith { compared_to: Rgb },
}

} // verus!
