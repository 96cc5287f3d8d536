//! Between display colours and CIE L\*a\*b\*, the space in which colours are
//! clustered. A `palette::Lab` holds floating-point coordinates; this crate
//! hands such values on and never looks inside them.
use crate::colour::Rgb;
use palette::FromColor;
use palette::IntoColor;
use vstd::prelude::*;

verus! {

/// `palette::Lab`: three floating-point coordinates and a white point. No
/// value of it is taken apart here.
#[verifier::external_type_specification]
#[verifier::external_body]
#[verifier::reject_recursive_types(Wp)]
#[verifier::reject_recursive_types(T)]
pub struct ExLab<Wp, T>(palette::Lab<Wp, T>);

/// `palette::white_point::D65`, the white point of the `Lab` values here.
#[verifier::external_type_specification]
#[verifier::external_body]
pub struct ExD65(palette::white_point::D65);

/// `core::array::TryFromSliceError`, which the conversions that `palette`
/// implements for `Lab` name as their error. No value of it occurs here.
#[verifier::external_type_specification]
#[verifier::external_body]
pub struct ExTryFromSliceError(core::array::TryFromSliceError);

/// The L\*a\*b\* coordinates that `palette` gives an sRGB colour.
pub uninterp spec fn lab_of_srgb(red: u8, green: u8, blue: u8) -> palette::Lab;

/// The sRGB colour, rounded to eight bits a channel, that `palette` gives
/// L\*a\*b\* coordinates.
pub uninterp spec fn srgb_of_lab(lab: palette::Lab) -> Rgb;

/// `palette`'s conversion of an sRGB colour to L\*a\*b\* (D65): the channels
/// are scaled to the unit interval by `Srgb::into_format` and the colour is
/// taken through linear RGB and XYZ by `IntoColor::into_color`. The result
/// depends on the three channels alone.
#[verifier::external_body]
pub(crate) fn srgb_to_lab(red: u8, green: u8, blue: u8) -> (lab: palette::Lab)
    ensures
        lab == lab_of_srgb(red, green, blue),
{
    let rgb: palette::Srgb = palette::Srgb::new(red, green, blue).into_format();
    rgb.into_color()
}

/// `palette`'s conversion of L\*a\*b\* coordinates to sRGB: `Srgb::from_color`
/// brings the colour into the sRGB gamut and `Srgb::into_format` rounds each
/// channel to the nearest of 256 levels. The result depends on the
/// coordinates alone.
#[verifier::external_body]
pub(crate) fn lab_to_srgb(lab: &palette::Lab) -> (rgb: Rgb)
    ensures
        rgb == srgb_of_lab(*lab),
{
    let srgb: palette::Srgb<u8> = palette::Srgb::from_color(*lab).into_format();
    Rgb { red: srgb.red, green: srgb.green, blue: srgb.blue }
}

/// The samples of a buffer of RGBA pixels: one for each four bytes, in
/// order, from the red, green and blue bytes. Alpha is left out.
pub open spec fn lab_samples(bytes: Seq<u8>) -> Seq<palette::Lab> {
    Seq::new(
        (bytes.len() / 4) as nat,
        |i: int| lab_of_srgb(bytes[4 * i], bytes[4 * i + 1], bytes[4 * i + 2]),
    )
}

/// The display colours of a sequence of L\*a\*b\* coordinates, in order.
pub open spec fn srgb_colours(labs: Seq<palette::Lab>) -> Seq<Rgb> {
    Seq::new(labs.len(), |i: int| srgb_of_lab(labs[i]))
}

/// Takes a buffer of RGBA pixels into L\*a\*b\*, sample by sample.
pub fn pixels_to_lab(bytes: &Vec<u8>) -> (lab: Vec<palette::Lab>)
    requires
        bytes@.len() % 4 == 0,
    ensures
        lab@ == lab_samples(bytes@),
        lab@.len() * 4 == bytes@.len(),
{
    let len = bytes.len();
    let count = len / 4;
    let mut lab: Vec<palette::Lab> = Vec::new();
    let mut i: usize = 0;
    while i < count
        invariant
            i <= count,
            len == bytes@.len(),
            count == len / 4,
            len % 4 == 0,
            lab@.len() == i,
            forall|j: int|
                0 <= j < i ==> lab@[j] == lab_of_srgb(
                    bytes@[4 * j],
                    bytes@[4 * j + 1],
                    bytes@[4 * j + 2],
                ),
        decreases count - i,
    {
        lab.push(srgb_to_lab(bytes[4 * i], bytes[4 * i + 1], bytes[4 * i + 2]));
        i = i + 1;
    }
    assert(lab@ =~= lab_samples(bytes@));
    lab
}

/// Takes L\*a\*b\* coordinates back to display colours, one by one.
pub fn lab_to_colours(labs: &Vec<palette::Lab>) -> (colours: Vec<Rgb>)
    ensures
        colours@ == srgb_colours(labs@),
{
    let mut colours: Vec<Rgb> = Vec::new();
    let mut i: usize = 0;
    while i < labs.len()
        invariant
            i <= labs@.len(),
            colours@.len() == i,
            forall|j: int| 0 <= j < i ==> colours@[j] == srgb_of_lab(labs@[j]),
        decreases labs@.len() - i,
    {
        colours.push(lab_to_srgb(&labs[i]));
        i = i + 1;
    }
    assert(colours@ =~= srgb_colours(labs@));
    colours
}

} // verus!
