//! The text forms in which a colour can be written out.
use crate::colour::{decimal, digit_text, digits, hex_text, push_decimal, Rgb};
use crate::text::{same_text, spells3, spells5, spells6};
use vstd::prelude::*;
use vstd::string::StringExecFns;

verus! {

/// How a colour is written out.
#[derive(Clone, Copy, Debug, PartialEq, Eq, Structural)]
pub enum ColourOutput {
    /// `#rrggbb`.
    Hex,
    /// `rgb(r, g, b)`, each channel from 0 to 255.
    Rgb255,
    /// `rgb(r, g, b)`, each channel from 0.000 to 1.000.
    Rgb01,
}

/// A channel as thousandths of full intensity, rounded to the nearest.
pub open spec fn thousandths(channel: u8) -> int {
    (channel as int * 1000 + 127) / 255
}

/// A channel as a fraction of full intensity with three decimals.
pub open spec fn unit_text(channel: u8) -> Seq<char> {
    let t = thousandths(channel);
    seq![digits()[t / 1000], '.', digits()[t / 100 % 10], digits()[t / 10 % 10], digits()[t % 10]]
}

/// A colour as `rgb(r, g, b)` with channels from 0 to 255.
pub open spec fn rgb255_text(colour: Rgb) -> Seq<char> {
    seq!['r', 'g', 'b', '('] + decimal(colour.red as int) + seq![',', ' '] + decimal(
        colour.green as int,
    ) + seq![',', ' '] + decimal(colour.blue as int) + seq![')']
}

/// A colour as `rgb(r, g, b)` with channels from 0.000 to 1.000.
pub open spec fn rgb01_text(colour: Rgb) -> Seq<char> {
    seq!['r', 'g', 'b', '('] + unit_text(colour.red) + seq![',', ' '] + unit_text(colour.green)
        + seq![',', ' '] + unit_text(colour.blue) + seq![')']
}

/// The text of a colour in a given form.
pub open spec fn formatted(output: ColourOutput, colour: Rgb) -> Seq<char> {
    match output {
        ColourOutput::Hex => hex_text(colour),
        ColourOutput::Rgb255 => rgb255_text(colour),
        ColourOutput::Rgb01 => rgb01_text(colour),
    }
}

/// The three names by which a form is chosen.
pub open spec fn parsed(name: Seq<char>) -> Option<ColourOutput> {
    if spells3(name, 'h', 'e', 'x') {
        Some(ColourOutput::Hex)
    } else if spells6(name, 'r', 'g', 'b', '2', '5', '5') {
        Some(ColourOutput::Rgb255)
    } else if spells5(name, 'r', 'g', 'b', '0', '1') {
        Some(ColourOutput::Rgb01)
    } else {
        None
    }
}

/// What is said of a name that chooses no form.
pub open spec fn rejection(name: Seq<char>) -> Seq<char> {
    seq!['\''] + name
        + "' is not a recognized output format. Accepted values are hex, rgb255, and rgb01."@
}

/// Appends a channel as a fraction with three decimals.
fn push_unit(text: &mut String, channel: u8)
    ensures
        final(text)@ == old(text)@ + unit_text(channel),
{
    let t: u32 = (channel as u32 * 1000 + 127) / 255;
    text.append(digit_text((t / 1000) as u8));
    text.append(".");
    text.append(digit_text((t / 100 % 10) as u8));
    text.append(digit_text((t / 10 % 10) as u8));
    text.append(digit_text((t % 10) as u8));
    proof {
        reveal_strlit(".");
    }
    assert(text@ =~= old(text)@ + unit_text(channel));
}

impl ColourOutput {
    /// The text of `colour` in this form.
    pub fn format_colour(&self, colour: &Rgb) -> (out: String)
        ensures
            out@ == formatted(*self, *colour),
    {
        match self {
            ColourOutput::Hex => colour.to_hex(),
            ColourOutput::Rgb255 => {
                proof {
                    reveal_strlit("rgb(");
                    reveal_strlit(", ");
                    reveal_strlit(")");
                }
                let mut out = String::from_str("rgb(");
                push_decimal(&mut out, colour.red as u16);
                out.append(", ");
                push_decimal(&mut out, colour.green as u16);
                out.append(", ");
                push_decimal(&mut out, colour.blue as u16);
                out.append(")");
                assert(out@ =~= rgb255_text(*colour));
                out
            },
            ColourOutput::Rgb01 => {
                proof {
                    reveal_strlit("rgb(");
                    reveal_strlit(", ");
                    reveal_strlit(")");
                }
                let mut out = String::from_str("rgb(");
                push_unit(&mut out, colour.red);
                out.append(", ");
                push_unit(&mut out, colour.green);
                out.append(", ");
                push_unit(&mut out, colour.blue);
                out.append(")");
                assert(out@ =~= rgb01_text(*colour));
                out
            },
        }
    }

    /// The form that a name chooses: `hex`, `rgb255` or `rgb01`. Any other
    /// name is refused with a message that quotes it.
    pub fn parse(name: &str) -> (out: Result<ColourOutput, String>)
        ensures
            match out {
                Ok(output) => parsed(name@) == Some(output),
                Err(message) => parsed(name@) is None && message@ == rejection(name@),
            },
    {
        proof {
            reveal_strlit("hex");
            reveal_strlit("rgb255");
            reveal_strlit("rgb01");
            reveal_strlit("'");
            if spells3(name@, 'h', 'e', 'x') {
                assert(name@ =~= "hex"@);
            }
            if spells6(name@, 'r', 'g', 'b', '2', '5', '5') {
                assert(name@ =~= "rgb255"@);
            }
            if spells5(name@, 'r', 'g', 'b', '0', '1') {
                assert(name@ =~= "rgb01"@);
            }
        }
        if same_text(name, "hex") {
            Ok(ColourOutput::Hex)
        } else if same_text(name, "rgb255") {
            Ok(ColourOutput::Rgb255)
        } else if same_text(name, "rgb01") {
            Ok(ColourOutput::Rgb01)
        } else {
            let mut message = String::from_str("'");
            message.append(name);
            message.append(
                "' is not a recognized output format. Accepted values are hex, rgb255, and rgb01.",
            );
            assert(message@ =~= rejection(name@));
            Err(message)
        }
    }
}

impl std::str::FromStr for ColourOutput {
    type Err = String;

    /// The form that a name chooses, as [`ColourOutput::parse`] tells it.
    fn from_str(s: &str) -> (out: Result<Self, Self::Err>)
        ensures
            match out {
                Ok(output) => parsed(s@) == Some(output),
                Err(message) => parsed(s@) is None && message@ == rejection(s@),
            },
    {
        ColourOutput::parse(s)
    }
}

} // verus!
