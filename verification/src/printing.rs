//! The line in which a colour is shown on a terminal.
use crate::colour::{decimal, hex_text, push_decimal, Rgb};
use vstd::prelude::*;
use vstd::string::StringExecFns;

verus! {

/// The three channels of a colour in decimal digits, with semicolons
/// between them, as an ANSI escape sequence takes them.
pub open spec fn channels_text(c: Rgb) -> Seq<char> {
    decimal(c.red as int) + seq![';'] + decimal(c.green as int) + seq![';'] + decimal(
        c.blue as int,
    )
}

/// The escape sequence that sets the background of what follows.
pub open spec fn background_text(background: Option<Rgb>) -> Seq<char> {
    match background {
        Some(on) => seq!['\x1B', '[', '4', '8', ';', '2', ';'] + channels_text(on) + seq!['m'],
        None => Seq::empty(),
    }
}

/// The line that shows a colour: its hexadecimal form alone, or, with a
/// palette, a block in the colour and the hexadecimal form in the colour, on
/// the background where one is given, and a reset at the end.
pub open spec fn colour_line_text(c: Rgb, background: Option<Rgb>, no_palette: bool) -> Seq<
    char,
> {
    if no_palette {
        hex_text(c)
    } else {
        background_text(background) + seq!['\x1B', '[', '3', '8', ';', '2', ';'] + channels_text(
            c,
        ) + seq!['m', '\u{2587}', ' '] + hex_text(c) + seq!['\x1B', '[', '0', 'm']
    }
}

/// Appends the three channels of a colour, with semicolons between them.
fn push_channels(text: &mut String, c: &Rgb)
    ensures
        final(text)@ == old(text)@ + channels_text(*c),
{
    proof {
        reveal_strlit(";");
    }
    push_decimal(text, c.red as u16);
    text.append(";");
    push_decimal(text, c.green as u16);
    text.append(";");
    push_decimal(text, c.blue as u16);
    assert(text@ =~= old(text)@ + channels_text(*c));
}

/// The line that shows a colour on a terminal, without the line break.
pub fn colour_line(c: &Rgb, background: &Option<Rgb>, no_palette: bool) -> (line: String)
    ensures
        line@ == colour_line_text(*c, *background, no_palette),
{
    let hex = c.to_hex();
    if no_palette {
        return hex;
    }
    proof {
        reveal_strlit("\x1B[48;2;");
        reveal_strlit("\x1B[38;2;");
        reveal_strlit("m");
        reveal_strlit("m\u{2587} ");
        reveal_strlit("\x1B[0m");
    }
    let mut line = String::new();
    match background {
        Some(on) => {
            line.append("\x1B[48;2;");
            push_channels(&mut line, on);
            line.append("m");
            assert(line@ =~= background_text(*background));
        },
        None => {
            assert(line@ =~= background_text(*background));
        },
    }
    line.append("\x1B[38;2;");
    push_channels(&mut line, c);
    line.append("m\u{2587} ");
    line.append(hex.as_str());
    line.append("\x1B[0m");
    assert(line@ =~= colour_line_text(*c, *background, no_palette));
    line
}

} // verus!
