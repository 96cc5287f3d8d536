//! Display colours and their text forms.
use vstd::prelude::*;
use vstd::string::StringExecFns;

verus! {

/// A colour of the sRGB space with eight bits to each channel.
#[derive(Clone, Copy, Debug, PartialEq, Eq, Structural)]
pub struct Rgb {
    pub red: u8,
    pub green: u8,
    pub blue: u8,
}

impl Rgb {
    /// `#000000`.
    pub open spec fn spec_black() -> Rgb {
        Rgb { red: 0, green: 0, blue: 0 }
    }

    /// `#ffffff`.
    pub open spec fn spec_white() -> Rgb {
        Rgb { red: 255, green: 255, blue: 255 }
    }

    pub fn new(red: u8, green: u8, blue: u8) -> (out: Rgb)
        ensures
            out == (Rgb { red, green, blue }),
    {
        Rgb { red, green, blue }
    }

    #[verifier::when_used_as_spec(spec_black)]
    pub fn black() -> (out: Rgb)
        ensures
            out == Rgb::spec_black(),
    {
        Rgb { red: 0, green: 0, blue: 0 }
    }

    #[verifier::when_used_as_spec(spec_white)]
    pub fn white() -> (out: Rgb)
        ensures
            out == Rgb::spec_white(),
    {
        Rgb { red: 255, green: 255, blue: 255 }
    }

    /// The colour as `#rrggbb`, in lower-case hexadecimal digits.
    pub fn to_hex(&self) -> (out: String)
        ensures
            out@ == hex_text(*self),
    {
        let mut out = String::from_str("#");
        proof {
            reveal_strlit("#");
        }
        push_hex_pair(&mut out, self.red);
        push_hex_pair(&mut out, self.green);
        push_hex_pair(&mut out, self.blue);
        assert(out@ =~= hex_text(*self));
        out
    }
}

/// The sixteen hexadecimal digits, in lower case.
pub open spec fn digits() -> Seq<char> {
    seq!['0', '1', '2', '3', '4', '5', '6', '7', '8', '9', 'a', 'b', 'c', 'd', 'e', 'f']
}

/// A byte as two hexadecimal digits.
pub open spec fn hex_pair(n: u8) -> Seq<char> {
    seq![digits()[n as int / 16], digits()[n as int % 16]]
}

/// A number below a thousand in decimal digits, without leading zeros.
pub open spec fn decimal(n: int) -> Seq<char> {
    if n >= 100 {
        seq![digits()[n / 100], digits()[n / 10 % 10], digits()[n % 10]]
    } else if n >= 10 {
        seq![digits()[n / 10], digits()[n % 10]]
    } else {
        seq![digits()[n]]
    }
}

/// A colour as `#rrggbb`.
pub open spec fn hex_text(colour: Rgb) -> Seq<char> {
    seq!['#'] + hex_pair(colour.red) + hex_pair(colour.green) + hex_pair(colour.blue)
}

/// The text of one hexadecimal digit.
pub(crate) fn digit_text(d: u8) -> (out: &'static str)
    requires
        d < 16,
    ensures
        out@ == seq![digits()[d as int]],
{
    proof {
        reveal_strlit("0");
        reveal_strlit("1");
        reveal_strlit("2");
        reveal_strlit("3");
        reveal_strlit("4");
        reveal_strlit("5");
        reveal_strlit("6");
        reveal_strlit("7");
        reveal_strlit("8");
        reveal_strlit("9");
        reveal_strlit("a");
        reveal_strlit("b");
        reveal_strlit("c");
        reveal_strlit("d");
        reveal_strlit("e");
        reveal_strlit("f");
    }
    let out = if d == 0 {
        "0"
    } else if d == 1 {
        "1"
    } else if d == 2 {
        "2"
    } else if d == 3 {
        "3"
    } else if d == 4 {
        "4"
    } else if d == 5 {
        "5"
    } else if d == 6 {
        "6"
    } else if d == 7 {
        "7"
    } else if d == 8 {
        "8"
    } else if d == 9 {
        "9"
    } else if d == 10 {
        "a"
    } else if d == 11 {
        "b"
    } else if d == 12 {
        "c"
    } else if d == 13 {
        "d"
    } else if d == 14 {
        "e"
    } else {
        "f"
    };
    assert(out@ =~= seq![digits()[d as int]]);
    out
}

/// Appends a byte as two hexadecimal digits.
pub(crate) fn push_hex_pair(text: &mut String, n: u8)
    ensures
        final(text)@ == old(text)@ + hex_pair(n),
{
    text.append(digit_text(n / 16));
    text.append(digit_text(n % 16));
    assert(text@ =~= old(text)@ + hex_pair(n));
}

/// Appends a number below a thousand in decimal digits.
pub(crate) fn push_decimal(text: &mut String, n: u16)
    requires
        n < 1000,
    ensures
        final(text)@ == old(text)@ + decimal(n as int),
{
    if n >= 100 {
        text.append(digit_text((n / 100) as u8));
    }
    if n >= 10 {
        text.append(digit_text((n / 10 % 10) as u8));
    }
    text.append(digit_text((n % 10) as u8));
    assert(text@ =~= old(text)@ + decimal(n as int));
}

} // verus!
