//! Small helpers on texts.
use vstd::prelude::*;
use vstd::string::StrSliceExecFns;

verus! {

/// An ASCII capital as its small letter, any other character as itself.
pub open spec fn ascii_lower(c: char) -> char {
    if 'A' <= c && c <= 'Z' {
        ((c as u8) + 32) as char
    } else {
        c
    }
}

/// A text with its ASCII capitals made small.
pub open spec fn ascii_lowercase(text: Seq<char>) -> Seq<char> {
    Seq::new(text.len(), |i: int| ascii_lower(text[i]))
}

/// The text is these two characters.
pub open spec fn spells2(text: Seq<char>, a: char, b: char) -> bool {
    text.len() == 2 && text[0] == a && text[1] == b
}

/// The text is these three characters.
pub open spec fn spells3(text: Seq<char>, a: char, b: char, c: char) -> bool {
    text.len() == 3 && text[0] == a && text[1] == b && text[2] == c
}

/// The text is these four characters.
pub open spec fn spells4(text: Seq<char>, a: char, b: char, c: char, d: char) -> bool {
    text.len() == 4 && text[0] == a && text[1] == b && text[2] == c && text[3] == d
}

/// The text is these five characters.
pub open spec fn spells5(text: Seq<char>, a: char, b: char, c: char, d: char, e: char) -> bool {
    text.len() == 5 && text[0] == a && text[1] == b && text[2] == c && text[3] == d && text[4]
        == e
}

/// The text is these six characters.
pub open spec fn spells6(
    text: Seq<char>,
    a: char,
    b: char,
    c: char,
    d: char,
    e: char,
    f: char,
) -> bool {
    text.len() == 6 && text[0] == a && text[1] == b && text[2] == c && text[3] == d && text[4]
        == e && text[5] == f
}

/// Whether two strings hold the same characters.
pub fn same_text(a: &str, b: &str) -> (same: bool)
    ensures
        same == (a@ == b@),
{
    let n = a.unicode_len();
    if n != b.unicode_len() {
        return false;
    }
    let mut i: usize = 0;
    while i < n
        invariant
            i <= n,
            n == a@.len(),
            n == b@.len(),
            forall|j: int| 0 <= j < i ==> a@[j] == b@[j],
        decreases n - i,
    {
        if a.get_char(i) != b.get_char(i) {
            return false;
        }
        i = i + 1;
    }
    assert(a@ =~= b@);
    true
}

} // verus!
