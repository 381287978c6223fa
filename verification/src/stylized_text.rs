//! Text stylizing.
//!
//! The [`stylize`] function converts the letters A to Z and a to z and the digits
//! 0 to 9 into stylized variants, according to a [`FontStyle`].
use vstd::prelude::*;

verus! {

/// `char::from_u32` of std: the character with the given code, where the code is
/// a Unicode scalar value, and `None` where it is not.
pub assume_specification[ char::from_u32 ](code: u32) -> (c: Option<char>)
    ensures
        (code <= 0xD7FF || 0xE000 <= code <= 0x10FFFF) ==> c == Some(code as char),
        !(code <= 0xD7FF || 0xE000 <= code <= 0x10FFFF) ==> c is None,
;

/// `String::push` of std: appends the character to the end of the string.
pub assume_specification[ String::push ](s: &mut String, c: char)
    ensures
        final(s)@ == old(s)@.push(c),
;

/// Enum representing different font styles.
#[derive(Debug, Clone, Copy, PartialEq, Eq, Structural)]
pub enum FontStyle {
    /// Blackboard Bold (Double-struck) style.
    BlackBoardBold,
    /// Bold Fraktur style.
    FrakturBold,
    /// Script style.
    Script,
}

/// The code of the stylized variant of a character.
pub open spec fn styled_code(c: char, style: FontStyle) -> int {
    let code = c as int;
    let upper = 'A' <= c <= 'Z';
    let lower = 'a' <= c <= 'z';
    let digit = '0' <= c <= '9';
    match style {
        FontStyle::BlackBoardBold => {
            if c == 'C' {
                0x2102
            } else if c == 'H' {
                0x210D
            } else if c == 'N' {
                0x2115
            } else if c == 'P' {
                0x2119
            } else if c == 'Q' {
                0x211A
            } else if c == 'R' {
                0x211D
            } else if c == 'Z' {
                0x2124
            } else if upper {
                0x1D538 + (code - 'A' as int)
            } else if lower {
                0x1D552 + (code - 'a' as int)
            } else if digit {
                0x1D7D8 + (code - '0' as int)
            } else {
                code
            }
        },
        FontStyle::FrakturBold => {
            if upper {
                0x1D56C + (code - 'A' as int)
            } else if lower {
                0x1D586 + (code - 'a' as int)
            } else if digit {
                0x1D7CE + (code - '0' as int)
            } else {
                code
            }
        },
        FontStyle::Script => {
            if upper {
                0x1D4D0 + (code - 'A' as int)
            } else if lower {
                0x1D4EA + (code - 'a' as int)
            } else if digit {
                0x1D7CE + (code - '0' as int)
            } else {
                code
            }
        },
    }
}

/// The stylized variant of a character.
pub open spec fn styled(c: char, style: FontStyle) -> char {
    styled_code(c, style) as char
}

/// The first code of the stylized capital letters, small letters and digits of
/// a style.
fn bases(style: FontStyle) -> (res: (u32, u32, u32))
    ensures
        res == match style {
            FontStyle::BlackBoardBold => (0x1D538u32, 0x1D552u32, 0x1D7D8u32),
            FontStyle::FrakturBold => (0x1D56Cu32, 0x1D586u32, 0x1D7CEu32),
            FontStyle::Script => (0x1D4D0u32, 0x1D4EAu32, 0x1D7CEu32),
        },
{
    match style {
        FontStyle::BlackBoardBold => (0x1D538, 0x1D552, 0x1D7D8),
        FontStyle::FrakturBold => (0x1D56C, 0x1D586, 0x1D7CE),
        FontStyle::Script => (0x1D4D0, 0x1D4EA, 0x1D7CE),
    }
}

/// Returns the stylized Unicode character for a given `char` and [`FontStyle`].
///
/// Letters between A-z and number 0-9 are stylized. Characters outside the
/// stylized range (e.g., punctuation) are returned as-is.
pub fn stylize_char(c: char, style: FontStyle) -> (res: char)
    ensures
        res == styled(c, style),
{
    let (upper, lower, digit) = bases(style);
    let code: u32 = c as u32;
    let special: Option<u32> = match style {
        FontStyle::BlackBoardBold => match c {
            'C' => Some(0x2102),
            'H' => Some(0x210D),
            'N' => Some(0x2115),
            'P' => Some(0x2119),
            'Q' => Some(0x211A),
            'R' => Some(0x211D),
            'Z' => Some(0x2124),
            _ => None,
        },
        _ => None,
    };
    let target: Option<u32> = match special {
        Some(code) => Some(code),
        None => {
            if 'A' <= c && c <= 'Z' {
                Some(upper + (code - 'A' as u32))
            } else if 'a' <= c && c <= 'z' {
                Some(lower + (code - 'a' as u32))
            } else if '0' <= c && c <= '9' {
                Some(digit + (code - '0' as u32))
            } else {
                None
            }
        },
    };
    match target {
        Some(code) => match char::from_u32(code) {
            Some(res) => res,
            None => c,
        },
        None => c,
    }
}

/// The stylized variant of a text, character by character.
pub open spec fn styled_text(input: Seq<char>, style: FontStyle) -> Seq<char> {
    Seq::new(input.len(), |i: int| styled(input[i], style))
}

/// Stylizes the given input string using the specified [`FontStyle`].
///
/// Each character in the input is mapped to its corresponding stylized Unicode
/// character based on the provided style. Characters that do not have a stylized
/// equivalent are returned unchanged.
pub fn stylize(input: &str, style: FontStyle) -> (res: String)
    ensures
        res@ == styled_text(input@, style),
{
    let mut res = String::new();
    for c in iter: input.chars()
        invariant
            iter.seq() == input@,
            res@ == styled_text(input@.take(iter.index() as int), style),
    {
        res.push(stylize_char(c, style));
        assert(res@ =~= styled_text(input@.take(iter.index() + 1), style));
    }
    assert(input@.take(input@.len() as int) =~= input@);
    res
}

} // verus!
