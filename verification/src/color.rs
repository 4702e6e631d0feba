//! RGB colors and their hexadecimal notation.

use vstd::prelude::*;
use vstd::string::StrSliceExecFns;

verus! {

/// A color of three 8-bit channels.
#[derive(Clone, Copy, Debug, PartialEq, Eq, Structural)]
pub struct Color {
    pub red: u8,
    pub green: u8,
    pub blue: u8,
}

/// The value of a hexadecimal digit, in either case; `None` for any other character.
pub open spec fn hex_digit(c: char) -> Option<u8> {
    let v = c as u32;
    if 0x30 <= v <= 0x39 {
        Some((v - 0x30) as u8)
    } else if 0x61 <= v <= 0x66 {
        Some((v - 0x61 + 10) as u8)
    } else if 0x41 <= v <= 0x46 {
        Some((v - 0x41 + 10) as u8)
    } else {
        None
    }
}

/// Whether every character of `s` from position 1 on is a hexadecimal digit.
pub open spec fn hex_digits_after_prefix(s: Seq<char>) -> bool {
    forall|i: int| 1 <= i < s.len() ==> (#[trigger] hex_digit(s[i])) is Some
}

/// The color that a hex string denotes: `#rgb` doubles each digit,
/// `#rrggbb` reads each channel from two digits. Any other text denotes none.
pub open spec fn parse_hex(s: Seq<char>) -> Option<Color> {
    if s.len() != 4 && s.len() != 7 {
        None
    } else if s[0] != '#' || !hex_digits_after_prefix(s) {
        None
    } else if s.len() == 4 {
        Some(
            Color {
                red: (17 * hex_digit(s[1]).unwrap()) as u8,
                green: (17 * hex_digit(s[2]).unwrap()) as u8,
                blue: (17 * hex_digit(s[3]).unwrap()) as u8,
            },
        )
    } else {
        Some(
            Color {
                red: (16 * hex_digit(s[1]).unwrap() + hex_digit(s[2]).unwrap()) as u8,
                green: (16 * hex_digit(s[3]).unwrap() + hex_digit(s[4]).unwrap()) as u8,
                blue: (16 * hex_digit(s[5]).unwrap() + hex_digit(s[6]).unwrap()) as u8,
            },
        )
    }
}

/// Reads one hexadecimal digit.
fn hex_digit_of(c: char) -> (r: Option<u8>)
    ensures
        r == hex_digit(c),
        r matches Some(d) ==> d < 16,
{
    let v: u32 = c as u32;
    if 0x30 <= v && v <= 0x39 {
        Some((v - 0x30) as u8)
    } else if 0x61 <= v && v <= 0x66 {
        Some((v - 0x61 + 10) as u8)
    } else if 0x41 <= v && v <= 0x46 {
        Some((v - 0x41 + 10) as u8)
    } else {
        None
    }
}

impl Color {
    /// A color from its three channels.
    pub fn rgb(red: u8, green: u8, blue: u8) -> (c: Self)
        ensures
            c == (Color { red, green, blue }),
    {
        Color { red, green, blue }
    }

    /// Parses `#rgb` or `#rrggbb`. A missing `#`, any other length and any
    /// character that is not a hexadecimal digit are rejected.
    pub fn hex(hex: &str) -> (r: Result<Self, ()>)
        ensures
            r == match parse_hex(hex@) {
                Some(c) => Ok::<Color, ()>(c),
                None => Err::<Color, ()>(()),
            },
    {
        let n: usize = hex.unicode_len();
        if n != 4 && n != 7 {
            return Err(());
        }
        if hex.get_char(0) != '#' {
            return Err(());
        }
        let mut digits: Vec<u8> = Vec::new();
        let mut i: usize = 1;
        while i < n
            invariant
                1 <= i <= n,
                n == hex@.len(),
                digits@.len() == i - 1,
                forall|k: int|
                    0 <= k < digits@.len() ==> hex_digit(hex@[k + 1]) == Some(#[trigger] digits@[k])
                        && digits@[k] < 16,
            decreases n - i,
        {
            match hex_digit_of(hex.get_char(i)) {
                Some(d) => {
                    digits.push(d);
                },
                None => {
                    assert(!hex_digits_after_prefix(hex@));
                    return Err(());
                },
            }
            i = i + 1;
        }
        assert(hex_digits_after_prefix(hex@)) by {
            assert forall|j: int| 1 <= j < hex@.len() implies (#[trigger] hex_digit(hex@[j])) is Some by {
                assert(digits@[j - 1] < 16);
            }
        }
        if n == 4 {
            assert(digits@[0] < 16 && digits@[1] < 16 && digits@[2] < 16);
            Ok(Color::rgb(17 * digits[0], 17 * digits[1], 17 * digits[2]))
        } else {
            assert(digits@[0] < 16 && digits@[1] < 16 && digits@[2] < 16);
            assert(digits@[3] < 16 && digits@[4] < 16 && digits@[5] < 16);
            Ok(
                Color::rgb(
                    16 * digits[0] + digits[1],
                    16 * digits[2] + digits[3],
                    16 * digits[4] + digits[5],
                ),
            )
        }
    }
}

} // verus!
