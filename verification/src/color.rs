//! Colours written as hexadecimal text: `#rrggbb` or `#rrggbbaa`.
//!
//! A colour is one `#` followed by six or eight hexadecimal digits, two for
//! each of red, green, blue and, where there are eight, alpha; six digits give
//! an opaque colour. Every other text is refused.

use macroquad::color::Color;
use vstd::prelude::*;
use vstd::string::*;

verus! {

const DIGIT_0: u8 = 0x30;

const DIGIT_9: u8 = 0x39;

const UPPER_A: u8 = 0x41;

const UPPER_F: u8 = 0x46;

const LOWER_A: u8 = 0x61;

const LOWER_F: u8 = 0x66;

/// Why a text is not a colour.
#[derive(Clone, Copy, Debug, PartialEq, Eq)]
pub enum ColorError {
    /// The text does not start with `#`.
    MissingHash,
    /// Something other than a hexadecimal digit follows the `#`.
    BadDigit,
    /// The digits are neither six nor eight.
    BadLength,
}

impl ColorError {
    /// One line that tells the user what is wrong with the text.
    pub fn describe(&self) -> (line: &'static str)
        ensures
            line@ == match self {
                ColorError::MissingHash => "hex color starts with #"@,
                ColorError::BadDigit => "invalid hex color"@,
                ColorError::BadLength => "hex color in rrggbbaa or rrggbb"@,
            },
    {
        match self {
            ColorError::MissingHash => "hex color starts with #",
            ColorError::BadDigit => "invalid hex color",
            ColorError::BadLength => "hex color in rrggbbaa or rrggbb",
        }
    }
}

/// Red, green, blue and alpha, each from 0 to 255.
#[derive(Clone, Copy, Debug, PartialEq, Eq)]
pub struct Rgba {
    pub r: u8,
    pub g: u8,
    pub b: u8,
    pub a: u8,
}

/// `macroquad::color::Color`, the colour that the drawing calls take. Nothing
/// is known of what is inside one.
#[verifier::external_type_specification]
#[verifier::external_body]
pub struct ExColor(macroquad::color::Color);

/// The colour that `macroquad::color::Color::from_rgba` builds from four
/// channels.
pub uninterp spec fn color_from_rgba(r: u8, g: u8, b: u8, a: u8) -> Color;

/// `macroquad::color::Color::from_rgba` divides each channel by 255 and stores
/// the four quotients; it reads nothing but its arguments, so equal channels
/// give equal colours. The contract claims only that.
pub assume_specification[ macroquad::color::Color::from_rgba ](r: u8, g: u8, b: u8, a: u8) -> (color:
    Color)
    ensures
        color == color_from_rgba(r, g, b, a),
;

/// `0`-`9`, `a`-`f` or `A`-`F`.
pub open spec fn is_hex_digit(c: char) -> bool {
    ||| '0' <= c <= '9'
    ||| 'a' <= c <= 'f'
    ||| 'A' <= c <= 'F'
}

/// The number from 0 to 15 that a hexadecimal digit stands for.
pub open spec fn digit_value(c: char) -> int {
    if '0' <= c <= '9' {
        c as int - '0' as int
    } else if 'a' <= c <= 'f' {
        c as int - 'a' as int + 10
    } else {
        c as int - 'A' as int + 10
    }
}

/// Every character is a hexadecimal digit.
pub open spec fn all_hex(digits: Seq<char>) -> bool {
    forall|i: int| 0 <= i < digits.len() ==> is_hex_digit(#[trigger] digits[i])
}

/// The value of the `k`-th pair of digits.
pub open spec fn channel(digits: Seq<char>, k: int) -> int {
    16 * digit_value(digits[2 * k]) + digit_value(digits[2 * k + 1])
}

/// The colour that six or eight hexadecimal digits spell.
pub open spec fn rgba_of(digits: Seq<char>) -> Rgba {
    Rgba {
        r: channel(digits, 0) as u8,
        g: channel(digits, 1) as u8,
        b: channel(digits, 2) as u8,
        a: if digits.len() == 8 {
            channel(digits, 3) as u8
        } else {
            255
        },
    }
}

/// What a text means as a colour. A missing `#` is reported first, then a
/// character after it that is no digit, then a wrong number of digits.
pub open spec fn parsed(text: Seq<char>) -> Result<Rgba, ColorError> {
    if text.len() == 0 || text[0] != '#' {
        Err(ColorError::MissingHash)
    } else if !all_hex(text.drop_first()) {
        Err(ColorError::BadDigit)
    } else if text.len() != 7 && text.len() != 9 {
        Err(ColorError::BadLength)
    } else {
        Ok(rgba_of(text.drop_first()))
    }
}

fn is_hex_byte(byte: u8) -> (hex: bool)
    ensures
        hex == is_hex_digit(byte as char),
{
    (DIGIT_0 <= byte && byte <= DIGIT_9) || (LOWER_A <= byte && byte <= LOWER_F) || (UPPER_A
        <= byte && byte <= UPPER_F)
}

fn hex_byte_value(byte: u8) -> (value: u8)
    requires
        is_hex_digit(byte as char),
    ensures
        value == digit_value(byte as char),
        value < 16,
{
    if DIGIT_0 <= byte && byte <= DIGIT_9 {
        byte - DIGIT_0
    } else if LOWER_A <= byte && byte <= LOWER_F {
        byte - LOWER_A + 10
    } else {
        byte - UPPER_A + 10
    }
}

fn pair_value(high: u8, low: u8) -> (value: u8)
    requires
        is_hex_digit(high as char),
        is_hex_digit(low as char),
    ensures
        value == 16 * digit_value(high as char) + digit_value(low as char),
{
    16 * hex_byte_value(high) + hex_byte_value(low)
}

/// Reads a colour's four channels from hexadecimal text.
pub fn parse_rgba(hex: &str) -> (result: Result<Rgba, ColorError>)
    ensures
        result == parsed(hex@),
{
    broadcast use is_ascii_spec_bytes;

    let ghost text = hex@;
    if hex.is_empty() {
        return Err(ColorError::MissingHash);
    }
    if hex.get_char(0) != '#' {
        return Err(ColorError::MissingHash);
    }
    let ghost digits = text.drop_first();
    if !hex.is_ascii() {
        proof {
            let at = choose|i: int| 0 <= i < text.len() && !('\0' <= #[trigger] text[i] <= '\u{7f}');
            assert(!is_hex_digit(digits[at - 1]));
        }
        return Err(ColorError::BadDigit);
    }
    let bytes = hex.as_bytes();
    assert(forall|i: int| 0 <= i < text.len() ==> (#[trigger] bytes@[i]) as char == text[i]);
    let length: usize = bytes.len();
    let mut checked: usize = 1;
    while checked < length
        invariant
            1 <= checked <= length == bytes@.len() == text.len(),
            text == hex@,
            text[0] == '#',
            digits == text.drop_first(),
            forall|i: int| 0 <= i < text.len() ==> (#[trigger] bytes@[i]) as char == text[i],
            forall|i: int| 1 <= i < checked ==> is_hex_digit(#[trigger] text[i]),
        decreases length - checked,
    {
        if !is_hex_byte(bytes[checked]) {
            assert(!is_hex_digit(digits[checked - 1]));
            return Err(ColorError::BadDigit);
        }
        checked = checked + 1;
    }
    assert forall|i: int| 0 <= i < digits.len() implies is_hex_digit(#[trigger] digits[i]) by {
        assert(digits[i] == text[i + 1]);
    }
    if length != 7 && length != 9 {
        return Err(ColorError::BadLength);
    }
    assert(forall|i: int| 0 <= i < length - 1 ==> digits[i] == (#[trigger] bytes@[i + 1]) as char);
    let r: u8 = pair_value(bytes[1], bytes[2]);
    let g: u8 = pair_value(bytes[3], bytes[4]);
    let b: u8 = pair_value(bytes[5], bytes[6]);
    let a: u8 = if length == 9 {
        pair_value(bytes[7], bytes[8])
    } else {
        255
    };
    Ok(Rgba { r, g, b, a })
}

/// Reads a colour from hexadecimal text.
pub fn parse_hex(hex: &str) -> (result: Result<Color, ColorError>)
    ensures
        result == match parsed(hex@) {
            Ok(rgba) => Ok(color_from_rgba(rgba.r, rgba.g, rgba.b, rgba.a)),
            Err(error) => Err(error),
        },
{
    match parse_rgba(hex) {
        Ok(rgba) => Ok(Color::from_rgba(rgba.r, rgba.g, rgba.b, rgba.a)),
        Err(error) => Err(error),
    }
}

} // verus!
