//! The accent colour of the system, as the front end wants it.

use vstd::prelude::*;
use vstd::string::*;

verus! {

/// The digit that stands for a value below sixteen, in lower case.
pub open spec fn hex_digit(value: u8) -> char {
    if value == 0 {
        '0'
    } else if value == 1 {
        '1'
    } else if value == 2 {
        '2'
    } else if value == 3 {
        '3'
    } else if value == 4 {
        '4'
    } else if value == 5 {
        '5'
    } else if value == 6 {
        '6'
    } else if value == 7 {
        '7'
    } else if value == 8 {
        '8'
    } else if value == 9 {
        '9'
    } else if value == 10 {
        'a'
    } else if value == 11 {
        'b'
    } else if value == 12 {
        'c'
    } else if value == 13 {
        'd'
    } else if value == 14 {
        'e'
    } else {
        'f'
    }
}

/// The two digits of a byte.
pub open spec fn hex_byte(value: u8) -> Seq<char> {
    seq![hex_digit(value / 16), hex_digit(value % 16)]
}

/// A colour written as `#rrggbb`.
pub open spec fn hex_color(r: u8, g: u8, b: u8) -> Seq<char> {
    seq!['#'] + hex_byte(r) + hex_byte(g) + hex_byte(b)
}

/// The digit of a value below sixteen, as a string.
fn digit_text(value: u8) -> (text: &'static str)
    requires
        value < 16,
    ensures
        text@ == seq![hex_digit(value)],
{
    proof {
        reveal_strlit("0");
        reveal_strlit("1");
        reveal_strlit("2");
        reveal_strlit("3");
        reveal_strlit("4");
        reveal_strlit("5");
        reveal_strlit("6");
        reveal_strlit("7");
        reveal_strlit("8");
        reveal_strlit("9");
        reveal_strlit("a");
        reveal_strlit("b");
        reveal_strlit("c");
        reveal_strlit("d");
        reveal_strlit("e");
        reveal_strlit("f");
    }
    let text = if value == 0 {
        "0"
    } else if value == 1 {
        "1"
    } else if value == 2 {
        "2"
    } else if value == 3 {
        "3"
    } else if value == 4 {
        "4"
    } else if value == 5 {
        "5"
    } else if value == 6 {
        "6"
    } else if value == 7 {
        "7"
    } else if value == 8 {
        "8"
    } else if value == 9 {
        "9"
    } else if value == 10 {
        "a"
    } else if value == 11 {
        "b"
    } else if value == 12 {
        "c"
    } else if value == 13 {
        "d"
    } else if value == 14 {
        "e"
    } else {
        "f"
    };
    assert(text@ =~= seq![hex_digit(value)]);
    text
}

/// Appends the two digits of a byte.
fn push_hex_byte(text: &mut String, value: u8)
    ensures
        final(text)@ == old(text)@ + hex_byte(value),
{
    text.append(digit_text(value / 16));
    text.append(digit_text(value % 16));
    assert(text@ =~= old(text)@ + hex_byte(value));
}

/// Writes a colour as `#rrggbb`.
pub fn color_hex(r: u8, g: u8, b: u8) -> (hex: String)
    ensures
        hex@ == hex_color(r, g, b),
{
    proof {
        reveal_strlit("#");
    }
    let mut hex = String::from_str("#");
    assert(hex@ =~= seq!['#']);
    push_hex_byte(&mut hex, r);
    push_hex_byte(&mut hex, g);
    push_hex_byte(&mut hex, b);
    hex
}

/// The accent colour of the system as `#rrggbb`, where the system gave one.
pub fn get_system_accent_color_hex(color: Option<(u8, u8, u8)>) -> (hex: Option<String>)
    ensures
        match color {
            Some(rgb) => hex matches Some(text) && text@ == hex_color(rgb.0, rgb.1, rgb.2),
            None => hex is None,
        },
{
    match color {
        Some(rgb) => Some(color_hex(rgb.0, rgb.1, rgb.2)),
        None => None,
    }
}

/// The accent colour as the front end receives it.
#[derive(Clone, Debug)]
pub struct AccentColor {
    pub r: u8,
    pub g: u8,
    pub b: u8,
    pub hex: String,
}

/// The accent colour of the system in both forms, where the system gave one.
pub fn get_accent_color(color: Option<(u8, u8, u8)>) -> (accent: Option<AccentColor>)
    ensures
        match color {
            Some(rgb) => accent matches Some(held) && held.r == rgb.0 && held.g == rgb.1 && held.b
                == rgb.2 && held.hex@ == hex_color(rgb.0, rgb.1, rgb.2),
            None => accent is None,
        },
{
    match color {
        Some(rgb) => Some(
            AccentColor { r: rgb.0, g: rgb.1, b: rgb.2, hex: color_hex(rgb.0, rgb.1, rgb.2) },
        ),
        None => None,
    }
}

/// Whether the colour differs from the one seen before, so that listeners
/// are to be told.
pub fn accent_color_changed(last: Option<(u8, u8, u8)>, current: Option<(u8, u8, u8)>) -> (changed:
    bool)
    ensures
        changed == (last != current),
{
    match (last, current) {
        (Some(a), Some(b)) => a.0 != b.0 || a.1 != b.1 || a.2 != b.2,
        (None, None) => false,
        _ => true,
    }
}

/// The colour of a title bar as the window system takes it: red in the
/// lowest byte, then green, then blue.
pub fn titlebar_color_value(r: u8, g: u8, b: u8) -> (value: u32)
    ensures
        value == r + 256 * g + 65536 * b,
{
    let red: u32 = r as u32;
    let green: u32 = g as u32;
    let blue: u32 = b as u32;
    let value: u32 = blue << 16 | green << 8 | red;
    assert(value == red + 256 * green + 65536 * blue) by (bit_vector)
        requires
            value == blue << 16 | green << 8 | red,
            red < 256,
            green < 256,
            blue < 256,
    ;
    value
}

} // verus!
