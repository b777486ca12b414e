//! Colors written as hex codes, such as `#0080ff` or `fa0`.

use palette::Srgb;
use vstd::prelude::*;
use vstd::utf8::is_ascii_chars;

verus! {

/// Whether `c` is a hexadecimal digit.
pub open spec fn is_hex_digit(c: char) -> bool {
    ('0' <= c && c <= '9') || ('a' <= c && c <= 'f') || ('A' <= c && c <= 'F')
}

/// Value of the hexadecimal digit `c`.
pub open spec fn hex_digit_value(c: char) -> int {
    if '0' <= c && c <= '9' {
        c as int - '0' as int
    } else if 'a' <= c && c <= 'f' {
        c as int - 'a' as int + 10
    } else {
        c as int - 'A' as int + 10
    }
}

/// What `u8::from_str_radix(_, 16)` reads from the one character `c`.
pub open spec fn hex_nibble(c: char) -> Option<int> {
    if is_hex_digit(c) { Some(hex_digit_value(c)) } else { None }
}

/// What `u8::from_str_radix(_, 16)` reads from the two characters `a` and `b`: two
/// digits, or a `+` sign followed by one digit.
pub open spec fn hex_pair(a: char, b: char) -> Option<int> {
    if a == '+' && is_hex_digit(b) {
        Some(hex_digit_value(b))
    } else if is_hex_digit(a) && is_hex_digit(b) {
        Some(16 * hex_digit_value(a) + hex_digit_value(b))
    } else {
        None
    }
}

/// The color that a hex code names: after an optional leading `#`, either three
/// characters, each read as one digit and repeated (`fa0` is `ffaa00`), or three pairs of
/// characters, each read as a byte.
pub open spec fn hex_rgb(s: Seq<char>) -> Option<(u8, u8, u8)> {
    let h = if s.len() > 0 && s[0] == '#' { s.skip(1) } else { s };
    if h.len() == 3 {
        match (hex_nibble(h[0]), hex_nibble(h[1]), hex_nibble(h[2])) {
            (Some(r), Some(g), Some(b)) => Some(((r * 17) as u8, (g * 17) as u8, (b * 17) as u8)),
            _ => None,
        }
    } else if h.len() == 6 {
        match (hex_pair(h[0], h[1]), hex_pair(h[2], h[3]), hex_pair(h[4], h[5])) {
            (Some(r), Some(g), Some(b)) => Some((r as u8, g as u8, b as u8)),
            _ => None,
        }
    } else {
        None
    }
}

/// Calls `Srgb::<u8>::from_str` on ASCII text, on which its slicing cannot panic; claims
/// that it reads exactly [`hex_rgb`], as its source shows: the optional `#` is stripped,
/// then three or six characters are read with `u8::from_str_radix(_, 16)`, one or two at
/// a time, a one-digit component being multiplied by 17.
#[verifier::external_body]
fn palette_hex_rgb(s: &str) -> (r: Option<(u8, u8, u8)>)
    requires
        is_ascii_chars(s@),
    ensures
        r == hex_rgb(s@),
{
    match s.parse::<Srgb<u8>>() {
        Ok(c) => Some((c.red, c.green, c.blue)),
        Err(_) => None,
    }
}

/// Reads a color from a hex code of format `#ff00bb` or `#abc` (with or without the leading
/// `#`) as its red, green and blue bytes. Text with a character outside ASCII names no
/// color.
pub fn parse_hex_color(s: &str) -> (r: Option<(u8, u8, u8)>)
    ensures
        r == (if is_ascii_chars(s@) { hex_rgb(s@) } else { None }),
{
    if s.is_ascii() {
        palette_hex_rgb(s)
    } else {
        None
    }
}

/// The uppercase hexadecimal digit of value `v`, below 16.
pub open spec fn upper_hex_digit(v: int) -> char {
    if v < 10 { ((v + '0' as int) as u32) as char } else { ((v - 10 + 'A' as int) as u32) as char }
}

/// The hex code of a color: two uppercase hexadecimal digits for each of red, green and
/// blue, such as `0080FF`.
pub open spec fn hex_text(red: u8, green: u8, blue: u8) -> Seq<char> {
    seq![
        upper_hex_digit(red as int / 16), upper_hex_digit(red as int % 16),
        upper_hex_digit(green as int / 16), upper_hex_digit(green as int % 16),
        upper_hex_digit(blue as int / 16), upper_hex_digit(blue as int % 16),
    ]
}

/// Calls the `UpperHex` rendering of `Srgb<u8>`; claims that it writes [`hex_text`], as its
/// source shows: each component as two uppercase digits, zero-padded.
#[verifier::external_body]
fn palette_upper_hex(red: u8, green: u8, blue: u8) -> (r: String)
    ensures
        r@ == hex_text(red, green, blue),
{
    format!("{:X}", Srgb::<u8>::new(red, green, blue))
}

/// The hex code of the color with these red, green and blue bytes, such as `0080FF`.
pub fn to_hex_code(red: u8, green: u8, blue: u8) -> (r: String)
    ensures
        r@ == hex_text(red, green, blue),
{
    palette_upper_hex(red, green, blue)
}

proof fn lemma_upper_hex_digit(v: int)
    requires
        0 <= v < 16,
    ensures
        is_hex_digit(upper_hex_digit(v)),
        hex_digit_value(upper_hex_digit(v)) == v,
        upper_hex_digit(v) != '+',
        '\0' <= upper_hex_digit(v) <= '\u{7f}',
{
}

/// Reading the hex code of a color gives back that color.
pub proof fn law_hex_code_roundtrip(red: u8, green: u8, blue: u8)
    ensures
        is_ascii_chars(hex_text(red, green, blue)),
        hex_rgb(hex_text(red, green, blue)) == Some((red, green, blue)),
{
    let s = hex_text(red, green, blue);
    lemma_upper_hex_digit(red as int / 16);
    lemma_upper_hex_digit(red as int % 16);
    lemma_upper_hex_digit(green as int / 16);
    lemma_upper_hex_digit(green as int % 16);
    lemma_upper_hex_digit(blue as int / 16);
    lemma_upper_hex_digit(blue as int % 16);
    assert(s[0] != '#');
    assert(s.len() == 6);
    assert(16 * (red as int / 16) + red as int % 16 == red);
    assert(16 * (green as int / 16) + green as int % 16 == green);
    assert(16 * (blue as int / 16) + blue as int % 16 == blue);
}

} // verus!
