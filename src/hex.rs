//! Colours written as six hexadecimal digits, `rrggbb`.

use vstd::prelude::*;

verus! {

/// The value of the ASCII hexadecimal digit `c`, either case.
pub open spec fn hex_digit_value(c: u8) -> Option<u8> {
    if 48 <= c <= 57 {
        Some((c - 48) as u8)
    } else if 97 <= c <= 102 {
        Some((c - 87) as u8)
    } else if 65 <= c <= 70 {
        Some((c - 55) as u8)
    } else {
        None
    }
}

/// The byte that the two characters `hi lo` spell in base 16, as
/// `u8::from_str_radix` reads them: two digits, or a `+` sign and one digit.
pub open spec fn hex_byte_value(hi: u8, lo: u8) -> Option<u8> {
    if hi == 43 {
        hex_digit_value(lo)
    } else {
        match (hex_digit_value(hi), hex_digit_value(lo)) {
            (Some(a), Some(b)) => Some((16 * a + b) as u8),
            _ => None,
        }
    }
}

/// The red, green and blue bytes that six characters spell, if each pair
/// spells a byte.
pub open spec fn hex_color(h: Seq<u8>) -> Option<Seq<u8>> {
    match (hex_byte_value(h[0], h[1]), hex_byte_value(h[2], h[3]), hex_byte_value(h[4], h[5])) {
        (Some(r), Some(g), Some(b)) => Some(seq![r, g, b]),
        _ => None,
    }
}

fn hex_digit(c: u8) -> (r: Option<u8>)
    ensures
        r == hex_digit_value(c),
{
    if 48 <= c && c <= 57 {
        Some(c - 48)
    } else if 97 <= c && c <= 102 {
        Some(c - 87)
    } else if 65 <= c && c <= 70 {
        Some(c - 55)
    } else {
        None
    }
}

fn hex_byte(hi: u8, lo: u8) -> (r: Option<u8>)
    ensures
        r == hex_byte_value(hi, lo),
{
    if hi == 43 {
        return hex_digit(lo);
    }
    match (hex_digit(hi), hex_digit(lo)) {
        (Some(a), Some(b)) => Some(16 * a + b),
        _ => None,
    }
}

/// Reads a colour such as `b"ffa500"`; `None` when a pair of characters is
/// neither two hexadecimal digits nor a `+` sign and one digit.
pub fn hex_rgb(hex: &[u8; 6]) -> (r: Option<[u8; 3]>)
    ensures
        r.is_some() == hex_color(hex@).is_some(),
        r.is_some() ==> r.unwrap()@ == hex_color(hex@).unwrap(),
{
    let r = hex_byte(hex[0], hex[1]);
    let g = hex_byte(hex[2], hex[3]);
    let b = hex_byte(hex[4], hex[5]);
    match (r, g, b) {
        (Some(r), Some(g), Some(b)) => {
            let c = [r, g, b];
            assert(c@ =~= seq![r, g, b]);
            Some(c)
        },
        _ => None,
    }
}

} // verus!
