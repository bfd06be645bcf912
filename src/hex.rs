//! ASCII hex digits, as used by info-hash strings and URL escapes.

use vstd::prelude::*;

verus! {

/// The ASCII character of a hex digit `n` (`0..16`), upper case for `A..F`.
pub open spec fn hex_char(n: u8) -> u8
    recommends
        n < 16,
{
    if n < 10 {
        (n + 0x30) as u8
    } else {
        (n - 10 + 0x41) as u8
    }
}

/// The value of one ASCII hex digit, in either case; `None` for any other byte.
pub open spec fn hex_value(c: u8) -> Option<u8> {
    if 0x30 <= c && c <= 0x39 {
        Some((c - 0x30) as u8)
    } else if 0x61 <= c && c <= 0x66 {
        Some((c - 0x61 + 10) as u8)
    } else if 0x41 <= c && c <= 0x46 {
        Some((c - 0x41 + 10) as u8)
    } else {
        None
    }
}

/// The byte that a pair of hex digits spells, high digit first.
pub open spec fn hex_pair_value(hi: u8, lo: u8) -> Option<u8> {
    match (hex_value(hi), hex_value(lo)) {
        (Some(h), Some(l)) => Some((h * 16 + l) as u8),
        _ => None,
    }
}

const ASCII_ZERO: u8 = 0x30;
const ASCII_NINE: u8 = 0x39;
const ASCII_UPPER_A: u8 = 0x41;
const ASCII_UPPER_F: u8 = 0x46;
const ASCII_LOWER_A: u8 = 0x61;
const ASCII_LOWER_F: u8 = 0x66;

/// A pair of characters that is not two hex digits.
#[derive(Clone, Copy, Debug, PartialEq, Eq, Structural)]
pub struct InvalidHexDigit;

fn digit_char(n: u8) -> (r: u8)
    requires
        n < 16,
    ensures
        r == hex_char(n),
{
    if n < 10 {
        n + ASCII_ZERO
    } else {
        n - 0xA + ASCII_UPPER_A
    }
}

fn digit_value(c: u8) -> (r: Option<u8>)
    ensures
        r == hex_value(c),
{
    if ASCII_ZERO <= c && c <= ASCII_NINE {
        Some(c - ASCII_ZERO)
    } else if ASCII_LOWER_A <= c && c <= ASCII_LOWER_F {
        Some(c - ASCII_LOWER_A + 0xA)
    } else if ASCII_UPPER_A <= c && c <= ASCII_UPPER_F {
        Some(c - ASCII_UPPER_A + 0xA)
    } else {
        None
    }
}

/// Encodes one byte into two ASCII hex digits, high nibble first.
pub fn hex_encode(char: u8) -> (r: [u8; 2])
    ensures
        r@ == seq![hex_char(char / 16), hex_char(char % 16)],
{
    let char_1 = char >> 4;
    let char_2 = char & 0x0F;
    assert(char_1 == char / 16 && char_2 == char % 16) by (bit_vector)
        requires
            char_1 == char >> 4u8,
            char_2 == char & 0x0Fu8,
    ;
    let r = [digit_char(char_1), digit_char(char_2)];
    assert(r@ =~= seq![hex_char(char / 16), hex_char(char % 16)]);
    r
}

/// Decodes two ASCII hex digits (either case) into one byte.
pub fn hex_decode(chars: [u8; 2]) -> (r: Result<u8, InvalidHexDigit>)
    ensures
        match hex_pair_value(chars@[0], chars@[1]) {
            Some(b) => r == Ok::<u8, InvalidHexDigit>(b),
            None => r.is_err(),
        },
{
    let hi = match digit_value(chars[0]) {
        Some(h) => h,
        None => return Err(InvalidHexDigit),
    };
    let lo = match digit_value(chars[1]) {
        Some(l) => l,
        None => return Err(InvalidHexDigit),
    };
    let shifted = hi << 4;
    assert(shifted == hi * 16) by (bit_vector)
        requires
            shifted == hi << 4u8,
            hi < 16,
    ;
    assert(chars@[0] == chars[0] && chars@[1] == chars[1]);
    Ok(shifted + lo)
}

} // verus!
