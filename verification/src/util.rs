//! Colours as numbers: a random colour, and the red, green and blue parts of
//! a colour written as `RRGGBB`.

use crate::value::{is_lower_colour_value, ColourValue};
use rand::Rng;
use vstd::prelude::*;
use vstd::string::StringSliceAdditionalSpecFns;

verus! {

/// The number that a byte stands for as a digit of base sixteen.
pub open spec fn hex_digit_value(b: u8) -> Option<u8> {
    if 0x30 <= b <= 0x39 {
        Some((b - 0x30) as u8)
    } else if 0x61 <= b <= 0x66 {
        Some((b - 0x61 + 10) as u8)
    } else if 0x41 <= b <= 0x46 {
        Some((b - 0x41 + 10) as u8)
    } else {
        None
    }
}

/// The number that two bytes spell in base sixteen: two digits, or a `+` and
/// one digit.
pub open spec fn hex_pair_value(hi: u8, lo: u8) -> Option<u8> {
    match hex_digit_value(lo) {
        Some(l) => if hi == 0x2b {
            Some(l)
        } else {
            match hex_digit_value(hi) {
                Some(h) => Some((16 * h + l) as u8),
                None => None,
            }
        },
        None => None,
    }
}

/// The red, green and blue parts that six bytes spell, two bytes for each, or
/// the words that say what is wrong: with the length first, then with the
/// first part that is no number.
pub open spec fn rgb_of_hex(bytes: Seq<u8>) -> Result<(u8, u8, u8), Seq<char>> {
    if bytes.len() != 6 {
        Err("Invalid hex format. Use RRGGBB."@)
    } else {
        match hex_pair_value(bytes[0], bytes[1]) {
            None => Err("Invalid red component"@),
            Some(r) => match hex_pair_value(bytes[2], bytes[3]) {
                None => Err("Invalid green component"@),
                Some(g) => match hex_pair_value(bytes[4], bytes[5]) {
                    None => Err("Invalid blue component"@),
                    Some(b) => Ok((r, g, b)),
                },
            },
        }
    }
}

/// The red, green and blue parts of `bytes`, each taken from 255.
pub open spec fn inverted_rgb_of_hex(bytes: Seq<u8>) -> Result<(u8, u8, u8), Seq<char>> {
    match rgb_of_hex(bytes) {
        Ok((r, g, b)) => Ok(((255 - r) as u8, (255 - g) as u8, (255 - b) as u8)),
        Err(words) => Err(words),
    }
}

/// `rand::Rng::fill` on `rand::rng()`, the generator of the running thread,
/// fills three bytes with random data. Nothing is claimed of the bytes.
#[verifier::external_body]
fn random_bytes() -> (bytes: [u8; 3]) {
    let mut bytes = [0u8; 3];
    rand::rng().fill(&mut bytes);
    bytes
}

/// A random colour in lower case: three random bytes, two digits for each.
pub fn generate_random_colour_hex() -> (colour: ColourValue)
    ensures
        is_lower_colour_value(colour@),
{
    let bytes = random_bytes();
    ColourValue::from_rgb(bytes[0], bytes[1], bytes[2])
}

/// The number that a byte stands for as a digit of base sixteen.
pub fn digit_value(b: u8) -> (r: Option<u8>)
    ensures
        r == hex_digit_value(b),
        r matches Some(d) ==> d < 16,
{
    if 0x30 <= b && b <= 0x39 {
        Some(b - 0x30)
    } else if 0x61 <= b && b <= 0x66 {
        Some(b - 0x61 + 10)
    } else if 0x41 <= b && b <= 0x46 {
        Some(b - 0x41 + 10)
    } else {
        None
    }
}

/// The number that two bytes spell in base sixteen.
pub fn pair_value(hi: u8, lo: u8) -> (r: Option<u8>)
    ensures
        r == hex_pair_value(hi, lo),
{
    match digit_value(lo) {
        Some(l) => {
            if hi == 0x2b {
                Some(l)
            } else {
                match digit_value(hi) {
                    Some(h) => Some(16 * h + l),
                    None => None,
                }
            }
        },
        None => None,
    }
}

/// The red, green and blue parts of a colour written as `RRGGBB`.
pub fn hex_to_rgb(hex: &str) -> (result: Result<(u8, u8, u8), String>)
    ensures
        match rgb_of_hex(hex.spec_bytes()) {
            Ok(rgb) => result == Ok::<(u8, u8, u8), String>(rgb),
            Err(words) => result is Err && result->Err_0@ == words,
        },
{
    let bytes = hex.as_bytes();
    if bytes.len() != 6 {
        return Err("Invalid hex format. Use RRGGBB.".to_owned());
    }
    let r = match pair_value(bytes[0], bytes[1]) {
        Some(r) => r,
        None => {
            return Err("Invalid red component".to_owned());
        },
    };
    let g = match pair_value(bytes[2], bytes[3]) {
        Some(g) => g,
        None => {
            return Err("Invalid green component".to_owned());
        },
    };
    let b = match pair_value(bytes[4], bytes[5]) {
        Some(b) => b,
        None => {
            return Err("Invalid blue component".to_owned());
        },
    };
    Ok((r, g, b))
}

/// The red, green and blue parts of a colour written as `RRGGBB`, each taken
/// from 255.
pub fn inverted_hex_to_rgb(hex: &str) -> (result: Result<(u8, u8, u8), String>)
    ensures
        match inverted_rgb_of_hex(hex.spec_bytes()) {
            Ok(rgb) => result == Ok::<(u8, u8, u8), String>(rgb),
            Err(words) => result is Err && result->Err_0@ == words,
        },
{
    match hex_to_rgb(hex) {
        Ok((r, g, b)) => Ok((255 - r, 255 - g, 255 - b)),
        Err(words) => Err(words),
    }
}

} // verus!
