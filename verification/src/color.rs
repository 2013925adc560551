//! Colors written as hexadecimal text, such as `#ff8000`.
use vstd::prelude::*;
use vstd::string::StringSliceAdditionalSpecFns;

verus! {

/// An 8-bit-per-channel RGB color.
#[derive(Debug, Clone, Copy, PartialEq, Eq, Structural)]
pub struct Rgb {
    pub r: u8,
    pub g: u8,
    pub b: u8,
}

/// The value of an ASCII hexadecimal digit.
pub open spec fn hex_digit(b: u8) -> Option<u8> {
    if 48 <= b <= 57 {
        Some((b - 48) as u8)
    } else if 97 <= b <= 102 {
        Some((b - 87) as u8)
    } else if 65 <= b <= 70 {
        Some((b - 55) as u8)
    } else {
        None
    }
}

/// What `u8::from_str_radix(_, 16)` gives for a two-byte text: two hex
/// digits, or `+` and one hex digit.
pub open spec fn hex_pair(b0: u8, b1: u8) -> Option<u8> {
    if b0 == 43 {
        hex_digit(b1)
    } else {
        match (hex_digit(b0), hex_digit(b1)) {
            (Some(h), Some(l)) => Some((16 * h + l) as u8),
            _ => None,
        }
    }
}

/// The bytes after the leading `#` characters.
pub open spec fn strip_hashes(b: Seq<u8>) -> Seq<u8>
    decreases b.len(),
{
    if b.len() > 0 && b[0] == 35 {
        strip_hashes(b.drop_first())
    } else {
        b
    }
}

/// The color of the first six bytes, when each pair is a hex byte.
pub open spec fn rgb_of(b: Seq<u8>) -> Option<Rgb> {
    if b.len() >= 6 {
        match (hex_pair(b[0], b[1]), hex_pair(b[2], b[3]), hex_pair(b[4], b[5])) {
            (Some(r), Some(g), Some(bl)) => Some(Rgb { r, g, b: bl }),
            _ => None,
        }
    } else {
        None
    }
}

/// The alpha of a marker color whose text gives none: 204 of 255, that is
/// 0.8.
pub const DEFAULT_ALPHA: u8 = 204;

/// A color read from text, with its alpha channel.
#[derive(Debug, Clone, Copy, PartialEq, Eq, Structural)]
pub struct HexColor {
    pub rgb: Rgb,
    pub alpha: u8,
}

/// `#rrggbb` (alpha 0.8, that is `DEFAULT_ALPHA`) or `#rrggbbaa` (any
/// number of leading `#`), else nothing.
pub open spec fn hex_color_of(text: Seq<u8>) -> Option<HexColor> {
    let b = strip_hashes(text);
    if b.len() == 6 {
        match rgb_of(b) {
            Some(rgb) => Some(HexColor { rgb, alpha: DEFAULT_ALPHA }),
            None => None,
        }
    } else if b.len() == 8 {
        match (rgb_of(b), hex_pair(b[6], b[7])) {
            (Some(rgb), Some(a)) => Some(HexColor { rgb, alpha: a }),
            _ => None,
        }
    } else {
        None
    }
}

/// The color swatches fall back to this green.
pub open spec fn fallback_green() -> Rgb {
    Rgb { r: 0, g: 200, b: 100 }
}

/// Schema colors fall back to this gray.
pub open spec fn fallback_gray() -> Rgb {
    Rgb { r: 160, g: 160, b: 160 }
}

fn hex_digit_value(b: u8) -> (r: Option<u8>)
    ensures
        r == hex_digit(b),
{
    if 48 <= b && b <= 57 {
        Some(b - 48)
    } else if 97 <= b && b <= 102 {
        Some(b - 87)
    } else if 65 <= b && b <= 70 {
        Some(b - 55)
    } else {
        None
    }
}

/// The byte that a two-byte hexadecimal text stands for.
pub fn hex_pair_value(b0: u8, b1: u8) -> (r: Option<u8>)
    ensures
        r == hex_pair(b0, b1),
{
    if b0 == 43 {
        return hex_digit_value(b1);
    }
    match (hex_digit_value(b0), hex_digit_value(b1)) {
        (Some(h), Some(l)) => Some(16 * h + l),
        _ => None,
    }
}

/// The bytes of `text` after its leading `#` characters.
fn strip_hash_bytes(text: &str) -> (r: Vec<u8>)
    ensures
        r@ == strip_hashes(text.spec_bytes()),
{
    let bytes = text.as_bytes();
    let mut k: usize = 0;
    assert(bytes@.skip(0) =~= bytes@);
    while k < bytes.len() && bytes[k] == 35
        invariant
            k <= bytes@.len(),
            strip_hashes(bytes@) == strip_hashes(bytes@.skip(k as int)),
        decreases bytes.len() - k,
    {
        assert(bytes@.skip(k as int).drop_first() =~= bytes@.skip(k + 1));
        k = k + 1;
    }
    assert(strip_hashes(bytes@.skip(k as int)) == bytes@.skip(k as int));
    let mut r: Vec<u8> = Vec::new();
    let mut i: usize = k;
    while i < bytes.len()
        invariant
            k <= i <= bytes@.len(),
            r@ == bytes@.subrange(k as int, i as int),
        decreases bytes.len() - i,
    {
        r.push(bytes[i]);
        i = i + 1;
        assert(r@ =~= bytes@.subrange(k as int, i as int));
    }
    assert(bytes@.subrange(k as int, i as int) =~= bytes@.skip(k as int));
    r
}

fn rgb_from(b: &Vec<u8>) -> (r: Option<Rgb>)
    ensures
        r == rgb_of(b@),
{
    if b.len() < 6 {
        return None;
    }
    match (hex_pair_value(b[0], b[1]), hex_pair_value(b[2], b[3]), hex_pair_value(b[4], b[5])) {
        (Some(r), Some(g), Some(bl)) => Some(Rgb { r, g, b: bl }),
        _ => None,
    }
}

/// Parses `#rrggbb` or `#rrggbbaa` (leading `#` optional, any number of
/// them); `None` for anything else. Without an alpha pair, the alpha is
/// 0.8 (`DEFAULT_ALPHA`).
pub fn parse_hex_color(text: &str) -> (r: Option<HexColor>)
    ensures
        r == hex_color_of(text.spec_bytes()),
{
    let b = strip_hash_bytes(text);
    if b.len() == 6 {
        match rgb_from(&b) {
            Some(rgb) => Some(HexColor { rgb, alpha: DEFAULT_ALPHA }),
            None => None,
        }
    } else if b.len() == 8 {
        match (rgb_from(&b), hex_pair_value(b[6], b[7])) {
            (Some(rgb), Some(a)) => Some(HexColor { rgb, alpha: a }),
            _ => None,
        }
    } else {
        None
    }
}

/// The swatch color of a type: the first six hex digits after the leading
/// `#` characters (longer text is fine), else green.
pub fn parse_swatch_color(text: &str) -> (r: Rgb)
    ensures
        r == match rgb_of(strip_hashes(text.spec_bytes())) {
            Some(c) => c,
            None => fallback_green(),
        },
{
    let b = strip_hash_bytes(text);
    match rgb_from(&b) {
        Some(c) => c,
        None => Rgb { r: 0, g: 200, b: 100 },
    }
}

/// A schema color: exactly six hex digits after the leading `#`
/// characters, else gray.
pub fn parse_color(text: &str) -> (r: Rgb)
    ensures
        r == if strip_hashes(text.spec_bytes()).len() == 6 {
            match rgb_of(strip_hashes(text.spec_bytes())) {
                Some(c) => c,
                None => fallback_gray(),
            }
        } else {
            fallback_gray()
        },
{
    let b = strip_hash_bytes(text);
    if b.len() == 6 {
        match rgb_from(&b) {
            Some(c) => return c,
            None => {},
        }
    }
    Rgb { r: 160, g: 160, b: 160 }
}

} // verus!
