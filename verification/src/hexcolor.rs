//! Accent-color handling: decoding a 6-hex-digit color and deriving the
//! gridline color from it by the luminance rule.

use vstd::prelude::*;
use crate::canvas::Rgba;

verus! {

pub open spec fn is_hex_digit(c: char) -> bool {
    (48 <= c as u32 && c as u32 <= 57)  // '0' ..= '9'
    || (97 <= c as u32 && c as u32 <= 102)  // 'a' ..= 'f'
    || (65 <= c as u32 && c as u32 <= 70)  // 'A' ..= 'F'
}

pub open spec fn hex_val(c: char) -> int {
    if 48 <= c as u32 && c as u32 <= 57 {
        c as u32 - 48
    } else if 97 <= c as u32 && c as u32 <= 102 {
        c as u32 - 87
    } else {
        c as u32 - 55
    }
}

/// A sequence of hex digits of even length.
pub open spec fn valid_hex(s: Seq<char>) -> bool {
    &&& s.len() % 2 == 0
    &&& forall|i: int| 0 <= i < s.len() ==> is_hex_digit(#[trigger] s[i])
}

/// The bytes encoded by a sequence of hex digit pairs.
pub open spec fn hex_bytes_of(s: Seq<char>) -> Seq<u8> {
    Seq::new(s.len() / 2, |i: int| (16 * hex_val(s[2 * i]) + hex_val(s[2 * i + 1])) as u8)
}

/// Relies on `hex::decode`: each pair of hex digits becomes one byte;
/// an odd length or any character that is not a hex digit is an error.
/// (A non-ASCII character encodes to bytes of value 128 or more, which
/// are never hex digits, so the error cases agree character-wise.)
#[verifier::external_body]
fn hex_decode(s: &str) -> (r: Option<Vec<u8>>)
    ensures
        r is Some <==> valid_hex(s@),
        r is Some ==> r->0@ == hex_bytes_of(s@),
{
    hex::decode(s).ok()
}

/// The accent used when no valid color is supplied.
pub open spec fn default_accent() -> Rgba {
    Rgba { r: 0xEC, g: 0xEC, b: 0xEC, a: 0xFF }
}

/// The gridline color used when no valid color is supplied.
pub open spec fn default_gridline() -> Rgba {
    Rgba { r: 0xD4, g: 0xD4, b: 0xD4, a: 0xFF }
}

/// The input with one leading `#`, if any, removed.
pub open spec fn stripped(s: Seq<char>) -> Seq<char> {
    if s.len() > 0 && s[0] == '#' {
        s.subrange(1, s.len() as int)
    } else {
        s
    }
}

/// A valid accent color: exactly six hex digits after stripping `#`.
pub open spec fn valid_accent(s: Seq<char>) -> bool {
    stripped(s).len() == 6 && valid_hex(stripped(s))
}

/// The accent color resolved from the input, default on malformed input.
pub open spec fn accent_of(s: Seq<char>) -> Rgba {
    if valid_accent(s) {
        let b = hex_bytes_of(stripped(s));
        Rgba { r: b[0], g: b[1], b: b[2], a: 0xFF }
    } else {
        default_accent()
    }
}

/// The luminance `0.299 R + 0.587 G + 0.114 B`, scaled by 1000 so the
/// comparison against 128 becomes one against 128000.
pub open spec fn luminance_scaled(c: Rgba) -> int {
    299 * c.r + 587 * c.g + 114 * c.b
}

/// How much a channel is lightened for a dark accent.
pub const LIGHTEN_OFFSET: u8 = 40;

/// How much a channel is darkened for a light accent.
pub const DARKEN_OFFSET: u8 = 30;

/// The gridline color: the accent lightened by a fixed offset per channel
/// when the accent is dark, darkened when it is light, channels clamped;
/// the default pair on malformed input.
pub open spec fn gridline_of(s: Seq<char>) -> Rgba {
    if valid_accent(s) {
        let a = accent_of(s);
        if luminance_scaled(a) < 128000 {
            Rgba {
                r: sat_add_u8(a.r, LIGHTEN_OFFSET),
                g: sat_add_u8(a.g, LIGHTEN_OFFSET),
                b: sat_add_u8(a.b, LIGHTEN_OFFSET),
                a: 0xFF,
            }
        } else {
            Rgba {
                r: sat_sub_u8(a.r, DARKEN_OFFSET),
                g: sat_sub_u8(a.g, DARKEN_OFFSET),
                b: sat_sub_u8(a.b, DARKEN_OFFSET),
                a: 0xFF,
            }
        }
    } else {
        default_gridline()
    }
}

pub open spec fn sat_add_u8(x: u8, d: u8) -> u8 {
    if x + d > 255 {
        255
    } else {
        (x + d) as u8
    }
}

pub open spec fn sat_sub_u8(x: u8, d: u8) -> u8 {
    if x < d {
        0
    } else {
        (x - d) as u8
    }
}

/// Resolves the accent and gridline colors from a user-supplied hex
/// color.  A valid input is six hex digits, with or without a leading
/// `#`; anything else silently falls back to the default pair.
pub fn resolve_colors(accent_hex: &str) -> (r: (Rgba, Rgba))
    ensures
        r.0 == accent_of(accent_hex@),
        r.1 == gridline_of(accent_hex@),
{
    let chars = crate::text::chars_vec(accent_hex);
    let start: usize = if chars.len() > 0 && chars[0] == '#' {
        1
    } else {
        0
    };
    if chars.len() - start != 6 {
        proof {
            assert(!valid_accent(accent_hex@));
        }
        return (default_accent_exec(), default_gridline_exec());
    }
    let tail = if start == 1 {
        crate::text::string_from_chars(&tail_vec(&chars))
    } else {
        crate::text::string_from_chars(&chars)
    };
    proof {
        assert(tail@ =~= stripped(accent_hex@));
    }
    match hex_decode(tail.as_str()) {
        Some(bytes) => {
            let ar = bytes[0];
            let ag = bytes[1];
            let ab = bytes[2];
            let acc = Rgba { r: ar, g: ag, b: ab, a: 0xFF };
            let lum: u32 = 299 * (ar as u32) + 587 * (ag as u32) + 114 * (ab as u32);
            let line = if lum < 128000 {
                Rgba {
                    r: sat_add_exec(ar, LIGHTEN_OFFSET),
                    g: sat_add_exec(ag, LIGHTEN_OFFSET),
                    b: sat_add_exec(ab, LIGHTEN_OFFSET),
                    a: 0xFF,
                }
            } else {
                Rgba {
                    r: sat_sub_exec(ar, DARKEN_OFFSET),
                    g: sat_sub_exec(ag, DARKEN_OFFSET),
                    b: sat_sub_exec(ab, DARKEN_OFFSET),
                    a: 0xFF,
                }
            };
            (acc, line)
        },
        None => (default_accent_exec(), default_gridline_exec()),
    }
}

fn default_accent_exec() -> (r: Rgba)
    ensures
        r == default_accent(),
{
    Rgba { r: 0xEC, g: 0xEC, b: 0xEC, a: 0xFF }
}

fn default_gridline_exec() -> (r: Rgba)
    ensures
        r == default_gridline(),
{
    Rgba { r: 0xD4, g: 0xD4, b: 0xD4, a: 0xFF }
}

fn sat_add_exec(x: u8, d: u8) -> (r: u8)
    ensures
        r == sat_add_u8(x, d),
{
    if x as u16 + d as u16 > 255 {
        255
    } else {
        x + d
    }
}

fn sat_sub_exec(x: u8, d: u8) -> (r: u8)
    ensures
        r == sat_sub_u8(x, d),
{
    if x < d {
        0
    } else {
        x - d
    }
}

/// The input without its first character.
fn tail_vec(v: &Vec<char>) -> (r: Vec<char>)
    requires
        v@.len() >= 1,
    ensures
        r@ == v@.subrange(1, v@.len() as int),
{
    let mut r: Vec<char> = Vec::new();
    let mut i: usize = 1;
    while i < v.len()
        invariant
            1 <= i <= v@.len(),
            r@ == v@.subrange(1, i as int),
        decreases v@.len() - i,
    {
        r.push(v[i]);
        i = i + 1;
        proof {
            assert(r@ =~= v@.subrange(1, i as int));
        }
    }
    r
}

} // verus!
