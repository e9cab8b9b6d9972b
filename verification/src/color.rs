//! Parsing of `#rrggbb` hex color strings.
//!
//! A color string is accepted when, after an optional leading `#`, it
//! consists of exactly six hexadecimal digits (either case).  Anything else
//! is treated as absent, in which case callers fall back to the default
//! color, gold `(255, 215, 0)`.

use vstd::prelude::*;

verus! {

/// A character is a hexadecimal digit: `0-9`, `a-f` or `A-F`.
pub open spec fn is_hex_digit(c: char) -> bool {
    ('0' as int <= c as int && c as int <= '9' as int)
        || ('a' as int <= c as int && c as int <= 'f' as int)
        || ('A' as int <= c as int && c as int <= 'F' as int)
}

/// Numeric value of a hexadecimal digit.
pub open spec fn hex_digit_value(c: char) -> int {
    if '0' as int <= c as int && c as int <= '9' as int {
        c as int - '0' as int
    } else if 'a' as int <= c as int && c as int <= 'f' as int {
        c as int - 'a' as int + 10
    } else {
        c as int - 'A' as int + 10
    }
}

/// The string with one leading `#` removed, if present.
pub open spec fn strip_hash(s: Seq<char>) -> Seq<char> {
    if s.len() > 0 && s[0] == '#' {
        s.subrange(1, s.len() as int)
    } else {
        s
    }
}

/// Every character of the sequence is a hexadecimal digit.
pub open spec fn all_hex(s: Seq<char>) -> bool {
    forall|i: int| 0 <= i < s.len() ==> is_hex_digit(#[trigger] s[i])
}

/// Value of a two-digit hexadecimal byte.
pub open spec fn hex_byte(hi: char, lo: char) -> int {
    16 * hex_digit_value(hi) + hex_digit_value(lo)
}

/// What `parse_hex_color` returns: the three channel bytes when the string
/// is exactly six hex digits after an optional `#`, and nothing otherwise.
pub open spec fn spec_parse_hex_color(s: Seq<char>) -> Option<(u8, u8, u8)> {
    let t = strip_hash(s);
    if t.len() == 6 && all_hex(t) {
        Some(
            (
                hex_byte(t[0], t[1]) as u8,
                hex_byte(t[2], t[3]) as u8,
                hex_byte(t[4], t[5]) as u8,
            ),
        )
    } else {
        None
    }
}

/// The color shown when no valid color was supplied: gold.
pub open spec fn spec_default_color() -> (u8, u8, u8) {
    (255u8, 215u8, 0u8)
}

/// The color actually applied for an optional color string: the parsed
/// value when it parses, and the default gold otherwise.
pub open spec fn spec_effective_color(c: Option<Seq<char>>) -> (u8, u8, u8) {
    match c {
        Some(s) => match spec_parse_hex_color(s) {
            Some(rgb) => rgb,
            None => spec_default_color(),
        },
        None => spec_default_color(),
    }
}

/// Numeric value of one hexadecimal digit character, if it is one.
pub fn hex_digit(c: char) -> (r: Option<u8>)
    ensures
        r is Some <==> is_hex_digit(c),
        r matches Some(v) ==> v == hex_digit_value(c) && v < 16,
{
    let u = c as u32;
    if 48 <= u && u <= 57 {
        Some((u - 48) as u8)
    } else if 97 <= u && u <= 102 {
        Some((u - 97 + 10) as u8)
    } else if 65 <= u && u <= 70 {
        Some((u - 65 + 10) as u8)
    } else {
        None
    }
}

/// Parses an optional-`#`, six-hex-digit color string into its RGB bytes.
pub fn parse_hex_color(s: &str) -> (r: Option<(u8, u8, u8)>)
    ensures
        r == spec_parse_hex_color(s@),
{
    let len = s.unicode_len();
    let start: usize = if len > 0 && s.get_char(0) == '#' {
        1
    } else {
        0
    };
    proof {
        assert(strip_hash(s@) =~= s@.subrange(start as int, s@.len() as int));
    }
    if len - start != 6 {
        return None;
    }
    let ghost t = strip_hash(s@);
    let mut digits: [u8; 6] = [0; 6];
    let mut i: usize = 0;
    while i < 6
        invariant
            i <= 6,
            start + 6 == len,
            len == s@.len(),
            start <= 1,
            t == strip_hash(s@),
            t =~= s@.subrange(start as int, s@.len() as int),
            forall|j: int|
                0 <= j < i ==> is_hex_digit(t[j]) && digits@[j] == hex_digit_value(#[trigger] t[j]),
        decreases 6 - i,
    {
        let c = s.get_char(start + i);
        assert(c == t[i as int]);
        match hex_digit(c) {
            Some(v) => {
                digits[i] = v;
            },
            None => {
                assert(!all_hex(t));
                return None;
            },
        }
        i += 1;
    }
    assert(all_hex(t));
    let red = 16 * digits[0] + digits[1];
    let green = 16 * digits[2] + digits[3];
    let blue = 16 * digits[4] + digits[5];
    Some((red, green, blue))
}

/// The default color, gold, as channel bytes.
pub fn default_color() -> (rgb: (u8, u8, u8))
    ensures
        rgb == spec_default_color(),
{
    (255, 215, 0)
}

/// The color to apply for an optional color string: its parsed value, or
/// the default gold when the string is absent or malformed.
pub fn effective_color(color: Option<&str>) -> (rgb: (u8, u8, u8))
    ensures
        rgb == spec_effective_color(match color {
            Some(s) => Some(s@),
            None => None,
        }),
{
    match color {
        Some(s) => match parse_hex_color(s) {
            Some(rgb) => rgb,
            None => default_color(),
        },
        None => default_color(),
    }
}

} // verus!
