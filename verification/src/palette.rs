//! Hex color text.
//!
//! Color mapping itself lives with the rendering callers; the library only
//! reads the textual form: a color is six hex digits, with any leading `#`
//! marks stripped.

use vstd::prelude::*;
use vstd::string::StringSliceAdditionalSpecFns;
use crate::error::{EvaluationError, SpecError};

verus! {

/// The value of one hex digit, or a negative marker for other bytes.
pub open spec fn hex_digit(b: u8) -> int {
    if 48 <= b <= 57 {
        b - 48
    } else if 97 <= b <= 102 {
        b - 87
    } else if 65 <= b <= 70 {
        b - 55
    } else {
        -1
    }
}

/// First index at or after `i` past the leading `#` marks.
pub open spec fn skip_hash(s: Seq<u8>, i: int) -> int
    decreases s.len() - i,
{
    if 0 <= i < s.len() && s[i] == 35 {
        skip_hash(s, i + 1)
    } else {
        i
    }
}

/// The byte two hex digits denote.
pub open spec fn hex_pair(hi: u8, lo: u8) -> u8 {
    (hex_digit(hi) * 16 + hex_digit(lo)) as u8
}

/// The red, green and blue bytes of hex color text, or the error naming the
/// text: after the leading `#` marks there must be exactly six hex digits.
pub open spec fn parse_hex_color_spec(s: Seq<u8>) -> Result<(u8, u8, u8), SpecError> {
    let a = skip_hash(s, 0);
    let t = s.subrange(a, s.len() as int);
    if t.len() != 6 {
        Result::Err(SpecError::InvalidHexColor(s))
    } else if hex_digit(t[0]) < 0 || hex_digit(t[1]) < 0 || hex_digit(t[2]) < 0 || hex_digit(
        t[3],
    ) < 0 || hex_digit(t[4]) < 0 || hex_digit(t[5]) < 0 {
        Result::Err(SpecError::InvalidHexColor(s))
    } else {
        Result::Ok((hex_pair(t[0], t[1]), hex_pair(t[2], t[3]), hex_pair(t[4], t[5])))
    }
}

/// The value of one hex digit (exec); a negative result marks other bytes.
fn hex_digit_exec(b: u8) -> (r: i8)
    ensures
        r as int == hex_digit(b),
{
    if 48 <= b && b <= 57 {
        (b - 48) as i8
    } else if 97 <= b && b <= 102 {
        (b - 87) as i8
    } else if 65 <= b && b <= 70 {
        (b - 55) as i8
    } else {
        -1
    }
}

/// Parse hex color text such as `#FF0000` into its red, green and blue
/// bytes.
pub fn parse_hex_color(hex: &str) -> (r: Result<[u8; 3], EvaluationError>)
    ensures
        (match r {
            Result::Ok(rgb) => parse_hex_color_spec(hex.spec_bytes()) == Result::<
                (u8, u8, u8),
                SpecError,
            >::Ok((rgb[0], rgb[1], rgb[2])),
            Result::Err(er) => parse_hex_color_spec(hex.spec_bytes()) == Result::<
                (u8, u8, u8),
                SpecError,
            >::Err(er.deep_view()),
        }),
{
    let bytes = hex.as_bytes();
    let n = bytes.len();
    let mut a: usize = 0;
    while a < n && bytes[a] == 35
        invariant
            a <= n,
            n == bytes@.len(),
            skip_hash(bytes@, 0) == skip_hash(bytes@, a as int),
        decreases n - a,
    {
        a = a + 1;
    }
    let t = vstd::slice::slice_subrange(bytes, a, n);
    if t.len() != 6 {
        return Result::Err(EvaluationError::InvalidHexColor(vstd::slice::slice_to_vec(bytes)));
    }
    let d0 = hex_digit_exec(t[0]);
    let d1 = hex_digit_exec(t[1]);
    let d2 = hex_digit_exec(t[2]);
    let d3 = hex_digit_exec(t[3]);
    let d4 = hex_digit_exec(t[4]);
    let d5 = hex_digit_exec(t[5]);
    if d0 < 0 || d1 < 0 || d2 < 0 || d3 < 0 || d4 < 0 || d5 < 0 {
        return Result::Err(EvaluationError::InvalidHexColor(vstd::slice::slice_to_vec(bytes)));
    }
    let rgb: [u8; 3] = [
        (d0 as u8) * 16 + (d1 as u8),
        (d2 as u8) * 16 + (d3 as u8),
        (d4 as u8) * 16 + (d5 as u8),
    ];
    Result::Ok(rgb)
}

} // verus!
