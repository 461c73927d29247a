//! Hue, saturation and lightness of a colour as fixed-point numbers.

use crate::decimal::{decimal_of, parse_decimal, SCALE, WHOLE_LIMIT};
use crate::engine::{check_hex_color, color_hsl, hsl_components, is_hex_color};
use vstd::prelude::*;
use vstd::string::*;

verus! {

/// A full turn of the hue circle, in units: 360 degrees.
pub const FULL_TURN: i128 = 360_000_000_000_000;

/// Hue in degrees, saturation and lightness as fractions, all in units of
/// `10^-12`.
#[derive(Clone, Copy, Debug, PartialEq, Eq, Structural)]
pub struct Hsl {
    pub hue: i128,
    pub saturation: i128,
    pub lightness: i128,
}

impl Hsl {
    /// What the rules of this crate can work with: a hue less than a full
    /// turn away from zero, a saturation between zero and one, and a
    /// lightness that decimal text can hold.
    pub open spec fn in_range(self) -> bool {
        &&& -FULL_TURN < self.hue < FULL_TURN
        &&& 0 <= self.saturation <= SCALE
        &&& -(WHOLE_LIMIT * SCALE) < self.lightness < WHOLE_LIMIT * SCALE
    }
}

/// The three numbers, if all three texts are decimal numbers in range.
pub open spec fn hsl_from_texts(hue: Seq<char>, saturation: Seq<char>, lightness: Seq<char>)
    -> Option<Hsl> {
    match (decimal_of(hue), decimal_of(saturation), decimal_of(lightness)) {
        (Some(h), Some(s), Some(l)) => if -FULL_TURN < h < FULL_TURN && 0 <= s <= SCALE && -(
        WHOLE_LIMIT * SCALE) < l < WHOLE_LIMIT * SCALE {
            Some(Hsl { hue: h as i128, saturation: s as i128, lightness: l as i128 })
        } else {
            None
        },
        _ => None,
    }
}

/// Hue, saturation and lightness of a colour written as `#rrggbb`, as the
/// engine reports them; absent where the text is no such colour, or the
/// engine's answer is no number or out of range.
pub open spec fn hsl_of(color: Seq<char>) -> Option<Hsl> {
    if is_hex_color(color) {
        let (h, s, l) = hsl_components(color);
        hsl_from_texts(h, s, l)
    } else {
        None
    }
}

/// Reads the three numbers from the engine's decimal texts.
pub fn hsl_from_parts(hue: &str, saturation: &str, lightness: &str) -> (r: Option<Hsl>)
    ensures
        r == hsl_from_texts(hue@, saturation@, lightness@),
        r matches Some(x) ==> x.in_range(),
{
    let h = match parse_decimal(hue) {
        Some(v) => v,
        None => {
            return None;
        },
    };
    let s = match parse_decimal(saturation) {
        Some(v) => v,
        None => {
            return None;
        },
    };
    let l = match parse_decimal(lightness) {
        Some(v) => v,
        None => {
            return None;
        },
    };
    if -FULL_TURN < h && h < FULL_TURN && 0 <= s && s <= SCALE {
        Some(Hsl { hue: h, saturation: s, lightness: l })
    } else {
        None
    }
}

/// Asks the engine for hue, saturation and lightness of a colour.
pub fn read_hsl(color: &str) -> (r: Option<Hsl>)
    ensures
        r == hsl_of(color@),
        r matches Some(x) ==> x.in_range(),
{
    if !check_hex_color(color) {
        return None;
    }
    let (h, s, l) = color_hsl(color);
    hsl_from_parts(h.as_str(), s.as_str(), l.as_str())
}

} // verus!
