//! The colour engine: colour notation, and what this crate takes from
//! `chroma_rust` and `deltae`.
//!
//! Colours enter and leave the engine as text and as 8-bit channels. Hue,
//! saturation, lightness and distances are exchanged as decimal text, which
//! the `decimal` module reads and writes.

use crate::decimal::{decimal_text, digit_run, digits_value, run_end, SCALE};
use chroma_rust::Color;
use deltae::{DeltaE, LabValue, DECMC1};
use vstd::prelude::*;
use vstd::string::*;

verus! {

/// `String::push` appends one character.
pub assume_specification[ String::push ](s: &mut String, c: char)
    ensures
        final(s)@ == old(s)@.push(c),
;

pub open spec fn is_hex_digit(c: char) -> bool {
    ('0' <= c && c <= '9') || ('a' <= c && c <= 'f') || ('A' <= c && c <= 'F')
}

pub open spec fn hex_digit_value(c: char) -> int {
    if '0' <= c && c <= '9' {
        c as int - '0' as int
    } else if 'a' <= c && c <= 'f' {
        c as int - 'a' as int + 10
    } else {
        c as int - 'A' as int + 10
    }
}

/// The lower-case hexadecimal digit for a value below sixteen.
pub open spec fn hex_digit_char(d: int) -> char {
    if d == 0 {
        '0'
    } else if d == 1 {
        '1'
    } else if d == 2 {
        '2'
    } else if d == 3 {
        '3'
    } else if d == 4 {
        '4'
    } else if d == 5 {
        '5'
    } else if d == 6 {
        '6'
    } else if d == 7 {
        '7'
    } else if d == 8 {
        '8'
    } else if d == 9 {
        '9'
    } else if d == 10 {
        'a'
    } else if d == 11 {
        'b'
    } else if d == 12 {
        'c'
    } else if d == 13 {
        'd'
    } else if d == 14 {
        'e'
    } else {
        'f'
    }
}

/// `#` followed by exactly six hexadecimal digits.
pub open spec fn is_hex_color(t: Seq<char>) -> bool {
    &&& t.len() == 7
    &&& t[0] == '#'
    &&& forall|i: int| 1 <= i < 7 ==> is_hex_digit(#[trigger] t[i])
}

/// The channel written by the two hexadecimal digits at `i` and `i + 1`.
pub open spec fn hex_pair(t: Seq<char>, i: int) -> int {
    16 * hex_digit_value(t[i]) + hex_digit_value(t[i + 1])
}

/// Where the three numbers of `rgb(r,g,b)` end, if the text has that form:
/// each number is one to three digits, and nothing else may stand in the text.
pub open spec fn rgb_call_marks(t: Seq<char>) -> Option<(int, int, int)> {
    let a = run_end(t, 4);
    let b = run_end(t, a + 1);
    let c = run_end(t, b + 1);
    if t.len() >= 10 && t[0] == 'r' && t[1] == 'g' && t[2] == 'b' && t[3] == '(' && 1 <= a - 4
        <= 3 && a < t.len() && t[a] == ',' && 1 <= b - (a + 1) <= 3 && b < t.len() && t[b] == ','
        && 1 <= c - (b + 1) <= 3 && c + 1 == t.len() && t[c] == ')' {
        Some((a, b, c))
    } else {
        None
    }
}

pub open spec fn is_rgb_call(t: Seq<char>) -> bool {
    rgb_call_marks(t) is Some
}

/// The colour notations that this crate reads: `#rrggbb` and `rgb(r,g,b)`.
pub open spec fn is_color_text(t: Seq<char>) -> bool {
    is_hex_color(t) || is_rgb_call(t)
}

/// A decimal channel; numbers above 255 count as 255.
pub open spec fn clamp_channel(v: int) -> int {
    if v > 255 {
        255
    } else {
        v
    }
}

/// The red, green and blue channels that a colour text denotes.
pub open spec fn color_channels(t: Seq<char>) -> (int, int, int) {
    if is_hex_color(t) {
        (hex_pair(t, 1), hex_pair(t, 3), hex_pair(t, 5))
    } else {
        let (a, b, c) = rgb_call_marks(t).unwrap();
        (
            clamp_channel(digits_value(t.subrange(4, a))),
            clamp_channel(digits_value(t.subrange(a + 1, b))),
            clamp_channel(digits_value(t.subrange(b + 1, c))),
        )
    }
}

/// The canonical text of a colour: `#` and six lower-case hexadecimal digits.
pub open spec fn hex_text(r: int, g: int, b: int) -> Seq<char> {
    seq![
        '#',
        hex_digit_char(r / 16),
        hex_digit_char(r % 16),
        hex_digit_char(g / 16),
        hex_digit_char(g % 16),
        hex_digit_char(b / 16),
        hex_digit_char(b % 16),
    ]
}

/// The canonical text of the colour that a colour text denotes.
pub open spec fn canonical_hex(t: Seq<char>) -> Seq<char> {
    let (r, g, b) = color_channels(t);
    hex_text(r, g, b)
}

/// A lower-case hexadecimal digit.
pub open spec fn is_lower_hex_digit(c: char) -> bool {
    ('0' <= c && c <= '9') || ('a' <= c && c <= 'f')
}

/// `#` followed by six lower-case hexadecimal digits: a colour in its
/// canonical text.
pub open spec fn is_canonical_hex(t: Seq<char>) -> bool {
    &&& t.len() == 7
    &&& t[0] == '#'
    &&& forall|i: int| 1 <= i < 7 ==> is_lower_hex_digit(#[trigger] t[i])
}

/// The canonical text of 8-bit channels is a colour text, and denotes the
/// same channels.
pub proof fn lemma_hex_text_denotes_channels(r: int, g: int, b: int)
    requires
        0 <= r <= 255,
        0 <= g <= 255,
        0 <= b <= 255,
    ensures
        is_canonical_hex(hex_text(r, g, b)),
        is_hex_color(hex_text(r, g, b)),
        color_channels(hex_text(r, g, b)) == (r, g, b),
{
    let t = hex_text(r, g, b);
    assert forall|i: int| 1 <= i < 7 implies is_lower_hex_digit(#[trigger] t[i]) by {}
    assert forall|i: int| 1 <= i < 7 implies is_hex_digit(#[trigger] t[i]) by {
        assert(is_lower_hex_digit(t[i]));
    }
    assert(hex_pair(t, 1) == r);
    assert(hex_pair(t, 3) == g);
    assert(hex_pair(t, 5) == b);
}

/// A colour in its canonical text is its own canonical text.
pub proof fn lemma_canonical_hex_is_kept(t: Seq<char>)
    requires
        is_canonical_hex(t),
    ensures
        is_hex_color(t),
        canonical_hex(t) == t,
{
    assert forall|i: int| 1 <= i < 7 implies is_hex_digit(#[trigger] t[i]) by {
        assert(is_lower_hex_digit(t[i]));
    }
    assert(is_lower_hex_digit(t[1]) && is_lower_hex_digit(t[2]) && is_lower_hex_digit(t[3])
        && is_lower_hex_digit(t[4]) && is_lower_hex_digit(t[5]) && is_lower_hex_digit(t[6]));
    assert(canonical_hex(t) =~= t);
}

/// Text that `decimal_text` writes for some number of units.
pub open spec fn is_decimal_text(t: Seq<char>) -> bool {
    exists|v: int| t == #[trigger] decimal_text(v)
}

/// Text that `decimal_text` writes for an angle in `[0, 360)`.
pub open spec fn is_angle_text(t: Seq<char>) -> bool {
    exists|v: int| 0 <= v < 360 * SCALE && t == #[trigger] decimal_text(v)
}

/// Hue, saturation and lightness of a colour, each as the decimal text that
/// the engine prints for it.
pub uninterp spec fn hsl_components(color: Seq<char>) -> (Seq<char>, Seq<char>, Seq<char>);

/// The channels of the colour that the engine composes from hue, saturation
/// and lightness, each given as decimal text.
pub uninterp spec fn hsl_channels(hue: Seq<char>, saturation: Seq<char>, lightness: Seq<char>) -> (
    int,
    int,
    int,
);

/// `chroma_rust::Color::from(&str)`, then `Color::hex` and `Color::rgb`.
///
/// For `#rrggbb` the engine reads each pair of hexadecimal digits as one
/// channel; for `rgb(r,g,b)` it reads each number, rounds it and saturates it
/// at 255. With full opacity `hex` prints `#` and two lower-case hexadecimal
/// digits per channel. Other texts can make the engine panic, so they are
/// left out.
#[verifier::external_body]
pub(crate) fn read_color(text: &str) -> (r: (String, (u8, u8, u8)))
    requires
        is_color_text(text@),
    ensures
        (r.1.0 as int, r.1.1 as int, r.1.2 as int) == color_channels(text@),
        r.0@ == hex_text(r.1.0 as int, r.1.1 as int, r.1.2 as int),
{
    let color = Color::from(text);
    (color.hex(), color.rgb())
}

/// `chroma_rust::Color::from(&str)`, then `Color::hsl`, each component
/// printed by `to_string`.
///
/// The three texts depend on the colour alone; nothing more is claimed of
/// them.
#[verifier::external_body]
pub(crate) fn color_hsl(color: &str) -> (r: (String, String, String))
    requires
        is_hex_color(color@),
    ensures
        (r.0@, r.1@, r.2@) == hsl_components(color@),
{
    let (h, s, l) = Color::from(color).hsl();
    (h.to_string(), s.to_string(), l.to_string())
}

/// `chroma_rust::Color::from(&str)` on the text `hsl(h,s,l)`, then
/// `Color::hex` and `Color::rgb`.
///
/// The engine panics on a hue outside `[0, 360)`; a hue written with twelve
/// fractional digits and below 360 stays below 360 when the engine reads it.
/// The channels depend on the three texts alone, and `hex` prints them as in
/// `read_color`.
#[verifier::external_body]
pub(crate) fn hsl_color(hue: &str, saturation: &str, lightness: &str) -> (r: (
    String,
    (u8, u8, u8),
))
    requires
        is_angle_text(hue@),
        is_decimal_text(saturation@),
        is_decimal_text(lightness@),
    ensures
        (r.1.0 as int, r.1.1 as int, r.1.2 as int) == hsl_channels(
            hue@,
            saturation@,
            lightness@,
        ),
        r.0@ == hex_text(r.1.0 as int, r.1.1 as int, r.1.2 as int),
{
    let color = Color::from(format!("hsl({},{},{})", hue, saturation, lightness).as_str());
    (color.hex(), color.rgb())
}

/// `deltae::DeltaE::new` with `DECMC1` on the CIE Lab values that
/// `chroma_rust::Color::lab` gives for the two colours, printed by
/// `to_string`.
///
/// Nothing is claimed of the text: the formula rests on the platform's
/// trigonometry, and it may print something that is no number.
#[verifier::external_body]
pub(crate) fn perceptual_delta(reference: &str, sample: &str) -> (r: String)
    requires
        is_hex_color(reference@),
        is_hex_color(sample@),
{
    let (l0, a0, b0) = Color::from(reference).lab();
    let (l1, a1, b1) = Color::from(sample).lab();
    let x = LabValue { l: l0 as _, a: a0 as _, b: b0 as _ };
    let y = LabValue { l: l1 as _, a: a1 as _, b: b1 as _ };
    DeltaE::new(x, y, DECMC1).value().to_string()
}

fn hex_digit_ok(c: char) -> (r: bool)
    ensures
        r == is_hex_digit(c),
{
    (c >= '0' && c <= '9') || (c >= 'a' && c <= 'f') || (c >= 'A' && c <= 'F')
}

/// Whether a text is `#` followed by six hexadecimal digits.
pub fn check_hex_color(text: &str) -> (r: bool)
    ensures
        r == is_hex_color(text@),
{
    if text.unicode_len() != 7 || text.get_char(0) != '#' {
        return false;
    }
    let mut i: usize = 1;
    while i < 7
        invariant
            1 <= i <= 7,
            text@.len() == 7,
            forall|k: int| 1 <= k < i ==> is_hex_digit(#[trigger] text@[k]),
        decreases 7 - i,
    {
        if !hex_digit_ok(text.get_char(i)) {
            return false;
        }
        i += 1;
    }
    true
}

/// Whether a text is `rgb(r,g,b)` with numbers of one to three digits.
pub fn check_rgb_call(text: &str) -> (r: bool)
    ensures
        r == is_rgb_call(text@),
{
    let n = text.unicode_len();
    if n < 10 || text.get_char(0) != 'r' || text.get_char(1) != 'g' || text.get_char(2) != 'b'
        || text.get_char(3) != '(' {
        return false;
    }
    let a = digit_run(text, 4);
    if a - 4 < 1 || a - 4 > 3 || a >= n || text.get_char(a) != ',' {
        return false;
    }
    let b = digit_run(text, a + 1);
    if b - (a + 1) < 1 || b - (a + 1) > 3 || b >= n || text.get_char(b) != ',' {
        return false;
    }
    let c = digit_run(text, b + 1);
    if c - (b + 1) < 1 || c - (b + 1) > 3 || c >= n || c + 1 != n || text.get_char(c) != ')' {
        return false;
    }
    true
}

/// Whether a text is a colour notation that this crate reads.
pub fn check_color_text(text: &str) -> (r: bool)
    ensures
        r == is_color_text(text@),
{
    check_hex_color(text) || check_rgb_call(text)
}

} // verus!
