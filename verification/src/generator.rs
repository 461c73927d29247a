//! Deriving a palette: the matched family's ramp, re-hued and re-saturated
//! after the input colour.
//!
//! Every shade keeps its own lightness. Its hue is shifted by the difference
//! between the input's hue and the anchor's, and its saturation is scaled by
//! the ratio of the input's saturation to the anchor's. Shades that carry the
//! anchor's label take the input colour itself.

use crate::decimal::{decimal_text, render_decimal, SCALE};
use crate::engine::{
    canonical_hex, color_channels, hex_text, hsl_channels, hsl_color, is_angle_text,
    is_canonical_hex, is_decimal_text, is_hex_color, lemma_canonical_hex_is_kept, read_color,
};
use crate::family::{
    families_view, shades_view, GeneratedColorFamily, GeneratedColorFamilyView, ShadeView,
};
use crate::hsl::{hsl_of, read_hsl, Hsl, FULL_TURN};
use crate::palette::{palette_view, TailwindShade, TailwindShadeView};
use crate::resolver::{anchored, chosen, find_closest_color, hsl_known};
use vstd::prelude::*;
use vstd::string::*;

verus! {

/// A hue moved into `[0, 360)` degrees, for a hue above `-360`.
pub open spec fn normalized_hue(h: int) -> int {
    if h < 0 {
        h + FULL_TURN
    } else {
        h
    }
}

/// How far the input's hue is from the anchor's.
pub open spec fn hue_difference(input: Hsl, anchor: Hsl) -> int {
    normalized_hue(input.hue as int) - normalized_hue(anchor.hue as int)
}

/// A shifted hue wrapped back into `[0, 360)` degrees.
pub open spec fn wrapped_hue(h: int) -> int {
    if h < 0 {
        h + FULL_TURN
    } else if h >= FULL_TURN {
        h - FULL_TURN
    } else {
        h
    }
}

/// The hue of a derived shade. Where input and anchor have the same hue, the
/// shade is pinned to the anchor's hue, not left at its own.
pub open spec fn new_hue(input: Hsl, anchor: Hsl, shade: Hsl) -> int {
    let d = hue_difference(input, anchor);
    if d != 0 {
        wrapped_hue(normalized_hue(shade.hue as int) + d)
    } else {
        wrapped_hue(normalized_hue(anchor.hue as int))
    }
}

/// The input's saturation over the anchor's, in units, rounded down.
pub open spec fn saturation_ratio(input: Hsl, anchor: Hsl) -> int {
    (input.saturation * SCALE) / (anchor.saturation as int)
}

/// The saturation of a derived shade, in units, rounded down.
pub open spec fn new_saturation(input: Hsl, anchor: Hsl, shade: Hsl) -> int {
    (shade.saturation * saturation_ratio(input, anchor)) / (SCALE as int)
}

/// The channels of a derived shade. Over a colourless anchor the saturation
/// ratio is undefined, and the shade comes out black.
pub open spec fn transplanted(input: Hsl, anchor: Hsl, shade: Hsl) -> (int, int, int) {
    if anchor.saturation == 0 {
        (0, 0, 0)
    } else {
        hsl_channels(
            decimal_text(new_hue(input, anchor, shade)),
            decimal_text(new_saturation(input, anchor, shade)),
            decimal_text(shade.lightness as int),
        )
    }
}

/// The channels of the palette's entry for `shade`.
pub open spec fn entry_channels(input: Seq<char>, anchor: ShadeView, shade: ShadeView) -> (
    int,
    int,
    int,
) {
    if shade.number == anchor.number {
        color_channels(input)
    } else {
        transplanted(
            hsl_of(input).unwrap(),
            hsl_of(anchor.hexcode).unwrap(),
            hsl_of(shade.hexcode).unwrap(),
        )
    }
}

/// The palette's entry for `shade`.
pub open spec fn ramp_entry(input: Seq<char>, anchor: ShadeView, shade: ShadeView)
    -> TailwindShadeView {
    let (r, g, b) = entry_channels(input, anchor, shade);
    TailwindShadeView {
        number: shade.number,
        hexcode: hex_text(r, g, b),
        rgb: (r as u8, g as u8, b as u8),
    }
}

/// The palette derived from `shades` with the shade at `a` as anchor.
pub open spec fn ramp(input: Seq<char>, shades: Seq<ShadeView>, a: int) -> Seq<TailwindShadeView> {
    Seq::new(shades.len(), |i: int| ramp_entry(input, shades[a], shades[i]))
}

/// `shades` is the palette that `input` gets from one of `families`: some
/// family has an anchor for the input, and `shades` is its ramp derived
/// around that anchor.
pub open spec fn generated_from(
    shades: Seq<TailwindShadeView>,
    input: Seq<char>,
    families: Seq<GeneratedColorFamilyView>,
) -> bool {
    exists|f: int, k: usize, a: usize|
        #[trigger] anchored(input, families, f, k, a) && shades == ramp(
            input,
            families[f].shades,
            a as int,
        )
}

/// Every derived hue lies in `[0, 360)` degrees.
pub proof fn lemma_new_hue_in_range(input: Hsl, anchor: Hsl, shade: Hsl)
    requires
        input.in_range(),
        anchor.in_range(),
        shade.in_range(),
    ensures
        0 <= new_hue(input, anchor, shade) < FULL_TURN,
{
}

/// A derived palette has one entry per reference shade, under the same
/// labels and in the same order.
pub proof fn lemma_ramp_keeps_labels(input: Seq<char>, shades: Seq<ShadeView>, a: int)
    ensures
        ramp(input, shades, a).len() == shades.len(),
        forall|i: int|
            0 <= i < shades.len() ==> (#[trigger] ramp(input, shades, a)[i]).number
                == shades[i].number,
{
}

/// The anchor shade takes the input colour itself: its entry holds the
/// canonical text of the input, which for an input in canonical text is the
/// input as it was written.
pub proof fn lemma_anchor_keeps_input(input: Seq<char>, shades: Seq<ShadeView>, a: int)
    requires
        0 <= a < shades.len(),
    ensures
        ramp(input, shades, a)[a].hexcode == canonical_hex(input),
        is_canonical_hex(input) ==> ramp(input, shades, a)[a].hexcode == input,
{
    if is_canonical_hex(input) {
        lemma_canonical_hex_is_kept(input);
    }
}

/// `shades` carry the labels of `reference`, one for one and in order.
pub open spec fn same_labels(shades: Seq<TailwindShadeView>, reference: Seq<ShadeView>) -> bool {
    &&& shades.len() == reference.len()
    &&& forall|i: int| 0 <= i < shades.len() ==> (#[trigger] shades[i]).number == reference[i].number
}

/// A generated palette has as many shades as the family it was matched to,
/// under the same labels and in the same order.
pub proof fn lemma_generated_keeps_labels(
    shades: Seq<TailwindShadeView>,
    input: Seq<char>,
    families: Seq<GeneratedColorFamilyView>,
)
    requires
        generated_from(shades, input, families),
    ensures
        exists|f: int| 0 <= f < families.len() && same_labels(shades, (#[trigger] families[f]).shades),
{
    let (f, k, a) = choose|f: int, k: usize, a: usize|
        #[trigger] anchored(input, families, f, k, a) && shades == ramp(
            input,
            families[f].shades,
            a as int,
        );
    lemma_ramp_keeps_labels(input, families[f].shades, a as int);
    assert(same_labels(shades, families[f].shades));
}

/// A palette generated from an input in canonical text holds the input as
/// it was written: at its anchor.
pub proof fn lemma_generated_keeps_input(
    shades: Seq<TailwindShadeView>,
    input: Seq<char>,
    families: Seq<GeneratedColorFamilyView>,
)
    requires
        generated_from(shades, input, families),
        is_canonical_hex(input),
    ensures
        exists|i: int| 0 <= i < shades.len() && (#[trigger] shades[i]).hexcode == input,
{
    let (f, k, a) = choose|f: int, k: usize, a: usize|
        #[trigger] anchored(input, families, f, k, a) && shades == ramp(
            input,
            families[f].shades,
            a as int,
        );
    lemma_anchor_keeps_input(input, families[f].shades, a as int);
    assert(shades[a as int].hexcode == input);
}

/// Whether two texts are the same.
pub fn same_text(a: &str, b: &str) -> (r: bool)
    ensures
        r == (a@ == b@),
{
    let n = a.unicode_len();
    if n != b.unicode_len() {
        return false;
    }
    let mut i: usize = 0;
    while i < n
        invariant
            i <= n,
            n == a@.len(),
            n == b@.len(),
            forall|j: int| 0 <= j < i ==> a@[j] == b@[j],
        decreases n - i,
    {
        if a.get_char(i) != b.get_char(i) {
            return false;
        }
        i += 1;
    }
    assert(a@ =~= b@);
    true
}

/// Computes the hue of a derived shade.
pub fn derive_hue(input: Hsl, anchor: Hsl, shade: Hsl) -> (r: i128)
    requires
        input.in_range(),
        anchor.in_range(),
        shade.in_range(),
    ensures
        r == new_hue(input, anchor, shade),
        0 <= r < FULL_TURN,
{
    let input_hue = if input.hue < 0 {
        input.hue + FULL_TURN
    } else {
        input.hue
    };
    let anchor_hue = if anchor.hue < 0 {
        anchor.hue + FULL_TURN
    } else {
        anchor.hue
    };
    let shade_hue = if shade.hue < 0 {
        shade.hue + FULL_TURN
    } else {
        shade.hue
    };
    let difference = input_hue - anchor_hue;
    let shifted = if difference != 0 {
        shade_hue + difference
    } else {
        anchor_hue
    };
    if shifted < 0 {
        shifted + FULL_TURN
    } else if shifted >= FULL_TURN {
        shifted - FULL_TURN
    } else {
        shifted
    }
}

/// Computes the saturation of a derived shade, over an anchor that has some
/// saturation.
pub fn derive_saturation(input: Hsl, anchor: Hsl, shade: Hsl) -> (r: i128)
    requires
        input.in_range(),
        anchor.in_range(),
        shade.in_range(),
        anchor.saturation > 0,
    ensures
        r == new_saturation(input, anchor, shade),
{
    let scaled = input.saturation * SCALE;
    let ratio = scaled / anchor.saturation;
    proof {
        let x = scaled as int;
        let d = anchor.saturation as int;
        assert(0 <= x / d <= x) by (nonlinear_arith)
            requires
                0 <= x,
                1 <= d,
        ;
        let s = shade.saturation as int;
        let q = ratio as int;
        assert(0 <= s * q <= 1_000_000_000_000 * 1_000_000_000_000_000_000_000_000)
            by (nonlinear_arith)
            requires
                0 <= s <= 1_000_000_000_000,
                0 <= q <= 1_000_000_000_000_000_000_000_000,
        ;
    }
    (shade.saturation * ratio) / SCALE
}

/// Composes the colour of a derived shade.
fn derive_color(input: Hsl, anchor: Hsl, shade: Hsl) -> (r: (String, (u8, u8, u8)))
    requires
        input.in_range(),
        anchor.in_range(),
        shade.in_range(),
    ensures
        (r.1.0 as int, r.1.1 as int, r.1.2 as int) == transplanted(input, anchor, shade),
        r.0@ == hex_text(r.1.0 as int, r.1.1 as int, r.1.2 as int),
{
    if anchor.saturation == 0 {
        let black = "#000000";
        proof {
            reveal_strlit("#000000");
            assert(is_hex_color(black@));
            assert(color_channels(black@) == (0int, 0int, 0int));
        }
        return read_color(black);
    }
    let h = render_decimal(derive_hue(input, anchor, shade));
    let s = render_decimal(derive_saturation(input, anchor, shade));
    let l = render_decimal(shade.lightness);
    proof {
        assert(is_angle_text(h@));
        assert(is_decimal_text(s@));
        assert(is_decimal_text(l@));
    }
    hsl_color(h.as_str(), s.as_str(), l.as_str())
}

/// Derives the palette of a resolved family: one shade per reference shade,
/// in the same order. Nothing is derived unless the family has an anchor and
/// the colour engine knows hue, saturation and lightness of the input and of
/// every shade.
pub fn synthesize(hexcode: &str, family: &GeneratedColorFamily) -> (r: Option<Vec<TailwindShade>>)
    ensures
        match r {
            Some(out) => family@.closest_shade_lightness matches Some(a) && hsl_known(
                hexcode@,
                family@.shades,
            ) && palette_view(out@) == ramp(hexcode@, family@.shades, a as int),
            None => family@.closest_shade_lightness is None || !hsl_known(
                hexcode@,
                family@.shades,
            ),
        },
{
    let a = match family.closest_shade_lightness() {
        Some(a) => a,
        None => {
            return None;
        },
    };
    let input = match read_hsl(hexcode) {
        Some(x) => x,
        None => {
            return None;
        },
    };
    let shades = family.shades();
    let ghost views = family@.shades;
    let anchor_shade = &shades[a];
    let anchor = match read_hsl(anchor_shade.hexcode()) {
        Some(x) => x,
        None => {
            assert(hsl_of(views[a as int].hexcode) is None);
            return None;
        },
    };
    let (input_hex, input_rgb) = read_color(hexcode);
    let mut out: Vec<TailwindShade> = Vec::new();
    let mut i: usize = 0;
    while i < shades.len()
        invariant
            i <= shades.len(),
            a < shades.len(),
            views == shades_view(shades@),
            views == family@.shades,
            family@.closest_shade_lightness == Some(a),
            anchor_shade == shades@[a as int],
            hsl_of(hexcode@) == Some(input),
            hsl_of(views[a as int].hexcode) == Some(anchor),
            input.in_range(),
            anchor.in_range(),
            (input_rgb.0 as int, input_rgb.1 as int, input_rgb.2 as int) == color_channels(
                hexcode@,
            ),
            input_hex@ == hex_text(input_rgb.0 as int, input_rgb.1 as int, input_rgb.2 as int),
            out.len() == i,
            forall|j: int| 0 <= j < i ==> hsl_of(#[trigger] views[j].hexcode) is Some,
            forall|j: int|
                0 <= j < i ==> (#[trigger] out@[j])@ == ramp_entry(
                    hexcode@,
                    views[a as int],
                    views[j],
                ),
        decreases shades.len() - i,
    {
        let shade = &shades[i];
        let own = match read_hsl(shade.hexcode()) {
            Some(x) => x,
            None => {
                assert(hsl_of(views[i as int].hexcode) is None);
                return None;
            },
        };
        let entry = if same_text(shade.number(), anchor_shade.number()) {
            TailwindShade::new(shade.number(), input_hex.clone(), input_rgb)
        } else {
            let (hex, rgb) = derive_color(input, anchor, own);
            TailwindShade::new(shade.number(), hex, rgb)
        };
        assert(entry@ == ramp_entry(hexcode@, views[a as int], views[i as int]));
        out.push(entry);
        i += 1;
    }
    assert(palette_view(out@) =~= ramp(hexcode@, views, a as int));
    Some(out)
}

/// Generates the palette of an input colour, written as `#rrggbb`, from
/// reference families: resolves the closest family and its anchor, then
/// derives one shade per reference shade.
pub fn generate_color_family(hexcode: String, reference_colors: Vec<GeneratedColorFamily>) -> (r:
    Option<Vec<TailwindShade>>)
    ensures
        r matches Some(out) ==> generated_from(
            palette_view(out@),
            hexcode@,
            families_view(reference_colors@),
        ),
        !is_hex_color(hexcode@) ==> r is None,
        (forall|f: int|
            0 <= f < reference_colors.len() ==> (#[trigger] families_view(
                reference_colors@,
            )[f]).shades.len() == 0) ==> r is None,
{
    let ghost views = families_view(reference_colors@);
    let family = match find_closest_color(hexcode.as_str(), reference_colors) {
        Some(family) => family,
        None => {
            return None;
        },
    };
    let r = synthesize(hexcode.as_str(), &family);
    proof {
        if r is Some {
            let (f, k, a) = choose|f: int, k: usize, a: usize|
                #[trigger] anchored(hexcode@, views, f, k, a) && family@ == chosen(views, f, k, a);
            assert(family@.shades == views[f].shades);
            assert(family@.closest_shade_lightness == Some(a));
            assert(palette_view(r->0@) == ramp(hexcode@, views[f].shades, a as int));
            assert(anchored(hexcode@, views, f, k, a));
        }
    }
    r
}

} // verus!
