//! The generated palette and its shades.

use crate::colors::TAILWIND_COLORS;
use crate::decimal::{nat_digits, push_nat};
use crate::engine::{canonical_hex, check_color_text, is_color_text, read_color};
use crate::family::{families_view, GeneratedColorFamily, GeneratedColorFamilyView};
use crate::generator::{generate_color_family, generated_from};
use crate::reference::{loads_as, parse_tailwind_colors, table_entries, table_ok};
use vstd::prelude::*;
use vstd::string::*;

verus! {

/// A generated shade as plain values.
pub struct TailwindShadeView {
    pub number: Seq<char>,
    pub hexcode: Seq<char>,
    pub rgb: (u8, u8, u8),
}

/// One shade of a generated palette: its label, its colour as `#rrggbb`, and
/// the same colour as red, green and blue channels.
#[derive(Debug, Clone, PartialEq)]
pub struct TailwindShade {
    number: String,
    hexcode: String,
    red: u8,
    green: u8,
    blue: u8,
}

impl View for TailwindShade {
    type V = TailwindShadeView;

    closed spec fn view(&self) -> TailwindShadeView {
        TailwindShadeView {
            number: self.number@,
            hexcode: self.hexcode@,
            rgb: (self.red, self.green, self.blue),
        }
    }
}

impl TailwindShade {
    /// A shade with the given label, colour text and channels.
    pub fn new(number: &str, hexcode: String, rgb: (u8, u8, u8)) -> (r: TailwindShade)
        ensures
            r@ == (TailwindShadeView { number: number@, hexcode: hexcode@, rgb }),
    {
        TailwindShade { number: number.to_owned(), hexcode, red: rgb.0, green: rgb.1, blue: rgb.2 }
    }

    /// The label of the shade, such as `500`.
    pub fn number(&self) -> (r: &str)
        ensures
            r@ == self@.number,
    {
        self.number.as_str()
    }

    /// The colour of the shade as `#rrggbb`.
    pub fn hex(&self) -> (r: &str)
        ensures
            r@ == self@.hexcode,
    {
        self.hexcode.as_str()
    }

    /// The colour of the shade as red, green and blue.
    pub fn rgb(&self) -> (r: (u8, u8, u8))
        ensures
            r == self@.rgb,
    {
        (self.red, self.green, self.blue)
    }
}

/// The views of a run of generated shades.
pub open spec fn palette_view(shades: Seq<TailwindShade>) -> Seq<TailwindShadeView> {
    shades.map_values(|s: TailwindShade| s@)
}

/// A palette generated from one colour: the shades of the matched reference
/// family, derived anew around the input.
#[derive(Debug, Clone, PartialEq)]
pub struct TailwindPalette {
    shades: Vec<TailwindShade>,
}

impl View for TailwindPalette {
    type V = Seq<TailwindShadeView>;

    closed spec fn view(&self) -> Seq<TailwindShadeView> {
        palette_view(self.shades@)
    }
}

impl Default for TailwindPalette {
    /// The empty palette.
    fn default() -> (r: TailwindPalette)
        ensures
            r@.len() == 0,
    {
        TailwindPalette { shades: Vec::new() }
    }
}

/// One cell of the strip: a square of side 100 for the shade at position `i`.
pub open spec fn svg_rect(i: nat, hexcode: Seq<char>) -> Seq<char> {
    "  <rect x='"@ + nat_digits(i * 100) + "' width='100' height='100' fill='"@ + hexcode
        + "'/>\n"@
}

/// The cells of the first `n` shades.
pub open spec fn svg_rects(shades: Seq<TailwindShadeView>, n: nat) -> Seq<char>
    decreases n,
{
    if n == 0 {
        Seq::empty()
    } else {
        svg_rects(shades, (n - 1) as nat) + svg_rect((n - 1) as nat, shades[n - 1].hexcode)
    }
}

/// The palette as an SVG strip, one cell per shade; nothing for an empty
/// palette.
pub open spec fn svg_text(shades: Seq<TailwindShadeView>) -> Seq<char> {
    if shades.len() == 0 {
        Seq::empty()
    } else {
        "<svg width='1000' height='100' viewBox='0 0 1000 100' fill='none' xmlns='http://www.w3.org/2000/svg'>\n"@
            + svg_rects(shades, shades.len()) + "</svg>"@
    }
}

impl TailwindPalette {
    /// Generates the palette of a colour, written as `#rrggbb` or
    /// `rgb(r,g,b)`, from Tailwind's colour families.
    pub fn new(str: &str) -> (r: Option<TailwindPalette>)
        ensures
            !is_color_text(str@) ==> r is None,
            r matches Some(palette) ==> table_entries(TAILWIND_COLORS@) matches Some(table)
                && table_ok(table) && exists|families: Seq<GeneratedColorFamilyView>|
                #[trigger] loads_as(families, table) && generated_from(
                    palette@,
                    canonical_hex(str@),
                    families,
                ),
    {
        let reference_colors = match parse_tailwind_colors(TAILWIND_COLORS) {
            Some(families) => families,
            None => {
                return None;
            },
        };
        let ghost families = families_view(reference_colors@);
        let r = TailwindPalette::from_reference(str, reference_colors);
        proof {
            if r is Some {
                let table = table_entries(TAILWIND_COLORS@)->0;
                assert(loads_as(families, table));
            }
        }
        r
    }

    /// Generates the palette of a colour, written as `#rrggbb` or
    /// `rgb(r,g,b)`, from the given reference families.
    pub fn from_reference(color: &str, reference_colors: Vec<GeneratedColorFamily>) -> (r: Option<
        TailwindPalette,
    >)
        ensures
            !is_color_text(color@) ==> r is None,
            r matches Some(palette) ==> generated_from(
                palette@,
                canonical_hex(color@),
                families_view(reference_colors@),
            ),
            (forall|f: int|
                0 <= f < reference_colors.len() ==> (#[trigger] families_view(
                    reference_colors@,
                )[f]).shades.len() == 0) ==> r is None,
    {
        if !check_color_text(color) {
            return None;
        }
        let (hexcode, _) = read_color(color);
        match generate_color_family(hexcode, reference_colors) {
            Some(shades) => Some(TailwindPalette { shades }),
            None => None,
        }
    }

    /// A palette that holds the given shades.
    pub fn from_shades(shades: Vec<TailwindShade>) -> (r: TailwindPalette)
        ensures
            r@ == palette_view(shades@),
    {
        TailwindPalette { shades }
    }

    /// The shades of the palette, in the order of the reference family.
    pub fn shades(&self) -> (r: &Vec<TailwindShade>)
        ensures
            palette_view(r@) == self@,
    {
        &self.shades
    }

    /// Renders the palette as an SVG strip, one square of side 100 per
    /// shade.
    pub fn shades_as_svg(&self) -> (r: String)
        ensures
            r@ == svg_text(self@),
    {
        let mut svg = String::new();
        if self.shades.len() == 0 {
            return svg;
        }
        svg.append(
            "<svg width='1000' height='100' viewBox='0 0 1000 100' fill='none' xmlns='http://www.w3.org/2000/svg'>\n",
        );
        let ghost header = svg@;
        let mut i: usize = 0;
        assert(svg@ =~= header + svg_rects(self@, 0));
        while i < self.shades.len()
            invariant
                i <= self.shades.len(),
                svg@ == header + svg_rects(self@, i as nat),
            decreases self.shades.len() - i,
        {
            let ghost before = svg@;
            svg.append("  <rect x='");
            push_nat(&mut svg, i as u128 * 100);
            svg.append("' width='100' height='100' fill='");
            svg.append(self.shades[i].hex());
            svg.append("'/>\n");
            proof {
                assert(self@[i as int] == self.shades@[i as int]@);
                assert(svg@ =~= before + svg_rect(i as nat, self@[i as int].hexcode));
                assert(svg@ =~= header + svg_rects(self@, (i + 1) as nat));
            }
            i += 1;
        }
        svg.append("</svg>");
        svg
    }
}

} // verus!
