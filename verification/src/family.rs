//! Reference shades and the families that hold them.

use crate::engine::{check_hex_color, is_hex_color};
use vstd::prelude::*;
use vstd::string::*;

verus! {

/// A reference shade as plain text.
pub struct ShadeView {
    pub number: Seq<char>,
    pub hexcode: Seq<char>,
}

/// One step of a reference ramp: its label and its colour.
///
/// The colour is always `#` followed by six hexadecimal digits.
#[derive(Debug)]
pub struct Shade {
    number: String,
    hexcode: String,
}

impl View for Shade {
    type V = ShadeView;

    closed spec fn view(&self) -> ShadeView {
        ShadeView { number: self.number@, hexcode: self.hexcode@ }
    }
}

impl Shade {
    #[verifier::type_invariant]
    spec fn well_formed(self) -> bool {
        is_hex_color(self.hexcode@)
    }

    /// A shade with the given label and colour, if the colour is written as
    /// `#` and six hexadecimal digits.
    pub fn new(number: &str, hexcode: &str) -> (r: Option<Shade>)
        ensures
            r is Some <==> is_hex_color(hexcode@),
            r matches Some(s) ==> s@ == (ShadeView { number: number@, hexcode: hexcode@ }),
    {
        if check_hex_color(hexcode) {
            Some(Shade { number: number.to_owned(), hexcode: hexcode.to_owned() })
        } else {
            None
        }
    }

    pub fn number(&self) -> (r: &str)
        ensures
            r@ == self@.number,
    {
        self.number.as_str()
    }

    pub fn hexcode(&self) -> (r: &str)
        ensures
            r@ == self@.hexcode,
            is_hex_color(r@),
    {
        proof {
            use_type_invariant(self);
        }
        self.hexcode.as_str()
    }
}

impl Clone for Shade {
    fn clone(&self) -> (r: Shade)
        ensures
            r@ == self@,
    {
        proof {
            use_type_invariant(self);
        }
        Shade { number: self.number.clone(), hexcode: self.hexcode.clone() }
    }
}

/// The plain-text views of a run of shades.
pub open spec fn shades_view(shades: Seq<Shade>) -> Seq<ShadeView> {
    shades.map_values(|s: Shade| s@)
}

/// A reference family as plain values.
pub struct GeneratedColorFamilyView {
    pub name: Seq<char>,
    pub shades: Seq<ShadeView>,
    pub closest_shade: Option<usize>,
    pub closest_shade_lightness: Option<usize>,
}

/// A named reference ramp, with the two shades that a resolution picked in
/// it: the one nearest to the input by perceptual distance, and the anchor,
/// nearest to it by lightness. Both are positions in `shades`, and both are
/// absent until the family has been resolved against an input.
#[derive(Debug)]
pub struct GeneratedColorFamily {
    name: String,
    shades: Vec<Shade>,
    closest_shade: Option<usize>,
    closest_shade_lightness: Option<usize>,
}

impl View for GeneratedColorFamily {
    type V = GeneratedColorFamilyView;

    closed spec fn view(&self) -> GeneratedColorFamilyView {
        GeneratedColorFamilyView {
            name: self.name@,
            shades: shades_view(self.shades@),
            closest_shade: self.closest_shade,
            closest_shade_lightness: self.closest_shade_lightness,
        }
    }
}

/// The views of a run of families.
pub open spec fn families_view(families: Seq<GeneratedColorFamily>) -> Seq<
    GeneratedColorFamilyView,
> {
    families.map_values(|f: GeneratedColorFamily| f@)
}

impl GeneratedColorFamily {
    #[verifier::type_invariant]
    spec fn well_formed(self) -> bool {
        &&& self.closest_shade matches Some(k) ==> k < self.shades.len()
        &&& self.closest_shade_lightness matches Some(k) ==> k < self.shades.len()
    }

    /// An unresolved family.
    pub fn new(name: &str, shades: Vec<Shade>) -> (r: GeneratedColorFamily)
        ensures
            r@ == (GeneratedColorFamilyView {
                name: name@,
                shades: shades_view(shades@),
                closest_shade: None,
                closest_shade_lightness: None,
            }),
    {
        GeneratedColorFamily {
            name: name.to_owned(),
            shades,
            closest_shade: None,
            closest_shade_lightness: None,
        }
    }

    pub fn name(&self) -> (r: &str)
        ensures
            r@ == self@.name,
    {
        self.name.as_str()
    }

    pub fn shades(&self) -> (r: &Vec<Shade>)
        ensures
            shades_view(r@) == self@.shades,
    {
        &self.shades
    }

    pub fn closest_shade(&self) -> (r: Option<usize>)
        ensures
            r == self@.closest_shade,
            r matches Some(k) ==> k < self@.shades.len(),
    {
        proof {
            use_type_invariant(self);
        }
        self.closest_shade
    }

    pub fn closest_shade_lightness(&self) -> (r: Option<usize>)
        ensures
            r == self@.closest_shade_lightness,
            r matches Some(k) ==> k < self@.shades.len(),
    {
        proof {
            use_type_invariant(self);
        }
        self.closest_shade_lightness
    }

    /// The same family with its two picks recorded, if both are positions
    /// in it.
    pub fn resolved(self, closest: usize, anchor: usize) -> (r: Option<GeneratedColorFamily>)
        ensures
            r is Some <==> closest < self@.shades.len() && anchor < self@.shades.len(),
            r matches Some(f) ==> f@ == (GeneratedColorFamilyView {
                closest_shade: Some(closest),
                closest_shade_lightness: Some(anchor),
                ..self@
            }),
    {
        if closest < self.shades.len() && anchor < self.shades.len() {
            Some(
                GeneratedColorFamily {
                    name: self.name,
                    shades: self.shades,
                    closest_shade: Some(closest),
                    closest_shade_lightness: Some(anchor),
                },
            )
        } else {
            None
        }
    }
}

impl Clone for GeneratedColorFamily {
    /// A copy of the family that shares nothing with it.
    fn clone(&self) -> (r: GeneratedColorFamily)
        ensures
            r@ == self@,
    {
        proof {
            use_type_invariant(self);
        }
        let mut shades: Vec<Shade> = Vec::new();
        let mut i: usize = 0;
        while i < self.shades.len()
            invariant
                i <= self.shades.len(),
                shades.len() == i,
                forall|j: int| 0 <= j < i ==> (#[trigger] shades@[j])@ == self.shades@[j]@,
            decreases self.shades.len() - i,
        {
            shades.push(self.shades[i].clone());
            i += 1;
        }
        assert(shades_view(shades@) =~= shades_view(self.shades@));
        GeneratedColorFamily {
            name: self.name.clone(),
            shades,
            closest_shade: self.closest_shade,
            closest_shade_lightness: self.closest_shade_lightness,
        }
    }
}

} // verus!
