//! Choosing the reference family and the anchor shade for an input colour.
//!
//! Distances are kept in a table beside the families, one row per family and
//! one cell per shade; a cell is empty where no distance could be measured.
//! Ties go to whatever comes first.

use crate::decimal::parse_decimal;
use crate::engine::{check_hex_color, is_hex_color, perceptual_delta};
use crate::family::{
    families_view, shades_view, GeneratedColorFamily, GeneratedColorFamilyView, Shade, ShadeView,
};
use crate::hsl::{hsl_of, read_hsl, Hsl};
use vstd::prelude::*;

verus! {

/// The cell of row `g` at position `j`.
pub open spec fn cell(table: Seq<Vec<Option<i128>>>, g: int, j: int) -> Option<i128> {
    table[g]@[j]
}

/// Whether `(g, j)` comes before `(f, k)`, reading row by row.
pub open spec fn comes_before(g: int, j: int, f: int, k: int) -> bool {
    g < f || (g == f && j < k)
}

/// `(f, k)` is the first cell, reading row by row, that holds the least
/// value of the whole table.
pub open spec fn holds_least(table: Seq<Vec<Option<i128>>>, f: int, k: int) -> bool {
    &&& 0 <= f < table.len()
    &&& 0 <= k < table[f]@.len()
    &&& cell(table, f, k) matches Some(m)
    &&& forall|g: int, j: int|
        0 <= g < table.len() && 0 <= j < table[g]@.len() ==> (#[trigger] cell(table, g, j)
            matches Some(v) ==> m <= v && (comes_before(g, j, f, k) ==> m < v))
}

/// No cell of the table holds a value.
pub open spec fn holds_nothing(table: Seq<Vec<Option<i128>>>) -> bool {
    forall|g: int, j: int|
        0 <= g < table.len() && 0 <= j < table[g]@.len() ==> (#[trigger] cell(table, g, j)) is None
}

/// `k` is the first position that holds the least value.
pub open spec fn is_first_least(values: Seq<i128>, k: int) -> bool {
    &&& 0 <= k < values.len()
    &&& forall|j: int|
        0 <= j < values.len() ==> values[k] <= #[trigger] values[j] && (j < k ==> values[k]
            < values[j])
}

/// At most one cell holds the least value first.
pub proof fn lemma_least_cell_is_unique(
    table: Seq<Vec<Option<i128>>>,
    f: int,
    k: int,
    g: int,
    j: int,
)
    requires
        holds_least(table, f, k),
        holds_least(table, g, j),
    ensures
        f == g,
        k == j,
{
    let m = cell(table, f, k).unwrap();
    let v = cell(table, g, j).unwrap();
    assert(m <= v);
    assert(v <= m);
    if comes_before(g, j, f, k) {
        assert(m < v);
    }
    if comes_before(f, k, g, j) {
        assert(v < m);
    }
}

/// At most one position holds the least value first.
pub proof fn lemma_first_least_is_unique(values: Seq<i128>, k: int, j: int)
    requires
        is_first_least(values, k),
        is_first_least(values, j),
    ensures
        k == j,
{
    assert(values[k] <= values[j]);
    assert(values[j] <= values[k]);
}

/// The first cell, reading row by row, that holds the least value.
pub fn closest_cell(table: &Vec<Vec<Option<i128>>>) -> (r: Option<(usize, usize)>)
    ensures
        match r {
            Some((f, k)) => holds_least(table@, f as int, k as int),
            None => holds_nothing(table@),
        },
{
    let mut best: Option<(usize, usize, i128)> = None;
    let mut g: usize = 0;
    while g < table.len()
        invariant
            g <= table.len(),
            match best {
                Some((f, k, m)) => {
                    &&& f < g
                    &&& k < table@[f as int]@.len()
                    &&& cell(table@, f as int, k as int) == Some(m)
                    &&& forall|a: int, b: int|
                        0 <= a < g && 0 <= b < table@[a]@.len() ==> (#[trigger] cell(table@, a, b)
                            matches Some(v) ==> m <= v && (comes_before(a, b, f as int, k as int)
                            ==> m < v))
                },
                None => forall|a: int, b: int|
                    0 <= a < g && 0 <= b < table@[a]@.len() ==> (#[trigger] cell(
                        table@,
                        a,
                        b,
                    )) is None,
            },
        decreases table.len() - g,
    {
        let row = &table[g];
        let mut j: usize = 0;
        while j < row.len()
            invariant
                g < table.len(),
                row == table@[g as int],
                j <= row.len(),
                match best {
                    Some((f, k, m)) => {
                        &&& (f < g || (f == g && k < j))
                        &&& f < table.len()
                        &&& k < table@[f as int]@.len()
                        &&& cell(table@, f as int, k as int) == Some(m)
                        &&& forall|a: int, b: int|
                            (0 <= a < g && 0 <= b < table@[a]@.len()) || (a == g && 0 <= b < j)
                                ==> (#[trigger] cell(table@, a, b) matches Some(v) ==> m <= v && (
                            comes_before(a, b, f as int, k as int) ==> m < v))
                    },
                    None => forall|a: int, b: int|
                        (0 <= a < g && 0 <= b < table@[a]@.len()) || (a == g && 0 <= b < j)
                            ==> (#[trigger] cell(table@, a, b)) is None,
                },
            decreases row.len() - j,
        {
            match row[j] {
                Some(v) => {
                    assert(cell(table@, g as int, j as int) == Some(v));
                    match best {
                        Some((_, _, m)) => {
                            if v < m {
                                best = Some((g, j, v));
                            }
                        },
                        None => {
                            best = Some((g, j, v));
                        },
                    }
                },
                None => {
                    assert(cell(table@, g as int, j as int) is None);
                },
            }
            j += 1;
        }
        g += 1;
    }
    match best {
        Some((f, k, _)) => Some((f, k)),
        None => None,
    }
}

/// The first position that holds the least value; none in an empty run.
pub fn first_least(values: &Vec<i128>) -> (r: Option<usize>)
    ensures
        match r {
            Some(k) => is_first_least(values@, k as int),
            None => values.len() == 0,
        },
{
    if values.len() == 0 {
        return None;
    }
    let mut best: usize = 0;
    let mut j: usize = 1;
    while j < values.len()
        invariant
            best < j <= values.len(),
            forall|i: int|
                0 <= i < j ==> values@[best as int] <= #[trigger] values@[i] && (i < best
                    ==> values@[best as int] < values@[i]),
        decreases values.len() - j,
    {
        if values[j] < values[best] {
            best = j;
        }
        j += 1;
    }
    Some(best)
}

/// How far apart two colours are in lightness.
pub open spec fn lightness_gap(a: Hsl, b: Hsl) -> int {
    if a.lightness >= b.lightness {
        a.lightness - b.lightness
    } else {
        b.lightness - a.lightness
    }
}

/// Hue, saturation and lightness of the input and of every shade are known.
pub open spec fn hsl_known(input: Seq<char>, shades: Seq<ShadeView>) -> bool {
    &&& hsl_of(input) is Some
    &&& forall|i: int| 0 <= i < shades.len() ==> hsl_of(#[trigger] shades[i].hexcode) is Some
}

/// For every shade, how far its lightness is from that of the input.
pub open spec fn lightness_gaps(input: Seq<char>, shades: Seq<ShadeView>) -> Seq<i128> {
    Seq::new(
        shades.len(),
        |i: int| lightness_gap(hsl_of(shades[i].hexcode).unwrap(), hsl_of(input).unwrap()) as i128,
    )
}

/// The table has one row per family and one cell per shade.
pub open spec fn fits(table: Seq<Vec<Option<i128>>>, families: Seq<GeneratedColorFamilyView>)
    -> bool {
    &&& table.len() == families.len()
    &&& forall|f: int| 0 <= f < table.len() ==> (#[trigger] table[f])@.len() == families[f].shades.len()
}

/// Family `f` with shade `k` nearest by distance and shade `a` as anchor.
pub open spec fn chosen(families: Seq<GeneratedColorFamilyView>, f: int, k: usize, a: usize)
    -> GeneratedColorFamilyView {
    GeneratedColorFamilyView {
        name: families[f].name,
        shades: families[f].shades,
        closest_shade: Some(k),
        closest_shade_lightness: Some(a),
    }
}

/// Shade `k` and shade `a` are positions in family `f`, and `a` is the first
/// shade of that family whose lightness is nearest to the input's.
pub open spec fn anchored(
    input: Seq<char>,
    families: Seq<GeneratedColorFamilyView>,
    f: int,
    k: usize,
    a: usize,
) -> bool {
    &&& 0 <= f < families.len()
    &&& k < families[f].shades.len()
    &&& hsl_known(input, families[f].shades)
    &&& is_first_least(lightness_gaps(input, families[f].shades), a as int)
}

/// The resolution that a table of distances calls for: `(f, k)` is the
/// first cell holding the least distance, and `a` is the anchor in family `f`.
pub open spec fn picks(
    input: Seq<char>,
    families: Seq<GeneratedColorFamilyView>,
    table: Seq<Vec<Option<i128>>>,
    f: int,
    k: usize,
    a: usize,
) -> bool {
    holds_least(table, f, k as int) && anchored(input, families, f, k, a)
}

/// The anchor among `shades`: the first one whose lightness is nearest to
/// that of the input.
pub fn anchor_shade(hexcode: &str, shades: &Vec<Shade>) -> (r: Option<usize>)
    ensures
        match r {
            Some(a) => hsl_known(hexcode@, shades_view(shades@)) && is_first_least(
                lightness_gaps(hexcode@, shades_view(shades@)),
                a as int,
            ),
            None => !hsl_known(hexcode@, shades_view(shades@)) || shades.len() == 0,
        },
{
    let input = match read_hsl(hexcode) {
        Some(x) => x,
        None => {
            return None;
        },
    };
    let ghost views = shades_view(shades@);
    let mut gaps: Vec<i128> = Vec::new();
    let mut i: usize = 0;
    while i < shades.len()
        invariant
            i <= shades.len(),
            views == shades_view(shades@),
            hsl_of(hexcode@) == Some(input),
            input.in_range(),
            gaps.len() == i,
            forall|j: int| 0 <= j < i ==> hsl_of(#[trigger] views[j].hexcode) is Some,
            forall|j: int|
                0 <= j < i ==> #[trigger] gaps@[j] == lightness_gap(
                    hsl_of(views[j].hexcode).unwrap(),
                    input,
                ),
        decreases shades.len() - i,
    {
        let shade = match read_hsl(shades[i].hexcode()) {
            Some(x) => x,
            None => {
                assert(hsl_of(views[i as int].hexcode) is None);
                return None;
            },
        };
        let gap = if shade.lightness >= input.lightness {
            shade.lightness - input.lightness
        } else {
            input.lightness - shade.lightness
        };
        gaps.push(gap);
        i += 1;
    }
    assert(gaps@ =~= lightness_gaps(hexcode@, views));
    first_least(&gaps)
}

/// Measures the distance from the input to every shade of every family.
/// A cell stays empty where the engine's answer is no number.
pub fn measure_deltas(hexcode: &str, families: &Vec<GeneratedColorFamily>) -> (table: Vec<
    Vec<Option<i128>>,
>)
    ensures
        fits(table@, families_view(families@)),
        !is_hex_color(hexcode@) ==> holds_nothing(table@),
{
    let usable = check_hex_color(hexcode);
    let mut table: Vec<Vec<Option<i128>>> = Vec::new();
    let mut f: usize = 0;
    while f < families.len()
        invariant
            f <= families.len(),
            usable == is_hex_color(hexcode@),
            table.len() == f,
            forall|g: int|
                0 <= g < f ==> (#[trigger] table@[g])@.len() == families_view(
                    families@,
                )[g].shades.len(),
            !usable ==> forall|g: int, j: int|
                0 <= g < f && 0 <= j < table@[g]@.len() ==> (#[trigger] cell(table@, g, j)) is None,
        decreases families.len() - f,
    {
        let shades = families[f].shades();
        let mut row: Vec<Option<i128>> = Vec::new();
        let mut j: usize = 0;
        while j < shades.len()
            invariant
                j <= shades.len(),
                usable == is_hex_color(hexcode@),
                row.len() == j,
                !usable ==> forall|i: int| 0 <= i < j ==> (#[trigger] row@[i]) is None,
            decreases shades.len() - j,
        {
            if usable {
                let text = perceptual_delta(hexcode, shades[j].hexcode());
                row.push(parse_decimal(text.as_str()));
            } else {
                row.push(None);
            }
            j += 1;
        }
        assert(shades_view(shades@).len() == shades@.len());
        let ghost earlier = table@;
        table.push(row);
        proof {
            if !usable {
                assert forall|g: int, j: int| 0 <= g <= f && 0 <= j < table@[g]@.len() implies (
                #[trigger] cell(table@, g, j)) is None by {
                    if g < f {
                        assert(cell(earlier, g, j) is None);
                    } else {
                        assert(row@[j] is None);
                    }
                }
            }
        }
        f += 1;
    }
    table
}

/// Resolves an input against reference families, given the table of its
/// distances to their shades: picks the family that holds the first least
/// distance, and in it the anchor shade.
pub fn resolve(
    hexcode: &str,
    families: Vec<GeneratedColorFamily>,
    table: &Vec<Vec<Option<i128>>>,
) -> (r: Option<GeneratedColorFamily>)
    ensures
        match r {
            Some(family) => exists|f: int, k: usize, a: usize|
                #[trigger] picks(hexcode@, families_view(families@), table@, f, k, a) && family@
                    == chosen(families_view(families@), f, k, a),
            None => forall|f: int, k: usize, a: usize|
                !#[trigger] picks(hexcode@, families_view(families@), table@, f, k, a),
        },
{
    let ghost views = families_view(families@);
    let (f, k) = match closest_cell(table) {
        Some(found) => found,
        None => {
            return None;
        },
    };
    if f >= families.len() {
        proof {
            assert forall|f2: int, k2: usize, a2: usize| !#[trigger] picks(
                hexcode@,
                views,
                table@,
                f2,
                k2,
                a2,
            ) by {
                if picks(hexcode@, views, table@, f2, k2, a2) {
                    lemma_least_cell_is_unique(table@, f as int, k as int, f2, k2 as int);
                }
            }
        }
        return None;
    }
    let mut families = families;
    let family = families.swap_remove(f);
    assert(family@ == views[f as int]);
    let anchor = if k < family.shades().len() {
        anchor_shade(hexcode, family.shades())
    } else {
        None
    };
    match anchor {
        Some(a) => {
            let r = family.resolved(k, a);
            proof {
                assert(picks(hexcode@, views, table@, f as int, k, a));
                assert(r is Some);
                assert(r.unwrap()@ == chosen(views, f as int, k, a));
            }
            r
        },
        None => {
            proof {
                assert forall|f2: int, k2: usize, a2: usize| !#[trigger] picks(
                    hexcode@,
                    views,
                    table@,
                    f2,
                    k2,
                    a2,
                ) by {
                    if picks(hexcode@, views, table@, f2, k2, a2) {
                        lemma_least_cell_is_unique(table@, f as int, k as int, f2, k2 as int);
                    }
                }
            }
            None
        },
    }
}

/// Finds the reference family closest to the input, and its anchor shade.
///
/// The family is the one that holds the shade at the least perceptual
/// distance from the input; of equally near shades the first counts. The
/// anchor is the first shade of that family whose lightness is nearest to
/// the input's.
pub fn find_closest_color(hexcode: &str, reference_colors: Vec<GeneratedColorFamily>) -> (r:
    Option<GeneratedColorFamily>)
    ensures
        r matches Some(family) ==> exists|f: int, k: usize, a: usize|
            #[trigger] anchored(hexcode@, families_view(reference_colors@), f, k, a) && family@
                == chosen(families_view(reference_colors@), f, k, a),
        !is_hex_color(hexcode@) ==> r is None,
        (forall|f: int|
            0 <= f < reference_colors.len() ==> (#[trigger] families_view(
                reference_colors@,
            )[f]).shades.len() == 0) ==> r is None,
{
    let table = measure_deltas(hexcode, &reference_colors);
    let ghost views = families_view(reference_colors@);
    let r = resolve(hexcode, reference_colors, &table);
    proof {
        if r is Some {
            let family = r->0;
            let (f, k, a) = choose|f: int, k: usize, a: usize|
                #[trigger] picks(hexcode@, views, table@, f, k, a) && family@ == chosen(
                    views,
                    f,
                    k,
                    a,
                );
            assert(anchored(hexcode@, views, f, k, a));
            assert(holds_least(table@, f, k as int));
            assert(cell(table@, f, k as int) is Some);
            assert(views[f].shades.len() > 0);
        }
    }
    r
}

} // verus!
