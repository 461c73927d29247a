//! Loading the reference table: families of numbered shades.
//!
//! The table is JSON text: an object that maps each family's name to an
//! object that maps shade numbers to colours, each colour being six
//! hexadecimal digits. Within a family the shades are ordered by number, not
//! by the order or spelling of their keys.

use crate::decimal::{
    digit_run, digits_value, is_digit, lemma_nat_digits_denote, lemma_run_end_at,
    lemma_run_end_bounds, nat_digits, push_nat, read_digits, run_end,
};
use crate::engine::{check_hex_color, is_hex_color};
use crate::family::{
    families_view, shades_view, GeneratedColorFamily, GeneratedColorFamilyView, Shade, ShadeView,
};
use std::collections::BTreeMap;
use vstd::prelude::*;
use vstd::string::*;

verus! {

/// Where the digits of a shade number begin: after a leading plus sign, if
/// there is one.
pub open spec fn plus_len(key: Seq<char>) -> int {
    if key.len() > 0 && key[0] == '+' {
        1
    } else {
        0
    }
}

/// The number that a key denotes, if it is numeric: an optional plus sign and
/// one or more digits, with a value that fits 32 bits.
pub open spec fn shade_number(key: Seq<char>) -> Option<u32> {
    let s = plus_len(key);
    let v = digits_value(key.subrange(s, key.len() as int));
    if s < key.len() && run_end(key, s) == key.len() && v <= u32::MAX {
        Some(v as u32)
    } else {
        None
    }
}

/// Reads a shade number from a key.
pub fn parse_shade_number(key: &str) -> (r: Option<u32>)
    ensures
        r == shade_number(key@),
{
    let n = key.unicode_len();
    let s: usize = if n > 0 && key.get_char(0) == '+' {
        1
    } else {
        0
    };
    if s >= n {
        return None;
    }
    let end = digit_run(key, s);
    if end != n {
        return None;
    }
    proof {
        lemma_run_end_bounds(key@, s as int);
    }
    match read_digits(key, s, n, 4_294_967_296) {
        Some(v) => Some(v as u32),
        None => None,
    }
}

/// The label that a shade gets for its number reads back as that number.
pub proof fn lemma_label_reads_back(n: u32)
    ensures
        shade_number(nat_digits(n as nat)) == Some(n),
{
    let label = nat_digits(n as nat);
    lemma_nat_digits_denote(n as nat);
    assert(is_digit(label[0]));
    lemma_run_end_at(label, 0, label.len() as int);
    assert(label.subrange(0, label.len() as int) =~= label);
}

/// The number of the raw entry at `j`.
pub open spec fn raw_number(raw: Seq<(Seq<char>, Seq<char>)>, j: int) -> u32 {
    shade_number(raw[j].0).unwrap()
}

/// The colour of the raw entry at `j`: `#` before the digits it gives.
pub open spec fn raw_color(raw: Seq<(Seq<char>, Seq<char>)>, j: int) -> Seq<char> {
    seq!['#'] + raw[j].1
}

/// Every raw entry has a numeric key and gives six hexadecimal digits.
pub open spec fn raw_ok(raw: Seq<(Seq<char>, Seq<char>)>) -> bool {
    forall|j: int|
        0 <= j < raw.len() ==> shade_number((#[trigger] raw[j]).0) is Some && is_hex_color(
            raw_color(raw, j),
        )
}

/// No entry after `j` and before `end` has the number of the entry at `j`.
pub open spec fn last_before(raw: Seq<(Seq<char>, Seq<char>)>, j: int, end: int) -> bool {
    forall|l: int| j < l < end ==> raw_number(raw, l) != raw_number(raw, j)
}

/// `shades` is the ramp of the first `end` raw entries, shade `i` being
/// taken from the entry at `src[i]`: the shades are in strictly rising order
/// of number, each is taken from the last entry with its number, and every
/// number has its shade.
pub open spec fn ramp_from(
    shades: Seq<ShadeView>,
    raw: Seq<(Seq<char>, Seq<char>)>,
    src: Seq<int>,
    end: int,
) -> bool {
    &&& src.len() == shades.len()
    &&& forall|i: int|
        0 <= i < src.len() ==> {
            &&& 0 <= #[trigger] src[i] < end
            &&& last_before(raw, src[i], end)
            &&& shades[i].number == nat_digits(raw_number(raw, src[i]) as nat)
            &&& shades[i].hexcode == raw_color(raw, src[i])
        }
    &&& forall|i: int, i2: int|
        0 <= i < i2 < src.len() ==> raw_number(raw, #[trigger] src[i]) < raw_number(
            raw,
            #[trigger] src[i2],
        )
    &&& forall|j: int| 0 <= j < end && #[trigger] last_before(raw, j, end) ==> src.contains(j)
}

/// `shades` is the ramp that the raw entries of one family make: ordered by
/// number, one shade per number, and where a number occurs more than once
/// its last entry counts.
pub open spec fn is_ramp_of(shades: Seq<ShadeView>, raw: Seq<(Seq<char>, Seq<char>)>) -> bool {
    exists|src: Seq<int>| #[trigger] ramp_from(shades, raw, src, raw.len() as int)
}

/// Two ramps of the same raw entries, taken from `src1` and `src2`, agree on
/// their first `n` sources.
proof fn lemma_sources_agree(
    raw: Seq<(Seq<char>, Seq<char>)>,
    shades1: Seq<ShadeView>,
    src1: Seq<int>,
    shades2: Seq<ShadeView>,
    src2: Seq<int>,
    n: int,
)
    requires
        ramp_from(shades1, raw, src1, raw.len() as int),
        ramp_from(shades2, raw, src2, raw.len() as int),
        0 <= n <= src1.len(),
    ensures
        n <= src2.len(),
        forall|i: int| 0 <= i < n ==> src1[i] == src2[i],
    decreases n,
{
    if n > 0 {
        lemma_sources_agree(raw, shades1, src1, shades2, src2, n - 1);
        let end = raw.len() as int;
        let i = n - 1;
        // The source of shade `i` of the first ramp stands in the second.
        let j1 = src1[i];
        assert(last_before(raw, j1, end));
        assert(src2.contains(j1));
        let i2 = choose|i2: int| 0 <= i2 < src2.len() && src2[i2] == j1;
        if i2 < i {
            assert(src1[i2] == src2[i2]);
            assert(raw_number(raw, src1[i2]) < raw_number(raw, src1[i]));
        }
        assert(i < src2.len());
        // And the source of shade `i` of the second ramp stands in the first.
        let j2 = src2[i];
        assert(last_before(raw, j2, end));
        assert(src1.contains(j2));
        let i1 = choose|i1: int| 0 <= i1 < src1.len() && src1[i1] == j2;
        if i1 < i {
            assert(src1[i1] == src2[i1]);
            assert(raw_number(raw, src2[i1]) < raw_number(raw, src2[i]));
        }
        if i2 > i {
            assert(raw_number(raw, src2[i]) < raw_number(raw, src2[i2]));
            if i1 > i {
                assert(raw_number(raw, src1[i]) < raw_number(raw, src1[i1]));
            }
        }
    }
}

/// Raw entries make one ramp only.
pub proof fn lemma_ramp_is_unique(
    raw: Seq<(Seq<char>, Seq<char>)>,
    shades1: Seq<ShadeView>,
    shades2: Seq<ShadeView>,
)
    requires
        is_ramp_of(shades1, raw),
        is_ramp_of(shades2, raw),
    ensures
        shades1 == shades2,
{
    let end = raw.len() as int;
    let src1 = choose|src: Seq<int>| #[trigger] ramp_from(shades1, raw, src, end);
    let src2 = choose|src: Seq<int>| #[trigger] ramp_from(shades2, raw, src, end);
    lemma_sources_agree(raw, shades1, src1, shades2, src2, src1.len() as int);
    lemma_sources_agree(raw, shades2, src2, shades1, src1, src2.len() as int);
    assert forall|i: int| 0 <= i < shades1.len() implies shades1[i] == shades2[i] by {
        assert(src1[i] == src2[i]);
    }
    assert(shades1 =~= shades2);
}

/// Puts the entry at `j`, of number `n`, into its place among the shades
/// taken from the entries before it.
proof fn lemma_place_entry(
    raw: Seq<(Seq<char>, Seq<char>)>,
    shades: Seq<ShadeView>,
    src: Seq<int>,
    j: int,
    p: int,
    entry: ShadeView,
) -> (placed: (Seq<ShadeView>, Seq<int>))
    requires
        0 <= j < raw.len(),
        ramp_from(shades, raw, src, j),
        0 <= p <= src.len(),
        forall|i: int| 0 <= i < p ==> raw_number(raw, #[trigger] src[i]) < raw_number(raw, j),
        p < src.len() ==> raw_number(raw, src[p]) >= raw_number(raw, j),
        entry.number == nat_digits(raw_number(raw, j) as nat),
        entry.hexcode == raw_color(raw, j),
    ensures
        ramp_from(placed.0, raw, placed.1, j + 1),
        p < src.len() && raw_number(raw, src[p]) == raw_number(raw, j) ==> placed.0
            == shades.update(p, entry) && placed.1 == src.update(p, j),
        !(p < src.len() && raw_number(raw, src[p]) == raw_number(raw, j)) ==> placed.0
            == shades.insert(p, entry) && placed.1 == src.insert(p, j),
{
    let n = raw_number(raw, j);
    let replace = p < src.len() && raw_number(raw, src[p]) == n;
    let placed = if replace {
        (shades.update(p, entry), src.update(p, j))
    } else {
        (shades.insert(p, entry), src.insert(p, j))
    };
    let (shades2, src2) = placed;
    // Where shade `i` of the new ramp stood in the old one.
    let back = |i: int|
        if replace || i < p {
            i
        } else {
            i - 1
        };
    assert forall|i: int| 0 <= i < src2.len() && i != p implies src2[i] == src[back(i)]
        && shades2[i] == shades[back(i)] && 0 <= back(i) < src.len() by {}
    assert forall|i: int| 0 <= i < src.len() && !(replace && i == p) implies raw_number(
        raw,
        #[trigger] src[i],
    ) != n by {
        if i < p {
        } else if i == p {
        } else {
            assert(raw_number(raw, src[p]) < raw_number(raw, src[i]));
        }
    }
    assert forall|i: int| 0 <= i < src2.len() implies {
        &&& 0 <= #[trigger] src2[i] < j + 1
        &&& last_before(raw, src2[i], j + 1)
        &&& shades2[i].number == nat_digits(raw_number(raw, src2[i]) as nat)
        &&& shades2[i].hexcode == raw_color(raw, src2[i])
    } by {
        if i != p {
            let b = back(i);
            assert(src2[i] == src[b]);
            assert(last_before(raw, src[b], j));
            assert(raw_number(raw, src[b]) != n);
        }
    }
    assert forall|i: int, i2: int| 0 <= i < i2 < src2.len() implies raw_number(
        raw,
        #[trigger] src2[i],
    ) < raw_number(raw, #[trigger] src2[i2]) by {
        if i == p {
            let b = back(i2);
            assert(src2[i2] == src[b]);
            if replace {
                assert(raw_number(raw, src[p]) < raw_number(raw, src[b]));
            } else if b > p {
                assert(raw_number(raw, src[p]) < raw_number(raw, src[b]));
            }
        } else if i2 == p {
            assert(src2[i] == src[back(i)]);
        } else {
            assert(src2[i] == src[back(i)]);
            assert(src2[i2] == src[back(i2)]);
        }
    }
    assert forall|l: int| 0 <= l < j + 1 && #[trigger] last_before(raw, l, j + 1) implies src2.contains(
        l,
    ) by {
        if l == j {
            assert(src2[p] == j);
        } else {
            assert(last_before(raw, l, j));
            assert(src.contains(l));
            let i = choose|i: int| 0 <= i < src.len() && src[i] == l;
            assert(raw_number(raw, l) != n);
            if replace {
                assert(i != p);
                assert(src2[i] == l);
            } else if i < p {
                assert(src2[i] == l);
            } else {
                assert(src2[i + 1] == l);
            }
        }
    }
    placed
}

/// What is kept of shade `i` while a family is built agrees with its view.
spec fn kept(
    raw: Seq<(Seq<char>, Seq<char>)>,
    views: Seq<ShadeView>,
    src: Seq<int>,
    nums: Seq<u32>,
    hexes: Seq<String>,
    i: int,
) -> bool {
    &&& nums[i] == raw_number(raw, src[i])
    &&& hexes[i]@ == views[i].hexcode
    &&& is_hex_color(hexes[i]@)
}

/// Builds one family from its raw entries, each a key and six hexadecimal
/// digits. Fails if a key is not numeric or a colour is not six hexadecimal
/// digits.
pub fn build_family(name: &str, raw: &Vec<(String, String)>) -> (r: Option<GeneratedColorFamily>)
    ensures
        match r {
            Some(family) => {
                &&& raw_ok(raw.deep_view())
                &&& family@.name == name@
                &&& is_ramp_of(family@.shades, raw.deep_view())
                &&& family@.closest_shade is None
                &&& family@.closest_shade_lightness is None
            },
            None => !raw_ok(raw.deep_view()),
        },
{
    let ghost rv = raw.deep_view();
    let mut nums: Vec<u32> = Vec::new();
    let mut hexes: Vec<String> = Vec::new();
    let ghost mut views: Seq<ShadeView> = Seq::empty();
    let ghost mut src: Seq<int> = Seq::empty();
    let mut j: usize = 0;
    while j < raw.len()
        invariant
            j <= raw.len(),
            rv == raw.deep_view(),
            ramp_from(views, rv, src, j as int),
            nums.len() == src.len(),
            hexes.len() == src.len(),
            forall|i: int| 0 <= i < src.len() ==> #[trigger] kept(rv, views, src, nums@, hexes@, i),
            forall|l: int|
                0 <= l < j ==> shade_number((#[trigger] rv[l]).0) is Some && is_hex_color(
                    raw_color(rv, l),
                ),
        decreases raw.len() - j,
    {
        let n = match parse_shade_number(raw[j].0.as_str()) {
            Some(n) => n,
            None => {
                assert(shade_number(rv[j as int].0) is None);
                return None;
            },
        };
        let mut hex = String::new();
        hex.push('#');
        hex.append(raw[j].1.as_str());
        assert(hex@ =~= raw_color(rv, j as int));
        if !check_hex_color(hex.as_str()) {
            assert(!is_hex_color(raw_color(rv, j as int)));
            assert(shade_number(rv[j as int].0) is Some);
            return None;
        }
        let mut p: usize = 0;
        while p < nums.len() && nums[p] < n
            invariant
                p <= nums.len(),
                forall|i: int| 0 <= i < p ==> #[trigger] nums@[i] < n,
            decreases nums.len() - p,
        {
            p += 1;
        }
        let ghost entry = ShadeView { number: nat_digits(n as nat), hexcode: hex@ };
        let ghost before = (nums@, hexes@, views, src);
        proof {
            assert forall|i: int| 0 <= i < p implies raw_number(rv, #[trigger] src[i])
                < raw_number(rv, j as int) by {
                assert(kept(rv, views, src, nums@, hexes@, i));
                assert(nums@[i] < n);
            }
            if p < src.len() {
                assert(kept(rv, views, src, nums@, hexes@, p as int));
            }
            let placed = lemma_place_entry(rv, views, src, j as int, p as int, entry);
            views = placed.0;
            src = placed.1;
        }
        let replace = p < nums.len() && nums[p] == n;
        if replace {
            hexes.set(p, hex);
        } else {
            nums.insert(p, n);
            hexes.insert(p, hex);
        }
        proof {
            assert forall|i: int| 0 <= i < src.len() implies #[trigger] kept(
                rv,
                views,
                src,
                nums@,
                hexes@,
                i,
            ) by {
                if i != p {
                    let b = if replace || i < p {
                        i
                    } else {
                        i - 1
                    };
                    assert(kept(rv, before.2, before.3, before.0, before.1, b));
                    assert(nums@[i] == before.0[b]);
                    assert(hexes@[i] == before.1[b]);
                    assert(views[i] == before.2[b]);
                    assert(src[i] == before.3[b]);
                }
            }
        }
        j += 1;
    }
    assert(raw_ok(rv));
    assert forall|k: int| 0 <= k < src.len() implies #[trigger] kept(
        rv,
        views,
        src,
        nums@,
        hexes@,
        k,
    ) && views[k].number == nat_digits(nums@[k] as nat) by {
        assert(kept(rv, views, src, nums@, hexes@, k));
    }
    let mut shades: Vec<Shade> = Vec::new();
    let mut i: usize = 0;
    while i < nums.len()
        invariant
            i <= nums.len(),
            nums.len() == src.len(),
            hexes.len() == src.len(),
            views.len() == src.len(),
            shades.len() == i,
            rv == raw.deep_view(),
            raw_ok(rv),
            ramp_from(views, rv, src, raw.len() as int),
            forall|k: int|
                0 <= k < src.len() ==> #[trigger] kept(rv, views, src, nums@, hexes@, k)
                    && views[k].number == nat_digits(nums@[k] as nat),
            forall|k: int| 0 <= k < i ==> (#[trigger] shades@[k])@ == views[k],
        decreases nums.len() - i,
    {
        assert(kept(rv, views, src, nums@, hexes@, i as int));
        let mut label = String::new();
        push_nat(&mut label, nums[i] as u128);
        assert(label@ =~= nat_digits(nums@[i as int] as nat));
        match Shade::new(label.as_str(), hexes[i].as_str()) {
            Some(shade) => {
                shades.push(shade);
            },
            None => {
                return None;
            },
        }
        i += 1;
    }
    assert(shades_view(shades@) =~= views);
    assert(rv.len() == raw.len());
    Some(GeneratedColorFamily::new(name, shades))
}

/// What a reference table holds when read as JSON: for each family, in
/// the order of their names, its name and its raw entries, each a key and
/// the text under it, in the order of the keys. Absent where the text is
/// not a JSON object of objects of strings.
pub uninterp spec fn table_entries(source: Seq<char>) -> Option<
    Seq<(Seq<char>, Seq<(Seq<char>, Seq<char>)>)>,
>;

/// `serde_json::from_str`, reading the text as a map from names to maps from
/// keys to strings, and handing the maps out as lists of pairs.
///
/// What comes out depends on the text alone; nothing more is claimed of it.
#[verifier::external_body]
pub(crate) fn read_table(source: &str) -> (r: Option<Vec<(String, Vec<(String, String)>)>>)
    ensures
        match r {
            Some(entries) => table_entries(source@) == Some(entries.deep_view()),
            None => table_entries(source@) is None,
        },
{
    let parsed: BTreeMap<String, BTreeMap<String, String>> = serde_json::from_str(source).ok()?;
    Some(parsed.into_iter().map(|(name, shades)| (name, shades.into_iter().collect())).collect())
}

/// Every family's raw entries are well formed.
pub open spec fn table_ok(table: Seq<(Seq<char>, Seq<(Seq<char>, Seq<char>)>)>) -> bool {
    forall|f: int| 0 <= f < table.len() ==> raw_ok((#[trigger] table[f]).1)
}

/// `family` is the unresolved family that one entry of the table makes.
pub open spec fn is_family_of(
    family: GeneratedColorFamilyView,
    entry: (Seq<char>, Seq<(Seq<char>, Seq<char>)>),
) -> bool {
    &&& family.name == entry.0
    &&& is_ramp_of(family.shades, entry.1)
    &&& family.closest_shade is None
    &&& family.closest_shade_lightness is None
}

/// `families` are the families that the table makes, one per entry and in
/// the same order.
pub open spec fn loads_as(
    families: Seq<GeneratedColorFamilyView>,
    table: Seq<(Seq<char>, Seq<(Seq<char>, Seq<char>)>)>,
) -> bool {
    &&& families.len() == table.len()
    &&& forall|f: int|
        0 <= f < families.len() ==> is_family_of(#[trigger] families[f], table[f])
}

/// Builds the families of a table. Nothing is built if any entry of any
/// family is malformed.
pub fn build_families(entries: &Vec<(String, Vec<(String, String)>)>) -> (r: Option<
    Vec<GeneratedColorFamily>,
>)
    ensures
        match r {
            Some(families) => table_ok(entries.deep_view()) && loads_as(
                families_view(families@),
                entries.deep_view(),
            ),
            None => !table_ok(entries.deep_view()),
        },
{
    let ghost table = entries.deep_view();
    let mut families: Vec<GeneratedColorFamily> = Vec::new();
    let mut f: usize = 0;
    while f < entries.len()
        invariant
            f <= entries.len(),
            table == entries.deep_view(),
            families.len() == f,
            forall|g: int| 0 <= g < f ==> raw_ok((#[trigger] table[g]).1),
            forall|g: int|
                0 <= g < f ==> is_family_of((#[trigger] families@[g])@, table[g]),
        decreases entries.len() - f,
    {
        assert(table[f as int] == (entries@[f as int].0@, entries@[f as int].1.deep_view()));
        match build_family(entries[f].0.as_str(), &entries[f].1) {
            Some(family) => {
                families.push(family);
            },
            None => {
                assert(!raw_ok(table[f as int].1));
                return None;
            },
        }
        f += 1;
    }
    assert(loads_as(families_view(families@), table));
    Some(families)
}

/// Loads reference families from a table written as JSON text.
pub fn parse_tailwind_colors(source: &str) -> (r: Option<Vec<GeneratedColorFamily>>)
    ensures
        match r {
            Some(families) => table_entries(source@) matches Some(table) && table_ok(table)
                && loads_as(families_view(families@), table),
            None => table_entries(source@) matches Some(table) ==> !table_ok(table),
        },
{
    match read_table(source) {
        Some(entries) => build_families(&entries),
        None => None,
    }
}

} // verus!
