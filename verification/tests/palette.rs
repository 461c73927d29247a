use tailwind_palette::colors::TAILWIND_COLORS;
use tailwind_palette::{GeneratedColorFamily, Shade, TailwindPalette, TailwindShade};
use tailwind_palette::reference::parse_tailwind_colors;
use tailwind_palette::resolver::find_closest_color;

fn family(name: &str, shades: &[(&str, &str)]) -> GeneratedColorFamily {
    let shades = shades
        .iter()
        .map(|(number, hexcode)| Shade::new(number, hexcode).unwrap())
        .collect();
    GeneratedColorFamily::new(name, shades)
}

fn reds() -> GeneratedColorFamily {
    family("reds", &[("100", "#ff8080"), ("500", "#ff0000")])
}

#[test]
fn rgb_238() {
    let palette = TailwindPalette::new("#8c8c8c");
    assert_eq!(true, palette.is_some());
}

#[test]
fn violet_input_selects_violet_and_keeps_input() {
    let reference = parse_tailwind_colors(TAILWIND_COLORS).unwrap();
    let chosen = find_closest_color("#a788ee", reference).unwrap();
    assert_eq!(chosen.name(), "violet");
    let anchor = chosen.closest_shade_lightness().unwrap();

    let palette = TailwindPalette::new("#a788ee").unwrap();
    let same: Vec<usize> = palette
        .shades()
        .iter()
        .enumerate()
        .filter(|(_, shade)| shade.hex() == "#a788ee")
        .map(|(i, _)| i)
        .collect();
    assert_eq!(same, vec![anchor]);
    assert_eq!(palette.shades()[anchor].rgb(), (0xa7, 0x88, 0xee));
}

#[test]
fn gray_input_selects_low_saturation_family() {
    let reference = parse_tailwind_colors(TAILWIND_COLORS).unwrap();
    let chosen = find_closest_color("#8c8c8c", reference).unwrap();
    let low = ["slate", "gray", "zinc", "neutral", "stone"];
    assert!(low.contains(&chosen.name()));
    let palette = TailwindPalette::new("#8c8c8c").unwrap();
    assert_eq!(palette.shades().len(), 11);
}

#[test]
fn malformed_table_gives_no_palette() {
    let table = "{\"slate\": {\"fifty\": \"f8fafc\", \"100\": \"f1f5f9\"}}";
    assert!(parse_tailwind_colors(table).is_none());
    let empty = parse_tailwind_colors("{}").unwrap();
    assert!(TailwindPalette::from_reference("#8c8c8c", empty).is_none());
}

#[test]
fn reference_shade_round_trips() {
    let palette = TailwindPalette::new("#8b5cf6").unwrap();
    let kept: Vec<&str> = palette
        .shades()
        .iter()
        .filter(|shade| shade.hex() == "#8b5cf6")
        .map(|shade| shade.number())
        .collect();
    assert_eq!(kept, vec!["500"]);
}

#[test]
fn palette_keeps_labels_and_order() {
    let palette = TailwindPalette::new("#3b82f6").unwrap();
    let numbers: Vec<&str> = palette.shades().iter().map(|shade| shade.number()).collect();
    assert_eq!(
        numbers,
        vec!["50", "100", "200", "300", "400", "500", "600", "700", "800", "900", "950"]
    );
}

#[test]
fn rgb_notation_is_read() {
    let from_rgb = TailwindPalette::new("rgb(167,136,238)").unwrap();
    let from_hex = TailwindPalette::new("#a788ee").unwrap();
    assert_eq!(from_rgb, from_hex);
    assert!(from_rgb.shades().iter().any(|shade| shade.hex() == "#a788ee"));
}

#[test]
fn channels_above_255_count_as_255() {
    let palette = TailwindPalette::from_reference("rgb(0,999,0)", vec![reds()]).unwrap();
    assert_eq!(palette.shades()[1].hex(), "#00ff00");
}

#[test]
fn upper_case_input_is_canonicalised() {
    let palette = TailwindPalette::new("#A788EE").unwrap();
    assert!(palette.shades().iter().any(|shade| shade.hex() == "#a788ee"));
    assert!(palette.shades().iter().all(|shade| shade.hex() != "#A788EE"));
}

#[test]
fn unreadable_input_gives_no_palette() {
    for text in ["", "red", "#abc", "#8c8c8", "#8c8c8c0", "#8c8c8g", "hsl(0,1,0.5)", "rgb(1,2)",
        "rgb(1,2,3,4)", "rgb(1, 2, 3)", "rgb(1000,2,3)", "rgb(-1,2,3)", "rgba(1,2,3,1)", "8c8c8c"]
    {
        assert!(TailwindPalette::new(text).is_none(), "{}", text);
    }
}

#[test]
fn derived_shades_take_hue_and_saturation_of_input() {
    let palette = TailwindPalette::from_reference("#00ff00", vec![reds()]).unwrap();
    let shades = palette.shades();
    assert_eq!(shades.len(), 2);
    assert_eq!(shades[0].number(), "100");
    assert_eq!(shades[0].hex(), "#80ff80");
    assert_eq!(shades[0].rgb(), (128, 255, 128));
    assert_eq!(shades[1].number(), "500");
    assert_eq!(shades[1].hex(), "#00ff00");
    assert_eq!(shades[1].rgb(), (0, 255, 0));
}

#[test]
fn colourless_anchor_gives_black_shades() {
    let grays = family("grays", &[("100", "#cccccc"), ("500", "#808080")]);
    let palette = TailwindPalette::from_reference("#7f7f7f", vec![grays]).unwrap();
    let shades = palette.shades();
    assert_eq!(shades[0].hex(), "#000000");
    assert_eq!(shades[0].rgb(), (0, 0, 0));
    assert_eq!(shades[1].hex(), "#7f7f7f");
    assert_eq!(shades[1].rgb(), (127, 127, 127));
}

#[test]
fn every_shade_with_the_anchor_label_takes_the_input() {
    let twins = family("twins", &[("500", "#ff0000"), ("500", "#400000")]);
    let palette = TailwindPalette::from_reference("#00ff00", vec![twins]).unwrap();
    assert_eq!(palette.shades()[0].hex(), "#00ff00");
    assert_eq!(palette.shades()[1].hex(), "#00ff00");
}

#[test]
fn families_without_shades_give_no_palette() {
    let none: Vec<GeneratedColorFamily> = Vec::new();
    assert!(TailwindPalette::from_reference("#00ff00", none).is_none());
    let hollow = vec![family("a", &[]), family("b", &[])];
    assert!(TailwindPalette::from_reference("#00ff00", hollow).is_none());
}

#[test]
fn svg_strip_has_one_cell_per_shade() {
    let palette = TailwindPalette::from_reference("#00ff00", vec![reds()]).unwrap();
    let expected = "<svg width='1000' height='100' viewBox='0 0 1000 100' fill='none' xmlns='http://www.w3.org/2000/svg'>\n  <rect x='0' width='100' height='100' fill='#80ff80'/>\n  <rect x='100' width='100' height='100' fill='#00ff00'/>\n</svg>";
    assert_eq!(palette.shades_as_svg(), expected);
}

#[test]
fn empty_palette_renders_nothing() {
    let palette = TailwindPalette::default();
    assert_eq!(palette.shades().len(), 0);
    assert_eq!(palette.shades_as_svg(), "");
}

#[test]
fn generation_is_repeatable() {
    let first = TailwindPalette::new("#e11d48").unwrap();
    let second = TailwindPalette::new("#e11d48").unwrap();
    assert_eq!(first, second);
}

#[test]
fn palette_holds_the_shades_it_is_given() {
    let shades = vec![
        TailwindShade::new("50", "#ffffff".to_string(), (255, 255, 255)),
        TailwindShade::new("900", "#000000".to_string(), (0, 0, 0)),
    ];
    let palette = TailwindPalette::from_shades(shades.clone());
    assert_eq!(palette.shades(), &shades);
    assert_eq!(palette.shades()[1].number(), "900");
    assert_eq!(palette.shades()[1].hex(), "#000000");
    assert_eq!(palette.shades()[1].rgb(), (0, 0, 0));
    assert_eq!(
        palette.shades_as_svg(),
        "<svg width='1000' height='100' viewBox='0 0 1000 100' fill='none' xmlns='http://www.w3.org/2000/svg'>\n  <rect x='0' width='100' height='100' fill='#ffffff'/>\n  <rect x='100' width='100' height='100' fill='#000000'/>\n</svg>"
    );
}

#[test]
fn each_call_works_on_its_own_copy() {
    let reference = parse_tailwind_colors(TAILWIND_COLORS).unwrap();
    let first = TailwindPalette::from_reference("#a788ee", reference.clone()).unwrap();
    let other = TailwindPalette::from_reference("#16a34a", reference.clone()).unwrap();
    let again = TailwindPalette::from_reference("#a788ee", reference.clone()).unwrap();
    assert_eq!(first, again);
    assert_ne!(first, other);
    for family in &reference {
        assert_eq!(family.closest_shade(), None);
        assert_eq!(family.closest_shade_lightness(), None);
        assert_eq!(family.shades().len(), 11);
    }
    let resolved = find_closest_color("#16a34a", reference.clone()).unwrap();
    let copy = resolved.clone();
    assert_eq!(copy.name(), "green");
    assert_eq!(copy.closest_shade(), resolved.closest_shade());
    assert_eq!(copy.closest_shade_lightness(), Some(6));
    assert_eq!(copy.shades()[6].hexcode(), "#16a34a");
    assert_eq!(copy.shades()[6].clone().number(), "600");
}
