use tailwind_palette::colors::TAILWIND_COLORS;
use tailwind_palette::family::{GeneratedColorFamily, Shade};
use tailwind_palette::reference::{
    build_families, build_family, parse_shade_number, parse_tailwind_colors,
};

fn raw(entries: &[(&str, &str)]) -> Vec<(String, String)> {
    entries.iter().map(|(k, v)| (k.to_string(), v.to_string())).collect()
}

fn listing(family: &GeneratedColorFamily) -> Vec<(String, String)> {
    family
        .shades()
        .iter()
        .map(|shade| (shade.number().to_string(), shade.hexcode().to_string()))
        .collect()
}

#[test]
fn shade_numbers_are_read() {
    assert_eq!(parse_shade_number("50"), Some(50));
    assert_eq!(parse_shade_number("950"), Some(950));
    assert_eq!(parse_shade_number("0"), Some(0));
    assert_eq!(parse_shade_number("050"), Some(50));
    assert_eq!(parse_shade_number("+50"), Some(50));
    assert_eq!(parse_shade_number("4294967295"), Some(4294967295));
    assert_eq!(parse_shade_number("00000000000004294967295"), Some(4294967295));
}

#[test]
fn keys_that_are_no_numbers_are_refused() {
    for key in ["", "+", "-5", "5x", "x5", "fifty", "5 ", " 5", "5.0", "++5", "5+", "4294967296",
        "99999999999999999999999999", "٥"]
    {
        assert_eq!(parse_shade_number(key), None, "{:?}", key);
    }
}

#[test]
fn shades_are_ordered_by_number() {
    let family = build_family(
        "mixed",
        &raw(&[("100", "aaaaaa"), ("50", "bbbbbb"), ("900", "CCCCCC"), ("200", "dddddd")]),
    )
    .unwrap();
    assert_eq!(family.name(), "mixed");
    assert_eq!(family.closest_shade(), None);
    assert_eq!(family.closest_shade_lightness(), None);
    assert_eq!(
        listing(&family),
        raw(&[("50", "#bbbbbb"), ("100", "#aaaaaa"), ("200", "#dddddd"), ("900", "#CCCCCC")])
    );
}

#[test]
fn last_entry_of_a_number_counts() {
    let family = build_family(
        "twice",
        &raw(&[("50", "111111"), ("7", "333333"), ("050", "222222"), ("+7", "444444")]),
    )
    .unwrap();
    assert_eq!(listing(&family), raw(&[("7", "#444444"), ("50", "#222222")]));
}

#[test]
fn family_without_entries_is_empty() {
    let family = build_family("none", &raw(&[])).unwrap();
    assert_eq!(family.shades().len(), 0);
}

#[test]
fn malformed_entries_fail_the_family() {
    assert!(build_family("f", &raw(&[("50", "aaaaaa"), ("5x", "bbbbbb")])).is_none());
    assert!(build_family("f", &raw(&[("", "aaaaaa")])).is_none());
    for colour in ["", "aaaaa", "aaaaaaa", "#aaaaa", "#aaaaaa", "gaaaaa", "aaa aa", "abc"] {
        assert!(build_family("f", &raw(&[("50", colour)])).is_none(), "{:?}", colour);
    }
}

#[test]
fn one_malformed_family_fails_the_table() {
    let good = ("a".to_string(), raw(&[("50", "aaaaaa")]));
    let bad = ("b".to_string(), raw(&[("50", "aaaaaa"), ("x", "bbbbbb")]));
    let families = build_families(&vec![good.clone(), good.clone()]).unwrap();
    assert_eq!(families.len(), 2);
    assert_eq!(families[1].name(), "a");
    assert!(build_families(&vec![good, bad]).is_none());
    assert_eq!(build_families(&Vec::new()).unwrap().len(), 0);
}

#[test]
fn built_in_table_loads() {
    let families = parse_tailwind_colors(TAILWIND_COLORS).unwrap();
    let names: Vec<&str> = families.iter().map(|family| family.name()).collect();
    assert_eq!(
        names,
        vec![
            "amber", "blue", "cyan", "emerald", "fuchsia", "gray", "green", "indigo", "lime",
            "neutral", "orange", "pink", "purple", "red", "rose", "sky", "slate", "stone", "teal",
            "violet", "yellow", "zinc"
        ]
    );
    for family in &families {
        let numbers: Vec<&str> = family.shades().iter().map(|shade| shade.number()).collect();
        assert_eq!(
            numbers,
            vec!["50", "100", "200", "300", "400", "500", "600", "700", "800", "900", "950"]
        );
    }
    let slate = &families[16];
    assert_eq!(slate.shades()[0].hexcode(), "#f8fafc");
    assert_eq!(slate.shades()[5].hexcode(), "#64748b");
    assert_eq!(slate.shades()[10].hexcode(), "#020617");
}

#[test]
fn table_is_read_from_json_text() {
    let families = parse_tailwind_colors(
        " {\"b\": {\"100\": \"0000ff\", \"50\": \"00ff00\"}, \"a\": {\"7\": \"ff0000\"}} ",
    )
    .unwrap();
    assert_eq!(families.len(), 2);
    assert_eq!(families[0].name(), "a");
    assert_eq!(listing(&families[0]), raw(&[("7", "#ff0000")]));
    assert_eq!(families[1].name(), "b");
    assert_eq!(listing(&families[1]), raw(&[("50", "#00ff00"), ("100", "#0000ff")]));
}

#[test]
fn text_that_is_no_table_is_refused() {
    for text in ["", "null", "[]", "5", "\"slate\"", "{\"slate\": \"f8fafc\"}",
        "{\"slate\": {\"50\": 5}}", "{\"slate\": {\"50\": null}}", "{\"slate\": [\"f8fafc\"]}",
        "{\"slate\": {\"50\": \"f8fafc\"}", "{slate: {}}", "{\"slate\": {\"50\": \"f8fafc\",}}"]
    {
        assert!(parse_tailwind_colors(text).is_none(), "{:?}", text);
    }
}

#[test]
fn table_with_non_numeric_shade_key_is_refused() {
    assert!(parse_tailwind_colors("{\"slate\": {\"DEFAULT\": \"f8fafc\"}}").is_none());
    assert!(parse_tailwind_colors("{\"slate\": {\"50\": \"f8fafc\"}, \"x\": {\"a\": \"000000\"}}")
        .is_none());
    assert!(parse_tailwind_colors("{\"slate\": {\"50\": \"#f8fafc\"}}").is_none());
}

#[test]
fn shades_are_made_from_hex_colours_only() {
    let shade = Shade::new("500", "#64748B").unwrap();
    assert_eq!(shade.number(), "500");
    assert_eq!(shade.hexcode(), "#64748B");
    assert!(Shade::new("500", "64748b").is_none());
    assert!(Shade::new("500", "#64748").is_none());
    assert!(Shade::new("500", "rgb(1,2,3)").is_none());
    assert!(Shade::new("", "#000000").is_some());
}
