use tailwind_palette::engine::{check_color_text, check_hex_color, check_rgb_call};
use tailwind_palette::hsl::{hsl_from_parts, read_hsl, Hsl};

#[test]
fn hex_colours_are_recognised() {
    for text in ["#000000", "#ffffff", "#a788ee", "#A788EE", "#0123Ef"] {
        assert!(check_hex_color(text), "{}", text);
        assert!(check_color_text(text), "{}", text);
    }
    for text in ["", "#", "#abc", "#abcde", "#abcdefg", "abcdef0", "#abcdeg", "#abcde ", "##abcde",
        "#abcdé", "#ａbcdef"]
    {
        assert!(!check_hex_color(text), "{}", text);
    }
}

#[test]
fn rgb_calls_are_recognised() {
    for text in ["rgb(0,0,0)", "rgb(255,255,255)", "rgb(1,22,333)", "rgb(007,08,9)"] {
        assert!(check_rgb_call(text), "{}", text);
        assert!(check_color_text(text), "{}", text);
    }
    for text in ["rgb()", "rgb(1,2)", "rgb(1,2,3", "rgb(1,2,3))", "rgb(1,2,3,4)", "rgb(1, 2, 3)",
        "rgb(1234,2,3)", "rgb(,2,3)", "rgb(1,,3)", "rgb(1,2,)", "RGB(1,2,3)", "rgba(1,2,3)",
        "rgb(1.5,2,3)", "rgb(-1,2,3)", " rgb(1,2,3)", "rgb(1,2,3) ", "rgb 1,2,3", "rgb(1;2;3)"]
    {
        assert!(!check_rgb_call(text), "{}", text);
        assert!(!check_color_text(text), "{}", text);
    }
}

#[test]
fn hue_saturation_lightness_of_primaries() {
    let one = 1_000_000_000_000;
    assert_eq!(
        read_hsl("#ff0000"),
        Some(Hsl { hue: 0, saturation: one, lightness: one / 2 })
    );
    assert_eq!(
        read_hsl("#00ff00"),
        Some(Hsl { hue: 120 * one, saturation: one, lightness: one / 2 })
    );
    assert_eq!(
        read_hsl("#0000FF"),
        Some(Hsl { hue: 240 * one, saturation: one, lightness: one / 2 })
    );
    assert_eq!(read_hsl("#ffffff"), Some(Hsl { hue: 0, saturation: 0, lightness: one }));
    assert_eq!(read_hsl("#000000"), Some(Hsl { hue: 0, saturation: 0, lightness: 0 }));
}

#[test]
fn hue_below_zero_is_reported_as_it_is() {
    let hsl = read_hsl("#ff0080").unwrap();
    assert_eq!(hsl.hue, -30_117_647_058_823);
    assert_eq!(hsl.saturation, 1_000_000_000_000);
    assert_eq!(hsl.lightness, 500_000_000_000);
}

#[test]
fn hsl_of_other_text_is_unknown() {
    for text in ["", "red", "#abc", "rgb(1,2,3)", "#12345g"] {
        assert_eq!(read_hsl(text), None, "{}", text);
    }
}

#[test]
fn hsl_parts_must_be_numbers_in_range() {
    let one = 1_000_000_000_000;
    assert_eq!(
        hsl_from_parts("-359.5", "0.25", "0.75"),
        Some(Hsl { hue: -359 * one - one / 2, saturation: one / 4, lightness: 3 * one / 4 })
    );
    assert_eq!(
        hsl_from_parts("359.999999999999", "1", "-2"),
        Some(Hsl { hue: 360 * one - 1, saturation: one, lightness: -2 * one })
    );
    assert_eq!(hsl_from_parts("360", "0.5", "0.5"), None);
    assert_eq!(hsl_from_parts("-360", "0.5", "0.5"), None);
    assert_eq!(hsl_from_parts("10", "1.000000000001", "0.5"), None);
    assert_eq!(hsl_from_parts("10", "-0.1", "0.5"), None);
    assert_eq!(hsl_from_parts("NaN", "0.5", "0.5"), None);
    assert_eq!(hsl_from_parts("10", "NaN", "0.5"), None);
    assert_eq!(hsl_from_parts("10", "0.5", "inf"), None);
}
