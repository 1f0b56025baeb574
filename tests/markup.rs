use pob_render::{parse_color_spans, pob_digit_color, strip_pob_escapes, Rgba};

const WHITE: Rgba = Rgba { r: 255, g: 255, b: 255, a: 255 };

fn spans_of(text: &str, base: Rgba) -> Vec<(String, Rgba)> {
    parse_color_spans(text, base)
        .into_iter()
        .map(|s| (s.text, s.color))
        .collect()
}

#[test]
fn markup_round_trip_example() {
    let text = "^1Hello^x00FF00World";
    assert_eq!(strip_pob_escapes(text), "HelloWorld");
    let spans = spans_of(text, WHITE);
    assert_eq!(
        spans,
        vec![
            ("Hello".to_string(), Rgba { r: 255, g: 0, b: 0, a: 255 }),
            ("World".to_string(), Rgba { r: 0, g: 255, b: 0, a: 255 }),
        ]
    );
}

#[test]
fn trailing_caret_is_literal() {
    assert_eq!(strip_pob_escapes("100%^"), "100%^");
    let spans = spans_of("100%^", WHITE);
    assert_eq!(spans, vec![("100%^".to_string(), WHITE)]);
}

#[test]
fn short_hex_markup_is_literal() {
    assert_eq!(strip_pob_escapes("a^x12345"), "a^x12345");
    assert_eq!(strip_pob_escapes("a^x12345Gb"), "a^x12345Gb");
    assert_eq!(strip_pob_escapes("^q"), "^q");
    assert_eq!(strip_pob_escapes("^^1x"), "^x");
}

#[test]
fn uppercase_hex_marker_is_markup() {
    let spans = spans_of("^XaBcDeFok", Rgba { r: 1, g: 2, b: 3, a: 77 });
    assert_eq!(spans, vec![("ok".to_string(), Rgba { r: 0xAB, g: 0xCD, b: 0xEF, a: 77 })]);
}

#[test]
fn markup_keeps_base_alpha() {
    let base = Rgba { r: 10, g: 20, b: 30, a: 128 };
    let spans = spans_of("a^4b^xFFFFFFc", base);
    assert_eq!(
        spans,
        vec![
            ("a".to_string(), base),
            ("b".to_string(), Rgba { r: 255, g: 255, b: 0, a: 128 }),
            ("c".to_string(), Rgba { r: 255, g: 255, b: 255, a: 128 }),
        ]
    );
}

#[test]
fn empty_and_markup_only_texts_have_no_spans() {
    assert!(spans_of("", WHITE).is_empty());
    assert!(spans_of("^1^2^x000000", WHITE).is_empty());
    assert_eq!(strip_pob_escapes("^1^2^x000000"), "");
}

#[test]
fn spans_join_to_stripped_text() {
    let texts = ["plain", "^7Life: ^x33FF77+50^7 total", "ünï^2cödé^", "^", "^^", "x^9"];
    for t in texts {
        let joined: String = parse_color_spans(t, WHITE).into_iter().map(|s| s.text).collect();
        assert_eq!(joined, strip_pob_escapes(t));
    }
    assert_eq!(strip_pob_escapes("ünï^2cödé^"), "ünïcödé^");
}

#[test]
fn consecutive_markup_keeps_last_color() {
    let spans = spans_of("^1^3blue", WHITE);
    assert_eq!(spans, vec![("blue".to_string(), Rgba { r: 0, g: 0, b: 255, a: 255 })]);
}

#[test]
fn palette_entries() {
    let expected = [
        (0, 0, 0),
        (255, 0, 0),
        (0, 255, 0),
        (0, 0, 255),
        (255, 255, 0),
        (127, 127, 127),
        (127, 127, 127),
        (255, 255, 255),
        (191, 191, 191),
        (76, 76, 76),
    ];
    for (d, (r, g, b)) in expected.iter().enumerate() {
        assert_eq!(pob_digit_color(d as u8, 9), Rgba { r: *r, g: *g, b: *b, a: 9 });
    }
    assert_eq!(pob_digit_color(42, 1), Rgba { r: 255, g: 255, b: 255, a: 1 });
}
