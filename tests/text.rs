use pob_render::{
    measured_width, place_text, text_bounds, text_cursor_index, text_left, Align, ClipRect,
    FontFamily, GlyphBox, Rgba, TextBounds, TextCmd,
};

#[test]
fn center_alignment_example() {
    assert_eq!(text_left(100, 40, Align::Center), 80);
}

#[test]
fn left_and_right_alignment() {
    assert_eq!(text_left(100, 40, Align::Left), 100);
    assert_eq!(text_left(100, 40, Align::Right), 60);
    assert_eq!(text_left(0, 41, Align::Center), -20);
    assert_eq!(text_left(i32::MIN, u32::MAX, Align::Right), i32::MIN as i64 - u32::MAX as i64);
}

#[test]
fn place_text_uses_alignment_and_clip() {
    let cmd = TextCmd {
        x: 100,
        y: 7,
        size: 14,
        text: "^1Hi".to_string(),
        color: Rgba { r: 1, g: 1, b: 1, a: 255 },
        align: Align::Center,
        font: FontFamily::SansSerif,
        clip: Some(ClipRect { x: 5, y: 6, w: 10, h: 0 }),
    };
    let p = place_text(&cmd, 40, (800, 600));
    assert_eq!(p.left, 80);
    assert_eq!(p.top, 7);
    assert_eq!(p.bounds, TextBounds { left: 5, top: 6, right: 15, bottom: 7 });
}

#[test]
fn text_bounds_default_to_screen() {
    assert_eq!(text_bounds(None, (1280, 720)), TextBounds { left: 0, top: 0, right: 1280, bottom: 720 });
    let big = ClipRect { x: u32::MAX, y: 1, w: u32::MAX, h: 2 };
    assert_eq!(
        text_bounds(Some(big), (1, 1)),
        TextBounds { left: u32::MAX as i64, top: 1, right: 2 * u32::MAX as i64, bottom: 3 }
    );
}

#[test]
fn widest_line_is_measured() {
    assert_eq!(measured_width(&vec![]), 0);
    assert_eq!(measured_width(&vec![12, 40, 7]), 40);
}

#[test]
fn cursor_index_picks_glyph_by_midpoint() {
    let glyphs = vec![
        GlyphBox { start: 0, x: 0, w: 10 },
        GlyphBox { start: 1, x: 10, w: 10 },
        GlyphBox { start: 3, x: 20, w: 9 },
    ];
    assert_eq!(text_cursor_index(&glyphs, -5, 4), 0);
    assert_eq!(text_cursor_index(&glyphs, 4, 4), 0);
    assert_eq!(text_cursor_index(&glyphs, 5, 4), 1);
    assert_eq!(text_cursor_index(&glyphs, 24, 4), 3);
    assert_eq!(text_cursor_index(&glyphs, 25, 4), 4);
    assert_eq!(text_cursor_index(&vec![], 3, 0), 0);
}

#[test]
fn tags_select_alignment_and_font() {
    assert_eq!(Align::from_tag("RIGHT_X"), Align::Right);
    assert_eq!(Align::from_tag("CENTER_X"), Align::Center);
    assert_eq!(Align::from_tag("LEFT"), Align::Left);
    assert_eq!(Align::from_tag(""), Align::Left);
    assert_eq!(FontFamily::from_tag("FIXED"), FontFamily::Monospace);
    assert_eq!(FontFamily::from_tag("VAR"), FontFamily::SansSerif);
}

#[test]
fn empty_text_clip_is_raised_to_one_pixel() {
    let clip = ClipRect { x: 10, y: 10, w: 0, h: 0 };
    assert_eq!(text_bounds(Some(clip), (100, 100)), TextBounds { left: 10, top: 10, right: 11, bottom: 11 });
}
