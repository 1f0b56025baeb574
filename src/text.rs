use vstd::prelude::*;

use crate::color::Rgba;
use crate::geometry::ClipRect;

verus! {

/// Horizontal alignment of a text item against its anchor.
#[derive(Clone, Copy, PartialEq, Eq, Debug, Structural)]
pub enum Align {
    Left,
    Center,
    Right,
}

/// Font family of a text item.
#[derive(Clone, Copy, PartialEq, Eq, Debug, Structural)]
pub enum FontFamily {
    SansSerif,
    Monospace,
}

impl Align {
    /// The host's alignment tag: `"RIGHT_X"` and `"CENTER_X"` name right and
    /// centered alignment; any other tag means left.
    pub fn from_tag(tag: &str) -> (a: Align)
        ensures
            a == (if tag@ == "RIGHT_X"@ {
                Align::Right
            } else if tag@ == "CENTER_X"@ {
                Align::Center
            } else {
                Align::Left
            }),
    {
        let t = String::from_str(tag);
        if t == String::from_str("RIGHT_X") {
            Align::Right
        } else if t == String::from_str("CENTER_X") {
            Align::Center
        } else {
            Align::Left
        }
    }
}

impl FontFamily {
    /// The host's font tag: `"FIXED"` names the monospace family; any other
    /// tag the sans-serif one.
    pub fn from_tag(tag: &str) -> (f: FontFamily)
        ensures
            f == (if tag@ == "FIXED"@ {
                FontFamily::Monospace
            } else {
                FontFamily::SansSerif
            }),
    {
        if String::from_str(tag) == String::from_str("FIXED") {
            FontFamily::Monospace
        } else {
            FontFamily::SansSerif
        }
    }
}

/// A text item: anchor, font size in pixels, raw text that may hold color
/// markup, default color, alignment, font family and optional clip.
pub struct TextCmd {
    pub x: i32,
    pub y: i32,
    pub size: u32,
    pub text: String,
    pub color: Rgba,
    pub align: Align,
    pub font: FontFamily,
    pub clip: Option<ClipRect>,
}

/// A pixel rectangle given by its edges, for clipping laid-out text.
#[derive(Clone, Copy, PartialEq, Eq, Debug, Structural)]
pub struct TextBounds {
    pub left: i64,
    pub top: i64,
    pub right: i64,
    pub bottom: i64,
}

/// Where a laid-out text item goes: its left edge, its top, and the
/// rectangle it is clipped to.
#[derive(Clone, Copy, PartialEq, Eq, Debug, Structural)]
pub struct TextPlacement {
    pub left: i64,
    pub top: i32,
    pub bounds: TextBounds,
}

/// Left edge of a line `width` pixels wide anchored at `x`: `x` for left
/// alignment, `x - width` for right, `x - width / 2` (rounded down) for center.
pub open spec fn aligned_left(x: int, width: int, align: Align) -> int {
    match align {
        Align::Left => x,
        Align::Center => x - width / 2,
        Align::Right => x - width,
    }
}

/// The clip rectangle of a text item as edges, with width and height raised
/// to at least 1 as for geometry clips; the whole screen without clip.
pub open spec fn bounds_for(clip: Option<ClipRect>, screen_size: (u32, u32)) -> TextBounds {
    match clip {
        Some(c) => TextBounds {
            left: c.x as i64,
            top: c.y as i64,
            right: (c.x + (if c.w < 1 { 1 } else { c.w as int })) as i64,
            bottom: (c.y + (if c.h < 1 { 1 } else { c.h as int })) as i64,
        },
        None => TextBounds { left: 0, top: 0, right: screen_size.0 as i64, bottom: screen_size.1 as i64 },
    }
}

pub fn text_left(x: i32, width: u32, align: Align) -> (r: i64)
    ensures
        r == aligned_left(x as int, width as int, align),
{
    match align {
        Align::Left => x as i64,
        Align::Center => x as i64 - (width / 2) as i64,
        Align::Right => x as i64 - width as i64,
    }
}

pub fn text_bounds(clip: Option<ClipRect>, screen_size: (u32, u32)) -> (b: TextBounds)
    ensures
        b == bounds_for(clip, screen_size),
{
    match clip {
        Some(c) => TextBounds {
            left: c.x as i64,
            top: c.y as i64,
            right: c.x as i64 + if c.w < 1 { 1 } else { c.w as i64 },
            bottom: c.y as i64 + if c.h < 1 { 1 } else { c.h as i64 },
        },
        None => TextBounds { left: 0, top: 0, right: screen_size.0 as i64, bottom: screen_size.1 as i64 },
    }
}

/// Places a text item whose widest line measures `width` pixels.
pub fn place_text(cmd: &TextCmd, width: u32, screen_size: (u32, u32)) -> (p: TextPlacement)
    ensures
        p.left == aligned_left(cmd.x as int, width as int, cmd.align),
        p.top == cmd.y,
        p.bounds == bounds_for(cmd.clip, screen_size),
{
    TextPlacement {
        left: text_left(cmd.x, width, cmd.align),
        top: cmd.y,
        bounds: text_bounds(cmd.clip, screen_size),
    }
}

/// The largest of the widths, 0 when there are none.
pub open spec fn max_width(widths: Seq<u32>) -> u32
    decreases widths.len(),
{
    if widths.len() == 0 {
        0
    } else {
        let m = max_width(widths.drop_last());
        if widths.last() > m {
            widths.last()
        } else {
            m
        }
    }
}

/// Width of laid-out text: that of its widest line.
pub fn measured_width(line_widths: &Vec<u32>) -> (w: u32)
    ensures
        w == max_width(line_widths@),
{
    let mut w: u32 = 0;
    let mut i: usize = 0;
    while i < line_widths.len()
        invariant
            i <= line_widths@.len(),
            w == max_width(line_widths@.take(i as int)),
        decreases line_widths.len() - i,
    {
        assert(line_widths@.take(i + 1).drop_last() =~= line_widths@.take(i as int));
        if line_widths[i] > w {
            w = line_widths[i];
        }
        i = i + 1;
    }
    assert(line_widths@.take(i as int) =~= line_widths@);
    w
}

/// A shaped glyph: where its text starts, and its left edge and width in pixels.
#[derive(Clone, Copy, PartialEq, Eq, Debug, Structural)]
pub struct GlyphBox {
    pub start: usize,
    pub x: i32,
    pub w: u32,
}

/// The caret index for a click at `cursor_x`: the start of the first glyph
/// (from `i` on) whose horizontal middle lies right of the click, or
/// `text_len` when there is none.
pub open spec fn caret_index_from(glyphs: Seq<GlyphBox>, i: int, cursor_x: int, text_len: usize) -> usize
    decreases glyphs.len() - i,
{
    if i < 0 || i >= glyphs.len() {
        text_len
    } else if 2 * cursor_x < 2 * glyphs[i].x + glyphs[i].w {
        glyphs[i].start
    } else {
        caret_index_from(glyphs, i + 1, cursor_x, text_len)
    }
}

/// Maps a pixel x-coordinate to a character index of the shaped text, whose
/// glyphs are given in visual order.
pub fn text_cursor_index(glyphs: &Vec<GlyphBox>, cursor_x: i32, text_len: usize) -> (r: usize)
    ensures
        r == caret_index_from(glyphs@, 0, cursor_x as int, text_len),
{
    let mut i: usize = 0;
    while i < glyphs.len()
        invariant
            i <= glyphs@.len(),
            caret_index_from(glyphs@, 0, cursor_x as int, text_len) == caret_index_from(
                glyphs@,
                i as int,
                cursor_x as int,
                text_len,
            ),
        decreases glyphs.len() - i,
    {
        let g = glyphs[i];
        if 2 * (cursor_x as i64) < 2 * (g.x as i64) + g.w as i64 {
            return g.start;
        }
        i = i + 1;
    }
    text_len
}

} // verus!
