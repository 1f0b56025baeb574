use vstd::prelude::*;

use crate::color::{palette_color, pob_digit_color, Rgba};

verus! {

/// A run of visible text together with the color active where it was scanned.
pub struct ColorSpan {
    pub text: String,
    pub color: Rgba,
}

impl View for ColorSpan {
    type V = (Seq<char>, Rgba);

    open spec fn view(&self) -> (Seq<char>, Rgba) {
        (self.text@, self.color)
    }
}

pub open spec fn is_digit(c: char) -> bool {
    '0' <= c && c <= '9'
}

pub open spec fn is_hex_digit(c: char) -> bool {
    ('0' <= c && c <= '9') || ('a' <= c && c <= 'f') || ('A' <= c && c <= 'F')
}

/// Value of a hexadecimal digit.
pub open spec fn hex_value(c: char) -> int {
    if '0' <= c && c <= '9' {
        c as int - '0' as int
    } else if 'a' <= c && c <= 'f' {
        c as int - 'a' as int + 10
    } else {
        c as int - 'A' as int + 10
    }
}

/// The byte written by the two hex digits at `j` and `j + 1`.
pub open spec fn hex_byte(s: Seq<char>, j: int) -> u8 {
    (hex_value(s[j]) * 16 + hex_value(s[j + 1])) as u8
}

/// Length of the markup sequence that starts at `i`: 2 for `^N`, 8 for
/// `^xRRGGBB` (or `^X...`), 0 where no valid markup starts.
pub open spec fn markup_len(s: Seq<char>, i: int) -> int {
    if 0 <= i && i + 1 < s.len() && s[i] == '^' && is_digit(s[i + 1]) {
        2
    } else if 0 <= i && i + 8 <= s.len() && s[i] == '^' && (s[i + 1] == 'x' || s[i + 1] == 'X')
        && is_hex_digit(s[i + 2]) && is_hex_digit(s[i + 3]) && is_hex_digit(s[i + 4])
        && is_hex_digit(s[i + 5]) && is_hex_digit(s[i + 6]) && is_hex_digit(s[i + 7]) {
        8
    } else {
        0
    }
}

/// The color selected by the markup at `i`; its alpha is always `alpha`.
pub open spec fn markup_color(s: Seq<char>, i: int, alpha: u8) -> Rgba {
    if markup_len(s, i) == 2 {
        palette_color((s[i + 1] as int - '0' as int) as u8, alpha)
    } else {
        Rgba::spec_new(hex_byte(s, i + 2), hex_byte(s, i + 4), hex_byte(s, i + 6), alpha)
    }
}

/// A span holding `pending`, or nothing when `pending` is empty.
pub open spec fn flush(pending: Seq<char>, color: Rgba) -> Seq<(Seq<char>, Rgba)> {
    if pending.len() > 0 {
        seq![(pending, color)]
    } else {
        Seq::empty()
    }
}

/// Spans of `s` from position `i`, where `pending` is the visible text scanned
/// since the last markup and `color` the color in force.
pub open spec fn spans_from(s: Seq<char>, i: int, pending: Seq<char>, color: Rgba, alpha: u8) -> Seq<
    (Seq<char>, Rgba),
>
    decreases s.len() - i,
{
    if i < 0 || i >= s.len() {
        flush(pending, color)
    } else if markup_len(s, i) > 0 {
        flush(pending, color) + spans_from(
            s,
            i + markup_len(s, i),
            Seq::empty(),
            markup_color(s, i, alpha),
            alpha,
        )
    } else {
        spans_from(s, i + 1, pending.push(s[i]), color, alpha)
    }
}

/// The spans of a whole text, starting in `base` color.
pub open spec fn color_spans(s: Seq<char>, base: Rgba) -> Seq<(Seq<char>, Rgba)> {
    spans_from(s, 0, Seq::empty(), base, base.a)
}

/// The text of `s` from position `i` with every markup sequence removed.
pub open spec fn stripped_from(s: Seq<char>, i: int) -> Seq<char>
    decreases s.len() - i,
{
    if i < 0 || i >= s.len() {
        Seq::empty()
    } else if markup_len(s, i) > 0 {
        stripped_from(s, i + markup_len(s, i))
    } else {
        seq![s[i]] + stripped_from(s, i + 1)
    }
}

pub open spec fn stripped(s: Seq<char>) -> Seq<char> {
    stripped_from(s, 0)
}

/// The texts of `spans`, concatenated in order.
pub open spec fn span_texts(spans: Seq<(Seq<char>, Rgba)>) -> Seq<char>
    decreases spans.len(),
{
    if spans.len() == 0 {
        Seq::empty()
    } else {
        span_texts(spans.drop_last()) + spans.last().0
    }
}

pub open spec fn spans_view(v: Seq<ColorSpan>) -> Seq<(Seq<char>, Rgba)> {
    v.map_values(|sp: ColorSpan| sp@)
}

proof fn lemma_span_texts_append(a: Seq<(Seq<char>, Rgba)>, b: Seq<(Seq<char>, Rgba)>)
    ensures
        span_texts(a + b) == span_texts(a) + span_texts(b),
    decreases b.len(),
{
    if b.len() == 0 {
        assert(a + b =~= a);
        assert(span_texts(a) + span_texts(b) =~= span_texts(a));
    } else {
        assert((a + b).drop_last() =~= a + b.drop_last());
        lemma_span_texts_append(a, b.drop_last());
        assert(span_texts(a) + span_texts(b.drop_last()) + b.last().0 =~= span_texts(a) + (
        span_texts(b.drop_last()) + b.last().0));
    }
}

proof fn lemma_span_texts_from(s: Seq<char>, i: int, pending: Seq<char>, color: Rgba, alpha: u8)
    requires
        0 <= i <= s.len(),
    ensures
        span_texts(spans_from(s, i, pending, color, alpha)) == pending + stripped_from(s, i),
    decreases s.len() - i,
{
    assert(span_texts(flush(pending, color)) =~= pending) by {
        if pending.len() > 0 {
            assert(flush(pending, color).drop_last() =~= Seq::<(Seq<char>, Rgba)>::empty());
            assert(span_texts(Seq::<(Seq<char>, Rgba)>::empty()) == Seq::<char>::empty());
            assert(Seq::<char>::empty() + pending =~= pending);
        } else {
            assert(span_texts(flush(pending, color)) == Seq::<char>::empty());
        }
    }
    if i >= s.len() {
        assert(pending + Seq::<char>::empty() =~= pending);
    } else if markup_len(s, i) > 0 {
        let k = markup_len(s, i);
        lemma_span_texts_from(s, i + k, Seq::empty(), markup_color(s, i, alpha), alpha);
        lemma_span_texts_append(
            flush(pending, color),
            spans_from(s, i + k, Seq::empty(), markup_color(s, i, alpha), alpha),
        );
        assert(Seq::<char>::empty() + stripped_from(s, i + k) =~= stripped_from(s, i + k));
    } else {
        lemma_span_texts_from(s, i + 1, pending.push(s[i]), color, alpha);
        assert(pending.push(s[i]) + stripped_from(s, i + 1) =~= pending + (seq![s[i]]
            + stripped_from(s, i + 1)));
    }
}

/// Joining the texts of the spans, ignoring their colors, gives the text with
/// its markup stripped, whatever the base color.
pub proof fn lemma_spans_concatenate_to_stripped(s: Seq<char>, base: Rgba)
    ensures
        span_texts(color_spans(s, base)) == stripped(s),
{
    lemma_span_texts_from(s, 0, Seq::empty(), base, base.a);
    assert(Seq::<char>::empty() + stripped_from(s, 0) =~= stripped_from(s, 0));
}

/// The characters of `s`, in order.
fn chars_of(s: &str) -> (r: Vec<char>)
    ensures
        r@ == s@,
{
    let mut r: Vec<char> = Vec::new();
    for c in it: s.chars()
        invariant
            r@ == it.seq().take(it.index() as int),
    {
        r.push(c);
    }
    r
}

fn is_digit_char(c: char) -> (r: bool)
    ensures
        r == is_digit(c),
{
    '0' <= c && c <= '9'
}

fn is_hex_char(c: char) -> (r: bool)
    ensures
        r == is_hex_digit(c),
{
    ('0' <= c && c <= '9') || ('a' <= c && c <= 'f') || ('A' <= c && c <= 'F')
}

fn hex_char_value(c: char) -> (v: u8)
    requires
        is_hex_digit(c),
    ensures
        v as int == hex_value(c),
        v < 16,
{
    if '0' <= c && c <= '9' {
        (c as u32 - '0' as u32) as u8
    } else if 'a' <= c && c <= 'f' {
        (c as u32 - 'a' as u32 + 10) as u8
    } else {
        (c as u32 - 'A' as u32 + 10) as u8
    }
}

fn hex_byte_at(cs: &Vec<char>, j: usize) -> (b: u8)
    requires
        j + 1 < cs.len(),
        is_hex_digit(cs@[j as int]),
        is_hex_digit(cs@[j + 1]),
    ensures
        b == hex_byte(cs@, j as int),
{
    let hi = hex_char_value(cs[j]);
    let lo = hex_char_value(cs[j + 1]);
    hi * 16 + lo
}

fn markup_len_at(cs: &Vec<char>, i: usize) -> (k: usize)
    requires
        i < cs.len(),
    ensures
        k == markup_len(cs@, i as int),
{
    let n = cs.len();
    if cs[i] != '^' {
        0
    } else if i + 1 < n && is_digit_char(cs[i + 1]) {
        2
    } else if n - i >= 8 && (cs[i + 1] == 'x' || cs[i + 1] == 'X') && is_hex_char(cs[i + 2])
        && is_hex_char(cs[i + 3]) && is_hex_char(cs[i + 4]) && is_hex_char(cs[i + 5])
        && is_hex_char(cs[i + 6]) && is_hex_char(cs[i + 7]) {
        8
    } else {
        0
    }
}

fn markup_color_at(cs: &Vec<char>, i: usize, alpha: u8) -> (c: Rgba)
    requires
        i < cs.len(),
        markup_len(cs@, i as int) > 0,
    ensures
        c == markup_color(cs@, i as int, alpha),
{
    if markup_len_at(cs, i) == 2 {
        pob_digit_color((cs[i + 1] as u32 - '0' as u32) as u8, alpha)
    } else {
        Rgba::new(hex_byte_at(cs, i + 2), hex_byte_at(cs, i + 4), hex_byte_at(cs, i + 6), alpha)
    }
}

/// Splits `text` into spans of visible text, each with the color in force
/// where it was scanned. `^N` (a decimal digit) selects a palette entry and
/// `^xRRGGBB` (or `^X...`) an explicit color; both keep the alpha of
/// `default_color`, start a new span and are themselves not shown. A caret
/// that starts neither is ordinary text. No span is empty.
pub fn parse_color_spans(text: &str, default_color: Rgba) -> (spans: Vec<ColorSpan>)
    ensures
        spans_view(spans@) == color_spans(text@, default_color),
{
    let cs = chars_of(text);
    let n = cs.len();
    let alpha = default_color.a;
    let mut spans: Vec<ColorSpan> = Vec::new();
    let mut color = default_color;
    let mut start: usize = 0;
    let mut i: usize = 0;
    assert(spans_view(spans@) =~= Seq::<(Seq<char>, Rgba)>::empty());
    assert(cs@.subrange(0, 0) =~= Seq::<char>::empty());
    assert(spans_view(spans@) + color_spans(text@, default_color) =~= color_spans(text@, default_color));
    while i < n
        invariant
            cs@ == text@,
            n == cs.len(),
            alpha == default_color.a,
            start <= i <= n,
            spans_view(spans@) + spans_from(cs@, i as int, cs@.subrange(start as int, i as int), color, alpha)
                == color_spans(text@, default_color),
        decreases n - i,
    {
        let k = markup_len_at(&cs, i);
        if k == 0 {
            assert(cs@.subrange(start as int, i as int).push(cs@[i as int]) =~= cs@.subrange(
                start as int,
                i + 1,
            ));
            i = i + 1;
        } else {
            let ghost before = spans_view(spans@);
            let ghost pending = cs@.subrange(start as int, i as int);
            let ghost old_color = color;
            let ghost rest = spans_from(cs@, i + k, Seq::empty(), markup_color(cs@, i as int, alpha), alpha);
            assert(spans_from(cs@, i as int, pending, color, alpha) == flush(pending, color) + rest);
            if start < i {
                let piece = String::from_str(text.substring_char(start, i));
                spans.push(ColorSpan { text: piece, color });
                assert(spans_view(spans@) =~= before + flush(pending, color));
            } else {
                assert(before + flush(pending, color) =~= before);
            }
            color = markup_color_at(&cs, i, alpha);
            i = i + k;
            start = i;
            assert(cs@.subrange(start as int, i as int) =~= Seq::<char>::empty());
            assert(spans_view(spans@) + rest =~= before + (flush(pending, old_color) + rest));
        }
    }
    let ghost before = spans_view(spans@);
    let ghost pending = cs@.subrange(start as int, n as int);
    if start < n {
        let piece = String::from_str(text.substring_char(start, n));
        spans.push(ColorSpan { text: piece, color });
        assert(spans_view(spans@) =~= before + flush(pending, color));
    } else {
        assert(before + flush(pending, color) =~= before);
    }
    spans
}

/// The text as it is shown: `text` with every markup sequence removed and
/// everything else, literal carets included, kept in order.
pub fn strip_pob_escapes(text: &str) -> (r: String)
    ensures
        r@ == stripped(text@),
{
    let base = Rgba::new(255, 255, 255, 255);
    let spans = parse_color_spans(text, base);
    let ghost sv = spans_view(spans@);
    let mut out = String::new();
    let mut j: usize = 0;
    assert(sv.take(0) =~= Seq::<(Seq<char>, Rgba)>::empty());
    while j < spans.len()
        invariant
            sv == spans_view(spans@),
            j <= spans.len(),
            out@ == span_texts(sv.take(j as int)),
        decreases spans.len() - j,
    {
        out.append(spans[j].text.as_str());
        assert(sv.take(j + 1).drop_last() =~= sv.take(j as int));
        j = j + 1;
    }
    assert(sv.take(j as int) =~= sv);
    proof {
        lemma_spans_concatenate_to_stripped(text@, base);
    }
    out
}

} // verus!
