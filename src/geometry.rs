use vstd::prelude::*;

use crate::color::Rgba;
use crate::text::TextCmd;

verus! {

/// A clip rectangle in screen pixels.
#[derive(Clone, Copy, PartialEq, Eq, Debug, Structural)]
pub struct ClipRect {
    pub x: u32,
    pub y: u32,
    pub w: u32,
    pub h: u32,
}

/// A point in screen pixels.
#[derive(Clone, Copy, PartialEq, Eq, Debug, Structural)]
pub struct Point {
    pub x: i32,
    pub y: i32,
}

/// A texture coordinate, each component a normalized value where 65535 is 1.0.
#[derive(Clone, Copy, PartialEq, Eq, Debug, Structural)]
pub struct TexCoord {
    pub u: u16,
    pub v: u16,
}

/// A texture rectangle: left and right `u`, top and bottom `v`. An inverted
/// range (top below bottom) flips the image.
#[derive(Clone, Copy, PartialEq, Eq, Debug, Structural)]
pub struct UvRect {
    pub left: u16,
    pub top: u16,
    pub right: u16,
    pub bottom: u16,
}

/// An axis-aligned textured rectangle.
#[derive(Clone, Copy, PartialEq, Eq, Debug, Structural)]
pub struct DrawCmd {
    pub x: i32,
    pub y: i32,
    pub w: i32,
    pub h: i32,
    pub color: Rgba,
    pub texture_id: u32,
    pub uv: UvRect,
    pub clip: Option<ClipRect>,
}

/// An arbitrary textured quadrilateral, corners in drawing order.
#[derive(Clone, Copy, Debug)]
pub struct DrawQuadCmd {
    pub texture_id: u32,
    pub color: Rgba,
    pub clip: Option<ClipRect>,
    pub positions: [Point; 4],
    pub uvs: [TexCoord; 4],
}

/// One draw command of a frame.
pub enum DrawItem {
    Rect(DrawCmd),
    Quad(DrawQuadCmd),
    Text(TextCmd),
}

/// One vertex of the geometry stream.
#[derive(Clone, Copy, PartialEq, Eq, Debug, Structural)]
pub struct Vertex {
    pub x: i64,
    pub y: i64,
    pub u: u16,
    pub v: u16,
    pub color: Rgba,
}

pub open spec fn vertex(x: int, y: int, u: u16, v: u16, color: Rgba) -> Vertex {
    Vertex { x: x as i64, y: y as i64, u, v, color }
}

/// Two triangles over the box: (top-left, top-right, bottom-left) and
/// (top-right, bottom-right, bottom-left), texture corners taken as given.
pub open spec fn rect_vertices(c: DrawCmd) -> Seq<Vertex> {
    let x1 = c.x as int;
    let y1 = c.y as int;
    let x2 = c.x + c.w;
    let y2 = c.y + c.h;
    let tl = vertex(x1, y1, c.uv.left, c.uv.top, c.color);
    let tr = vertex(x2, y1, c.uv.right, c.uv.top, c.color);
    let bl = vertex(x1, y2, c.uv.left, c.uv.bottom, c.color);
    let br = vertex(x2, y2, c.uv.right, c.uv.bottom, c.color);
    seq![tl, tr, bl, tr, br, bl]
}

pub open spec fn quad_corner(c: DrawQuadCmd, k: int) -> Vertex {
    vertex(
        c.positions@[k].x as int,
        c.positions@[k].y as int,
        c.uvs@[k].u,
        c.uvs@[k].v,
        c.color,
    )
}

/// Two triangles over the corners, (0, 1, 2) and (0, 2, 3).
pub open spec fn quad_vertices(c: DrawQuadCmd) -> Seq<Vertex> {
    seq![
        quad_corner(c, 0),
        quad_corner(c, 1),
        quad_corner(c, 2),
        quad_corner(c, 0),
        quad_corner(c, 2),
        quad_corner(c, 3),
    ]
}

/// The vertices an item contributes to the geometry stream; text has none.
pub open spec fn item_vertices(item: DrawItem) -> Seq<Vertex> {
    match item {
        DrawItem::Rect(c) => rect_vertices(c),
        DrawItem::Quad(c) => quad_vertices(c),
        DrawItem::Text(_) => Seq::empty(),
    }
}

pub open spec fn is_geometry(item: DrawItem) -> bool {
    !(item is Text)
}

/// Texture of a geometry item (0 for text, which has none).
pub open spec fn item_texture(item: DrawItem) -> u32 {
    match item {
        DrawItem::Rect(c) => c.texture_id,
        DrawItem::Quad(c) => c.texture_id,
        DrawItem::Text(_) => 0,
    }
}

/// Clip of a geometry item (none for text).
pub open spec fn item_clip(item: DrawItem) -> Option<ClipRect> {
    match item {
        DrawItem::Rect(c) => c.clip,
        DrawItem::Quad(c) => c.clip,
        DrawItem::Text(_) => None,
    }
}

impl DrawItem {
    pub fn is_text(&self) -> (r: bool)
        ensures
            r == !is_geometry(*self),
    {
        match self {
            DrawItem::Text(_) => true,
            _ => false,
        }
    }

    pub fn texture_id(&self) -> (r: u32)
        ensures
            r == item_texture(*self),
    {
        match self {
            DrawItem::Rect(c) => c.texture_id,
            DrawItem::Quad(c) => c.texture_id,
            DrawItem::Text(_) => 0,
        }
    }

    pub fn clip(&self) -> (r: Option<ClipRect>)
        ensures
            r == item_clip(*self),
    {
        match self {
            DrawItem::Rect(c) => c.clip,
            DrawItem::Quad(c) => c.clip,
            DrawItem::Text(_) => None,
        }
    }
}

/// Structural equality of optional clips: both absent, or both present with
/// equal fields.
pub fn same_clip(a: Option<ClipRect>, b: Option<ClipRect>) -> (r: bool)
    ensures
        r == (a == b),
{
    match (a, b) {
        (None, None) => true,
        (Some(p), Some(q)) => p == q,
        _ => false,
    }
}

/// Appends the six vertices of a rectangle.
pub fn push_rect_vertices(out: &mut Vec<Vertex>, c: &DrawCmd)
    ensures
        final(out)@ == old(out)@ + rect_vertices(*c),
{
    let x1 = c.x as i64;
    let y1 = c.y as i64;
    let x2 = c.x as i64 + c.w as i64;
    let y2 = c.y as i64 + c.h as i64;
    let tl = Vertex { x: x1, y: y1, u: c.uv.left, v: c.uv.top, color: c.color };
    let tr = Vertex { x: x2, y: y1, u: c.uv.right, v: c.uv.top, color: c.color };
    let bl = Vertex { x: x1, y: y2, u: c.uv.left, v: c.uv.bottom, color: c.color };
    let br = Vertex { x: x2, y: y2, u: c.uv.right, v: c.uv.bottom, color: c.color };
    out.push(tl);
    out.push(tr);
    out.push(bl);
    out.push(tr);
    out.push(br);
    out.push(bl);
    assert(final(out)@ =~= old(out)@ + rect_vertices(*c));
}

fn quad_corner_vertex(c: &DrawQuadCmd, k: usize) -> (v: Vertex)
    requires
        k < 4,
    ensures
        v == quad_corner(*c, k as int),
{
    let p = c.positions[k];
    let t = c.uvs[k];
    Vertex { x: p.x as i64, y: p.y as i64, u: t.u, v: t.v, color: c.color }
}

/// Appends the six vertices of a quad.
pub fn push_quad_vertices(out: &mut Vec<Vertex>, c: &DrawQuadCmd)
    ensures
        final(out)@ == old(out)@ + quad_vertices(*c),
{
    let v0 = quad_corner_vertex(c, 0);
    let v1 = quad_corner_vertex(c, 1);
    let v2 = quad_corner_vertex(c, 2);
    let v3 = quad_corner_vertex(c, 3);
    out.push(v0);
    out.push(v1);
    out.push(v2);
    out.push(v0);
    out.push(v2);
    out.push(v3);
    assert(final(out)@ =~= old(out)@ + quad_vertices(*c));
}

/// Appends the vertices of one item; text adds none.
pub fn push_item_vertices(out: &mut Vec<Vertex>, item: &DrawItem)
    ensures
        final(out)@ == old(out)@ + item_vertices(*item),
{
    match item {
        DrawItem::Rect(c) => push_rect_vertices(out, c),
        DrawItem::Quad(c) => push_quad_vertices(out, c),
        DrawItem::Text(_) => {
            assert(old(out)@ + item_vertices(*item) =~= old(out)@);
        },
    }
}

} // verus!
