use vstd::prelude::*;

use crate::batch::{
    frame_groups, geometry_items, group_clip, group_texture, groups_from,
    lemma_batches_have_vertices, lemma_batches_partition_geometry, lemma_groups_shape, next_group, range_geometry,
    range_vertices, ranges_geometry,
};
use crate::color::Rgba;
use crate::frame::{FrameAllocator, VERTEX_SIZE};
use crate::geometry::{is_geometry, push_item_vertices, ClipRect, DrawItem, Point, Vertex};
use crate::textures::{resolved_id, TextureRegistry};

verus! {

/// One draw call: the items `[start, end)` of the frame, drawn with one
/// texture and one scissor rectangle from `vertices`, which go to the vertex
/// buffer at `byte_offset` (vertex index `first_vertex`).
pub struct Batch {
    pub texture_id: u32,
    pub scissor: ClipRect,
    pub start: usize,
    pub end: usize,
    pub byte_offset: u64,
    pub first_vertex: u32,
    pub vertices: Vec<Vertex>,
}

/// The scissor rectangle for a clip: the clip with width and height raised
/// to at least 1, or the whole screen when there is no clip.
pub open spec fn scissor_for(clip: Option<ClipRect>, screen_size: (u32, u32)) -> ClipRect {
    match clip {
        Some(c) => ClipRect {
            x: c.x,
            y: c.y,
            w: if c.w < 1 { 1 } else { c.w },
            h: if c.h < 1 { 1 } else { c.h },
        },
        None => ClipRect { x: 0, y: 0, w: screen_size.0, h: screen_size.1 },
    }
}

pub fn scissor_rect(clip: Option<ClipRect>, screen_size: (u32, u32)) -> (r: ClipRect)
    ensures
        r == scissor_for(clip, screen_size),
{
    match clip {
        Some(c) => ClipRect {
            x: c.x,
            y: c.y,
            w: if c.w < 1 { 1 } else { c.w },
            h: if c.h < 1 { 1 } else { c.h },
        },
        None => ClipRect { x: 0, y: 0, w: screen_size.0, h: screen_size.1 },
    }
}

/// Number of vertices of the `j`-th batch range.
pub open spec fn group_vertex_count(items: Seq<DrawItem>, gs: Seq<(int, int)>, j: int) -> int {
    range_vertices(items, gs[j].0, gs[j].1).len() as int
}

/// Number of vertices of the first `k` batch ranges.
pub open spec fn vertices_before(items: Seq<DrawItem>, gs: Seq<(int, int)>, k: int) -> int
    decreases k,
{
    if k <= 0 {
        0
    } else {
        vertices_before(items, gs, k - 1) + group_vertex_count(items, gs, k - 1)
    }
}

/// `b` submits the `j`-th batch range of `gs`, the frame's vertices having
/// started at byte `frame_start`.
pub open spec fn batch_submits<R>(
    b: Batch,
    items: Seq<DrawItem>,
    gs: Seq<(int, int)>,
    j: int,
    textures: Map<u32, R>,
    screen_size: (u32, u32),
    frame_start: int,
) -> bool {
    &&& b.start == gs[j].0
    &&& b.end == gs[j].1
    &&& b.texture_id == resolved_id(textures, group_texture(items, gs[j].0))
    &&& b.scissor == scissor_for(group_clip(items, gs[j].0), screen_size)
    &&& b.vertices@ == range_vertices(items, gs[j].0, gs[j].1)
    &&& b.byte_offset == frame_start + VERTEX_SIZE * vertices_before(items, gs, j)
    &&& b.first_vertex * VERTEX_SIZE == b.byte_offset
}

/// Item ranges of the batches, in order.
pub open spec fn batch_ranges(batches: Seq<Batch>) -> Seq<(int, int)> {
    batches.map_values(|b: Batch| (b.start as int, b.end as int))
}

/// The GPU-independent state of the renderer: the texture registry and the
/// per-frame vertex buffer allocator. `R` is the bindable texture resource.
pub struct Renderer<R> {
    pub textures: TextureRegistry<R>,
    pub frame: FrameAllocator,
}

impl<R> Renderer<R> {
    /// A renderer whose texture 0 is `white` and whose vertex buffer holds
    /// `capacity_vertices` vertices.
    pub fn new(white: R, capacity_vertices: u32) -> (r: Renderer<R>)
        ensures
            r.textures@ == map![0u32 => white],
            r.frame.capacity() == VERTEX_SIZE * capacity_vertices,
            r.frame.cursor() == 0,
    {
        Renderer { textures: TextureRegistry::new(white), frame: FrameAllocator::new(capacity_vertices) }
    }

    /// Starts a frame: the vertex buffer is free again.
    pub fn begin_frame(&mut self)
        ensures
            final(self).frame.cursor() == 0,
            final(self).frame.capacity() == old(self).frame.capacity(),
            final(self).textures@ == old(self).textures@,
    {
        self.frame.begin_frame();
    }

    /// Registers (or replaces) the resource of texture `id`; id 0 stays the fallback.
    pub fn load_texture(&mut self, id: u32, resource: R)
        ensures
            final(self).textures@ == crate::textures::with_registration(old(self).textures@, id, resource),
            final(self).frame == old(self).frame,
    {
        self.textures.register(id, resource);
    }

    /// Plans the geometry of a frame. The items are cut into batches (see
    /// `groups_from`) in order; each batch gets its resolved texture, its
    /// scissor rectangle and its vertices, and room in the vertex buffer.
    /// When a batch does not fit, it and all later ones are dropped, and the
    /// cursor stays where the last batch that fit left it. Text items give
    /// no vertices; every batch holds at least one geometry item and six
    /// vertices per geometry item in its range. With room for six vertices
    /// per geometry item of the frame, every batch is drawn, and the batch
    /// ranges, in order, hold exactly the frame's geometry items.
    pub fn draw(&mut self, screen_size: (u32, u32), cmds: &[DrawItem]) -> (batches: Vec<Batch>)
        ensures
            final(self).textures@ == old(self).textures@,
            final(self).frame.capacity() == old(self).frame.capacity(),
            ({
                let gs = frame_groups(cmds@);
                let start = old(self).frame.cursor() as int;
                let cap = old(self).frame.capacity() as int;
                let k = batches@.len() as int;
                &&& k <= gs.len()
                &&& forall|j: int|
                    0 <= j < k ==> batch_submits(
                        #[trigger] batches@[j],
                        cmds@,
                        gs,
                        j,
                        old(self).textures@,
                        screen_size,
                        start,
                    )
                &&& start + VERTEX_SIZE * vertices_before(cmds@, gs, k) <= cap
                &&& forall|j: int| 0 <= j < k ==> (#[trigger] batches@[j]).vertices@.len() >= 6
                &&& forall|j: int|
                    0 <= j < k ==> (#[trigger] batches@[j]).vertices@.len() == 6 * range_geometry(
                        cmds@,
                        batches@[j].start as int,
                        batches@[j].end as int,
                    ).len()
                &&& k < gs.len() ==> start + VERTEX_SIZE * vertices_before(cmds@, gs, k + 1) > cap
                &&& start + VERTEX_SIZE * vertices_before(cmds@, gs, gs.len() as int) <= cap ==> k
                    == gs.len()
                &&& start + VERTEX_SIZE * 6 * geometry_items(cmds@).len() <= cap ==> {
                    &&& k == gs.len()
                    &&& ranges_geometry(cmds@, batch_ranges(batches@)) == geometry_items(cmds@)
                }
                &&& final(self).frame.cursor() == start + VERTEX_SIZE * vertices_before(cmds@, gs, k)
            }),
    {
        let ghost gs = frame_groups(cmds@);
        let frame_start = self.frame.cursor_bytes();
        let ghost start = frame_start as int;
        let ghost cap = self.frame.capacity() as int;
        let ghost textures = self.textures@;
        let mut batches: Vec<Batch> = Vec::new();
        let mut i: usize = 0;
        proof {
            lemma_groups_shape(cmds@, 0);
            assert(gs.subrange(0, gs.len() as int) =~= gs);
        }
        loop
            invariant
                i <= cmds@.len(),
                gs == frame_groups(cmds@),
                batches@.len() <= gs.len(),
                gs.subrange(batches@.len() as int, gs.len() as int) == groups_from(cmds@, i as int),
                forall|j: int|
                    0 <= j < batches@.len() ==> batch_submits(
                        #[trigger] batches@[j],
                        cmds@,
                        gs,
                        j,
                        textures,
                        screen_size,
                        start,
                    ),
                self.frame.cursor() == start + VERTEX_SIZE * vertices_before(cmds@, gs, batches@.len() as int),
                self.frame.cursor() <= cap,
                self.frame.capacity() == cap,
                self.textures@ == textures,
            ensures
                batches@.len() <= gs.len(),
                forall|j: int|
                    0 <= j < batches@.len() ==> batch_submits(
                        #[trigger] batches@[j],
                        cmds@,
                        gs,
                        j,
                        textures,
                        screen_size,
                        start,
                    ),
                self.frame.cursor() == start + VERTEX_SIZE * vertices_before(cmds@, gs, batches@.len() as int),
                self.frame.cursor() <= cap,
                self.frame.capacity() == cap,
                self.textures@ == textures,
                batches@.len() < gs.len() ==> start + VERTEX_SIZE * vertices_before(
                    cmds@,
                    gs,
                    batches@.len() as int + 1,
                ) > cap,
            decreases cmds@.len() - i,
        {
            let k = batches.len();
            match next_group(cmds, i) {
                None => {
                    assert(gs.subrange(k as int, gs.len() as int).len() == 0);
                    break ;
                },
                Some((g, e)) => {
                    let ghost rest = gs.subrange(k as int, gs.len() as int);
                    assert(rest == seq![(i as int, e as int)] + groups_from(cmds@, e as int));
                    assert(rest.len() >= 1);
                    assert(rest[0] == (i as int, e as int));
                    assert(gs[k as int] == rest[0]);
                    let mut vertices: Vec<Vertex> = Vec::new();
                    let mut t = i;
                    while t < e
                        invariant
                            i <= t <= e,
                            e <= cmds@.len(),
                            vertices@ == range_vertices(cmds@, i as int, t as int),
                        decreases e - t,
                    {
                        push_item_vertices(&mut vertices, &cmds[t]);
                        t = t + 1;
                    }
                    match self.frame.reserve(vertices.len()) {
                        None => {
                            break ;
                        },
                        Some((offset, _end)) => {
                            let texture_id = self.textures.resolve_id(cmds[g].texture_id());
                            let scissor = scissor_rect(cmds[g].clip(), screen_size);
                            assert(offset / VERTEX_SIZE <= u32::MAX) by (nonlinear_arith)
                                requires
                                    offset <= cap,
                                    cap <= VERTEX_SIZE * (u32::MAX as int),
                                    VERTEX_SIZE == 32,
                            ;
                            let first_vertex = (offset / VERTEX_SIZE) as u32;
                            assert(first_vertex * VERTEX_SIZE == offset) by (nonlinear_arith)
                                requires
                                    first_vertex == offset / 32,
                                    offset % 32 == 0,
                                    VERTEX_SIZE == 32,
                            ;
                            let batch = Batch {
                                texture_id,
                                scissor,
                                start: i,
                                end: e,
                                byte_offset: offset,
                                first_vertex,
                                vertices,
                            };
                            batches.push(batch);
                            assert(batches@[k as int] == batch);
                            assert(gs.subrange(k + 1, gs.len() as int) =~= gs.subrange(
                                k as int,
                                gs.len() as int,
                            ).drop_first());
                            i = e;
                        },
                    }
                },
            }
        }
        proof {
            lemma_batches_have_vertices(cmds@);
            lemma_all_vertices_of_frame(cmds@);
            assert forall|j: int| 0 <= j < batches@.len() implies (#[trigger] batches@[j]).vertices@.len()
                == 6 * range_geometry(cmds@, batches@[j].start as int, batches@[j].end as int).len() by {
                assert(batch_submits(batches@[j], cmds@, gs, j, textures, screen_size, start));
                lemma_range_vertices_count(cmds@, batches@[j].start as int, batches@[j].end as int);
            }
            if batches@.len() == gs.len() {
                assert forall|j: int| 0 <= j < batches@.len() implies (#[trigger] batches@[j]).start
                    == frame_groups(cmds@)[j].0 && batches@[j].end == frame_groups(cmds@)[j].1 by {
                    assert(batch_submits(batches@[j], cmds@, gs, j, textures, screen_size, start));
                }
                lemma_complete_frame_keeps_geometry(cmds@, batches@);
            }
            if batches@.len() < gs.len() {
                lemma_vertices_before_monotonic(cmds@, gs, batches@.len() as int + 1, gs.len() as int);
            }
        }
        batches
    }
}

/// Positions of the text items among the first `e` items, in order.
pub open spec fn text_positions(items: Seq<DrawItem>, e: int) -> Seq<usize>
    decreases e,
{
    if e <= 0 {
        Seq::empty()
    } else if is_geometry(items[e - 1]) {
        text_positions(items, e - 1)
    } else {
        text_positions(items, e - 1).push((e - 1) as usize)
    }
}

/// Positions of the frame's text items, in submission order: the items the
/// text layer draws after all geometry.
pub fn text_indices(cmds: &[DrawItem]) -> (r: Vec<usize>)
    ensures
        r@ == text_positions(cmds@, cmds@.len() as int),
{
    let mut r: Vec<usize> = Vec::new();
    let mut i: usize = 0;
    while i < cmds.len()
        invariant
            i <= cmds@.len(),
            r@ == text_positions(cmds@, i as int),
        decreases cmds.len() - i,
    {
        if cmds[i].is_text() {
            r.push(i);
        }
        i = i + 1;
    }
    r
}

proof fn lemma_vertices_before_monotonic(items: Seq<DrawItem>, gs: Seq<(int, int)>, a: int, b: int)
    requires
        0 <= a <= b,
    ensures
        vertices_before(items, gs, a) <= vertices_before(items, gs, b),
    decreases b - a,
{
    if a < b {
        lemma_vertices_before_monotonic(items, gs, a, b - 1);
    }
}

proof fn lemma_range_vertices_count(items: Seq<DrawItem>, s: int, e: int)
    ensures
        range_vertices(items, s, e).len() == 6 * range_geometry(items, s, e).len(),
    decreases e - s,
{
    if e > s {
        lemma_range_vertices_count(items, s, e - 1);
    }
}

proof fn lemma_ranges_geometry_push(items: Seq<DrawItem>, rs: Seq<(int, int)>, r: (int, int))
    ensures
        ranges_geometry(items, rs.push(r)) == ranges_geometry(items, rs) + range_geometry(items, r.0, r.1),
    decreases rs.len(),
{
    if rs.len() == 0 {
        assert(rs.push(r).drop_first() =~= Seq::<(int, int)>::empty());
        assert(rs.push(r)[0] == r);
        assert(ranges_geometry(items, Seq::<(int, int)>::empty()) == Seq::<DrawItem>::empty());
        assert(ranges_geometry(items, rs) == Seq::<DrawItem>::empty());
        assert(ranges_geometry(items, rs.push(r)) == range_geometry(items, r.0, r.1) + ranges_geometry(
            items,
            rs.push(r).drop_first(),
        ));
        assert(range_geometry(items, r.0, r.1) + Seq::<DrawItem>::empty() =~= range_geometry(items, r.0, r.1));
        assert(Seq::<DrawItem>::empty() + range_geometry(items, r.0, r.1) =~= range_geometry(items, r.0, r.1));
    } else {
        assert(rs.push(r).drop_first() =~= rs.drop_first().push(r));
        lemma_ranges_geometry_push(items, rs.drop_first(), r);
        assert(rs.push(r)[0] == rs[0]);
        let h = range_geometry(items, rs[0].0, rs[0].1);
        assert(h + (ranges_geometry(items, rs.drop_first()) + range_geometry(items, r.0, r.1)) =~= (h
            + ranges_geometry(items, rs.drop_first())) + range_geometry(items, r.0, r.1));
    }
}

proof fn lemma_vertices_before_count(items: Seq<DrawItem>, gs: Seq<(int, int)>, k: int)
    requires
        0 <= k <= gs.len(),
    ensures
        vertices_before(items, gs, k) == 6 * ranges_geometry(items, gs.take(k)).len(),
    decreases k,
{
    if k == 0 {
        assert(gs.take(0) =~= Seq::<(int, int)>::empty());
    } else {
        lemma_vertices_before_count(items, gs, k - 1);
        assert(gs.take(k) =~= gs.take(k - 1).push(gs[k - 1]));
        lemma_ranges_geometry_push(items, gs.take(k - 1), gs[k - 1]);
        lemma_range_vertices_count(items, gs[k - 1].0, gs[k - 1].1);
    }
}

/// The batches of a frame hold six vertices for each of its geometry items
/// and none for its text.
pub proof fn lemma_all_vertices_of_frame(items: Seq<DrawItem>)
    ensures
        vertices_before(items, frame_groups(items), frame_groups(items).len() as int) == 6
            * geometry_items(items).len(),
{
    let gs = frame_groups(items);
    lemma_vertices_before_count(items, gs, gs.len() as int);
    assert(gs.take(gs.len() as int) =~= gs);
    lemma_batches_partition_geometry(items);
}

/// When every batch of a frame fits in the vertex buffer, the item ranges of
/// the batches `draw` returns, concatenated in order, hold exactly the
/// frame's geometry items in their original order: none dropped, repeated
/// or moved.
pub proof fn lemma_complete_frame_keeps_geometry(items: Seq<DrawItem>, batches: Seq<Batch>)
    requires
        batches.len() == frame_groups(items).len(),
        forall|j: int|
            0 <= j < batches.len() ==> (#[trigger] batches[j]).start == frame_groups(items)[j].0
                && batches[j].end == frame_groups(items)[j].1,
    ensures
        ranges_geometry(items, batch_ranges(batches)) == geometry_items(items),
{
    assert(batch_ranges(batches) =~= frame_groups(items));
    lemma_batches_partition_geometry(items);
}

/// Twice the signed area of the triangle `(a, b, p)`.
pub open spec fn cross(a: Point, b: Point, px: int, py: int) -> int {
    (b.x - a.x) * (py - a.y) - (b.y - a.y) * (px - a.x)
}

/// Whether the point lies in the closed triangle `(a, b, c)`, of either winding.
pub open spec fn in_triangle(a: Point, b: Point, c: Point, px: int, py: int) -> bool {
    let d1 = cross(a, b, px, py);
    let d2 = cross(b, c, px, py);
    let d3 = cross(c, a, px, py);
    (d1 >= 0 && d2 >= 0 && d3 >= 0) || (d1 <= 0 && d2 <= 0 && d3 <= 0)
}

/// Whether the item paints the pixel whose top-left corner is `(px, py)`:
/// a rectangle paints the pixels of its box, a quad the points of its two
/// triangles; text paints nothing in the geometry layer.
pub open spec fn covers(item: DrawItem, px: int, py: int) -> bool {
    match item {
        DrawItem::Rect(c) => {
            let x2 = c.x + c.w;
            let y2 = c.y + c.h;
            &&& (c.x <= px < x2 || x2 <= px < c.x)
            &&& (c.y <= py < y2 || y2 <= py < c.y)
        },
        DrawItem::Quad(c) => {
            let p = c.positions@;
            in_triangle(p[0], p[1], p[2], px, py) || in_triangle(p[0], p[2], p[3], px, py)
        },
        DrawItem::Text(_) => false,
    }
}

pub open spec fn item_color(item: DrawItem) -> Rgba {
    match item {
        DrawItem::Rect(c) => c.color,
        DrawItem::Quad(c) => c.color,
        DrawItem::Text(t) => t.color,
    }
}

/// The color left on top at a pixel when `items` are painted in order, each
/// over the ones before it; `None` where none paints it.
pub open spec fn topmost(items: Seq<DrawItem>, px: int, py: int) -> Option<Rgba>
    decreases items.len(),
{
    if items.len() == 0 {
        None
    } else if covers(items.last(), px, py) {
        Some(item_color(items.last()))
    } else {
        topmost(items.drop_last(), px, py)
    }
}

proof fn lemma_topmost_latest(items: Seq<DrawItem>, e: int, k: int, px: int, py: int)
    requires
        0 <= k < e <= items.len(),
        covers(items[k], px, py),
        forall|j: int| k < j < e ==> !covers(#[trigger] items[j], px, py),
    ensures
        topmost(range_geometry(items, 0, e), px, py) == Some(item_color(items[k])),
    decreases e,
{
    let r = range_geometry(items, 0, e);
    if e - 1 == k {
        assert(is_geometry(items[k]));
        assert(r == range_geometry(items, 0, e - 1).push(items[k]));
        assert(r.drop_last() =~= range_geometry(items, 0, e - 1));
    } else {
        lemma_topmost_latest(items, e - 1, k, px, py);
        if is_geometry(items[e - 1]) {
            assert(r == range_geometry(items, 0, e - 1).push(items[e - 1]));
            assert(r.drop_last() =~= range_geometry(items, 0, e - 1));
        }
    }
}

/// Painter's order survives batching: when every batch fits, painting the
/// batches `draw` returns in order leaves on top, at any pixel, the color
/// of the latest item of the frame that paints that pixel.
pub proof fn lemma_batched_frame_paints_latest(
    items: Seq<DrawItem>,
    batches: Seq<Batch>,
    k: int,
    px: int,
    py: int,
)
    requires
        batches.len() == frame_groups(items).len(),
        forall|j: int|
            0 <= j < batches.len() ==> (#[trigger] batches[j]).start == frame_groups(items)[j].0
                && batches[j].end == frame_groups(items)[j].1,
        0 <= k < items.len(),
        covers(items[k], px, py),
        forall|j: int| k < j < items.len() ==> !covers(#[trigger] items[j], px, py),
    ensures
        topmost(ranges_geometry(items, batch_ranges(batches)), px, py) == Some(item_color(items[k])),
{
    lemma_complete_frame_keeps_geometry(items, batches);
    lemma_topmost_latest(items, items.len() as int, k, px, py);
}

} // verus!
