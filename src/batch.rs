use vstd::prelude::*;

use crate::geometry::{
    is_geometry, item_clip, item_texture, item_vertices, same_clip, ClipRect, DrawItem, Vertex,
};

verus! {

/// Index of the first geometry item at or after `i`, or the length if none.
pub open spec fn first_geometry(items: Seq<DrawItem>, i: int) -> int
    decreases items.len() - i,
{
    if i < 0 || i >= items.len() {
        items.len() as int
    } else if is_geometry(items[i]) {
        i
    } else {
        first_geometry(items, i + 1)
    }
}

/// Whether `item` continues a run keyed by `(texture, clip)`: text always
/// does, geometry only with an equal texture and an equal clip.
pub open spec fn extends_run(item: DrawItem, texture: u32, clip: Option<ClipRect>) -> bool {
    !is_geometry(item) || (item_texture(item) == texture && item_clip(item) == clip)
}

/// Where the run keyed by `(texture, clip)` that goes on at `j` ends.
pub open spec fn run_end(items: Seq<DrawItem>, texture: u32, clip: Option<ClipRect>, j: int) -> int
    decreases items.len() - j,
{
    if j < 0 || j >= items.len() {
        items.len() as int
    } else if extends_run(items[j], texture, clip) {
        run_end(items, texture, clip, j + 1)
    } else {
        j
    }
}

/// Texture that keys the batch starting at `s`: that of its first geometry item.
pub open spec fn group_texture(items: Seq<DrawItem>, s: int) -> u32 {
    item_texture(items[first_geometry(items, s)])
}

/// Clip that keys the batch starting at `s`.
pub open spec fn group_clip(items: Seq<DrawItem>, s: int) -> Option<ClipRect> {
    item_clip(items[first_geometry(items, s)])
}

/// Item ranges `[start, end)` of the batches from position `i` on. A batch
/// starts where the previous one ended, is keyed by its first geometry item,
/// and runs while the items are text or share that key. Text after the last
/// geometry item belongs to the last batch; with no geometry left, no batch.
pub open spec fn groups_from(items: Seq<DrawItem>, i: int) -> Seq<(int, int)>
    decreases items.len() - i,
    via groups_from_decreases
{
    if i < 0 || first_geometry(items, i) >= items.len() {
        Seq::empty()
    } else {
        let g = first_geometry(items, i);
        let e = run_end(items, item_texture(items[g]), item_clip(items[g]), g + 1);
        seq![(i, e)] + groups_from(items, e)
    }
}

#[via_fn]
proof fn groups_from_decreases(items: Seq<DrawItem>, i: int) {
    if i >= 0 && first_geometry(items, i) < items.len() {
        let g = first_geometry(items, i);
        lemma_first_geometry_bounds(items, i);
        lemma_run_end_bounds(items, item_texture(items[g]), item_clip(items[g]), g + 1);
    }
}

/// The batches of a frame.
pub open spec fn frame_groups(items: Seq<DrawItem>) -> Seq<(int, int)> {
    groups_from(items, 0)
}

/// Vertices of the items in `[s, e)`, in order.
pub open spec fn range_vertices(items: Seq<DrawItem>, s: int, e: int) -> Seq<Vertex>
    decreases e - s,
{
    if e <= s {
        Seq::empty()
    } else {
        range_vertices(items, s, e - 1) + item_vertices(items[e - 1])
    }
}

/// Geometry items in `[s, e)`, in order.
pub open spec fn range_geometry(items: Seq<DrawItem>, s: int, e: int) -> Seq<DrawItem>
    decreases e - s,
{
    if e <= s {
        Seq::empty()
    } else if is_geometry(items[e - 1]) {
        range_geometry(items, s, e - 1).push(items[e - 1])
    } else {
        range_geometry(items, s, e - 1)
    }
}

/// All geometry items of a frame, in order.
pub open spec fn geometry_items(items: Seq<DrawItem>) -> Seq<DrawItem> {
    range_geometry(items, 0, items.len() as int)
}

/// Geometry items of the given ranges, concatenated in range order.
pub open spec fn ranges_geometry(items: Seq<DrawItem>, ranges: Seq<(int, int)>) -> Seq<DrawItem>
    decreases ranges.len(),
{
    if ranges.len() == 0 {
        Seq::empty()
    } else {
        range_geometry(items, ranges[0].0, ranges[0].1) + ranges_geometry(items, ranges.drop_first())
    }
}

pub proof fn lemma_first_geometry_bounds(items: Seq<DrawItem>, i: int)
    requires
        0 <= i,
    ensures
        i <= first_geometry(items, i) <= items.len() || i > items.len(),
        first_geometry(items, i) < items.len() ==> is_geometry(items[first_geometry(items, i)]),
        forall|k: int| i <= k < first_geometry(items, i) ==> !is_geometry(#[trigger] items[k]),
    decreases items.len() - i,
{
    if i < items.len() && !is_geometry(items[i]) {
        lemma_first_geometry_bounds(items, i + 1);
    }
}

pub proof fn lemma_run_end_bounds(items: Seq<DrawItem>, texture: u32, clip: Option<ClipRect>, j: int)
    requires
        0 <= j,
    ensures
        j <= items.len() ==> j <= run_end(items, texture, clip, j) <= items.len(),
        forall|k: int|
            j <= k < run_end(items, texture, clip, j) ==> extends_run(#[trigger] items[k], texture, clip),
        run_end(items, texture, clip, j) < items.len() ==> !extends_run(
            items[run_end(items, texture, clip, j)],
            texture,
            clip,
        ),
    decreases items.len() - j,
{
    if j < items.len() && extends_run(items[j], texture, clip) {
        lemma_run_end_bounds(items, texture, clip, j + 1);
    }
}

/// Each batch of `groups_from(items, i)` is a non-empty range that starts
/// where the previous one ended; the first starts at `i`.
pub proof fn lemma_groups_shape(items: Seq<DrawItem>, i: int)
    requires
        0 <= i <= items.len(),
    ensures
        ({
            let gs = groups_from(items, i);
            &&& forall|j: int| 0 <= j < gs.len() ==> i <= #[trigger] gs[j].0 < gs[j].1 <= items.len()
            &&& gs.len() > 0 ==> gs[0].0 == i
            &&& forall|j: int| 0 < j < gs.len() ==> #[trigger] gs[j].0 == gs[j - 1].1
        }),
    decreases items.len() - i,
{
    if first_geometry(items, i) < items.len() {
        let g = first_geometry(items, i);
        lemma_first_geometry_bounds(items, i);
        lemma_run_end_bounds(items, item_texture(items[g]), item_clip(items[g]), g + 1);
        let e = run_end(items, item_texture(items[g]), item_clip(items[g]), g + 1);
        lemma_groups_shape(items, e);
        let gs = groups_from(items, i);
        let rest = groups_from(items, e);
        assert(gs == seq![(i, e)] + rest);
        assert forall|j: int| 0 < j < gs.len() implies #[trigger] gs[j].0 == gs[j - 1].1 by {
            if j > 1 {
                assert(gs[j] == rest[j - 1]);
                assert(gs[j - 1] == rest[j - 2]);
            }
        }
        assert forall|j: int| 0 <= j < gs.len() implies i <= #[trigger] gs[j].0 < gs[j].1 <= items.len() by {
            if j > 0 {
                assert(gs[j] == rest[j - 1]);
            }
        }
    }
}

proof fn lemma_range_geometry_split(items: Seq<DrawItem>, s: int, m: int, e: int)
    requires
        s <= m <= e,
    ensures
        range_geometry(items, s, e) == range_geometry(items, s, m) + range_geometry(items, m, e),
    decreases e - m,
{
    if e > m {
        lemma_range_geometry_split(items, s, m, e - 1);
        if is_geometry(items[e - 1]) {
            assert(range_geometry(items, s, e) =~= range_geometry(items, s, m) + range_geometry(
                items,
                m,
                e,
            ));
        }
    } else {
        assert(range_geometry(items, s, m) + Seq::<DrawItem>::empty() =~= range_geometry(items, s, m));
    }
}

proof fn lemma_range_geometry_all_text(items: Seq<DrawItem>, s: int, e: int)
    requires
        forall|k: int| s <= k < e ==> !is_geometry(#[trigger] items[k]),
    ensures
        range_geometry(items, s, e) == Seq::<DrawItem>::empty(),
    decreases e - s,
{
    if e > s {
        lemma_range_geometry_all_text(items, s, e - 1);
    }
}

proof fn lemma_groups_geometry_from(items: Seq<DrawItem>, i: int)
    requires
        0 <= i <= items.len(),
    ensures
        ranges_geometry(items, groups_from(items, i)) == range_geometry(items, i, items.len() as int),
    decreases items.len() - i,
{
    lemma_first_geometry_bounds(items, i);
    let g = first_geometry(items, i);
    if g >= items.len() {
        lemma_range_geometry_all_text(items, i, items.len() as int);
    } else {
        lemma_run_end_bounds(items, item_texture(items[g]), item_clip(items[g]), g + 1);
        let e = run_end(items, item_texture(items[g]), item_clip(items[g]), g + 1);
        let gs = groups_from(items, i);
        lemma_groups_geometry_from(items, e);
        assert(gs.drop_first() =~= groups_from(items, e));
        lemma_range_geometry_split(items, i, e, items.len() as int);
    }
}

/// Taken in order, the batches of a frame hold exactly its geometry items:
/// none dropped, none repeated, none moved.
pub proof fn lemma_batches_partition_geometry(items: Seq<DrawItem>)
    ensures
        ranges_geometry(items, frame_groups(items)) == geometry_items(items),
{
    lemma_groups_geometry_from(items, 0);
}

/// `[s, e)` holds a geometry item, and every geometry item in it has the
/// texture and clip of the first one.
pub open spec fn is_keyed_run(items: Seq<DrawItem>, s: int, e: int) -> bool {
    &&& s <= first_geometry(items, s) < e
    &&& forall|k: int|
        s <= k < e && is_geometry(#[trigger] items[k]) ==> item_texture(items[k]) == group_texture(
            items,
            s,
        ) && item_clip(items[k]) == group_clip(items, s)
}

proof fn lemma_groups_keys(items: Seq<DrawItem>, i: int)
    requires
        0 <= i <= items.len(),
    ensures
        ({
            let gs = groups_from(items, i);
            &&& forall|j: int| 0 <= j < gs.len() ==> is_keyed_run(items, #[trigger] gs[j].0, gs[j].1)
            &&& forall|j: int|
                0 <= j < gs.len() - 1 ==> (group_texture(items, #[trigger] gs[j].0), group_clip(
                    items,
                    gs[j].0,
                )) != (group_texture(items, gs[j + 1].0), group_clip(items, gs[j + 1].0))
            &&& gs.len() > 0 ==> gs.last().1 == items.len()
        }),
    decreases items.len() - i,
{
    lemma_first_geometry_bounds(items, i);
    let g = first_geometry(items, i);
    if g < items.len() {
        let texture = item_texture(items[g]);
        let clip = item_clip(items[g]);
        lemma_run_end_bounds(items, texture, clip, g + 1);
        let e = run_end(items, texture, clip, g + 1);
        lemma_groups_keys(items, e);
        lemma_groups_shape(items, e);
        lemma_first_geometry_bounds(items, e);
        let gs = groups_from(items, i);
        let rest = groups_from(items, e);
        assert(gs == seq![(i, e)] + rest);
        assert(is_keyed_run(items, i, e));
        if e < items.len() {
            assert(first_geometry(items, e) == e);
            assert(rest.len() > 0);
            assert(rest[0].0 == e);
        }
        assert forall|j: int| 0 <= j < gs.len() implies is_keyed_run(items, #[trigger] gs[j].0, gs[j].1) by {
            if j > 0 {
                assert(gs[j] == rest[j - 1]);
            }
        }
        assert forall|j: int| 0 <= j < gs.len() - 1 implies (group_texture(
            items,
            #[trigger] gs[j].0,
        ), group_clip(items, gs[j].0)) != (group_texture(items, gs[j + 1].0), group_clip(
            items,
            gs[j + 1].0,
        )) by {
            if j > 0 {
                assert(gs[j] == rest[j - 1]);
                assert(gs[j + 1] == rest[j]);
            } else {
                assert(gs[1] == rest[0]);
            }
        }
        if rest.len() == 0 {
            assert(e == items.len());
        } else {
            assert(gs.last() == rest.last());
        }
    }
}

/// The batching rule, stated of the batches of a frame: they start at 0,
/// each starts where the previous one ended, and the last ends at the
/// frame's end; each holds a geometry item, and all its geometry items share
/// the texture and clip of the first; two neighbouring batches never share
/// both, so no batch could be longer.
pub proof fn lemma_batches_are_maximal_runs(items: Seq<DrawItem>)
    ensures
        ({
            let gs = frame_groups(items);
            &&& gs.len() > 0 ==> gs[0].0 == 0 && gs.last().1 == items.len()
            &&& forall|j: int| 0 < j < gs.len() ==> #[trigger] gs[j].0 == gs[j - 1].1
            &&& forall|j: int| 0 <= j < gs.len() ==> is_keyed_run(items, #[trigger] gs[j].0, gs[j].1)
            &&& forall|j: int|
                0 <= j < gs.len() - 1 ==> (group_texture(items, #[trigger] gs[j].0), group_clip(
                    items,
                    gs[j].0,
                )) != (group_texture(items, gs[j + 1].0), group_clip(items, gs[j + 1].0))
        }),
{
    lemma_groups_shape(items, 0);
    lemma_groups_keys(items, 0);
}

proof fn lemma_range_vertices_len(items: Seq<DrawItem>, s: int, g: int, e: int)
    requires
        s <= g < e,
        is_geometry(items[g]),
    ensures
        range_vertices(items, s, e).len() >= 6,
    decreases e - s,
{
    if e - 1 > g {
        lemma_range_vertices_len(items, s, g, e - 1);
    }
}

/// Every batch of a frame has vertices: it holds at least one geometry item,
/// which gives six.
pub proof fn lemma_batches_have_vertices(items: Seq<DrawItem>)
    ensures
        forall|j: int|
            0 <= j < frame_groups(items).len() ==> range_vertices(
                items,
                #[trigger] frame_groups(items)[j].0,
                frame_groups(items)[j].1,
            ).len() >= 6,
{
    let gs = frame_groups(items);
    lemma_groups_shape(items, 0);
    lemma_groups_keys(items, 0);
    assert forall|j: int| 0 <= j < gs.len() implies range_vertices(
        items,
        #[trigger] gs[j].0,
        gs[j].1,
    ).len() >= 6 by {
        assert(is_keyed_run(items, gs[j].0, gs[j].1));
        lemma_first_geometry_bounds(items, gs[j].0);
        lemma_range_vertices_len(items, gs[j].0, first_geometry(items, gs[j].0), gs[j].1);
    }
}

/// For the batch that starts at `i`: the index of its first geometry item,
/// which keys it, and its end. `None` when no geometry item is left from `i` on.
pub fn next_group(items: &[DrawItem], i: usize) -> (r: Option<(usize, usize)>)
    requires
        i <= items@.len(),
    ensures
        match r {
            None => groups_from(items@, i as int) == Seq::<(int, int)>::empty(),
            Some((g, e)) => {
                &&& i <= g < e <= items@.len()
                &&& g == first_geometry(items@, i as int)
                &&& groups_from(items@, i as int) == seq![(i as int, e as int)] + groups_from(
                    items@,
                    e as int,
                )
            },
        },
{
    let n = items.len();
    let mut g = i;
    while g < n && items[g].is_text()
        invariant
            i <= g <= n,
            n == items@.len(),
            first_geometry(items@, i as int) == first_geometry(items@, g as int),
        decreases n - g,
    {
        g = g + 1;
    }
    if g == n {
        None
    } else {
        let texture = items[g].texture_id();
        let clip = items[g].clip();
        let mut e = g + 1;
        while e < n && (items[e].is_text() || (items[e].texture_id() == texture && same_clip(
            items[e].clip(),
            clip,
        )))
            invariant
                g < e <= n,
                n == items@.len(),
                run_end(items@, texture, clip, (g + 1) as int) == run_end(items@, texture, clip, e as int),
            decreases n - e,
        {
            e = e + 1;
        }
        proof {
            lemma_first_geometry_bounds(items@, i as int);
        }
        Some((g, e))
    }
}

} // verus!
