use pob_render::{
    scissor_rect, text_indices, Align, Batch, ClipRect, DrawCmd, DrawItem, DrawQuadCmd,
    FontFamily, Point, Renderer, Rgba, TexCoord, TextCmd, UvRect, Vertex, VERTEX_SIZE,
};

const FULL_UV: UvRect = UvRect { left: 0, top: 0, right: 65535, bottom: 65535 };

fn rgba(r: u8, g: u8, b: u8) -> Rgba {
    Rgba { r, g, b, a: 255 }
}

fn rect(x: i32, y: i32, w: i32, h: i32, texture_id: u32, clip: Option<ClipRect>, color: Rgba) -> DrawItem {
    DrawItem::Rect(DrawCmd { x, y, w, h, color, texture_id, uv: FULL_UV, clip })
}

fn text(s: &str) -> DrawItem {
    DrawItem::Text(TextCmd {
        x: 0,
        y: 0,
        size: 12,
        text: s.to_string(),
        color: rgba(255, 255, 255),
        align: Align::Left,
        font: FontFamily::SansSerif,
        clip: None,
    })
}

fn renderer(capacity_vertices: u32) -> Renderer<&'static str> {
    let mut r = Renderer::new("white", capacity_vertices);
    r.load_texture(1, "one");
    r.load_texture(2, "two");
    r
}

fn ranges(batches: &[Batch]) -> Vec<(usize, usize)> {
    batches.iter().map(|b| (b.start, b.end)).collect()
}

#[test]
fn overlapping_rects_keep_submission_order() {
    let mut r = renderer(1024);
    let items = vec![
        rect(0, 0, 10, 10, 1, None, rgba(255, 0, 0)),
        rect(5, 5, 10, 10, 1, None, rgba(0, 255, 0)),
        rect(8, 8, 10, 10, 1, None, rgba(0, 0, 255)),
    ];
    r.begin_frame();
    let batches = r.draw((100, 100), &items);
    assert_eq!(batches.len(), 1);
    let v = &batches[0].vertices;
    assert_eq!(v.len(), 18);
    // Later items come later in the stream, so they are drawn on top.
    assert!(v[0..6].iter().all(|x| x.color == rgba(255, 0, 0)));
    assert!(v[6..12].iter().all(|x| x.color == rgba(0, 255, 0)));
    assert!(v[12..18].iter().all(|x| x.color == rgba(0, 0, 255)));
    assert_eq!((v[12].x, v[12].y), (8, 8));
}

#[test]
fn batches_follow_texture_and_clip_changes() {
    let clip = Some(ClipRect { x: 1, y: 2, w: 3, h: 4 });
    let items = vec![
        rect(0, 0, 1, 1, 1, None, rgba(1, 1, 1)),
        rect(0, 0, 1, 1, 1, None, rgba(1, 1, 1)),
        rect(0, 0, 1, 1, 2, None, rgba(1, 1, 1)),
        rect(0, 0, 1, 1, 2, clip, rgba(1, 1, 1)),
        rect(0, 0, 1, 1, 2, clip, rgba(1, 1, 1)),
        rect(0, 0, 1, 1, 1, None, rgba(1, 1, 1)),
    ];
    let mut r = renderer(1024);
    let batches = r.draw((640, 480), &items);
    assert_eq!(ranges(&batches), vec![(0, 2), (2, 3), (3, 5), (5, 6)]);
    let textures: Vec<u32> = batches.iter().map(|b| b.texture_id).collect();
    assert_eq!(textures, vec![1, 2, 2, 1]);
    assert_eq!(batches[1].scissor, ClipRect { x: 0, y: 0, w: 640, h: 480 });
    assert_eq!(batches[2].scissor, ClipRect { x: 1, y: 2, w: 3, h: 4 });
    assert_eq!(batches[3].scissor, ClipRect { x: 0, y: 0, w: 640, h: 480 });
    let offsets: Vec<(u64, u32)> = batches.iter().map(|b| (b.byte_offset, b.first_vertex)).collect();
    assert_eq!(offsets, vec![(0, 0), (12 * 32, 12), (18 * 32, 18), (30 * 32, 30)]);
}

#[test]
fn text_items_do_not_break_batches() {
    let items = vec![
        text("lead"),
        rect(0, 0, 1, 1, 1, None, rgba(1, 1, 1)),
        text("middle"),
        rect(0, 0, 1, 1, 1, None, rgba(1, 1, 1)),
        text("between"),
        rect(0, 0, 1, 1, 2, None, rgba(1, 1, 1)),
        text("tail"),
    ];
    let mut r = renderer(1024);
    let batches = r.draw((10, 10), &items);
    assert_eq!(ranges(&batches), vec![(0, 5), (5, 7)]);
    assert_eq!(batches[0].vertices.len(), 12);
    assert_eq!(batches[1].vertices.len(), 6);
    assert_eq!(text_indices(&items), vec![0, 2, 4, 6]);
}

#[test]
fn concatenated_ranges_hold_all_geometry_in_order() {
    let clip = Some(ClipRect { x: 0, y: 0, w: 5, h: 5 });
    let items = vec![
        rect(1, 0, 1, 1, 1, None, rgba(1, 1, 1)),
        text("t"),
        rect(2, 0, 1, 1, 2, None, rgba(1, 1, 1)),
        rect(3, 0, 1, 1, 2, clip, rgba(1, 1, 1)),
        text("u"),
        rect(4, 0, 1, 1, 2, clip, rgba(1, 1, 1)),
        rect(5, 0, 1, 1, 0, clip, rgba(1, 1, 1)),
    ];
    let mut r = renderer(1024);
    let batches = r.draw((10, 10), &items);
    let mut xs = Vec::new();
    for b in &batches {
        for item in &items[b.start..b.end] {
            if let DrawItem::Rect(c) = item {
                xs.push(c.x);
            }
        }
    }
    assert_eq!(xs, vec![1, 2, 3, 4, 5]);
    let streamed: Vec<i64> = batches.iter().flat_map(|b| b.vertices.iter().step_by(6).map(|v| v.x)).collect();
    assert_eq!(streamed, vec![1, 2, 3, 4, 5]);
}

#[test]
fn only_text_gives_no_batches() {
    let mut r = renderer(16);
    assert!(r.draw((10, 10), &[text("a"), text("b")]).is_empty());
    assert!(r.draw((10, 10), &[]).is_empty());
    assert_eq!(r.frame.cursor_bytes(), 0);
}

#[test]
fn overflowing_batch_is_dropped() {
    // Room for exactly 12 vertices; three single-rect batches need 18.
    let mut r = renderer(12);
    let items = vec![
        rect(0, 0, 1, 1, 1, None, rgba(1, 1, 1)),
        rect(0, 0, 1, 1, 2, None, rgba(1, 1, 1)),
        rect(0, 0, 1, 1, 1, None, rgba(1, 1, 1)),
    ];
    r.begin_frame();
    let batches = r.draw((10, 10), &items);
    assert_eq!(ranges(&batches), vec![(0, 1), (1, 2)]);
    assert!(batches.iter().all(|b| b.vertices.len() == 6));
    assert_eq!(r.frame.cursor_bytes(), 12 * VERTEX_SIZE);
    // The next frame starts over with the whole buffer.
    r.begin_frame();
    let again = r.draw((10, 10), &items[0..2]);
    assert_eq!(ranges(&again), vec![(0, 1), (1, 2)]);
}

#[test]
fn overflow_drops_later_batches_too() {
    let mut r = renderer(12);
    let items = vec![
        rect(0, 0, 1, 1, 1, None, rgba(1, 1, 1)),
        rect(0, 0, 1, 1, 1, None, rgba(1, 1, 1)),
        rect(0, 0, 1, 1, 1, None, rgba(1, 1, 1)),
        rect(0, 0, 1, 1, 2, None, rgba(1, 1, 1)),
    ];
    let batches = r.draw((10, 10), &items);
    assert!(batches.is_empty());
    assert_eq!(r.frame.cursor_bytes(), 0);
}

#[test]
fn unknown_texture_resolves_to_fallback() {
    let mut r = renderer(64);
    let batches = r.draw((10, 10), &[rect(0, 0, 1, 1, 999, None, rgba(1, 1, 1))]);
    assert_eq!(batches[0].texture_id, 0);
    assert_eq!(*r.textures.resolve(batches[0].texture_id), "white");
}

#[test]
fn clip_sizes_are_raised_to_one() {
    let zero = ClipRect { x: 3, y: 4, w: 0, h: 0 };
    assert_eq!(scissor_rect(Some(zero), (10, 10)), ClipRect { x: 3, y: 4, w: 1, h: 1 });
    assert_eq!(scissor_rect(None, (7, 9)), ClipRect { x: 0, y: 0, w: 7, h: 9 });
}

#[test]
fn rect_vertices_follow_uv_rect() {
    let flipped = UvRect { left: 10, top: 60000, right: 20, bottom: 5 };
    let item = DrawItem::Rect(DrawCmd {
        x: -2,
        y: 3,
        w: 10,
        h: 20,
        color: rgba(9, 8, 7),
        texture_id: 0,
        uv: flipped,
        clip: None,
    });
    let mut r = renderer(64);
    let batches = r.draw((10, 10), &[item]);
    let c = rgba(9, 8, 7);
    let tl = Vertex { x: -2, y: 3, u: 10, v: 60000, color: c };
    let tr = Vertex { x: 8, y: 3, u: 20, v: 60000, color: c };
    let bl = Vertex { x: -2, y: 23, u: 10, v: 5, color: c };
    let br = Vertex { x: 8, y: 23, u: 20, v: 5, color: c };
    assert_eq!(batches[0].vertices, vec![tl, tr, bl, tr, br, bl]);
}

#[test]
fn quad_vertices_use_fixed_index_order() {
    let p = [Point { x: 0, y: 0 }, Point { x: 5, y: 0 }, Point { x: 5, y: 5 }, Point { x: 0, y: 6 }];
    let t = [TexCoord { u: 0, v: 1 }, TexCoord { u: 2, v: 3 }, TexCoord { u: 4, v: 5 }, TexCoord { u: 6, v: 7 }];
    let item = DrawItem::Quad(DrawQuadCmd { texture_id: 2, color: rgba(1, 2, 3), clip: None, positions: p, uvs: t });
    let mut r = renderer(64);
    let batches = r.draw((10, 10), &[item]);
    let corner = |k: usize| Vertex { x: p[k].x as i64, y: p[k].y as i64, u: t[k].u, v: t[k].v, color: rgba(1, 2, 3) };
    assert_eq!(batches[0].vertices, vec![corner(0), corner(1), corner(2), corner(0), corner(2), corner(3)]);
    assert_eq!(batches[0].texture_id, 2);
}
