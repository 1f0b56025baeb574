use pob_render::{
    Align, ClipRect, DrawItem, DrawState, FontFamily, FrameQueue, Key, Rgba, TextureUploadCmd,
    UvRect,
};

#[test]
fn draw_state_applies_color_and_viewport() {
    let mut s = DrawState::new();
    assert_eq!(s.color, Rgba { r: 255, g: 255, b: 255, a: 255 });
    assert_eq!(s.viewport, None);
    s.set_draw_color(Rgba { r: 1, g: 2, b: 3, a: 4 });
    s.set_viewport(Some(ClipRect { x: 1, y: 1, w: 2, h: 2 }));
    let uv = UvRect { left: 0, top: 0, right: 1, bottom: 1 };
    match s.image(7, 1, 2, 3, 4, uv) {
        DrawItem::Rect(c) => {
            assert_eq!(c.color, Rgba { r: 1, g: 2, b: 3, a: 4 });
            assert_eq!(c.clip, Some(ClipRect { x: 1, y: 1, w: 2, h: 2 }));
            assert_eq!((c.x, c.y, c.w, c.h, c.texture_id), (1, 2, 3, 4, 7));
        }
        _ => panic!("expected a rectangle"),
    }
    s.set_viewport(None);
    match s.string(5, 6, Align::Right, 14, FontFamily::Monospace, "^2x".to_string()) {
        DrawItem::Text(t) => {
            assert_eq!(t.text, "^2x");
            assert_eq!(t.clip, None);
            assert_eq!(t.align, Align::Right);
        }
        _ => panic!("expected text"),
    }
}

#[test]
fn queue_drains_in_order_once() {
    let mut q = FrameQueue::new();
    let s = DrawState::new();
    let uv = UvRect { left: 0, top: 0, right: 0, bottom: 0 };
    q.submit(s.image(1, 0, 0, 1, 1, uv));
    q.submit(s.image(2, 0, 0, 1, 1, uv));
    q.register_texture(TextureUploadCmd { id: 1, rgba: vec![0; 4], width: 1, height: 1 });
    let input = q.drain();
    let ids: Vec<u32> = input
        .items
        .iter()
        .map(|i| match i {
            DrawItem::Rect(c) => c.texture_id,
            _ => 0,
        })
        .collect();
    assert_eq!(ids, vec![1, 2]);
    assert_eq!(input.uploads.len(), 1);
    let again = q.drain();
    assert!(again.items.is_empty() && again.uploads.is_empty());
}

#[test]
fn key_names() {
    assert_eq!(Key::Escape.pob_key_name(), "ESCAPE");
    assert_eq!(Key::Enter.pob_key_name(), "RETURN");
    assert_eq!(Key::Backspace.pob_key_name(), "BACK");
    assert_eq!(Key::PageDown.pob_key_name(), "PGDN");
    assert_eq!(Key::Ctrl.pob_key_name(), "CTRL");
    assert_eq!(Key::F12.pob_key_name(), "F12");
    assert_eq!(Key::WheelDown.pob_key_name(), "WHEELDOWN");
    assert_eq!(Key::LeftButton.pob_key_name(), "LEFTBUTTON");
}
