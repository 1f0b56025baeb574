use vstd::prelude::*;

use crate::color::Rgba;
use crate::geometry::{ClipRect, DrawCmd, DrawItem, DrawQuadCmd, Point, TexCoord, UvRect};
use crate::text::{Align, FontFamily, TextCmd};
use crate::textures::TextureUploadCmd;

verus! {

/// Draw state the host sets between draw calls: the color and the viewport
/// (clip) that the next commands take.
#[derive(Clone, Copy, PartialEq, Eq, Debug, Structural)]
pub struct DrawState {
    pub color: Rgba,
    pub viewport: Option<ClipRect>,
}

impl DrawState {
    /// Opaque white, no viewport.
    pub fn new() -> (s: DrawState)
        ensures
            s.color == Rgba::spec_new(255, 255, 255, 255),
            s.viewport == None::<ClipRect>,
    {
        DrawState { color: Rgba::new(255, 255, 255, 255), viewport: None }
    }

    pub fn set_draw_color(&mut self, color: Rgba)
        ensures
            *final(self) == (DrawState { color, ..*old(self) }),
    {
        self.color = color;
    }

    /// Sets the clip of later commands; `None` draws to the whole screen.
    pub fn set_viewport(&mut self, viewport: Option<ClipRect>)
        ensures
            *final(self) == (DrawState { viewport, ..*old(self) }),
    {
        self.viewport = viewport;
    }

    /// A rectangle in the current color and viewport.
    pub fn image(&self, texture_id: u32, x: i32, y: i32, w: i32, h: i32, uv: UvRect) -> (item: DrawItem)
        ensures
            item == DrawItem::Rect(
                DrawCmd { x, y, w, h, color: self.color, texture_id, uv, clip: self.viewport },
            ),
    {
        DrawItem::Rect(DrawCmd { x, y, w, h, color: self.color, texture_id, uv, clip: self.viewport })
    }

    /// A quad in the current color and viewport.
    pub fn image_quad(&self, texture_id: u32, positions: [Point; 4], uvs: [TexCoord; 4]) -> (item: DrawItem)
        ensures
            item == DrawItem::Quad(
                DrawQuadCmd { texture_id, color: self.color, clip: self.viewport, positions, uvs },
            ),
    {
        DrawItem::Quad(DrawQuadCmd { texture_id, color: self.color, clip: self.viewport, positions, uvs })
    }

    /// A text item in the current color and viewport; `text` keeps its markup.
    pub fn string(
        &self,
        x: i32,
        y: i32,
        align: Align,
        size: u32,
        font: FontFamily,
        text: String,
    ) -> (item: DrawItem)
        ensures
            item == DrawItem::Text(
                TextCmd { x, y, size, text, color: self.color, align, font, clip: self.viewport },
            ),
    {
        DrawItem::Text(TextCmd { x, y, size, text, color: self.color, align, font, clip: self.viewport })
    }
}

/// What the host queued for one frame.
pub struct FrameInput {
    pub items: Vec<DrawItem>,
    pub uploads: Vec<TextureUploadCmd>,
}

/// The queue between the host and the renderer: commands and texture
/// uploads in submission order, taken out whole once per frame.
pub struct FrameQueue {
    pub items: Vec<DrawItem>,
    pub uploads: Vec<TextureUploadCmd>,
}

impl FrameQueue {
    pub fn new() -> (q: FrameQueue)
        ensures
            q.items@ == Seq::<DrawItem>::empty(),
            q.uploads@ == Seq::<TextureUploadCmd>::empty(),
    {
        FrameQueue { items: Vec::new(), uploads: Vec::new() }
    }

    /// Appends a draw command.
    pub fn submit(&mut self, item: DrawItem)
        ensures
            final(self).items@ == old(self).items@.push(item),
            final(self).uploads@ == old(self).uploads@,
    {
        self.items.push(item);
    }

    /// Appends a texture upload, applied before the next frame's geometry.
    pub fn register_texture(&mut self, upload: TextureUploadCmd)
        ensures
            final(self).uploads@ == old(self).uploads@.push(upload),
            final(self).items@ == old(self).items@,
    {
        self.uploads.push(upload);
    }

    /// Takes everything queued so far, in order, and leaves the queue empty.
    pub fn drain(&mut self) -> (input: FrameInput)
        ensures
            input.items@ == old(self).items@,
            input.uploads@ == old(self).uploads@,
            final(self).items@ == Seq::<DrawItem>::empty(),
            final(self).uploads@ == Seq::<TextureUploadCmd>::empty(),
    {
        let mut items: Vec<DrawItem> = Vec::new();
        let mut uploads: Vec<TextureUploadCmd> = Vec::new();
        std::mem::swap(&mut items, &mut self.items);
        std::mem::swap(&mut uploads, &mut self.uploads);
        FrameInput { items, uploads }
    }
}

/// Hands out texture ids 1, 2, 3, ... in turn; 0 is never handed out.
pub struct TextureIds {
    next: u32,
}

impl TextureIds {
    /// The id the next call of `allocate` hands out, if any is left.
    pub closed spec fn next(&self) -> nat {
        self.next as nat
    }

    pub fn new() -> (ids: TextureIds)
        ensures
            ids.next() == 1,
    {
        TextureIds { next: 1 }
    }

    /// The next id, or `None` once every id up to `u32::MAX` was handed out.
    /// `next()` is 0 after the last one.
    pub fn allocate(&mut self) -> (id: Option<u32>)
        ensures
            old(self).next() >= 1 ==> id == Some(old(self).next() as u32) && final(self).next() == (
            if old(self).next() == u32::MAX {
                0
            } else {
                old(self).next() + 1
            }),
            old(self).next() == 0 ==> id == None::<u32> && final(self).next() == 0,
    {
        if self.next == 0 {
            None
        } else {
            let id = self.next;
            self.next = if id == u32::MAX {
                0
            } else {
                id + 1
            };
            Some(id)
        }
    }
}

/// A key or mouse input the host knows by name.
#[derive(Clone, Copy, PartialEq, Eq, Debug, Structural)]
pub enum Key {
    Escape,
    Enter,
    Backspace,
    Delete,
    Tab,
    Space,
    ArrowLeft,
    ArrowRight,
    ArrowUp,
    ArrowDown,
    Home,
    End,
    PageUp,
    PageDown,
    Insert,
    Shift,
    Ctrl,
    Alt,
    F1,
    F2,
    F3,
    F4,
    F5,
    F6,
    F7,
    F8,
    F9,
    F10,
    F11,
    F12,
    LeftButton,
    RightButton,
    MiddleButton,
    WheelUp,
    WheelDown,
}

/// The name the host gives each input.
pub open spec fn key_label(k: Key) -> Seq<char> {
    match k {
        Key::Escape => "ESCAPE"@,
        Key::Enter => "RETURN"@,
        Key::Backspace => "BACK"@,
        Key::Delete => "DELETE"@,
        Key::Tab => "TAB"@,
        Key::Space => "SPACE"@,
        Key::ArrowLeft => "LEFT"@,
        Key::ArrowRight => "RIGHT"@,
        Key::ArrowUp => "UP"@,
        Key::ArrowDown => "DOWN"@,
        Key::Home => "HOME"@,
        Key::End => "END"@,
        Key::PageUp => "PGUP"@,
        Key::PageDown => "PGDN"@,
        Key::Insert => "INSERT"@,
        Key::Shift => "SHIFT"@,
        Key::Ctrl => "CTRL"@,
        Key::Alt => "ALT"@,
        Key::F1 => "F1"@,
        Key::F2 => "F2"@,
        Key::F3 => "F3"@,
        Key::F4 => "F4"@,
        Key::F5 => "F5"@,
        Key::F6 => "F6"@,
        Key::F7 => "F7"@,
        Key::F8 => "F8"@,
        Key::F9 => "F9"@,
        Key::F10 => "F10"@,
        Key::F11 => "F11"@,
        Key::F12 => "F12"@,
        Key::LeftButton => "LEFTBUTTON"@,
        Key::RightButton => "RIGHTBUTTON"@,
        Key::MiddleButton => "MIDDLEBUTTON"@,
        Key::WheelUp => "WHEELUP"@,
        Key::WheelDown => "WHEELDOWN"@,
    }
}

impl Key {
    /// The host's name of the input.
    pub fn pob_key_name(&self) -> (r: &'static str)
        ensures
            r@ == key_label(*self),
    {
        match self {
            Key::Escape => "ESCAPE",
            Key::Enter => "RETURN",
            Key::Backspace => "BACK",
            Key::Delete => "DELETE",
            Key::Tab => "TAB",
            Key::Space => "SPACE",
            Key::ArrowLeft => "LEFT",
            Key::ArrowRight => "RIGHT",
            Key::ArrowUp => "UP",
            Key::ArrowDown => "DOWN",
            Key::Home => "HOME",
            Key::End => "END",
            Key::PageUp => "PGUP",
            Key::PageDown => "PGDN",
            Key::Insert => "INSERT",
            Key::Shift => "SHIFT",
            Key::Ctrl => "CTRL",
            Key::Alt => "ALT",
            Key::F1 => "F1",
            Key::F2 => "F2",
            Key::F3 => "F3",
            Key::F4 => "F4",
            Key::F5 => "F5",
            Key::F6 => "F6",
            Key::F7 => "F7",
            Key::F8 => "F8",
            Key::F9 => "F9",
            Key::F10 => "F10",
            Key::F11 => "F11",
            Key::F12 => "F12",
            Key::LeftButton => "LEFTBUTTON",
            Key::RightButton => "RIGHTBUTTON",
            Key::MiddleButton => "MIDDLEBUTTON",
            Key::WheelUp => "WHEELUP",
            Key::WheelDown => "WHEELDOWN",
        }
    }
}

} // verus!
