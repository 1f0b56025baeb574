//! Core of an immediate-mode 2D renderer: the draw-command data model,
//! batching by texture and clip, geometry expansion, per-frame vertex
//! allocation, a texture registry with a white fallback, inline color markup
//! and text placement, the host-facing draw state and frame queue, and the
//! deflate streams the host packs its text in.

pub mod batch;
pub mod codec;
pub mod color;
pub mod frame;
pub mod geometry;
pub mod host;
pub mod markup;
pub mod renderer;
pub mod text;
pub mod textures;

pub use color::{pob_digit_color, Rgba};
pub use frame::{FrameAllocator, VERTEX_SIZE};
pub use geometry::{
    same_clip, ClipRect, DrawCmd, DrawItem, DrawQuadCmd, Point, TexCoord, UvRect, Vertex,
};
pub use host::{DrawState, FrameInput, FrameQueue, Key, TextureIds};
pub use markup::{parse_color_spans, strip_pob_escapes, ColorSpan};
pub use renderer::{scissor_rect, text_indices, Batch, Renderer};
pub use text::{
    measured_width, place_text, text_bounds, text_cursor_index, text_left, Align, FontFamily,
    GlyphBox, TextBounds, TextCmd, TextPlacement,
};
pub use textures::{TextureRegistry, TextureUploadCmd, FALLBACK_TEXTURE};
