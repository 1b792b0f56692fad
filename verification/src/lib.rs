//! Surface lifecycle and input routing for a client of a compositing display server.
//!
//! The library keeps the state of the runtime and takes its decisions: which surfaces
//! exist and which of them owe a repaint, where input goes, when a held key repeats, what a
//! drag offers, and how large the buffer pool must be. It does not talk to the display
//! server. The embedding code reports protocol events to [`App`] and carries out what
//! [`App`] returns.

pub mod app;
pub mod attached_surface;
pub mod drag;
pub mod gpu;
pub mod input;
pub mod lifecycle;
pub mod render;
pub mod repeat;
pub mod split;
pub mod text;
pub mod widget;
pub mod window;

pub use app::{App, AppModel, Capabilities, DropEvent};
pub use attached_surface::{Anchor as AttachedAnchor, AttachedSurface, AttachedSurfaceId};
pub use drag::DragSession;
pub use gpu::{Renderer, RendererBackend};
pub use input::{
    Key, KeyEvent, KeyState, Modifiers, PointerButton, PointerEvent, PointerEventKind,
    PointerInput, PointerInputKind,
};
pub use lifecycle::{SurfaceOp, SurfaceRef};
pub use render::{BufferPool, Canvas, RenderPlan, Rgba};
pub use repeat::{HeldKey, KeyRepeat};
pub use split::{LeafId, SplitDirection, SplitTree};
pub use text::{HAlign, VAlign};
pub use tiny_skia::Color;
pub use widget::{Constraints, Rect, Size, WidgetId};
pub use window::{
    Overlay, OverlayId, Popup, PopupAnchor, PopupConfig, PopupGravity, PopupId, PopupPlacement,
    RegistryModel, Subsurface, SubsurfaceId, Window, WindowId, WindowManager,
};
