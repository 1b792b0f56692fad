//! The runtime's state and its decisions.
//!
//! [`App`] holds everything that the runtime knows: the surface registry, input focus, the
//! queues of events that wait for the application, key repeat, the drag that is under way,
//! and the size of the buffer pool. It talks to nobody. Whoever owns the connection to the
//! display server reports each protocol event to it and carries out what it decides.

use crate::attached_surface::{Anchor, AttachedSurface, AttachedSurfaceId};
use crate::drag::{
    build_uri_list, lemma_uri_list_empty, path_bytes, uri_list, DragSession, URI_LIST_MIME,
};
use crate::input::{
    button_of_code, is_modifier_key, is_modifier_keysym, key_of_keysym, lemma_modifier_keysyms,
    Key, KeyEvent, KeyState, Modifiers, PointerButton, PointerEvent, PointerEventKind,
    PointerInput, PointerInputKind,
};
use crate::lifecycle::{lemma_render_clears_once, SurfaceOp, SurfaceRef};
use crate::render::{
    frame_plan, plan_frame, pool_after_frame, BufferPool, RenderPlan, INITIAL_POOL_SIZE,
};
use crate::repeat::KeyRepeat;
use crate::window::{
    Overlay, OverlayId, Popup, PopupConfig, PopupId, RegistryModel, Subsurface, SubsurfaceId,
    Window, WindowId, WindowManager,
};
use vstd::prelude::*;

verus! {

/// How long a key must be held before it repeats, in milliseconds.
pub const REPEAT_DELAY_MS: u32 = 400;

/// The distance between two repeated presses, in milliseconds: about thirty a second.
pub const REPEAT_RATE_MS: u32 = 33;

/// The optional protocol extensions that the display server offered at startup.
#[derive(Clone, Copy, Debug, PartialEq, Eq, Structural)]
pub struct Capabilities {
    /// Screen-level overlays can be created.
    pub layer_shell: bool,
    /// Subsurfaces can be created.
    pub subcompositor: bool,
    /// Attached surfaces can be created.
    pub attached_surface: bool,
    /// Data can be dragged out.
    pub data_device: bool,
}

/// A completed drop: where it happened, in 1/256 of a pixel, and the files that were dropped.
#[derive(Clone, Debug)]
pub struct DropEvent {
    pub x: i32,
    pub y: i32,
    pub files: Vec<String>,
}

/// What the runtime knows.
pub struct AppModel {
    pub running: bool,
    pub capabilities: Capabilities,
    /// An input seat has been announced.
    pub has_seat: bool,
    pub registry: RegistryModel,
    pub keyboard_focus: Option<WindowId>,
    pub pointer_focus: Option<WindowId>,
    /// The serial of the most recent pointer press.
    pub last_serial: u32,
    /// Key events that wait for the application, oldest first.
    pub key_events: Seq<KeyEvent>,
    pub modifiers: Modifiers,
    pub repeat: KeyRepeat,
    /// Pointer events that wait for the application, oldest first.
    pub pointer_events: Seq<PointerEvent>,
    /// The last known position of the pointer.
    pub pointer_position: (i32, i32),
    /// Drops that wait for the application, oldest first.
    pub drop_events: Seq<DropEvent>,
    /// The bytes that the drag under way offers; `None` while there is no drag.
    pub drag: Option<Seq<u8>>,
    /// The size of the buffer pool.
    pub pool_len: usize,
}

impl AppModel {
    /// The state's invariant: that of the registry.
    pub open spec fn wf(self) -> bool {
        self.registry.wf()
    }

    /// The state in which the runtime starts.
    pub open spec fn started(capabilities: Capabilities) -> AppModel {
        AppModel {
            running: true,
            capabilities,
            has_seat: false,
            registry: RegistryModel::empty(),
            keyboard_focus: None,
            pointer_focus: None,
            last_serial: 0,
            key_events: Seq::empty(),
            modifiers: Modifiers { shift: false, ctrl: false, alt: false, super_: false },
            repeat: KeyRepeat { held: None, delay_ms: REPEAT_DELAY_MS, rate_ms: REPEAT_RATE_MS },
            pointer_events: Seq::empty(),
            pointer_position: (0, 0),
            drop_events: Seq::empty(),
            drag: None,
            pool_len: INITIAL_POOL_SIZE,
        }
    }

    /// The same state with another registry.
    pub open spec fn with_registry(self, registry: RegistryModel) -> AppModel {
        AppModel { registry, ..self }
    }

    /// The frame that a rendering of the surface produces. There is none for a surface that
    /// owes no repaint: one that is not registered, one that still waits for its first
    /// configuration, and one that has been rendered since it was last configured or
    /// marked. There is none either where no buffer can back a frame of the surface's size.
    pub open spec fn frame_of(self, s: SurfaceRef) -> Option<RenderPlan> {
        if self.registry.is_dirty(s) {
            frame_plan(
                self.registry.handle(s),
                self.registry.extent(s).0,
                self.registry.extent(s).1,
                self.pool_len,
            )
        } else {
            None
        }
    }

    /// The state after a rendering of the surface. Where the surface owes a repaint, it is
    /// clean afterwards and the pool holds the frame. Where it owes none, the rendering is
    /// a no-op: the state stays as it is.
    pub open spec fn rendered(self, s: SurfaceRef) -> AppModel {
        if self.registry.is_dirty(s) {
            AppModel {
                registry: self.registry.rendered(s),
                pool_len: pool_after_frame(
                    self.registry.extent(s).0,
                    self.registry.extent(s).1,
                    self.pool_len,
                ),
                ..self
            }
        } else {
            self
        }
    }

    /// The state after the user asked to close the window on the given protocol surface:
    /// the window is closed with its popups, and the runtime stops when that was the last
    /// window. Nothing happens where no window is backed by the surface.
    pub open spec fn close_requested(self, surface: u32) -> AppModel {
        match self.registry.window_on(surface) {
            Some(id) => {
                let registry = self.registry.closed(SurfaceRef::Window(id));
                AppModel {
                    registry,
                    running: self.running && registry.windows.len() != 0,
                    ..self
                }
            },
            None => self,
        }
    }

    /// The key event that a press or release of the given symbol produces.
    pub open spec fn key_event(self, keysym: u32, text: Option<String>, state: KeyState) -> KeyEvent {
        KeyEvent { key: key_of_keysym(keysym), text, modifiers: self.modifiers, state }
    }

    /// The state after a key went down at `now`: the press is queued, and the key is held.
    pub open spec fn key_pressed(self, keysym: u32, text: Option<String>, now: u64) -> AppModel {
        let event = self.key_event(keysym, text, KeyState::Pressed);
        AppModel {
            key_events: self.key_events.push(event),
            repeat: self.repeat.after_press(event, now),
            ..self
        }
    }

    /// The state after a key came up: the release is queued, and the key no longer repeats.
    pub open spec fn key_released(self, keysym: u32, text: Option<String>) -> AppModel {
        let event = self.key_event(keysym, text, KeyState::Released);
        AppModel {
            key_events: self.key_events.push(event),
            repeat: self.repeat.after_release(event.key),
            ..self
        }
    }

    /// The key events that a poll at `now` hands out: those that wait, and after them the
    /// repeated press of the held key where one is due.
    pub open spec fn polled_keys(self, now: u64) -> Seq<KeyEvent> {
        if self.repeat.due(now) {
            self.key_events.push(self.repeat.repeated_event())
        } else {
            self.key_events
        }
    }

    /// The state after the key events were polled at `now`.
    pub open spec fn keys_polled(self, now: u64) -> AppModel {
        AppModel { key_events: Seq::empty(), repeat: self.repeat.after_poll(now), ..self }
    }

    /// The state with one more pointer event in the queue, at the last known position.
    pub open spec fn with_pointer_event(self, kind: PointerEventKind) -> AppModel {
        AppModel {
            pointer_events: self.pointer_events.push(
                PointerEvent { kind, x: self.pointer_position.0, y: self.pointer_position.1 },
            ),
            ..self
        }
    }

    /// The state after one report of the pointer.
    ///
    /// Entering a surface gives the pointer focus to the window on that surface and
    /// records the position. Leaving takes the focus away and keeps the position. Motion
    /// records the position. A press records its serial. Scrolling by nothing on both
    /// axes is dropped.
    pub open spec fn pointer_moved(self, input: PointerInput) -> AppModel {
        match input.kind {
            PointerInputKind::Enter => (AppModel {
                pointer_focus: self.registry.window_on(input.surface),
                pointer_position: (input.x, input.y),
                ..self
            }).with_pointer_event(PointerEventKind::Enter),
            PointerInputKind::Leave => (AppModel { pointer_focus: None, ..self }).with_pointer_event(
                PointerEventKind::Leave,
            ),
            PointerInputKind::Motion => (AppModel {
                pointer_position: (input.x, input.y),
                ..self
            }).with_pointer_event(PointerEventKind::Motion),
            PointerInputKind::Press { button, serial } => (AppModel {
                last_serial: serial,
                ..self
            }).with_pointer_event(PointerEventKind::Press(button_of_code(button))),
            PointerInputKind::Release { button } => self.with_pointer_event(
                PointerEventKind::Release(button_of_code(button)),
            ),
            PointerInputKind::Axis { horizontal, vertical } => if horizontal != 0 || vertical != 0 {
                self.with_pointer_event(PointerEventKind::Scroll { dx: horizontal, dy: vertical })
            } else {
                self
            },
        }
    }

    /// The state after a frame of pointer reports, taken in order.
    pub open spec fn pointer_frame(self, inputs: Seq<PointerInput>) -> AppModel
        decreases inputs.len(),
    {
        if inputs.len() == 0 {
            self
        } else {
            self.pointer_frame(inputs.drop_last()).pointer_moved(inputs.last())
        }
    }

    /// A drag can start from the given window with the given paths: the server lets data
    /// be dragged, a seat is there, the window is registered, no other drag is under way,
    /// and at least one path was resolved.
    pub open spec fn can_start_drag(self, window: WindowId, paths: Seq<Option<String>>) -> bool {
        &&& self.capabilities.data_device
        &&& self.has_seat
        &&& self.registry.windows.contains_key(window.0)
        &&& self.drag is None
        &&& uri_list(path_bytes(paths)).len() > 0
    }

    /// The state after an attempt to start a drag.
    pub open spec fn drag_started(self, window: WindowId, paths: Seq<Option<String>>) -> AppModel {
        if self.can_start_drag(window, paths) {
            AppModel { drag: Some(uri_list(path_bytes(paths))), ..self }
        } else {
            self
        }
    }
}

/// The runtime's state.
pub struct App {
    pub running: bool,
    pub windows: WindowManager,
    capabilities: Capabilities,
    has_seat: bool,
    keyboard_focus: Option<WindowId>,
    pointer_focus: Option<WindowId>,
    last_serial: u32,
    key_events: Vec<KeyEvent>,
    current_modifiers: Modifiers,
    repeat: KeyRepeat,
    pointer_events: Vec<PointerEvent>,
    pointer_x: i32,
    pointer_y: i32,
    drop_events: Vec<DropEvent>,
    drag: DragSession,
    pool: BufferPool,
}

impl View for App {
    type V = AppModel;

    closed spec fn view(&self) -> AppModel {
        AppModel {
            running: self.running,
            capabilities: self.capabilities,
            has_seat: self.has_seat,
            registry: self.windows@,
            keyboard_focus: self.keyboard_focus,
            pointer_focus: self.pointer_focus,
            last_serial: self.last_serial,
            key_events: self.key_events@,
            modifiers: self.current_modifiers,
            repeat: self.repeat,
            pointer_events: self.pointer_events@,
            pointer_position: (self.pointer_x, self.pointer_y),
            drop_events: self.drop_events@,
            drag: self.drag@,
            pool_len: self.pool@,
        }
    }
}

impl App {
    /// The state's invariant holds.
    pub open spec fn wf(&self) -> bool {
        self@.wf()
    }

    /// The state in which the runtime starts, given what the display server offers.
    pub fn new(capabilities: Capabilities) -> (app: App)
        ensures
            app.wf(),
            app@ == AppModel::started(capabilities),
    {
        App {
            running: true,
            windows: WindowManager::new(),
            capabilities,
            has_seat: false,
            keyboard_focus: None,
            pointer_focus: None,
            last_serial: 0,
            key_events: Vec::new(),
            current_modifiers: Modifiers::default(),
            repeat: KeyRepeat::new(REPEAT_DELAY_MS, REPEAT_RATE_MS),
            pointer_events: Vec::new(),
            pointer_x: 0,
            pointer_y: 0,
            drop_events: Vec::new(),
            drag: DragSession::new(),
            pool: BufferPool::new(INITIAL_POOL_SIZE),
        }
    }

    pub fn has_layer_shell(&self) -> (has: bool)
        ensures
            has == self@.capabilities.layer_shell,
    {
        self.capabilities.layer_shell
    }

    pub fn has_subcompositor(&self) -> (has: bool)
        ensures
            has == self@.capabilities.subcompositor,
    {
        self.capabilities.subcompositor
    }

    /// Check if the attached surface protocol is available.
    pub fn has_attached_surface(&self) -> (has: bool)
        ensures
            has == self@.capabilities.attached_surface,
    {
        self.capabilities.attached_surface
    }

    /// Check if drag & drop is supported.
    pub fn has_data_device(&self) -> (has: bool)
        ensures
            has == self@.capabilities.data_device,
    {
        self.capabilities.data_device
    }

    /// Check if we have a seat for input.
    pub fn has_seat(&self) -> (has: bool)
        ensures
            has == self@.has_seat,
    {
        self.has_seat
    }

    /// Whether the runtime is still running.
    pub fn is_running(&self) -> (running: bool)
        ensures
            running == self@.running,
    {
        self.running
    }

    /// The window that has the keyboard focus.
    pub fn keyboard_focus(&self) -> (focus: Option<WindowId>)
        ensures
            focus == self@.keyboard_focus,
    {
        self.keyboard_focus
    }

    /// The window that has the pointer focus.
    pub fn pointer_focus(&self) -> (focus: Option<WindowId>)
        ensures
            focus == self@.pointer_focus,
    {
        self.pointer_focus
    }

    /// The serial of the most recent pointer press, which a drag is tied to.
    pub fn last_serial(&self) -> (serial: u32)
        ensures
            serial == self@.last_serial,
    {
        self.last_serial
    }

    /// The size that the buffer pool must have.
    pub fn pool_len(&self) -> (len: usize)
        ensures
            len == self@.pool_len,
    {
        self.pool.len()
    }

    /// Whether another window can be registered: the identifiers of its kind are not
    /// used up. Creating a window asks for this.
    pub fn has_free_window_id(&self) -> (free: bool)
        ensures
            free == (self@.registry.next_window_id < u64::MAX),
    {
        self.windows.has_free_window_id()
    }

    /// Whether another popup can be registered: the identifiers of its kind are not
    /// used up. Creating a popup asks for this.
    pub fn has_free_popup_id(&self) -> (free: bool)
        ensures
            free == (self@.registry.next_popup_id < u64::MAX),
    {
        self.windows.has_free_popup_id()
    }

    /// Whether another overlay can be registered: the identifiers of its kind are not
    /// used up. Creating an overlay asks for this.
    pub fn has_free_overlay_id(&self) -> (free: bool)
        ensures
            free == (self@.registry.next_overlay_id < u64::MAX),
    {
        self.windows.has_free_overlay_id()
    }

    /// Whether another subsurface can be registered: the identifiers of its kind are not
    /// used up. Creating a subsurface asks for this.
    pub fn has_free_subsurface_id(&self) -> (free: bool)
        ensures
            free == (self@.registry.next_subsurface_id < u64::MAX),
    {
        self.windows.has_free_subsurface_id()
    }

    /// Whether another attached surface can be registered: the identifiers of its kind are not
    /// used up. Creating an attached surface asks for this.
    pub fn has_free_attached_surface_id(&self) -> (free: bool)
        ensures
            free == (self@.registry.next_attached_surface_id < u64::MAX),
    {
        self.windows.has_free_attached_surface_id()
    }

    /// Registers a decorated window on the given protocol surface.
    pub fn create_window(&mut self, surface: u32, width: u32, height: u32) -> (id: WindowId)
        requires
            old(self).wf(),
            old(self)@.registry.next_window_id < u64::MAX,
        ensures
            final(self).wf(),
            id == WindowId(old(self)@.registry.next_window_id),
            final(self)@ == old(self)@.with_registry(
                old(self)@.registry.created_window(surface, width, height, true),
            ),
    {
        self.create_window_full(surface, width, height, true)
    }

    /// Registers a window on the given protocol surface, decorated or not.
    pub fn create_window_with_decorations(
        &mut self,
        surface: u32,
        width: u32,
        height: u32,
        decorations: bool,
    ) -> (id: WindowId)
        requires
            old(self).wf(),
            old(self)@.registry.next_window_id < u64::MAX,
        ensures
            final(self).wf(),
            id == WindowId(old(self)@.registry.next_window_id),
            final(self)@ == old(self)@.with_registry(
                old(self)@.registry.created_window(surface, width, height, decorations),
            ),
    {
        self.create_window_full(surface, width, height, decorations)
    }

    /// Registers a window on the given protocol surface. The window waits for its first
    /// configuration: it is not dirty, and cannot be rendered, until the server has
    /// configured it.
    pub fn create_window_full(
        &mut self,
        surface: u32,
        width: u32,
        height: u32,
        decorations: bool,
    ) -> (id: WindowId)
        requires
            old(self).wf(),
            old(self)@.registry.next_window_id < u64::MAX,
        ensures
            final(self).wf(),
            id == WindowId(old(self)@.registry.next_window_id),
            final(self)@ == old(self)@.with_registry(
                old(self)@.registry.created_window(surface, width, height, decorations),
            ),
    {
        let record = Window {
            id: WindowId(0),
            surface,
            width,
            height,
            dirty: false,
            configured: false,
            decorations,
        };
        let added = self.windows.add_window(record);
        assert(self@ == old(self)@.with_registry(
            old(self)@.registry.created_window(surface, width, height, decorations),
        ));
        match added {
            Some(id) => id,
            None => WindowId(0),
        }
    }

    /// Registers a popup on a window. Fails, and registers nothing, where the window does
    /// not exist. The popup's placement is computed now, from the parent's present size,
    /// and is not computed again when the parent is resized.
    pub fn create_popup(&mut self, parent_id: WindowId, surface: u32, config: PopupConfig) -> (id:
        Option<PopupId>)
        requires
            old(self).wf(),
            old(self)@.registry.windows.contains_key(parent_id.0)
                ==> old(self)@.registry.next_popup_id < u64::MAX,
        ensures
            final(self).wf(),
            id == if old(self)@.registry.windows.contains_key(parent_id.0) {
                Some(PopupId(old(self)@.registry.next_popup_id))
            } else {
                None
            },
            final(self)@ == old(self)@.with_registry(
                old(self)@.registry.created_popup(parent_id, surface, config),
            ),
    {
        let (parent_width, parent_height) = match self.windows.get_window(parent_id) {
            Some(parent) => (parent.width, parent.height),
            None => {
                return None;
            },
        };
        let record = Popup {
            id: PopupId(0),
            parent: parent_id,
            surface,
            width: config.size.0,
            height: config.size.1,
            dirty: false,
            configured: false,
            placement: config.placement(parent_width, parent_height),
        };
        let added = self.windows.add_popup(record);
        assert(self@ == old(self)@.with_registry(
            old(self)@.registry.created_popup(parent_id, surface, config),
        ));
        added
    }

    /// Removes a popup from the registry.
    pub fn close_popup(&mut self, popup_id: PopupId)
        requires
            old(self).wf(),
        ensures
            final(self).wf(),
            final(self)@ == old(self)@.with_registry(
                old(self)@.registry.closed(SurfaceRef::Popup(popup_id)),
            ),
    {
        self.windows.remove_popup(popup_id);
        assert(self@ == old(self)@.with_registry(
            old(self)@.registry.closed(SurfaceRef::Popup(popup_id)),
        ));
    }

    /// Closes a window and, before it, every popup that belongs to it. Subsurfaces and
    /// attached surfaces of the window stay registered. Returns the popups that were
    /// closed, each once.
    pub fn close_window(&mut self, window_id: WindowId) -> (closed: Vec<PopupId>)
        requires
            old(self).wf(),
        ensures
            final(self).wf(),
            final(self)@ == old(self)@.with_registry(
                old(self)@.registry.closed(SurfaceRef::Window(window_id)),
            ),
            closed@.no_duplicates(),
            forall|k: u64| #[trigger]
                closed@.contains(PopupId(k)) <==> old(self)@.registry.popups_of(window_id).contains(
                    k,
                ),
    {
        let closed = self.windows.remove_popups_of(window_id);
        self.windows.remove_window(window_id);
        assert(self@ == old(self)@.with_registry(
            old(self)@.registry.closed(SurfaceRef::Window(window_id)),
        ));
        closed
    }

    /// Registers a screen-level overlay. Fails where the display server offers no layer
    /// shell.
    pub fn create_overlay(&mut self, surface: u32, width: u32, height: u32) -> (id: Option<
        OverlayId,
    >)
        requires
            old(self).wf(),
            old(self)@.capabilities.layer_shell ==> old(self)@.registry.next_overlay_id
                < u64::MAX,
        ensures
            final(self).wf(),
            id == if old(self)@.capabilities.layer_shell {
                Some(OverlayId(old(self)@.registry.next_overlay_id))
            } else {
                None
            },
            final(self)@ == if old(self)@.capabilities.layer_shell {
                old(self)@.with_registry(
                    old(self)@.registry.created_overlay(surface, width, height),
                )
            } else {
                old(self)@
            },
    {
        if !self.capabilities.layer_shell {
            return None;
        }
        let record = Overlay {
            id: OverlayId(0),
            surface,
            width,
            height,
            dirty: false,
            configured: false,
        };
        let added = self.windows.add_overlay(record);
        assert(self@ == old(self)@.with_registry(
            old(self)@.registry.created_overlay(surface, width, height),
        ));
        added
    }

    /// Removes an overlay from the registry.
    pub fn close_overlay(&mut self, overlay_id: OverlayId)
        requires
            old(self).wf(),
        ensures
            final(self).wf(),
            final(self)@ == old(self)@.with_registry(
                old(self)@.registry.closed(SurfaceRef::Overlay(overlay_id)),
            ),
    {
        self.windows.remove_overlay(overlay_id);
        assert(self@ == old(self)@.with_registry(
            old(self)@.registry.closed(SurfaceRef::Overlay(overlay_id)),
        ));
    }

    /// Registers a subsurface of a window, at a position relative to the window. Fails
    /// where the display server offers no subcompositor, or the window does not exist.
    /// The subsurface is dirty at once: it can be rendered without waiting for the server.
    pub fn create_subsurface(
        &mut self,
        parent_id: WindowId,
        surface: u32,
        x: i32,
        y: i32,
        width: u32,
        height: u32,
    ) -> (id: Option<SubsurfaceId>)
        requires
            old(self).wf(),
            old(self)@.capabilities.subcompositor && old(self)@.registry.windows.contains_key(
                parent_id.0,
            ) ==> old(self)@.registry.next_subsurface_id < u64::MAX,
        ensures
            final(self).wf(),
            id == if old(self)@.capabilities.subcompositor
                && old(self)@.registry.windows.contains_key(parent_id.0) {
                Some(SubsurfaceId(old(self)@.registry.next_subsurface_id))
            } else {
                None
            },
            final(self)@ == if old(self)@.capabilities.subcompositor {
                old(self)@.with_registry(
                    old(self)@.registry.created_subsurface(parent_id, surface, x, y, width, height),
                )
            } else {
                old(self)@
            },
    {
        if !self.capabilities.subcompositor {
            return None;
        }
        if self.windows.get_window(parent_id).is_none() {
            return None;
        }
        let record = Subsurface {
            id: SubsurfaceId(0),
            parent: parent_id,
            surface,
            x,
            y,
            width,
            height,
            dirty: true,
        };
        let added = self.windows.add_subsurface(record);
        assert(self@ == old(self)@.with_registry(
            old(self)@.registry.created_subsurface(parent_id, surface, x, y, width, height),
        ));
        added
    }

    /// Removes a subsurface from the registry.
    pub fn close_subsurface(&mut self, subsurface_id: SubsurfaceId)
        requires
            old(self).wf(),
        ensures
            final(self).wf(),
            final(self)@ == old(self)@.with_registry(
                old(self)@.registry.closed(SurfaceRef::Subsurface(subsurface_id)),
            ),
    {
        self.windows.remove_subsurface(subsurface_id);
        assert(self@ == old(self)@.with_registry(
            old(self)@.registry.closed(SurfaceRef::Subsurface(subsurface_id)),
        ));
    }

    /// Whether a repaint of the subsurface is owed; `false` for one that is not registered.
    pub fn is_subsurface_dirty(&self, subsurface_id: SubsurfaceId) -> (dirty: bool)
        requires
            self.wf(),
        ensures
            dirty == self@.registry.is_dirty(SurfaceRef::Subsurface(subsurface_id)),
    {
        match self.windows.get_subsurface(subsurface_id) {
            Some(subsurface) => subsurface.dirty,
            None => false,
        }
    }

    /// Moves a subsurface within its parent. Nothing happens where it is not registered.
    pub fn set_subsurface_position(&mut self, subsurface_id: SubsurfaceId, x: i32, y: i32)
        requires
            old(self).wf(),
        ensures
            final(self).wf(),
            final(self)@ == old(self)@.with_registry(
                old(self)@.registry.moved_subsurface(subsurface_id, x, y),
            ),
    {
        let record = match self.windows.get_subsurface(subsurface_id) {
            Some(subsurface) => *subsurface,
            None => {
                return ;
            },
        };
        self.windows.update_subsurface(Subsurface { x, y, ..record });
        assert(self@ == old(self)@.with_registry(
            old(self)@.registry.moved_subsurface(subsurface_id, x, y),
        ));
    }

    /// Registers an attached surface of a window. Fails where the display server does
    /// not offer the extension, or the window does not exist.
    pub fn create_attached_surface(
        &mut self,
        parent_id: WindowId,
        surface: u32,
        x: i32,
        y: i32,
        width: u32,
        height: u32,
    ) -> (id: Option<AttachedSurfaceId>)
        requires
            old(self).wf(),
            old(self)@.capabilities.attached_surface && old(self)@.registry.windows.contains_key(
                parent_id.0,
            ) ==> old(self)@.registry.next_attached_surface_id < u64::MAX,
        ensures
            final(self).wf(),
            id == if old(self)@.capabilities.attached_surface
                && old(self)@.registry.windows.contains_key(parent_id.0) {
                Some(AttachedSurfaceId(old(self)@.registry.next_attached_surface_id))
            } else {
                None
            },
            final(self)@ == if old(self)@.capabilities.attached_surface {
                old(self)@.with_registry(
                    old(self)@.registry.created_attached_surface(
                        parent_id,
                        surface,
                        x,
                        y,
                        width,
                        height,
                    ),
                )
            } else {
                old(self)@
            },
    {
        if !self.capabilities.attached_surface {
            return None;
        }
        if self.windows.get_window(parent_id).is_none() {
            return None;
        }
        let record = AttachedSurface {
            id: AttachedSurfaceId(0),
            parent_window_id: parent_id,
            surface,
            x,
            y,
            width,
            height,
            dirty: false,
            configured: false,
            pending_configure: None,
            anchor: Anchor::Unanchored,
            margin: 0,
            offset: 0,
        };
        let added = self.windows.add_attached_surface(record);
        assert(self@ == old(self)@.with_registry(
            old(self)@.registry.created_attached_surface(parent_id, surface, x, y, width, height),
        ));
        added
    }

    /// Removes an attached surface from the registry.
    pub fn close_attached_surface(&mut self, id: AttachedSurfaceId)
        requires
            old(self).wf(),
        ensures
            final(self).wf(),
            final(self)@ == old(self)@.with_registry(
                old(self)@.registry.closed(SurfaceRef::Attached(id)),
            ),
    {
        self.windows.remove_attached_surface(id);
        assert(self@ == old(self)@.with_registry(
            old(self)@.registry.closed(SurfaceRef::Attached(id)),
        ));
    }

    /// Whether a repaint of the attached surface is owed; `false` for one that is not
    /// registered.
    pub fn is_attached_surface_dirty(&self, id: AttachedSurfaceId) -> (dirty: bool)
        requires
            self.wf(),
        ensures
            dirty == self@.registry.is_dirty(SurfaceRef::Attached(id)),
    {
        match self.windows.get_attached_surface(id) {
            Some(attached) => attached.dirty,
            None => false,
        }
    }

    /// Moves an attached surface relative to its parent. Nothing happens where it is not
    /// registered.
    pub fn set_attached_surface_position(&mut self, id: AttachedSurfaceId, x: i32, y: i32)
        requires
            old(self).wf(),
        ensures
            final(self).wf(),
            final(self)@ == old(self)@.with_registry(
                old(self)@.registry.moved_attached_surface(id, x, y),
            ),
    {
        let record = match self.windows.get_attached_surface(id) {
            Some(attached) => *attached,
            None => {
                return ;
            },
        };
        self.windows.update_attached_surface(AttachedSurface { x, y, ..record });
        assert(self@ == old(self)@.with_registry(
            old(self)@.registry.moved_attached_surface(id, x, y),
        ));
    }

    /// Anchors an attached surface to an edge of its parent. Nothing happens where it is
    /// not registered.
    pub fn set_attached_surface_anchor(
        &mut self,
        id: AttachedSurfaceId,
        anchor: Anchor,
        margin: i32,
        offset: i32,
    )
        requires
            old(self).wf(),
        ensures
            final(self).wf(),
            final(self)@ == old(self)@.with_registry(
                old(self)@.registry.anchored_attached_surface(id, anchor, margin, offset),
            ),
    {
        let record = match self.windows.get_attached_surface(id) {
            Some(attached) => *attached,
            None => {
                return ;
            },
        };
        self.windows.update_attached_surface(AttachedSurface { anchor, margin, offset, ..record });
        assert(self@ == old(self)@.with_registry(
            old(self)@.registry.anchored_attached_surface(id, anchor, margin, offset),
        ));
    }

    /// Whether a repaint of the window is owed; `false` for one that is not registered.
    pub fn is_window_dirty(&self, window_id: WindowId) -> (dirty: bool)
        requires
            self.wf(),
        ensures
            dirty == self@.registry.is_dirty(SurfaceRef::Window(window_id)),
    {
        match self.windows.get_window(window_id) {
            Some(window) => window.dirty,
            None => false,
        }
    }

    /// Whether a repaint of the popup is owed; `false` for one that is not registered.
    pub fn is_popup_dirty(&self, popup_id: PopupId) -> (dirty: bool)
        requires
            self.wf(),
        ensures
            dirty == self@.registry.is_dirty(SurfaceRef::Popup(popup_id)),
    {
        match self.windows.get_popup(popup_id) {
            Some(popup) => popup.dirty,
            None => false,
        }
    }

    /// Whether a repaint of the overlay is owed; `false` for one that is not registered.
    pub fn is_overlay_dirty(&self, overlay_id: OverlayId) -> (dirty: bool)
        requires
            self.wf(),
        ensures
            dirty == self@.registry.is_dirty(SurfaceRef::Overlay(overlay_id)),
    {
        match self.windows.get_overlay(overlay_id) {
            Some(overlay) => overlay.dirty,
            None => false,
        }
    }

    /// The size of a window; `None` for one that is not registered.
    pub fn window_size(&self, window_id: WindowId) -> (size: Option<(u32, u32)>)
        requires
            self.wf(),
        ensures
            size == if self@.registry.windows.contains_key(window_id.0) {
                Some(self@.registry.extent(SurfaceRef::Window(window_id)))
            } else {
                None
            },
    {
        match self.windows.get_window(window_id) {
            Some(window) => Some((window.width, window.height)),
            None => None,
        }
    }

    /// Records that a repaint of a surface is owed. Nothing happens where the surface is
    /// not registered, or still waits for its first configuration: a surface is never dirty
    /// before the server has configured it.
    #[verifier::rlimit(50)]
    pub fn mark_dirty(&mut self, surface: SurfaceRef)
        requires
            old(self).wf(),
        ensures
            final(self).wf(),
            final(self)@ == old(self)@.with_registry(old(self)@.registry.marked_dirty(surface)),
    {
        match surface {
            SurfaceRef::Window(id) => {
                let found = match self.windows.get_window(id) {
                    Some(record) => Some(*record),
                    None => None,
                };
                if let Some(mut record) = found {
                    record.mark_dirty();
                    self.windows.update_window(record);
                }
            },
            SurfaceRef::Popup(id) => {
                let found = match self.windows.get_popup(id) {
                    Some(record) => Some(*record),
                    None => None,
                };
                if let Some(mut record) = found {
                    record.mark_dirty();
                    self.windows.update_popup(record);
                }
            },
            SurfaceRef::Overlay(id) => {
                let found = match self.windows.get_overlay(id) {
                    Some(record) => Some(*record),
                    None => None,
                };
                if let Some(mut record) = found {
                    record.mark_dirty();
                    self.windows.update_overlay(record);
                }
            },
            SurfaceRef::Subsurface(id) => {
                let found = match self.windows.get_subsurface(id) {
                    Some(record) => Some(*record),
                    None => None,
                };
                if let Some(mut record) = found {
                    record.mark_dirty();
                    self.windows.update_subsurface(record);
                }
            },
            SurfaceRef::Attached(id) => {
                let found = match self.windows.get_attached_surface(id) {
                    Some(record) => Some(*record),
                    None => None,
                };
                if let Some(mut record) = found {
                    record.mark_dirty();
                    self.windows.update_attached_surface(record);
                }
            },
        }
        assert(self@.registry =~= old(self)@.registry.marked_dirty(surface)) by {
            let after = old(self)@.registry.marked_dirty(surface);
            assert(self@.registry.windows =~= after.windows);
            assert(self@.registry.popups =~= after.popups);
            assert(self@.registry.overlays =~= after.overlays);
            assert(self@.registry.subsurfaces =~= after.subsurfaces);
            assert(self@.registry.attached_surfaces =~= after.attached_surfaces);
        }
        assert(self@ == old(self)@.with_registry(old(self)@.registry.marked_dirty(surface)));
    }

    /// Stops the runtime.
    pub fn quit(&mut self)
        ensures
            final(self)@ == (AppModel { running: false, ..old(self)@ }),
    {
        self.running = false;
        assert(self@ == (AppModel { running: false, ..old(self)@ }));
    }

    /// Starts a frame of a window that owes a repaint: clears its dirty flag and plans the
    /// buffer.
    ///
    /// Returns what is to be done to put the frame on screen. Returns `None`, and leaves
    /// everything as it is, where the window owes no repaint: it is not registered,
    /// or nothing has made it dirty since it was last rendered. Returns `None` with the
    /// flag cleared where no buffer can back a frame of its size.
    pub fn render_window(&mut self, window_id: WindowId) -> (plan: Option<RenderPlan>)
        requires
            old(self).wf(),
        ensures
            final(self).wf(),
            plan == old(self)@.frame_of(SurfaceRef::Window(window_id)),
            final(self)@ == old(self)@.rendered(SurfaceRef::Window(window_id)),
    {
        let record = match self.windows.get_window(window_id) {
            Some(record) => *record,
            None => {
                return None;
            },
        };
        if !record.dirty {
            return None;
        }
        self.windows.update_window(Window { dirty: false, ..record });
        let plan = plan_frame(record.surface, record.width, record.height, &mut self.pool);
        assert(self@ == old(self)@.rendered(SurfaceRef::Window(window_id)));
        plan
    }

    /// Starts a frame of a popup that owes a repaint: clears its dirty flag and plans the
    /// buffer.
    ///
    /// Returns what is to be done to put the frame on screen. Returns `None`, and leaves
    /// everything as it is, where the popup owes no repaint: it is not registered,
    /// or nothing has made it dirty since it was last rendered. Returns `None` with the
    /// flag cleared where no buffer can back a frame of its size.
    pub fn render_popup(&mut self, popup_id: PopupId) -> (plan: Option<RenderPlan>)
        requires
            old(self).wf(),
        ensures
            final(self).wf(),
            plan == old(self)@.frame_of(SurfaceRef::Popup(popup_id)),
            final(self)@ == old(self)@.rendered(SurfaceRef::Popup(popup_id)),
    {
        let record = match self.windows.get_popup(popup_id) {
            Some(record) => *record,
            None => {
                return None;
            },
        };
        if !record.dirty {
            return None;
        }
        self.windows.update_popup(Popup { dirty: false, ..record });
        let plan = plan_frame(record.surface, record.width, record.height, &mut self.pool);
        assert(self@ == old(self)@.rendered(SurfaceRef::Popup(popup_id)));
        plan
    }

    /// Starts a frame of an overlay that owes a repaint: clears its dirty flag and plans the
    /// buffer.
    ///
    /// Returns what is to be done to put the frame on screen. Returns `None`, and leaves
    /// everything as it is, where the overlay owes no repaint: it is not registered,
    /// or nothing has made it dirty since it was last rendered. Returns `None` with the
    /// flag cleared where no buffer can back a frame of its size.
    pub fn render_overlay(&mut self, overlay_id: OverlayId) -> (plan: Option<RenderPlan>)
        requires
            old(self).wf(),
        ensures
            final(self).wf(),
            plan == old(self)@.frame_of(SurfaceRef::Overlay(overlay_id)),
            final(self)@ == old(self)@.rendered(SurfaceRef::Overlay(overlay_id)),
    {
        let record = match self.windows.get_overlay(overlay_id) {
            Some(record) => *record,
            None => {
                return None;
            },
        };
        if !record.dirty {
            return None;
        }
        self.windows.update_overlay(Overlay { dirty: false, ..record });
        let plan = plan_frame(record.surface, record.width, record.height, &mut self.pool);
        assert(self@ == old(self)@.rendered(SurfaceRef::Overlay(overlay_id)));
        plan
    }

    /// Starts a frame of a subsurface that owes a repaint: clears its dirty flag and plans the
    /// buffer.
    ///
    /// Returns what is to be done to put the frame on screen. Returns `None`, and leaves
    /// everything as it is, where the subsurface owes no repaint: it is not registered,
    /// or nothing has made it dirty since it was last rendered. Returns `None` with the
    /// flag cleared where no buffer can back a frame of its size.
    pub fn render_subsurface(&mut self, subsurface_id: SubsurfaceId) -> (plan: Option<RenderPlan>)
        requires
            old(self).wf(),
        ensures
            final(self).wf(),
            plan == old(self)@.frame_of(SurfaceRef::Subsurface(subsurface_id)),
            final(self)@ == old(self)@.rendered(SurfaceRef::Subsurface(subsurface_id)),
    {
        let record = match self.windows.get_subsurface(subsurface_id) {
            Some(record) => *record,
            None => {
                return None;
            },
        };
        if !record.dirty {
            return None;
        }
        self.windows.update_subsurface(Subsurface { dirty: false, ..record });
        let plan = plan_frame(record.surface, record.width, record.height, &mut self.pool);
        assert(self@ == old(self)@.rendered(SurfaceRef::Subsurface(subsurface_id)));
        plan
    }

    /// Starts a frame of an attached surface that owes a repaint: clears its dirty flag and plans the
    /// buffer.
    ///
    /// Returns what is to be done to put the frame on screen. Returns `None`, and leaves
    /// everything as it is, where the attached surface owes no repaint: it is not registered,
    /// or nothing has made it dirty since it was last rendered. Returns `None` with the
    /// flag cleared where no buffer can back a frame of its size.
    pub fn render_attached_surface(&mut self, id: AttachedSurfaceId) -> (plan: Option<RenderPlan>)
        requires
            old(self).wf(),
        ensures
            final(self).wf(),
            plan == old(self)@.frame_of(SurfaceRef::Attached(id)),
            final(self)@ == old(self)@.rendered(SurfaceRef::Attached(id)),
    {
        let record = match self.windows.get_attached_surface(id) {
            Some(record) => *record,
            None => {
                return None;
            },
        };
        if !record.dirty {
            return None;
        }
        self.windows.update_attached_surface(AttachedSurface { dirty: false, ..record });
        let plan = plan_frame(record.surface, record.width, record.height, &mut self.pool);
        assert(self@ == old(self)@.rendered(SurfaceRef::Attached(id)));
        plan
    }

    /// The user asked to close the window on the given protocol surface. The window is
    /// closed with its popups, and the runtime stops when it was the last window. Returns
    /// the window and the popups that were closed; `None` where no window is backed by the
    /// surface.
    #[verifier::rlimit(50)]
    pub fn request_close(&mut self, surface: u32) -> (closed: Option<(WindowId, Vec<PopupId>)>)
        requires
            old(self).wf(),
        ensures
            final(self).wf(),
            final(self)@ == old(self)@.close_requested(surface),
            match closed {
                Some((window, popups)) => {
                    &&& old(self)@.registry.window_on(surface) == Some(window)
                    &&& popups@.no_duplicates()
                    &&& forall|k: u64| #[trigger]
                        popups@.contains(PopupId(k)) <==> old(self)@.registry.popups_of(
                            window,
                        ).contains(k)
                },
                None => old(self)@.registry.window_on(surface) is None,
            },
    {
        match self.windows.find_window_by_surface(surface) {
            Some(id) => {
                let popups = self.close_window(id);
                if self.windows.window_count() == 0 {
                    self.running = false;
                }
                assert(self@ == old(self)@.close_requested(surface));
                Some((id, popups))
            },
            None => None,
        }
    }

    /// The server configured the window on the given protocol surface and suggested a size;
    /// a part that is 0 means that the server leaves the size to the client. The window is
    /// dirty from now on. Returns the window; `None` where no window is backed by the
    /// surface.
    pub fn configure_window(&mut self, surface: u32, width: u32, height: u32) -> (window: Option<
        WindowId,
    >)
        requires
            old(self).wf(),
        ensures
            final(self).wf(),
            window == old(self)@.registry.window_on(surface),
            final(self)@ == match window {
                Some(id) => old(self)@.with_registry(
                    old(self)@.registry.configured(SurfaceRef::Window(id), width, height),
                ),
                None => old(self)@,
            },
    {
        let found = self.windows.find_window_by_surface(surface);
        if let Some(id) = found {
            if let Some(record) = self.windows.get_window(id) {
                let mut updated = *record;
                if width > 0 && height > 0 {
                    updated.width = width;
                    updated.height = height;
                }
                updated.configured = true;
                updated.dirty = true;
                self.windows.update_window(updated);
                assert(self@ == old(self)@.with_registry(
                    old(self)@.registry.configured(SurfaceRef::Window(id), width, height),
                ));
            }
        }
        found
    }

    /// The server configured the popup on the given protocol surface. The popup is dirty
    /// from now on; its size and placement stay as they are.
    pub fn configure_popup(&mut self, surface: u32) -> (popup: Option<PopupId>)
        requires
            old(self).wf(),
        ensures
            final(self).wf(),
            popup == old(self)@.registry.popup_on(surface),
            final(self)@ == match popup {
                Some(id) => old(self)@.with_registry(
                    old(self)@.registry.configured(SurfaceRef::Popup(id), 0, 0),
                ),
                None => old(self)@,
            },
    {
        let found = self.windows.find_popup_by_surface(surface);
        if let Some(id) = found {
            if let Some(record) = self.windows.get_popup(id) {
                let updated = Popup { configured: true, dirty: true, ..*record };
                self.windows.update_popup(updated);
                assert(self@ == old(self)@.with_registry(
                    old(self)@.registry.configured(SurfaceRef::Popup(id), 0, 0),
                ));
            }
        }
        found
    }

    /// The server dismissed the popup on the given protocol surface: it is closed.
    pub fn popup_done(&mut self, surface: u32) -> (popup: Option<PopupId>)
        requires
            old(self).wf(),
        ensures
            final(self).wf(),
            popup == old(self)@.registry.popup_on(surface),
            final(self)@ == match popup {
                Some(id) => old(self)@.with_registry(
                    old(self)@.registry.closed(SurfaceRef::Popup(id)),
                ),
                None => old(self)@,
            },
    {
        let found = self.windows.find_popup_by_surface(surface);
        if let Some(id) = found {
            self.close_popup(id);
        }
        found
    }

    /// The server configured the overlay on the given protocol surface and suggested a
    /// size, of which each part counts by itself where it is not 0. The overlay is dirty
    /// from now on.
    pub fn configure_overlay(&mut self, surface: u32, width: u32, height: u32) -> (overlay: Option<
        OverlayId,
    >)
        requires
            old(self).wf(),
        ensures
            final(self).wf(),
            overlay == old(self)@.registry.overlay_on(surface),
            final(self)@ == match overlay {
                Some(id) => old(self)@.with_registry(
                    old(self)@.registry.configured(SurfaceRef::Overlay(id), width, height),
                ),
                None => old(self)@,
            },
    {
        let found = self.windows.find_overlay_by_surface(surface);
        if let Some(id) = found {
            if let Some(record) = self.windows.get_overlay(id) {
                let mut updated = *record;
                if width > 0 {
                    updated.width = width;
                }
                if height > 0 {
                    updated.height = height;
                }
                updated.configured = true;
                updated.dirty = true;
                self.windows.update_overlay(updated);
                assert(self@ == old(self)@.with_registry(
                    old(self)@.registry.configured(SurfaceRef::Overlay(id), width, height),
                ));
            }
        }
        found
    }

    /// The server closed the overlay on the given protocol surface.
    pub fn overlay_closed(&mut self, surface: u32) -> (overlay: Option<OverlayId>)
        requires
            old(self).wf(),
        ensures
            final(self).wf(),
            overlay == old(self)@.registry.overlay_on(surface),
            final(self)@ == match overlay {
                Some(id) => old(self)@.with_registry(
                    old(self)@.registry.closed(SurfaceRef::Overlay(id)),
                ),
                None => old(self)@,
            },
    {
        let found = self.windows.find_overlay_by_surface(surface);
        if let Some(id) = found {
            self.close_overlay(id);
        }
        found
    }

    /// The server configured an attached surface and suggested a size, which is taken
    /// where neither part is 0. The configuration is acknowledged, and the surface is dirty
    /// from now on. Returns whether the surface is registered, and so whether the
    /// acknowledgement with the given serial is to be sent.
    pub fn configure_attached_surface(
        &mut self,
        surface_id: AttachedSurfaceId,
        serial: u32,
        width: u32,
        height: u32,
    ) -> (acknowledge: bool)
        requires
            old(self).wf(),
        ensures
            final(self).wf(),
            acknowledge == old(self)@.registry.contains(SurfaceRef::Attached(surface_id)),
            final(self)@ == old(self)@.with_registry(
                old(self)@.registry.configured(SurfaceRef::Attached(surface_id), width, height),
            ),
    {
        let record = match self.windows.get_attached_surface(surface_id) {
            Some(record) => *record,
            None => {
                return false;
            },
        };
        let mut updated = record;
        if width > 0 && height > 0 {
            updated.width = width;
            updated.height = height;
        }
        updated.ack_configure(serial);
        updated.dirty = true;
        self.windows.update_attached_surface(updated);
        assert(self@ == old(self)@.with_registry(
            old(self)@.registry.configured(SurfaceRef::Attached(surface_id), width, height),
        ));
        true
    }

    /// The server closed an attached surface.
    pub fn attached_surface_closed(&mut self, surface_id: AttachedSurfaceId)
        requires
            old(self).wf(),
        ensures
            final(self).wf(),
            final(self)@ == old(self)@.with_registry(
                old(self)@.registry.closed(SurfaceRef::Attached(surface_id)),
            ),
    {
        self.close_attached_surface(surface_id);
    }

    /// A capability of an input seat was announced: from now on there is a seat.
    pub fn new_capability(&mut self)
        ensures
            final(self)@ == (AppModel { has_seat: true, ..old(self)@ }),
    {
        self.has_seat = true;
        assert(self@ == (AppModel { has_seat: true, ..old(self)@ }));
    }

    /// The keyboard focus entered the given protocol surface: the window on that surface
    /// has the focus, or no window where none is backed by it.
    pub fn keyboard_enter(&mut self, surface: u32)
        requires
            old(self).wf(),
        ensures
            final(self)@ == (AppModel {
                keyboard_focus: old(self)@.registry.window_on(surface),
                ..old(self)@
            }),
    {
        self.keyboard_focus = self.windows.find_window_by_surface(surface);
        assert(self@ == (AppModel {
            keyboard_focus: old(self)@.registry.window_on(surface),
            ..old(self)@
        }));
    }

    /// The keyboard focus left: no window has it. The modifiers stay as they are.
    pub fn keyboard_leave(&mut self)
        ensures
            final(self)@ == (AppModel { keyboard_focus: None, ..old(self)@ }),
    {
        self.keyboard_focus = None;
        assert(self@ == (AppModel { keyboard_focus: None, ..old(self)@ }));
    }

    /// A key went down at `now_ms`. The press is queued; a key that is no modifier is
    /// held from now on and will repeat. A press of Shift, Control, Alt or Super leaves
    /// key repeat as it is.
    pub fn press_key(&mut self, keysym: u32, text: Option<String>, now_ms: u64)
        ensures
            final(self)@ == old(self)@.key_pressed(keysym, text, now_ms),
    {
        let event = KeyEvent {
            key: Key::from_keysym(keysym),
            text,
            modifiers: self.current_modifiers,
            state: KeyState::Pressed,
        };
        self.key_events.push(event.duplicate());
        self.repeat.press(event, now_ms);
        assert(self@ == old(self)@.key_pressed(keysym, text, now_ms));
    }

    /// A key came up. The release is queued; where the key was held, it stops repeating.
    pub fn release_key(&mut self, keysym: u32, text: Option<String>)
        ensures
            final(self)@ == old(self)@.key_released(keysym, text),
    {
        let event = KeyEvent {
            key: Key::from_keysym(keysym),
            text,
            modifiers: self.current_modifiers,
            state: KeyState::Released,
        };
        self.repeat.release(event.key);
        self.key_events.push(event);
        assert(self@ == old(self)@.key_released(keysym, text));
    }

    /// The modifiers that are held have changed.
    pub fn update_modifiers(&mut self, shift: bool, ctrl: bool, alt: bool, logo: bool)
        ensures
            final(self)@ == (AppModel {
                modifiers: Modifiers { shift, ctrl, alt, super_: logo },
                ..old(self)@
            }),
    {
        self.current_modifiers = Modifiers { shift, ctrl, alt, super_: logo };
        assert(self@ == (AppModel {
            modifiers: Modifiers { shift, ctrl, alt, super_: logo },
            ..old(self)@
        }));
    }

    /// Get current modifier state.
    pub fn modifiers(&self) -> (modifiers: Modifiers)
        ensures
            modifiers == self@.modifiers,
    {
        self.current_modifiers
    }

    /// Drain and return all pending key events, with the repeated press of the held key
    /// at their end where one is due at `now_ms`.
    pub fn poll_key_events(&mut self, now_ms: u64) -> (events: Vec<KeyEvent>)
        ensures
            events@ == old(self)@.polled_keys(now_ms),
            final(self)@ == old(self)@.keys_polled(now_ms),
    {
        match self.repeat.poll(now_ms) {
            Some(repeated) => {
                self.key_events.push(repeated);
            },
            None => {},
        }
        let mut events: Vec<KeyEvent> = Vec::new();
        std::mem::swap(&mut self.key_events, &mut events);
        assert(self@ == old(self)@.keys_polled(now_ms));
        events
    }

    /// Returns the suggested timeout in milliseconds for key repeat: how long the caller
    /// may block at `now_ms` before it polls the key events again. Returns `None` if no
    /// key repeat is pending (can block indefinitely).
    pub fn key_repeat_timeout(&self, now_ms: u64) -> (timeout: Option<u32>)
        ensures
            timeout == self@.repeat.wait(now_ms),
    {
        self.repeat.timeout(now_ms)
    }

    /// Queues one pointer event at the last known position.
    fn push_pointer_event(&mut self, kind: PointerEventKind)
        ensures
            final(self)@ == old(self)@.with_pointer_event(kind),
    {
        self.pointer_events.push(PointerEvent { kind, x: self.pointer_x, y: self.pointer_y });
        assert(self@ == old(self)@.with_pointer_event(kind));
    }

    /// The pointer entered a protocol surface at the given position.
    #[verifier::rlimit(50)]
    fn pointer_enter(&mut self, surface: u32, x: i32, y: i32)
        requires
            old(self).wf(),
        ensures
            final(self)@ == (AppModel {
                pointer_focus: old(self)@.registry.window_on(surface),
                pointer_position: (x, y),
                ..old(self)@
            }).with_pointer_event(PointerEventKind::Enter),
    {
        self.pointer_focus = self.windows.find_window_by_surface(surface);
        self.pointer_x = x;
        self.pointer_y = y;
        assert(self@ == (AppModel {
            pointer_focus: old(self)@.registry.window_on(surface),
            pointer_position: (x, y),
            ..old(self)@
        }));
        self.push_pointer_event(PointerEventKind::Enter);
    }

    /// The pointer left the surface it was on.
    fn pointer_leave(&mut self)
        ensures
            final(self)@ == (AppModel { pointer_focus: None, ..old(self)@ }).with_pointer_event(
                PointerEventKind::Leave,
            ),
    {
        self.pointer_focus = None;
        assert(self@ == (AppModel { pointer_focus: None, ..old(self)@ }));
        self.push_pointer_event(PointerEventKind::Leave);
    }

    /// The pointer moved to the given position.
    fn pointer_motion(&mut self, x: i32, y: i32)
        ensures
            final(self)@ == (AppModel {
                pointer_position: (x, y),
                ..old(self)@
            }).with_pointer_event(PointerEventKind::Motion),
    {
        self.pointer_x = x;
        self.pointer_y = y;
        assert(self@ == (AppModel { pointer_position: (x, y), ..old(self)@ }));
        self.push_pointer_event(PointerEventKind::Motion);
    }

    /// A button went down.
    fn pointer_press(&mut self, button: u32, serial: u32)
        ensures
            final(self)@ == (AppModel { last_serial: serial, ..old(self)@ }).with_pointer_event(
                PointerEventKind::Press(button_of_code(button)),
            ),
    {
        self.last_serial = serial;
        assert(self@ == (AppModel { last_serial: serial, ..old(self)@ }));
        self.push_pointer_event(PointerEventKind::Press(PointerButton::from_code(button)));
    }

    /// Takes one report of the pointer.
    #[verifier::rlimit(50)]
    pub fn pointer_input(&mut self, input: PointerInput)
        requires
            old(self).wf(),
        ensures
            final(self).wf(),
            final(self)@ == old(self)@.pointer_moved(input),
    {
        match input.kind {
            PointerInputKind::Enter => {
                self.pointer_enter(input.surface, input.x, input.y);
            },
            PointerInputKind::Leave => {
                self.pointer_leave();
            },
            PointerInputKind::Motion => {
                self.pointer_motion(input.x, input.y);
            },
            PointerInputKind::Press { button, serial } => {
                self.pointer_press(button, serial);
            },
            PointerInputKind::Release { button } => {
                self.push_pointer_event(
                    PointerEventKind::Release(PointerButton::from_code(button)),
                );
            },
            PointerInputKind::Axis { horizontal, vertical } => {
                if horizontal != 0 || vertical != 0 {
                    self.push_pointer_event(
                        PointerEventKind::Scroll { dx: horizontal, dy: vertical },
                    );
                }
            },
        }
    }

    /// Takes the pointer reports of one frame, in order.
    pub fn pointer_frame(&mut self, events: &[PointerInput])
        requires
            old(self).wf(),
        ensures
            final(self).wf(),
            final(self)@ == old(self)@.pointer_frame(events@),
    {
        let mut i: usize = 0;
        while i < events.len()
            invariant
                i <= events@.len(),
                self.wf(),
                self@ == old(self)@.pointer_frame(events@.subrange(0, i as int)),
            decreases events@.len() - i,
        {
            proof {
                let next = events@.subrange(0, i + 1);
                assert(next.drop_last() =~= events@.subrange(0, i as int));
                assert(next.last() == events@[i as int]);
            }
            self.pointer_input(events[i]);
            i = i + 1;
        }
        assert(events@.subrange(0, i as int) =~= events@);
    }

    /// Poll for pointer events (clicks, motion, scroll): drains the queue.
    pub fn poll_pointer_events(&mut self) -> (events: Vec<PointerEvent>)
        ensures
            events@ == old(self)@.pointer_events,
            final(self)@ == (AppModel { pointer_events: Seq::empty(), ..old(self)@ }),
    {
        let mut events: Vec<PointerEvent> = Vec::new();
        std::mem::swap(&mut self.pointer_events, &mut events);
        assert(self@ == (AppModel { pointer_events: Seq::empty(), ..old(self)@ }));
        events
    }

    /// Get current pointer position, in 1/256 of a pixel.
    pub fn pointer_position(&self) -> (position: (i32, i32))
        ensures
            position == self@.pointer_position,
    {
        (self.pointer_x, self.pointer_y)
    }

    /// Poll for completed drop events: drains the queue.
    pub fn poll_drop_events(&mut self) -> (events: Vec<DropEvent>)
        ensures
            events@ == old(self)@.drop_events,
            final(self)@ == (AppModel { drop_events: Seq::empty(), ..old(self)@ }),
    {
        let mut events: Vec<DropEvent> = Vec::new();
        std::mem::swap(&mut self.drop_events, &mut events);
        assert(self@ == (AppModel { drop_events: Seq::empty(), ..old(self)@ }));
        events
    }

    /// Start a drag operation from the given window with the given files. Each entry of
    /// `files` is a path that was resolved to an absolute path, or `None` for a path that
    /// could not be resolved.
    ///
    /// Returns true if the drag was started: then the list of the files' addresses is
    /// what the drag offers, and the drag is to be tied to the serial of the last pointer
    /// press. Returns false, and changes nothing, where the display server does not let
    /// data be dragged, where there is no seat, where the window is not registered, where
    /// another drag is under way, or where no path was resolved.
    pub fn start_drag(&mut self, window_id: WindowId, files: &Vec<Option<String>>) -> (started: bool)
        requires
            old(self).wf(),
        ensures
            final(self).wf(),
            started == old(self)@.can_start_drag(window_id, files@),
            final(self)@ == old(self)@.drag_started(window_id, files@),
    {
        if !self.capabilities.data_device || !self.has_seat {
            return false;
        }
        if self.windows.get_window(window_id).is_none() {
            return false;
        }
        if self.drag.is_active() {
            return false;
        }
        let list = build_uri_list(files);
        let started = self.drag.begin(list);
        assert(self@ == old(self)@.drag_started(window_id, files@));
        started
    }

    /// Whether a drag is under way.
    pub fn is_dragging(&self) -> (dragging: bool)
        ensures
            dragging == self@.drag is Some,
    {
        self.drag.is_active()
    }

    /// The receiving side asks for the dragged data as the given MIME type. Returns the
    /// bytes to write to it, in full: the payload of the drag under way where the type is
    /// the one that was offered, and nothing for any other type.
    pub fn send_request(&self, mime: &str) -> (bytes: Option<&Vec<u8>>)
        ensures
            match bytes {
                Some(b) => mime@ == URI_LIST_MIME@ && self@.drag == Some(b@),
                None => mime@ != URI_LIST_MIME@ || self@.drag is None,
            },
    {
        self.drag.respond(mime)
    }

    /// The drag was cancelled: its payload is dropped, and another drag can start.
    pub fn cancelled(&mut self)
        ensures
            final(self)@ == (AppModel { drag: None, ..old(self)@ }),
    {
        self.drag.end();
        assert(self@ == (AppModel { drag: None, ..old(self)@ }));
    }

    /// The drag was completed: its payload is dropped, and another drag can start.
    pub fn dnd_finished(&mut self)
        ensures
            final(self)@ == (AppModel { drag: None, ..old(self)@ }),
    {
        self.drag.end();
        assert(self@ == (AppModel { drag: None, ..old(self)@ }));
    }
}

/// What the runtime does to its registry is a step of the surface lifecycle, or nothing:
/// rendering is the lifecycle's rendering, a close request is the closing of the window
/// that was asked for, and input, key repeat and drags leave the registry alone. So what
/// holds of every sequence of lifecycle steps holds of the runtime.
#[verifier::rlimit(50)]
pub proof fn lemma_registry_steps(
    a: AppModel,
    s: SurfaceRef,
    surface: u32,
    inputs: Seq<PointerInput>,
    keysym: u32,
    text: Option<String>,
    now: u64,
    paths: Seq<Option<String>>,
    window: WindowId,
)
    requires
        a.wf(),
    ensures
        a.rendered(s).registry == a.registry.apply(SurfaceOp::Render { target: s }),
        a.close_requested(surface).registry == match a.registry.window_on(surface) {
            Some(id) => a.registry.apply(SurfaceOp::Close { target: SurfaceRef::Window(id) }),
            None => a.registry,
        },
        a.pointer_frame(inputs).registry == a.registry,
        a.key_pressed(keysym, text, now).registry == a.registry,
        a.key_released(keysym, text).registry == a.registry,
        a.keys_polled(now).registry == a.registry,
        a.drag_started(window, paths).registry == a.registry,
    decreases inputs.len(),
{
    lemma_render_clears_once(a.registry, s);
    if inputs.len() > 0 {
        lemma_registry_steps(a, s, surface, inputs.drop_last(), keysym, text, now, paths, window);
    }
}

/// Rendering clears the dirty flag once: a rendering of a surface that owes no repaint is
/// a no-op, which plans no frame and leaves the state as it is, and so is every rendering
/// that follows another without a configuration or a request for a repaint in between.
#[verifier::rlimit(50)]
pub proof fn lemma_render_twice(a: AppModel, s: SurfaceRef)
    requires
        a.wf(),
    ensures
        !a.registry.is_dirty(s) ==> a.frame_of(s) is None && a.rendered(s) == a,
        !a.rendered(s).registry.is_dirty(s),
        a.rendered(s).frame_of(s) is None,
        a.rendered(s).rendered(s) == a.rendered(s),
{
    lemma_render_clears_once(a.registry, s);
}

/// A modifier never repeats: a press of Shift, Control, Alt or Super is queued like any
/// press and leaves key repeat as it is. The modifier does not become the held key, and a
/// key that is held keeps its delay and goes on repeating.
pub proof fn lemma_modifier_press_keeps_repeat(
    a: AppModel,
    keysym: u32,
    text: Option<String>,
    now: u64,
)
    requires
        is_modifier_keysym(keysym),
    ensures
        a.key_pressed(keysym, text, now).repeat == a.repeat,
        a.key_pressed(keysym, text, now).key_events == a.key_events.push(
            a.key_event(keysym, text, KeyState::Pressed),
        ),
        is_modifier_key(a.key_event(keysym, text, KeyState::Pressed).key),
{
    lemma_modifier_keysyms(keysym);
}

/// A drag does not start without a file: where the list of paths is empty, or none of the
/// paths was resolved, `start_drag` fails and leaves the state as it was, with no drag
/// under way if none was.
pub proof fn lemma_drag_needs_a_file(a: AppModel, window: WindowId, paths: Seq<Option<String>>)
    requires
        forall|i: int| 0 <= i < paths.len() ==> (#[trigger] paths[i]) is None,
    ensures
        !a.can_start_drag(window, paths),
        a.drag_started(window, paths) == a,
        a.drag is None ==> a.drag_started(window, paths).drag is None,
{
    let bytes = path_bytes(paths);
    assert forall|i: int| 0 <= i < bytes.len() implies (#[trigger] bytes[i]) is None by {
        assert(paths[i] is None);
    }
    lemma_uri_list_empty(bytes);
}

/// There is one drag at a time: while a drag is under way no other starts, and a drag that
/// has started is under way, offering one line for each file that was resolved, until it
/// is cancelled or completed.
pub proof fn lemma_one_drag_at_a_time(
    a: AppModel,
    window: WindowId,
    paths: Seq<Option<String>>,
    other: WindowId,
    more: Seq<Option<String>>,
)
    ensures
        a.drag is Some ==> !a.can_start_drag(window, paths) && a.drag_started(window, paths) == a,
        a.can_start_drag(window, paths) ==> {
            &&& a.drag_started(window, paths).drag == Some(uri_list(path_bytes(paths)))
            &&& !a.drag_started(window, paths).can_start_drag(other, more)
        },
{
}

} // verus!
