//! The surface registry: every live surface of the five kinds, keyed by identifier.
//!
//! The registry stores records. It knows each surface's size, whether a repaint is owed
//! (`dirty`), whether the server has acknowledged a configuration (`configured`), and which
//! window a dependent surface belongs to. The protocol objects themselves stay with whoever
//! talks to the display server; a record names its protocol surface by number.

use crate::attached_surface::{AttachedSurface, AttachedSurfaceId};
use crate::widget::{signed, to_signed};
use std::collections::HashMap;
use vstd::prelude::*;
use vstd::std_specs::iter::IteratorSpec;

verus! {

/// Identifier of a top-level window.
#[derive(Clone, Copy, Debug, PartialEq, Eq, Hash, Structural)]
pub struct WindowId(pub u64);

/// Identifier of a popup.
#[derive(Clone, Copy, Debug, PartialEq, Eq, Hash, Structural)]
pub struct PopupId(pub u64);

/// Identifier of a screen-level overlay.
#[derive(Clone, Copy, Debug, PartialEq, Eq, Hash, Structural)]
pub struct OverlayId(pub u64);

/// Identifier of a subsurface.
#[derive(Clone, Copy, Debug, PartialEq, Eq, Hash, Structural)]
pub struct SubsurfaceId(pub u64);

/// The least width and the least height that the server is asked to give a window.
pub const MIN_WINDOW_SIDE: u32 = 100;

/// The name under which overlays are announced to the server.
pub const OVERLAY_NAMESPACE: &'static str = "mkframe-overlay";

/// A top-level application surface.
#[derive(Clone, Copy, Debug)]
pub struct Window {
    pub id: WindowId,
    /// Number of the protocol surface that backs this window.
    pub surface: u32,
    pub width: u32,
    pub height: u32,
    /// A repaint is owed.
    pub dirty: bool,
    /// The server has acknowledged a configuration of this window.
    pub configured: bool,
    /// Whether the server was asked to decorate the window.
    pub decorations: bool,
}

impl Window {
    /// A window is never dirty before its first configuration.
    pub open spec fn valid(self) -> bool {
        self.dirty ==> self.configured
    }

    pub fn is_valid(&self) -> (v: bool)
        ensures
            v == self.valid(),
    {
        !self.dirty || self.configured
    }

    /// Number of the protocol surface that backs this window.
    pub fn surface(&self) -> (s: u32)
        ensures
            s == self.surface,
    {
        self.surface
    }

    /// Records that a repaint is owed. Before the first configuration nothing can be
    /// painted, and the record stays as it is.
    pub fn mark_dirty(&mut self)
        ensures
            *final(self) == (Window { dirty: old(self).configured, ..*old(self) }),
    {
        self.dirty = self.configured;
    }
}

/// How a popup is to be placed relative to its parent, as the caller asks for it.
#[derive(Clone, Copy, Debug)]
pub struct PopupConfig {
    pub anchor: PopupAnchor,
    pub gravity: PopupGravity,
    pub offset: (i32, i32),
    pub size: (u32, u32),
    /// The rectangle to anchor to, in the parent's coordinates; the whole parent where absent.
    pub anchor_rect: Option<(i32, i32, i32, i32)>,
}

impl Default for PopupConfig {
    fn default() -> (c: PopupConfig)
        ensures
            c == (PopupConfig {
                anchor: PopupAnchor::Right,
                gravity: PopupGravity::Right,
                offset: (0, 0),
                size: (200, 200),
                anchor_rect: None,
            }),
    {
        PopupConfig {
            anchor: PopupAnchor::Right,
            gravity: PopupGravity::Right,
            offset: (0, 0),
            size: (200, 200),
            anchor_rect: None,
        }
    }
}

/// The edge or corner of the anchor rectangle that a popup is attached to.
#[derive(Clone, Copy, Debug, PartialEq, Eq, Structural)]
pub enum PopupAnchor {
    Top,
    Bottom,
    Left,
    Right,
    TopLeft,
    TopRight,
    BottomLeft,
    BottomRight,
}

/// The direction in which a popup extends from its anchor.
#[derive(Clone, Copy, Debug, PartialEq, Eq, Structural)]
pub enum PopupGravity {
    Top,
    Bottom,
    Left,
    Right,
    TopLeft,
    TopRight,
    BottomLeft,
    BottomRight,
}

/// The geometry that positions a popup, as it is sent to the server. It is computed once,
/// when the popup is created, and never again.
#[derive(Clone, Copy, Debug, PartialEq, Eq)]
pub struct PopupPlacement {
    pub anchor: PopupAnchor,
    pub gravity: PopupGravity,
    pub offset: (i32, i32),
    pub size: (i32, i32),
    /// `(x, y, width, height)` in the parent's coordinates.
    pub anchor_rect: (i32, i32, i32, i32),
}

/// The placement that a configuration asks for against a parent of the given size: the
/// configured anchor rectangle, or the parent's whole area where none is configured.
pub open spec fn placement_for(
    config: PopupConfig,
    parent_width: u32,
    parent_height: u32,
) -> PopupPlacement {
    PopupPlacement {
        anchor: config.anchor,
        gravity: config.gravity,
        offset: config.offset,
        size: (signed(config.size.0) as i32, signed(config.size.1) as i32),
        anchor_rect: match config.anchor_rect {
            Some(rect) => rect,
            None => (0, 0, signed(parent_width) as i32, signed(parent_height) as i32),
        },
    }
}

impl PopupConfig {
    /// Computes the placement of a popup against a parent of the given size.
    pub fn placement(&self, parent_width: u32, parent_height: u32) -> (p: PopupPlacement)
        ensures
            p == placement_for(*self, parent_width, parent_height),
    {
        let anchor_rect = match self.anchor_rect {
            Some(rect) => rect,
            None => (0, 0, to_signed(parent_width), to_signed(parent_height)),
        };
        PopupPlacement {
            anchor: self.anchor,
            gravity: self.gravity,
            offset: self.offset,
            size: (to_signed(self.size.0), to_signed(self.size.1)),
            anchor_rect,
        }
    }
}

/// A popup that belongs to a window.
#[derive(Clone, Copy, Debug)]
pub struct Popup {
    pub id: PopupId,
    pub parent: WindowId,
    /// Number of the protocol surface that backs this popup.
    pub surface: u32,
    pub width: u32,
    pub height: u32,
    /// A repaint is owed.
    pub dirty: bool,
    /// The server has acknowledged a configuration of this popup.
    pub configured: bool,
    /// Where the popup sits; fixed at creation.
    pub placement: PopupPlacement,
}

impl Popup {
    /// A popup is never dirty before its first configuration.
    pub open spec fn valid(self) -> bool {
        self.dirty ==> self.configured
    }

    pub fn is_valid(&self) -> (v: bool)
        ensures
            v == self.valid(),
    {
        !self.dirty || self.configured
    }

    /// Number of the protocol surface that backs this popup.
    pub fn surface(&self) -> (s: u32)
        ensures
            s == self.surface,
    {
        self.surface
    }

    /// Records that a repaint is owed; without effect before the first configuration.
    pub fn mark_dirty(&mut self)
        ensures
            *final(self) == (Popup { dirty: old(self).configured, ..*old(self) }),
    {
        self.dirty = self.configured;
    }
}

/// A persistent screen-level surface, independent of the window stack.
#[derive(Clone, Copy, Debug)]
pub struct Overlay {
    pub id: OverlayId,
    /// Number of the protocol surface that backs this overlay.
    pub surface: u32,
    pub width: u32,
    pub height: u32,
    /// A repaint is owed.
    pub dirty: bool,
    /// The server has acknowledged a configuration of this overlay.
    pub configured: bool,
}

impl Overlay {
    /// An overlay is never dirty before its first configuration.
    pub open spec fn valid(self) -> bool {
        self.dirty ==> self.configured
    }

    pub fn is_valid(&self) -> (v: bool)
        ensures
            v == self.valid(),
    {
        !self.dirty || self.configured
    }

    /// Number of the protocol surface that backs this overlay.
    pub fn surface(&self) -> (s: u32)
        ensures
            s == self.surface,
    {
        self.surface
    }

    /// Records that a repaint is owed; without effect before the first configuration.
    pub fn mark_dirty(&mut self)
        ensures
            *final(self) == (Overlay { dirty: old(self).configured, ..*old(self) }),
    {
        self.dirty = self.configured;
    }
}

/// A surface placed inside a window, in the window's coordinates. It needs no
/// configuration and can be painted as soon as it exists.
#[derive(Clone, Copy, Debug)]
pub struct Subsurface {
    pub id: SubsurfaceId,
    pub parent: WindowId,
    /// Number of the protocol surface that backs this subsurface.
    pub surface: u32,
    pub x: i32,
    pub y: i32,
    pub width: u32,
    pub height: u32,
    /// A repaint is owed.
    pub dirty: bool,
}

impl Subsurface {
    /// Every subsurface record is valid.
    pub open spec fn valid(self) -> bool {
        true
    }

    pub fn is_valid(&self) -> (v: bool)
        ensures
            v == self.valid(),
    {
        true
    }

    /// Number of the protocol surface that backs this subsurface.
    pub fn wl_surface(&self) -> (s: u32)
        ensures
            s == self.surface,
    {
        self.surface
    }

    /// Moves the subsurface within its parent.
    pub fn set_position(&mut self, x: i32, y: i32)
        ensures
            *final(self) == (Subsurface { x, y, ..*old(self) }),
    {
        self.x = x;
        self.y = y;
    }

    /// Records that a repaint is owed.
    pub fn mark_dirty(&mut self)
        ensures
            *final(self) == (Subsurface { dirty: true, ..*old(self) }),
    {
        self.dirty = true;
    }
}

/// What the registry holds: one map per kind from identifier to record, and one counter
/// per kind that gives the next identifier.
pub struct RegistryModel {
    pub windows: Map<u64, Window>,
    pub popups: Map<u64, Popup>,
    pub overlays: Map<u64, Overlay>,
    pub subsurfaces: Map<u64, Subsurface>,
    pub attached_surfaces: Map<u64, AttachedSurface>,
    pub next_window_id: u64,
    pub next_popup_id: u64,
    pub next_overlay_id: u64,
    pub next_subsurface_id: u64,
    pub next_attached_surface_id: u64,
}

impl RegistryModel {
    /// The registry's invariant: every record is stored under its own identifier, is valid,
    /// and has an identifier that the counter of its kind has already passed.
    pub open spec fn wf(self) -> bool {
        &&& self.next_window_id >= 1
        &&& self.windows.dom().finite()
        &&& forall|k: u64| #[trigger]
            self.windows.contains_key(k) ==> {
                &&& self.windows[k].id.0 == k
                &&& 1 <= k < self.next_window_id
                &&& self.windows[k].valid()
            }
        &&& self.next_popup_id >= 1
        &&& self.popups.dom().finite()
        &&& forall|k: u64| #[trigger]
            self.popups.contains_key(k) ==> {
                &&& self.popups[k].id.0 == k
                &&& 1 <= k < self.next_popup_id
                &&& self.popups[k].valid()
            }
        &&& self.next_overlay_id >= 1
        &&& self.overlays.dom().finite()
        &&& forall|k: u64| #[trigger]
            self.overlays.contains_key(k) ==> {
                &&& self.overlays[k].id.0 == k
                &&& 1 <= k < self.next_overlay_id
                &&& self.overlays[k].valid()
            }
        &&& self.next_subsurface_id >= 1
        &&& self.subsurfaces.dom().finite()
        &&& forall|k: u64| #[trigger]
            self.subsurfaces.contains_key(k) ==> {
                &&& self.subsurfaces[k].id.0 == k
                &&& 1 <= k < self.next_subsurface_id
                &&& self.subsurfaces[k].valid()
            }
        &&& self.next_attached_surface_id >= 1
        &&& self.attached_surfaces.dom().finite()
        &&& forall|k: u64| #[trigger]
            self.attached_surfaces.contains_key(k) ==> {
                &&& self.attached_surfaces[k].id.0 == k
                &&& 1 <= k < self.next_attached_surface_id
                &&& self.attached_surfaces[k].valid()
            }
    }

    /// The registry with no surface, whose first identifier of each kind is 1.
    pub open spec fn empty() -> RegistryModel {
        RegistryModel {
            windows: Map::empty(),
            popups: Map::empty(),
            overlays: Map::empty(),
            subsurfaces: Map::empty(),
            attached_surfaces: Map::empty(),
            next_window_id: 1,
            next_popup_id: 1,
            next_overlay_id: 1,
            next_subsurface_id: 1,
            next_attached_surface_id: 1,
        }
    }

    /// The window with this identifier, if it is registered.
    pub open spec fn window(self, id: WindowId) -> Option<Window> {
        if self.windows.contains_key(id.0) {
            Some(self.windows[id.0])
        } else {
            None
        }
    }

    /// The registry with its next window identifier used up.
    pub open spec fn skip_window_id(self) -> RegistryModel {
        RegistryModel { next_window_id: (self.next_window_id + 1) as u64, ..self }
    }

    /// The registry with the record stored under its own identifier.
    pub open spec fn with_window(self, record: Window) -> RegistryModel {
        RegistryModel { windows: self.windows.insert(record.id.0, record), ..self }
    }

    /// The registry without the window of this identifier.
    pub open spec fn without_window(self, id: WindowId) -> RegistryModel {
        RegistryModel { windows: self.windows.remove(id.0), ..self }
    }

    /// Some registered window is backed by this protocol surface.
    pub open spec fn has_window_on(self, surface: u32) -> bool {
        exists|k: u64| #[trigger] self.windows.contains_key(k) && self.windows[k].surface == surface
    }

    /// The window `k` is backed by this protocol surface, and no window with a lesser
    /// identifier is.
    pub open spec fn is_first_window_on(self, surface: u32, k: u64) -> bool {
        &&& self.windows.contains_key(k)
        &&& self.windows[k].surface == surface
        &&& forall|j: u64|
            self.windows.contains_key(j) && self.windows[j].surface == surface ==> k <= j
    }

    /// The first window that is backed by this protocol surface, if there is one.
    pub open spec fn window_on(self, surface: u32) -> Option<WindowId> {
        if self.has_window_on(surface) {
            Some(WindowId(choose|k: u64| self.is_first_window_on(surface, k)))
        } else {
            None
        }
    }

    /// The popup with this identifier, if it is registered.
    pub open spec fn popup(self, id: PopupId) -> Option<Popup> {
        if self.popups.contains_key(id.0) {
            Some(self.popups[id.0])
        } else {
            None
        }
    }

    /// The registry with its next popup identifier used up.
    pub open spec fn skip_popup_id(self) -> RegistryModel {
        RegistryModel { next_popup_id: (self.next_popup_id + 1) as u64, ..self }
    }

    /// The registry with the record stored under its own identifier.
    pub open spec fn with_popup(self, record: Popup) -> RegistryModel {
        RegistryModel { popups: self.popups.insert(record.id.0, record), ..self }
    }

    /// The registry without the popup of this identifier.
    pub open spec fn without_popup(self, id: PopupId) -> RegistryModel {
        RegistryModel { popups: self.popups.remove(id.0), ..self }
    }

    /// Some registered popup is backed by this protocol surface.
    pub open spec fn has_popup_on(self, surface: u32) -> bool {
        exists|k: u64| #[trigger] self.popups.contains_key(k) && self.popups[k].surface == surface
    }

    /// The popup `k` is backed by this protocol surface, and no popup with a lesser
    /// identifier is.
    pub open spec fn is_first_popup_on(self, surface: u32, k: u64) -> bool {
        &&& self.popups.contains_key(k)
        &&& self.popups[k].surface == surface
        &&& forall|j: u64|
            self.popups.contains_key(j) && self.popups[j].surface == surface ==> k <= j
    }

    /// The first popup that is backed by this protocol surface, if there is one.
    pub open spec fn popup_on(self, surface: u32) -> Option<PopupId> {
        if self.has_popup_on(surface) {
            Some(PopupId(choose|k: u64| self.is_first_popup_on(surface, k)))
        } else {
            None
        }
    }

    /// The overlay with this identifier, if it is registered.
    pub open spec fn overlay(self, id: OverlayId) -> Option<Overlay> {
        if self.overlays.contains_key(id.0) {
            Some(self.overlays[id.0])
        } else {
            None
        }
    }

    /// The registry with its next overlay identifier used up.
    pub open spec fn skip_overlay_id(self) -> RegistryModel {
        RegistryModel { next_overlay_id: (self.next_overlay_id + 1) as u64, ..self }
    }

    /// The registry with the record stored under its own identifier.
    pub open spec fn with_overlay(self, record: Overlay) -> RegistryModel {
        RegistryModel { overlays: self.overlays.insert(record.id.0, record), ..self }
    }

    /// The registry without the overlay of this identifier.
    pub open spec fn without_overlay(self, id: OverlayId) -> RegistryModel {
        RegistryModel { overlays: self.overlays.remove(id.0), ..self }
    }

    /// Some registered overlay is backed by this protocol surface.
    pub open spec fn has_overlay_on(self, surface: u32) -> bool {
        exists|k: u64| #[trigger] self.overlays.contains_key(k) && self.overlays[k].surface == surface
    }

    /// The overlay `k` is backed by this protocol surface, and no overlay with a lesser
    /// identifier is.
    pub open spec fn is_first_overlay_on(self, surface: u32, k: u64) -> bool {
        &&& self.overlays.contains_key(k)
        &&& self.overlays[k].surface == surface
        &&& forall|j: u64|
            self.overlays.contains_key(j) && self.overlays[j].surface == surface ==> k <= j
    }

    /// The first overlay that is backed by this protocol surface, if there is one.
    pub open spec fn overlay_on(self, surface: u32) -> Option<OverlayId> {
        if self.has_overlay_on(surface) {
            Some(OverlayId(choose|k: u64| self.is_first_overlay_on(surface, k)))
        } else {
            None
        }
    }

    /// The subsurface with this identifier, if it is registered.
    pub open spec fn subsurface(self, id: SubsurfaceId) -> Option<Subsurface> {
        if self.subsurfaces.contains_key(id.0) {
            Some(self.subsurfaces[id.0])
        } else {
            None
        }
    }

    /// The registry with its next subsurface identifier used up.
    pub open spec fn skip_subsurface_id(self) -> RegistryModel {
        RegistryModel { next_subsurface_id: (self.next_subsurface_id + 1) as u64, ..self }
    }

    /// The registry with the record stored under its own identifier.
    pub open spec fn with_subsurface(self, record: Subsurface) -> RegistryModel {
        RegistryModel { subsurfaces: self.subsurfaces.insert(record.id.0, record), ..self }
    }

    /// The registry without the subsurface of this identifier.
    pub open spec fn without_subsurface(self, id: SubsurfaceId) -> RegistryModel {
        RegistryModel { subsurfaces: self.subsurfaces.remove(id.0), ..self }
    }

    /// Some registered subsurface is backed by this protocol surface.
    pub open spec fn has_subsurface_on(self, surface: u32) -> bool {
        exists|k: u64| #[trigger] self.subsurfaces.contains_key(k) && self.subsurfaces[k].surface == surface
    }

    /// The subsurface `k` is backed by this protocol surface, and no subsurface with a lesser
    /// identifier is.
    pub open spec fn is_first_subsurface_on(self, surface: u32, k: u64) -> bool {
        &&& self.subsurfaces.contains_key(k)
        &&& self.subsurfaces[k].surface == surface
        &&& forall|j: u64|
            self.subsurfaces.contains_key(j) && self.subsurfaces[j].surface == surface ==> k <= j
    }

    /// The first subsurface that is backed by this protocol surface, if there is one.
    pub open spec fn subsurface_on(self, surface: u32) -> Option<SubsurfaceId> {
        if self.has_subsurface_on(surface) {
            Some(SubsurfaceId(choose|k: u64| self.is_first_subsurface_on(surface, k)))
        } else {
            None
        }
    }

    /// The attached surface with this identifier, if it is registered.
    pub open spec fn attached_surface(self, id: AttachedSurfaceId) -> Option<AttachedSurface> {
        if self.attached_surfaces.contains_key(id.0) {
            Some(self.attached_surfaces[id.0])
        } else {
            None
        }
    }

    /// The registry with its next attached surface identifier used up.
    pub open spec fn skip_attached_surface_id(self) -> RegistryModel {
        RegistryModel { next_attached_surface_id: (self.next_attached_surface_id + 1) as u64, ..self }
    }

    /// The registry with the record stored under its own identifier.
    pub open spec fn with_attached_surface(self, record: AttachedSurface) -> RegistryModel {
        RegistryModel { attached_surfaces: self.attached_surfaces.insert(record.id.0, record), ..self }
    }

    /// The registry without the attached surface of this identifier.
    pub open spec fn without_attached_surface(self, id: AttachedSurfaceId) -> RegistryModel {
        RegistryModel { attached_surfaces: self.attached_surfaces.remove(id.0), ..self }
    }

    /// Some registered attached surface is backed by this protocol surface.
    pub open spec fn has_attached_surface_on(self, surface: u32) -> bool {
        exists|k: u64| #[trigger] self.attached_surfaces.contains_key(k) && self.attached_surfaces[k].surface == surface
    }

    /// The attached surface `k` is backed by this protocol surface, and no attached surface with a lesser
    /// identifier is.
    pub open spec fn is_first_attached_surface_on(self, surface: u32, k: u64) -> bool {
        &&& self.attached_surfaces.contains_key(k)
        &&& self.attached_surfaces[k].surface == surface
        &&& forall|j: u64|
            self.attached_surfaces.contains_key(j) && self.attached_surfaces[j].surface == surface ==> k <= j
    }

    /// The first attached surface that is backed by this protocol surface, if there is one.
    pub open spec fn attached_surface_on(self, surface: u32) -> Option<AttachedSurfaceId> {
        if self.has_attached_surface_on(surface) {
            Some(AttachedSurfaceId(choose|k: u64| self.is_first_attached_surface_on(surface, k)))
        } else {
            None
        }
    }

    /// The identifiers of the popups whose parent is the given window.
    pub open spec fn popups_of(self, window: WindowId) -> Set<u64> {
        Set::new(|k: u64| self.popups.contains_key(k) && self.popups[k].parent == window)
    }

    /// The registry without the popups whose parent is the given window.
    pub open spec fn without_popups_of(self, window: WindowId) -> RegistryModel {
        RegistryModel { popups: self.popups.remove_keys(self.popups_of(window)), ..self }
    }
}

/// The surface registry. It owns every surface record; a surface is destroyed by removing
/// its record.
pub struct WindowManager {
    windows: HashMap<u64, Window>,
    popups: HashMap<u64, Popup>,
    overlays: HashMap<u64, Overlay>,
    subsurfaces: HashMap<u64, Subsurface>,
    attached_surfaces: HashMap<u64, AttachedSurface>,
    next_window_id: u64,
    next_popup_id: u64,
    next_overlay_id: u64,
    next_subsurface_id: u64,
    next_attached_surface_id: u64,
}

impl View for WindowManager {
    type V = RegistryModel;

    closed spec fn view(&self) -> RegistryModel {
        RegistryModel {
            windows: self.windows@,
            popups: self.popups@,
            overlays: self.overlays@,
            subsurfaces: self.subsurfaces@,
            attached_surfaces: self.attached_surfaces@,
            next_window_id: self.next_window_id,
            next_popup_id: self.next_popup_id,
            next_overlay_id: self.next_overlay_id,
            next_subsurface_id: self.next_subsurface_id,
            next_attached_surface_id: self.next_attached_surface_id,
        }
    }
}

impl Default for WindowManager {
    fn default() -> (m: WindowManager)
        ensures
            m.wf(),
            m@ == RegistryModel::empty(),
    {
        WindowManager::new()
    }
}

impl WindowManager {
    /// The registry's invariant holds of what it stores.
    pub open spec fn wf(&self) -> bool {
        self@.wf()
    }

    /// An empty registry.
    pub fn new() -> (m: WindowManager)
        ensures
            m.wf(),
            m@ == RegistryModel::empty(),
    {
        broadcast use vstd::std_specs::hash::group_hash_axioms;

        WindowManager {
            windows: HashMap::new(),
            popups: HashMap::new(),
            overlays: HashMap::new(),
            subsurfaces: HashMap::new(),
            attached_surfaces: HashMap::new(),
            next_window_id: 1,
            next_popup_id: 1,
            next_overlay_id: 1,
            next_subsurface_id: 1,
            next_attached_surface_id: 1,
        }
    }

    /// Hands out the next window identifier. Identifiers start at 1 and are never handed
    /// out twice.
    pub fn next_window_id(&mut self) -> (id: WindowId)
        requires
            old(self).wf(),
            old(self)@.next_window_id < u64::MAX,
        ensures
            final(self).wf(),
            id.0 == old(self)@.next_window_id,
            final(self)@ == old(self)@.skip_window_id(),
    {
        let id = WindowId(self.next_window_id);
        self.next_window_id = self.next_window_id + 1;
        assert(self@ == old(self)@.skip_window_id());
        id
    }

    /// Looks up a window by identifier.
    pub fn get_window(&self, id: WindowId) -> (found: Option<&Window>)
        requires
            self.wf(),
        ensures
            match found {
                Some(record) => self@.window(id) == Some(*record),
                None => self@.window(id) is None,
            },
    {
        broadcast use vstd::std_specs::hash::group_hash_axioms;

        self.windows.get(&id.0)
    }

    /// Registers a new window under a fresh identifier. The record's `id` field is
    /// replaced by that identifier. Nothing is registered, and no identifier is used up,
    /// where the record is not valid.
    pub fn add_window(&mut self, record: Window) -> (added: Option<WindowId>)
        requires
            old(self).wf(),
            record.valid() ==> old(self)@.next_window_id < u64::MAX,
        ensures
            final(self).wf(),
            record.valid() ==> added == Some(WindowId(old(self)@.next_window_id)),
            !record.valid() ==> added is None,
            match added {
                Some(id) => final(self)@ == old(self)@.skip_window_id().with_window(
                    Window { id, ..record },
                ),
                None => final(self)@ == old(self)@,
            },
    {
        broadcast use vstd::std_specs::hash::group_hash_axioms;

        if !record.is_valid() {
            return None;
        }
        let id = self.next_window_id();
        let stored = Window { id, ..record };
        self.windows.insert(id.0, stored);
        assert(self@ == old(self)@.skip_window_id().with_window(stored));
        Some(id)
    }

    /// Replaces the record of a registered window, found by the record's `id`. Nothing
    /// changes where no such window is registered or the record is not valid.
    pub fn update_window(&mut self, record: Window) -> (updated: bool)
        requires
            old(self).wf(),
        ensures
            final(self).wf(),
            updated == (old(self)@.window(record.id) is Some && record.valid()),
            updated ==> final(self)@ == old(self)@.with_window(record),
            !updated ==> final(self)@ == old(self)@,
    {
        broadcast use vstd::std_specs::hash::group_hash_axioms;

        if !record.is_valid() || !self.windows.contains_key(&record.id.0) {
            return false;
        }
        self.windows.insert(record.id.0, record);
        assert(self@ == old(self)@.with_window(record));
        true
    }

    /// Removes a window and returns its record; `None` where it was not registered.
    pub fn remove_window(&mut self, id: WindowId) -> (removed: Option<Window>)
        requires
            old(self).wf(),
        ensures
            final(self).wf(),
            removed == old(self)@.window(id),
            final(self)@ == old(self)@.without_window(id),
    {
        broadcast use vstd::std_specs::hash::group_hash_axioms;

        let removed = self.windows.remove(&id.0);
        assert(self@ == old(self)@.without_window(id));
        removed
    }

    /// Finds the window that is backed by the given protocol surface. Where several are,
    /// the one with the least identifier is returned, which is the one created first.
    pub fn find_window_by_surface(&self, surface: u32) -> (found: Option<WindowId>)
        requires
            self.wf(),
        ensures
            found == self@.window_on(surface),
    {
        broadcast use vstd::std_specs::hash::group_hash_axioms;

        let mut found: Option<WindowId> = None;
        let ghost all = self.windows.iter().remaining();
        for (key, record) in it: self.windows.iter()
            invariant
                it.seq() == all,
                match found {
                    Some(id) => {
                        &&& self.windows@.contains_key(id.0)
                        &&& self.windows@[id.0].surface == surface
                        &&& forall|i: int|
                            0 <= i < it.index() && (#[trigger] it.seq()[i]).1.surface == surface
                                ==> id.0 <= *it.seq()[i].0
                    },
                    None => forall|i: int|
                        0 <= i < it.index() ==> (#[trigger] it.seq()[i]).1.surface != surface,
                },
        {
            if record.surface == surface {
                let better = match found {
                    Some(id) => *key < id.0,
                    None => true,
                };
                if better {
                    found = Some(WindowId(*key));
                }
            }
        }
        proof {
            match found {
                Some(id) => {
                    assert forall|j: u64|
                        self.windows@.contains_key(j) && self.windows@[j].surface
                            == surface implies id.0 <= j by {
                        assert(all.contains((&j, &self.windows@[j])));
                    }
                    assert(self@.is_first_window_on(surface, id.0));
                    let chosen = choose|k: u64| self@.is_first_window_on(surface, k);
                    assert(chosen == id.0);
                },
                None => {
                    assert forall|k: u64| #[trigger]
                        self.windows@.contains_key(k) implies self.windows@[k].surface
                        != surface by {
                        assert(all.contains((&k, &self.windows@[k])));
                    }
                },
            }
        }
        found
    }

    /// Whether another window identifier can be handed out.
    pub fn has_free_window_id(&self) -> (free: bool)
        ensures
            free == (self@.next_window_id < u64::MAX),
    {
        self.next_window_id < u64::MAX
    }

    /// How many window records are registered.
    pub fn window_count(&self) -> (n: usize)
        requires
            self.wf(),
        ensures
            n == self@.windows.len(),
    {
        broadcast use vstd::std_specs::hash::group_hash_axioms;

        self.windows.len()
    }

    /// Hands out the next popup identifier. Identifiers start at 1 and are never handed
    /// out twice.
    pub fn next_popup_id(&mut self) -> (id: PopupId)
        requires
            old(self).wf(),
            old(self)@.next_popup_id < u64::MAX,
        ensures
            final(self).wf(),
            id.0 == old(self)@.next_popup_id,
            final(self)@ == old(self)@.skip_popup_id(),
    {
        let id = PopupId(self.next_popup_id);
        self.next_popup_id = self.next_popup_id + 1;
        assert(self@ == old(self)@.skip_popup_id());
        id
    }

    /// Looks up a popup by identifier.
    pub fn get_popup(&self, id: PopupId) -> (found: Option<&Popup>)
        requires
            self.wf(),
        ensures
            match found {
                Some(record) => self@.popup(id) == Some(*record),
                None => self@.popup(id) is None,
            },
    {
        broadcast use vstd::std_specs::hash::group_hash_axioms;

        self.popups.get(&id.0)
    }

    /// Registers a new popup under a fresh identifier. The record's `id` field is
    /// replaced by that identifier. Nothing is registered, and no identifier is used up,
    /// where the record is not valid.
    pub fn add_popup(&mut self, record: Popup) -> (added: Option<PopupId>)
        requires
            old(self).wf(),
            record.valid() ==> old(self)@.next_popup_id < u64::MAX,
        ensures
            final(self).wf(),
            record.valid() ==> added == Some(PopupId(old(self)@.next_popup_id)),
            !record.valid() ==> added is None,
            match added {
                Some(id) => final(self)@ == old(self)@.skip_popup_id().with_popup(
                    Popup { id, ..record },
                ),
                None => final(self)@ == old(self)@,
            },
    {
        broadcast use vstd::std_specs::hash::group_hash_axioms;

        if !record.is_valid() {
            return None;
        }
        let id = self.next_popup_id();
        let stored = Popup { id, ..record };
        self.popups.insert(id.0, stored);
        assert(self@ == old(self)@.skip_popup_id().with_popup(stored));
        Some(id)
    }

    /// Replaces the record of a registered popup, found by the record's `id`. Nothing
    /// changes where no such popup is registered or the record is not valid.
    pub fn update_popup(&mut self, record: Popup) -> (updated: bool)
        requires
            old(self).wf(),
        ensures
            final(self).wf(),
            updated == (old(self)@.popup(record.id) is Some && record.valid()),
            updated ==> final(self)@ == old(self)@.with_popup(record),
            !updated ==> final(self)@ == old(self)@,
    {
        broadcast use vstd::std_specs::hash::group_hash_axioms;

        if !record.is_valid() || !self.popups.contains_key(&record.id.0) {
            return false;
        }
        self.popups.insert(record.id.0, record);
        assert(self@ == old(self)@.with_popup(record));
        true
    }

    /// Removes a popup and returns its record; `None` where it was not registered.
    pub fn remove_popup(&mut self, id: PopupId) -> (removed: Option<Popup>)
        requires
            old(self).wf(),
        ensures
            final(self).wf(),
            removed == old(self)@.popup(id),
            final(self)@ == old(self)@.without_popup(id),
    {
        broadcast use vstd::std_specs::hash::group_hash_axioms;

        let removed = self.popups.remove(&id.0);
        assert(self@ == old(self)@.without_popup(id));
        removed
    }

    /// Finds the popup that is backed by the given protocol surface. Where several are,
    /// the one with the least identifier is returned, which is the one created first.
    pub fn find_popup_by_surface(&self, surface: u32) -> (found: Option<PopupId>)
        requires
            self.wf(),
        ensures
            found == self@.popup_on(surface),
    {
        broadcast use vstd::std_specs::hash::group_hash_axioms;

        let mut found: Option<PopupId> = None;
        let ghost all = self.popups.iter().remaining();
        for (key, record) in it: self.popups.iter()
            invariant
                it.seq() == all,
                match found {
                    Some(id) => {
                        &&& self.popups@.contains_key(id.0)
                        &&& self.popups@[id.0].surface == surface
                        &&& forall|i: int|
                            0 <= i < it.index() && (#[trigger] it.seq()[i]).1.surface == surface
                                ==> id.0 <= *it.seq()[i].0
                    },
                    None => forall|i: int|
                        0 <= i < it.index() ==> (#[trigger] it.seq()[i]).1.surface != surface,
                },
        {
            if record.surface == surface {
                let better = match found {
                    Some(id) => *key < id.0,
                    None => true,
                };
                if better {
                    found = Some(PopupId(*key));
                }
            }
        }
        proof {
            match found {
                Some(id) => {
                    assert forall|j: u64|
                        self.popups@.contains_key(j) && self.popups@[j].surface
                            == surface implies id.0 <= j by {
                        assert(all.contains((&j, &self.popups@[j])));
                    }
                    assert(self@.is_first_popup_on(surface, id.0));
                    let chosen = choose|k: u64| self@.is_first_popup_on(surface, k);
                    assert(chosen == id.0);
                },
                None => {
                    assert forall|k: u64| #[trigger]
                        self.popups@.contains_key(k) implies self.popups@[k].surface
                        != surface by {
                        assert(all.contains((&k, &self.popups@[k])));
                    }
                },
            }
        }
        found
    }

    /// Whether another popup identifier can be handed out.
    pub fn has_free_popup_id(&self) -> (free: bool)
        ensures
            free == (self@.next_popup_id < u64::MAX),
    {
        self.next_popup_id < u64::MAX
    }

    /// How many popup records are registered.
    pub fn popup_count(&self) -> (n: usize)
        requires
            self.wf(),
        ensures
            n == self@.popups.len(),
    {
        broadcast use vstd::std_specs::hash::group_hash_axioms;

        self.popups.len()
    }

    /// Hands out the next overlay identifier. Identifiers start at 1 and are never handed
    /// out twice.
    pub fn next_overlay_id(&mut self) -> (id: OverlayId)
        requires
            old(self).wf(),
            old(self)@.next_overlay_id < u64::MAX,
        ensures
            final(self).wf(),
            id.0 == old(self)@.next_overlay_id,
            final(self)@ == old(self)@.skip_overlay_id(),
    {
        let id = OverlayId(self.next_overlay_id);
        self.next_overlay_id = self.next_overlay_id + 1;
        assert(self@ == old(self)@.skip_overlay_id());
        id
    }

    /// Looks up an overlay by identifier.
    pub fn get_overlay(&self, id: OverlayId) -> (found: Option<&Overlay>)
        requires
            self.wf(),
        ensures
            match found {
                Some(record) => self@.overlay(id) == Some(*record),
                None => self@.overlay(id) is None,
            },
    {
        broadcast use vstd::std_specs::hash::group_hash_axioms;

        self.overlays.get(&id.0)
    }

    /// Registers a new overlay under a fresh identifier. The record's `id` field is
    /// replaced by that identifier. Nothing is registered, and no identifier is used up,
    /// where the record is not valid.
    pub fn add_overlay(&mut self, record: Overlay) -> (added: Option<OverlayId>)
        requires
            old(self).wf(),
            record.valid() ==> old(self)@.next_overlay_id < u64::MAX,
        ensures
            final(self).wf(),
            record.valid() ==> added == Some(OverlayId(old(self)@.next_overlay_id)),
            !record.valid() ==> added is None,
            match added {
                Some(id) => final(self)@ == old(self)@.skip_overlay_id().with_overlay(
                    Overlay { id, ..record },
                ),
                None => final(self)@ == old(self)@,
            },
    {
        broadcast use vstd::std_specs::hash::group_hash_axioms;

        if !record.is_valid() {
            return None;
        }
        let id = self.next_overlay_id();
        let stored = Overlay { id, ..record };
        self.overlays.insert(id.0, stored);
        assert(self@ == old(self)@.skip_overlay_id().with_overlay(stored));
        Some(id)
    }

    /// Replaces the record of a registered overlay, found by the record's `id`. Nothing
    /// changes where no such overlay is registered or the record is not valid.
    pub fn update_overlay(&mut self, record: Overlay) -> (updated: bool)
        requires
            old(self).wf(),
        ensures
            final(self).wf(),
            updated == (old(self)@.overlay(record.id) is Some && record.valid()),
            updated ==> final(self)@ == old(self)@.with_overlay(record),
            !updated ==> final(self)@ == old(self)@,
    {
        broadcast use vstd::std_specs::hash::group_hash_axioms;

        if !record.is_valid() || !self.overlays.contains_key(&record.id.0) {
            return false;
        }
        self.overlays.insert(record.id.0, record);
        assert(self@ == old(self)@.with_overlay(record));
        true
    }

    /// Removes an overlay and returns its record; `None` where it was not registered.
    pub fn remove_overlay(&mut self, id: OverlayId) -> (removed: Option<Overlay>)
        requires
            old(self).wf(),
        ensures
            final(self).wf(),
            removed == old(self)@.overlay(id),
            final(self)@ == old(self)@.without_overlay(id),
    {
        broadcast use vstd::std_specs::hash::group_hash_axioms;

        let removed = self.overlays.remove(&id.0);
        assert(self@ == old(self)@.without_overlay(id));
        removed
    }

    /// Finds the overlay that is backed by the given protocol surface. Where several are,
    /// the one with the least identifier is returned, which is the one created first.
    pub fn find_overlay_by_surface(&self, surface: u32) -> (found: Option<OverlayId>)
        requires
            self.wf(),
        ensures
            found == self@.overlay_on(surface),
    {
        broadcast use vstd::std_specs::hash::group_hash_axioms;

        let mut found: Option<OverlayId> = None;
        let ghost all = self.overlays.iter().remaining();
        for (key, record) in it: self.overlays.iter()
            invariant
                it.seq() == all,
                match found {
                    Some(id) => {
                        &&& self.overlays@.contains_key(id.0)
                        &&& self.overlays@[id.0].surface == surface
                        &&& forall|i: int|
                            0 <= i < it.index() && (#[trigger] it.seq()[i]).1.surface == surface
                                ==> id.0 <= *it.seq()[i].0
                    },
                    None => forall|i: int|
                        0 <= i < it.index() ==> (#[trigger] it.seq()[i]).1.surface != surface,
                },
        {
            if record.surface == surface {
                let better = match found {
                    Some(id) => *key < id.0,
                    None => true,
                };
                if better {
                    found = Some(OverlayId(*key));
                }
            }
        }
        proof {
            match found {
                Some(id) => {
                    assert forall|j: u64|
                        self.overlays@.contains_key(j) && self.overlays@[j].surface
                            == surface implies id.0 <= j by {
                        assert(all.contains((&j, &self.overlays@[j])));
                    }
                    assert(self@.is_first_overlay_on(surface, id.0));
                    let chosen = choose|k: u64| self@.is_first_overlay_on(surface, k);
                    assert(chosen == id.0);
                },
                None => {
                    assert forall|k: u64| #[trigger]
                        self.overlays@.contains_key(k) implies self.overlays@[k].surface
                        != surface by {
                        assert(all.contains((&k, &self.overlays@[k])));
                    }
                },
            }
        }
        found
    }

    /// Whether another overlay identifier can be handed out.
    pub fn has_free_overlay_id(&self) -> (free: bool)
        ensures
            free == (self@.next_overlay_id < u64::MAX),
    {
        self.next_overlay_id < u64::MAX
    }

    /// How many overlay records are registered.
    pub fn overlay_count(&self) -> (n: usize)
        requires
            self.wf(),
        ensures
            n == self@.overlays.len(),
    {
        broadcast use vstd::std_specs::hash::group_hash_axioms;

        self.overlays.len()
    }

    /// Hands out the next subsurface identifier. Identifiers start at 1 and are never handed
    /// out twice.
    pub fn next_subsurface_id(&mut self) -> (id: SubsurfaceId)
        requires
            old(self).wf(),
            old(self)@.next_subsurface_id < u64::MAX,
        ensures
            final(self).wf(),
            id.0 == old(self)@.next_subsurface_id,
            final(self)@ == old(self)@.skip_subsurface_id(),
    {
        let id = SubsurfaceId(self.next_subsurface_id);
        self.next_subsurface_id = self.next_subsurface_id + 1;
        assert(self@ == old(self)@.skip_subsurface_id());
        id
    }

    /// Looks up a subsurface by identifier.
    pub fn get_subsurface(&self, id: SubsurfaceId) -> (found: Option<&Subsurface>)
        requires
            self.wf(),
        ensures
            match found {
                Some(record) => self@.subsurface(id) == Some(*record),
                None => self@.subsurface(id) is None,
            },
    {
        broadcast use vstd::std_specs::hash::group_hash_axioms;

        self.subsurfaces.get(&id.0)
    }

    /// Registers a new subsurface under a fresh identifier. The record's `id` field is
    /// replaced by that identifier. Nothing is registered, and no identifier is used up,
    /// where the record is not valid.
    pub fn add_subsurface(&mut self, record: Subsurface) -> (added: Option<SubsurfaceId>)
        requires
            old(self).wf(),
            record.valid() ==> old(self)@.next_subsurface_id < u64::MAX,
        ensures
            final(self).wf(),
            record.valid() ==> added == Some(SubsurfaceId(old(self)@.next_subsurface_id)),
            !record.valid() ==> added is None,
            match added {
                Some(id) => final(self)@ == old(self)@.skip_subsurface_id().with_subsurface(
                    Subsurface { id, ..record },
                ),
                None => final(self)@ == old(self)@,
            },
    {
        broadcast use vstd::std_specs::hash::group_hash_axioms;

        if !record.is_valid() {
            return None;
        }
        let id = self.next_subsurface_id();
        let stored = Subsurface { id, ..record };
        self.subsurfaces.insert(id.0, stored);
        assert(self@ == old(self)@.skip_subsurface_id().with_subsurface(stored));
        Some(id)
    }

    /// Replaces the record of a registered subsurface, found by the record's `id`. Nothing
    /// changes where no such subsurface is registered or the record is not valid.
    pub fn update_subsurface(&mut self, record: Subsurface) -> (updated: bool)
        requires
            old(self).wf(),
        ensures
            final(self).wf(),
            updated == (old(self)@.subsurface(record.id) is Some && record.valid()),
            updated ==> final(self)@ == old(self)@.with_subsurface(record),
            !updated ==> final(self)@ == old(self)@,
    {
        broadcast use vstd::std_specs::hash::group_hash_axioms;

        if !record.is_valid() || !self.subsurfaces.contains_key(&record.id.0) {
            return false;
        }
        self.subsurfaces.insert(record.id.0, record);
        assert(self@ == old(self)@.with_subsurface(record));
        true
    }

    /// Removes a subsurface and returns its record; `None` where it was not registered.
    pub fn remove_subsurface(&mut self, id: SubsurfaceId) -> (removed: Option<Subsurface>)
        requires
            old(self).wf(),
        ensures
            final(self).wf(),
            removed == old(self)@.subsurface(id),
            final(self)@ == old(self)@.without_subsurface(id),
    {
        broadcast use vstd::std_specs::hash::group_hash_axioms;

        let removed = self.subsurfaces.remove(&id.0);
        assert(self@ == old(self)@.without_subsurface(id));
        removed
    }

    /// Finds the subsurface that is backed by the given protocol surface. Where several are,
    /// the one with the least identifier is returned, which is the one created first.
    pub fn find_subsurface_by_surface(&self, surface: u32) -> (found: Option<SubsurfaceId>)
        requires
            self.wf(),
        ensures
            found == self@.subsurface_on(surface),
    {
        broadcast use vstd::std_specs::hash::group_hash_axioms;

        let mut found: Option<SubsurfaceId> = None;
        let ghost all = self.subsurfaces.iter().remaining();
        for (key, record) in it: self.subsurfaces.iter()
            invariant
                it.seq() == all,
                match found {
                    Some(id) => {
                        &&& self.subsurfaces@.contains_key(id.0)
                        &&& self.subsurfaces@[id.0].surface == surface
                        &&& forall|i: int|
                            0 <= i < it.index() && (#[trigger] it.seq()[i]).1.surface == surface
                                ==> id.0 <= *it.seq()[i].0
                    },
                    None => forall|i: int|
                        0 <= i < it.index() ==> (#[trigger] it.seq()[i]).1.surface != surface,
                },
        {
            if record.surface == surface {
                let better = match found {
                    Some(id) => *key < id.0,
                    None => true,
                };
                if better {
                    found = Some(SubsurfaceId(*key));
                }
            }
        }
        proof {
            match found {
                Some(id) => {
                    assert forall|j: u64|
                        self.subsurfaces@.contains_key(j) && self.subsurfaces@[j].surface
                            == surface implies id.0 <= j by {
                        assert(all.contains((&j, &self.subsurfaces@[j])));
                    }
                    assert(self@.is_first_subsurface_on(surface, id.0));
                    let chosen = choose|k: u64| self@.is_first_subsurface_on(surface, k);
                    assert(chosen == id.0);
                },
                None => {
                    assert forall|k: u64| #[trigger]
                        self.subsurfaces@.contains_key(k) implies self.subsurfaces@[k].surface
                        != surface by {
                        assert(all.contains((&k, &self.subsurfaces@[k])));
                    }
                },
            }
        }
        found
    }

    /// Whether another subsurface identifier can be handed out.
    pub fn has_free_subsurface_id(&self) -> (free: bool)
        ensures
            free == (self@.next_subsurface_id < u64::MAX),
    {
        self.next_subsurface_id < u64::MAX
    }

    /// How many subsurface records are registered.
    pub fn subsurface_count(&self) -> (n: usize)
        requires
            self.wf(),
        ensures
            n == self@.subsurfaces.len(),
    {
        broadcast use vstd::std_specs::hash::group_hash_axioms;

        self.subsurfaces.len()
    }

    /// Hands out the next attached surface identifier. Identifiers start at 1 and are never handed
    /// out twice.
    pub fn next_attached_surface_id(&mut self) -> (id: AttachedSurfaceId)
        requires
            old(self).wf(),
            old(self)@.next_attached_surface_id < u64::MAX,
        ensures
            final(self).wf(),
            id.0 == old(self)@.next_attached_surface_id,
            final(self)@ == old(self)@.skip_attached_surface_id(),
    {
        let id = AttachedSurfaceId(self.next_attached_surface_id);
        self.next_attached_surface_id = self.next_attached_surface_id + 1;
        assert(self@ == old(self)@.skip_attached_surface_id());
        id
    }

    /// Looks up an attached surface by identifier.
    pub fn get_attached_surface(&self, id: AttachedSurfaceId) -> (found: Option<&AttachedSurface>)
        requires
            self.wf(),
        ensures
            match found {
                Some(record) => self@.attached_surface(id) == Some(*record),
                None => self@.attached_surface(id) is None,
            },
    {
        broadcast use vstd::std_specs::hash::group_hash_axioms;

        self.attached_surfaces.get(&id.0)
    }

    /// Registers a new attached surface under a fresh identifier. The record's `id` field is
    /// replaced by that identifier. Nothing is registered, and no identifier is used up,
    /// where the record is not valid.
    pub fn add_attached_surface(&mut self, record: AttachedSurface) -> (added: Option<AttachedSurfaceId>)
        requires
            old(self).wf(),
            record.valid() ==> old(self)@.next_attached_surface_id < u64::MAX,
        ensures
            final(self).wf(),
            record.valid() ==> added == Some(AttachedSurfaceId(old(self)@.next_attached_surface_id)),
            !record.valid() ==> added is None,
            match added {
                Some(id) => final(self)@ == old(self)@.skip_attached_surface_id().with_attached_surface(
                    AttachedSurface { id, ..record },
                ),
                None => final(self)@ == old(self)@,
            },
    {
        broadcast use vstd::std_specs::hash::group_hash_axioms;

        if !record.is_valid() {
            return None;
        }
        let id = self.next_attached_surface_id();
        let stored = AttachedSurface { id, ..record };
        self.attached_surfaces.insert(id.0, stored);
        assert(self@ == old(self)@.skip_attached_surface_id().with_attached_surface(stored));
        Some(id)
    }

    /// Replaces the record of a registered attached surface, found by the record's `id`. Nothing
    /// changes where no such attached surface is registered or the record is not valid.
    pub fn update_attached_surface(&mut self, record: AttachedSurface) -> (updated: bool)
        requires
            old(self).wf(),
        ensures
            final(self).wf(),
            updated == (old(self)@.attached_surface(record.id) is Some && record.valid()),
            updated ==> final(self)@ == old(self)@.with_attached_surface(record),
            !updated ==> final(self)@ == old(self)@,
    {
        broadcast use vstd::std_specs::hash::group_hash_axioms;

        if !record.is_valid() || !self.attached_surfaces.contains_key(&record.id.0) {
            return false;
        }
        self.attached_surfaces.insert(record.id.0, record);
        assert(self@ == old(self)@.with_attached_surface(record));
        true
    }

    /// Removes an attached surface and returns its record; `None` where it was not registered.
    pub fn remove_attached_surface(&mut self, id: AttachedSurfaceId) -> (removed: Option<AttachedSurface>)
        requires
            old(self).wf(),
        ensures
            final(self).wf(),
            removed == old(self)@.attached_surface(id),
            final(self)@ == old(self)@.without_attached_surface(id),
    {
        broadcast use vstd::std_specs::hash::group_hash_axioms;

        let removed = self.attached_surfaces.remove(&id.0);
        assert(self@ == old(self)@.without_attached_surface(id));
        removed
    }

    /// Finds the attached surface that is backed by the given protocol surface. Where several are,
    /// the one with the least identifier is returned, which is the one created first.
    pub fn find_attached_surface_by_surface(&self, surface: u32) -> (found: Option<AttachedSurfaceId>)
        requires
            self.wf(),
        ensures
            found == self@.attached_surface_on(surface),
    {
        broadcast use vstd::std_specs::hash::group_hash_axioms;

        let mut found: Option<AttachedSurfaceId> = None;
        let ghost all = self.attached_surfaces.iter().remaining();
        for (key, record) in it: self.attached_surfaces.iter()
            invariant
                it.seq() == all,
                match found {
                    Some(id) => {
                        &&& self.attached_surfaces@.contains_key(id.0)
                        &&& self.attached_surfaces@[id.0].surface == surface
                        &&& forall|i: int|
                            0 <= i < it.index() && (#[trigger] it.seq()[i]).1.surface == surface
                                ==> id.0 <= *it.seq()[i].0
                    },
                    None => forall|i: int|
                        0 <= i < it.index() ==> (#[trigger] it.seq()[i]).1.surface != surface,
                },
        {
            if record.surface == surface {
                let better = match found {
                    Some(id) => *key < id.0,
                    None => true,
                };
                if better {
                    found = Some(AttachedSurfaceId(*key));
                }
            }
        }
        proof {
            match found {
                Some(id) => {
                    assert forall|j: u64|
                        self.attached_surfaces@.contains_key(j) && self.attached_surfaces@[j].surface
                            == surface implies id.0 <= j by {
                        assert(all.contains((&j, &self.attached_surfaces@[j])));
                    }
                    assert(self@.is_first_attached_surface_on(surface, id.0));
                    let chosen = choose|k: u64| self@.is_first_attached_surface_on(surface, k);
                    assert(chosen == id.0);
                },
                None => {
                    assert forall|k: u64| #[trigger]
                        self.attached_surfaces@.contains_key(k) implies self.attached_surfaces@[k].surface
                        != surface by {
                        assert(all.contains((&k, &self.attached_surfaces@[k])));
                    }
                },
            }
        }
        found
    }

    /// Whether another attached surface identifier can be handed out.
    pub fn has_free_attached_surface_id(&self) -> (free: bool)
        ensures
            free == (self@.next_attached_surface_id < u64::MAX),
    {
        self.next_attached_surface_id < u64::MAX
    }

    /// How many attached surface records are registered.
    pub fn attached_surface_count(&self) -> (n: usize)
        requires
            self.wf(),
        ensures
            n == self@.attached_surfaces.len(),
    {
        broadcast use vstd::std_specs::hash::group_hash_axioms;

        self.attached_surfaces.len()
    }

    /// The identifiers of the popups that belong to the given window, in no particular
    /// order.
    pub fn popups_of_window(&self, window: WindowId) -> (ids: Vec<PopupId>)
        requires
            self.wf(),
        ensures
            forall|k: u64| #[trigger]
                ids@.contains(PopupId(k)) <==> self@.popups_of(window).contains(k),
    {
        broadcast use vstd::std_specs::hash::group_hash_axioms;

        let mut ids: Vec<PopupId> = Vec::new();
        for (key, record) in it: self.popups.iter()
            invariant
                forall|j: int|
                    0 <= j < ids@.len() ==> self.popups@.contains_key((#[trigger] ids@[j]).0)
                        && self.popups@[ids@[j].0].parent == window,
                forall|i: int|
                    0 <= i < it.index() && (#[trigger] it.seq()[i]).1.parent == window
                        ==> ids@.contains(PopupId(*it.seq()[i].0)),
        {
            if record.parent.0 == window.0 {
                let ghost before = ids@;
                ids.push(PopupId(*key));
                proof {
                    assert(ids@[ids@.len() - 1] == PopupId(*key));
                    assert forall|i: int|
                        0 <= i < it.index() + 1 && (#[trigger] it.seq()[i]).1.parent
                            == window implies ids@.contains(PopupId(*it.seq()[i].0)) by {
                        if i < it.index() {
                            let j = choose|j: int|
                                0 <= j < before.len() && before[j] == PopupId(*it.seq()[i].0);
                            assert(ids@[j] == PopupId(*it.seq()[i].0));
                        }
                    }
                }
            }
        }
        proof {
            assert forall|k: u64| #[trigger]
                self@.popups_of(window).contains(k) implies ids@.contains(PopupId(k)) by {
                assert(self.popups@.contains_key(k));
            }
        }
        ids
    }

    /// Removes every popup that belongs to the given window, and returns the identifiers
    /// of the popups that were removed, each once.
    #[verifier::rlimit(50)]
    pub fn remove_popups_of(&mut self, window: WindowId) -> (removed: Vec<PopupId>)
        requires
            old(self).wf(),
        ensures
            final(self).wf(),
            final(self)@ == old(self)@.without_popups_of(window),
            removed@.no_duplicates(),
            forall|k: u64| #[trigger]
                removed@.contains(PopupId(k)) <==> old(self)@.popups_of(window).contains(k),
    {
        let ids = self.popups_of_window(window);
        let mut removed: Vec<PopupId> = Vec::new();
        let mut i: usize = 0;
        proof {
            assert(visited(ids@, 0) =~= Set::<u64>::empty());
            assert(self@.popups =~= self@.popups.remove_keys(visited(ids@, 0)));
        }
        while i < ids.len()
            invariant
                i <= ids@.len(),
                self.wf(),
                old(self).wf(),
                forall|k: u64| #[trigger]
                    ids@.contains(PopupId(k)) <==> old(self)@.popups_of(window).contains(k),
                self@ == (RegistryModel {
                    popups: old(self)@.popups.remove_keys(visited(ids@, i as int)),
                    ..old(self)@
                }),
                removed@.no_duplicates(),
                forall|k: u64| #[trigger]
                    removed@.contains(PopupId(k)) <==> visited(ids@, i as int).contains(k),
            decreases ids@.len() - i,
        {
            let id = ids[i];
            let ghost before = self@;
            let ghost seen = visited(ids@, i as int);
            let ghost seen_after = visited(ids@, i + 1);
            proof {
                assert(ids@.contains(id));
                assert(old(self)@.popups_of(window).contains(id.0));
                assert forall|k: u64| seen_after.contains(k) <==> seen.contains(k) || k
                    == id.0 by {
                    if seen.contains(k) {
                        let j = choose|j: int| 0 <= j < i && (#[trigger] ids@[j]).0 == k;
                        assert(0 <= j < i + 1 && ids@[j].0 == k);
                    }
                    if k == id.0 {
                        assert(ids@[i as int].0 == k);
                    }
                    if seen_after.contains(k) {
                        let j = choose|j: int| 0 <= j < i + 1 && (#[trigger] ids@[j]).0 == k;
                        if j < i {
                            assert(seen.contains(k));
                        }
                    }
                }
            }
            let gone = self.remove_popup(id);
            proof {
                assert(self@.popups =~= old(self)@.popups.remove_keys(seen_after));
            }
            if gone.is_some() {
                let ghost listed = removed@;
                removed.push(id);
                proof {
                    assert(!seen.contains(id.0));
                    assert(!listed.contains(id));
                    assert forall|k: u64| #[trigger]
                        removed@.contains(PopupId(k)) <==> seen_after.contains(k) by {
                        if removed@.contains(PopupId(k)) {
                            let j = choose|j: int|
                                0 <= j < removed@.len() && removed@[j] == PopupId(k);
                            if j < listed.len() {
                                assert(listed[j] == PopupId(k));
                                assert(listed.contains(PopupId(k)));
                            }
                        }
                        if seen_after.contains(k) {
                            if k == id.0 {
                                assert(removed@[removed@.len() - 1] == PopupId(k));
                            } else {
                                assert(listed.contains(PopupId(k)));
                                let j = choose|j: int|
                                    0 <= j < listed.len() && listed[j] == PopupId(k);
                                assert(removed@[j] == PopupId(k));
                            }
                        }
                    }
                }
            } else {
                proof {
                    assert(seen.contains(id.0));
                }
            }
            i = i + 1;
        }
        proof {
            assert(visited(ids@, i as int) =~= old(self)@.popups_of(window)) by {
                assert forall|k: u64|
                    visited(ids@, i as int).contains(k) <==> old(self)@.popups_of(
                        window,
                    ).contains(k) by {
                    if visited(ids@, i as int).contains(k) {
                        let j = choose|j: int| 0 <= j < i && (#[trigger] ids@[j]).0 == k;
                        assert(ids@[j] == PopupId(k));
                        assert(ids@.contains(PopupId(k)));
                    }
                    if old(self)@.popups_of(window).contains(k) {
                        assert(ids@.contains(PopupId(k)));
                        let j = choose|j: int| 0 <= j < ids@.len() && ids@[j] == PopupId(k);
                        assert(ids@[j].0 == k);
                    }
                }
            }
        }
        removed
    }
}

/// The identifiers among the first `n` of a list.
pub open spec fn visited(ids: Seq<PopupId>, n: int) -> Set<u64> {
    Set::new(|k: u64| exists|j: int| 0 <= j < n && (#[trigger] ids[j]).0 == k)
}

/// Storing a valid window record under an identifier that was handed out keeps the
/// registry's invariant.
pub proof fn lemma_with_window_wf(r: RegistryModel, record: Window)
    requires
        r.wf(),
        record.valid(),
        1 <= record.id.0 < r.next_window_id,
    ensures
        r.with_window(record).wf(),
{
}

/// Removing a window keeps the registry's invariant.
pub proof fn lemma_without_window_wf(r: RegistryModel, id: WindowId)
    requires
        r.wf(),
    ensures
        r.without_window(id).wf(),
{
}

/// The first window on a protocol surface is the one that a lookup finds.
pub proof fn lemma_first_window_on(r: RegistryModel, surface: u32, k: u64)
    requires
        r.is_first_window_on(surface, k),
    ensures
        r.window_on(surface) == Some(WindowId(k)),
{
    let chosen = choose|j: u64| r.is_first_window_on(surface, j);
    assert(r.windows.contains_key(chosen));
    assert(chosen == k);
}

/// Using up a window identifier keeps the registry's invariant.
pub proof fn lemma_skip_window_id_wf(r: RegistryModel)
    requires
        r.wf(),
        r.next_window_id < u64::MAX,
    ensures
        r.skip_window_id().wf(),
{
}

/// Storing a valid popup record under an identifier that was handed out keeps the
/// registry's invariant.
pub proof fn lemma_with_popup_wf(r: RegistryModel, record: Popup)
    requires
        r.wf(),
        record.valid(),
        1 <= record.id.0 < r.next_popup_id,
    ensures
        r.with_popup(record).wf(),
{
}

/// Removing a popup keeps the registry's invariant.
pub proof fn lemma_without_popup_wf(r: RegistryModel, id: PopupId)
    requires
        r.wf(),
    ensures
        r.without_popup(id).wf(),
{
}

/// The first popup on a protocol surface is the one that a lookup finds.
pub proof fn lemma_first_popup_on(r: RegistryModel, surface: u32, k: u64)
    requires
        r.is_first_popup_on(surface, k),
    ensures
        r.popup_on(surface) == Some(PopupId(k)),
{
    let chosen = choose|j: u64| r.is_first_popup_on(surface, j);
    assert(r.popups.contains_key(chosen));
    assert(chosen == k);
}

/// Using up a popup identifier keeps the registry's invariant.
pub proof fn lemma_skip_popup_id_wf(r: RegistryModel)
    requires
        r.wf(),
        r.next_popup_id < u64::MAX,
    ensures
        r.skip_popup_id().wf(),
{
}

/// Storing a valid overlay record under an identifier that was handed out keeps the
/// registry's invariant.
pub proof fn lemma_with_overlay_wf(r: RegistryModel, record: Overlay)
    requires
        r.wf(),
        record.valid(),
        1 <= record.id.0 < r.next_overlay_id,
    ensures
        r.with_overlay(record).wf(),
{
}

/// Removing an overlay keeps the registry's invariant.
pub proof fn lemma_without_overlay_wf(r: RegistryModel, id: OverlayId)
    requires
        r.wf(),
    ensures
        r.without_overlay(id).wf(),
{
}

/// The first overlay on a protocol surface is the one that a lookup finds.
pub proof fn lemma_first_overlay_on(r: RegistryModel, surface: u32, k: u64)
    requires
        r.is_first_overlay_on(surface, k),
    ensures
        r.overlay_on(surface) == Some(OverlayId(k)),
{
    let chosen = choose|j: u64| r.is_first_overlay_on(surface, j);
    assert(r.overlays.contains_key(chosen));
    assert(chosen == k);
}

/// Using up an overlay identifier keeps the registry's invariant.
pub proof fn lemma_skip_overlay_id_wf(r: RegistryModel)
    requires
        r.wf(),
        r.next_overlay_id < u64::MAX,
    ensures
        r.skip_overlay_id().wf(),
{
}

/// Storing a valid subsurface record under an identifier that was handed out keeps the
/// registry's invariant.
pub proof fn lemma_with_subsurface_wf(r: RegistryModel, record: Subsurface)
    requires
        r.wf(),
        record.valid(),
        1 <= record.id.0 < r.next_subsurface_id,
    ensures
        r.with_subsurface(record).wf(),
{
}

/// Removing a subsurface keeps the registry's invariant.
pub proof fn lemma_without_subsurface_wf(r: RegistryModel, id: SubsurfaceId)
    requires
        r.wf(),
    ensures
        r.without_subsurface(id).wf(),
{
}

/// The first subsurface on a protocol surface is the one that a lookup finds.
pub proof fn lemma_first_subsurface_on(r: RegistryModel, surface: u32, k: u64)
    requires
        r.is_first_subsurface_on(surface, k),
    ensures
        r.subsurface_on(surface) == Some(SubsurfaceId(k)),
{
    let chosen = choose|j: u64| r.is_first_subsurface_on(surface, j);
    assert(r.subsurfaces.contains_key(chosen));
    assert(chosen == k);
}

/// Using up a subsurface identifier keeps the registry's invariant.
pub proof fn lemma_skip_subsurface_id_wf(r: RegistryModel)
    requires
        r.wf(),
        r.next_subsurface_id < u64::MAX,
    ensures
        r.skip_subsurface_id().wf(),
{
}

/// Storing a valid attached surface record under an identifier that was handed out keeps the
/// registry's invariant.
pub proof fn lemma_with_attached_surface_wf(r: RegistryModel, record: AttachedSurface)
    requires
        r.wf(),
        record.valid(),
        1 <= record.id.0 < r.next_attached_surface_id,
    ensures
        r.with_attached_surface(record).wf(),
{
}

/// Removing an attached surface keeps the registry's invariant.
pub proof fn lemma_without_attached_surface_wf(r: RegistryModel, id: AttachedSurfaceId)
    requires
        r.wf(),
    ensures
        r.without_attached_surface(id).wf(),
{
}

/// The first attached surface on a protocol surface is the one that a lookup finds.
pub proof fn lemma_first_attached_surface_on(r: RegistryModel, surface: u32, k: u64)
    requires
        r.is_first_attached_surface_on(surface, k),
    ensures
        r.attached_surface_on(surface) == Some(AttachedSurfaceId(k)),
{
    let chosen = choose|j: u64| r.is_first_attached_surface_on(surface, j);
    assert(r.attached_surfaces.contains_key(chosen));
    assert(chosen == k);
}

/// Using up an attached surface identifier keeps the registry's invariant.
pub proof fn lemma_skip_attached_surface_id_wf(r: RegistryModel)
    requires
        r.wf(),
        r.next_attached_surface_id < u64::MAX,
    ensures
        r.skip_attached_surface_id().wf(),
{
}

/// Removing the popups of a window keeps the registry's invariant.
pub proof fn lemma_without_popups_of_wf(r: RegistryModel, window: WindowId)
    requires
        r.wf(),
    ensures
        r.without_popups_of(window).wf(),
{
    let rest = r.without_popups_of(window).popups.dom();
    assert(rest.subset_of(r.popups.dom()));
    vstd::set_lib::lemma_len_subset(rest, r.popups.dom());
}

} // verus!
