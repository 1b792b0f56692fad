//! The lifecycle of a surface, as transitions of the registry.
//!
//! A surface is created, configured by the server, rendered, perhaps configured again, and
//! closed. Each of these is a function from registry to registry. The functions are total:
//! one that names a surface which is not registered leaves the registry as it is.

use crate::attached_surface::{Anchor, AttachedSurface, AttachedSurfaceId};
use crate::window::{
    lemma_skip_attached_surface_id_wf, lemma_skip_overlay_id_wf, lemma_skip_popup_id_wf,
    lemma_skip_subsurface_id_wf, lemma_skip_window_id_wf, lemma_with_attached_surface_wf,
    lemma_with_overlay_wf, lemma_with_popup_wf, lemma_with_subsurface_wf, lemma_with_window_wf,
    lemma_without_attached_surface_wf, lemma_without_overlay_wf, lemma_without_popup_wf,
    lemma_without_popups_of_wf, lemma_without_subsurface_wf, lemma_without_window_wf,
    placement_for, Overlay, OverlayId, Popup, PopupConfig, PopupId, RegistryModel, Subsurface,
    SubsurfaceId, Window, WindowId,
};
use vstd::prelude::*;

verus! {

/// A surface of any of the five kinds, named by its identifier.
#[derive(Clone, Copy, Debug, PartialEq, Eq, Structural)]
pub enum SurfaceRef {
    Window(WindowId),
    Popup(PopupId),
    Overlay(OverlayId),
    Subsurface(SubsurfaceId),
    Attached(AttachedSurfaceId),
}

impl SurfaceRef {
    /// The server must configure a surface of this kind before it can be painted.
    /// Only subsurfaces are painted without a handshake.
    pub open spec fn needs_configure(self) -> bool {
        !(self is Subsurface)
    }
}

/// The size that a window or an attached surface has after the server suggested
/// `(width, height)`: the suggestion where both parts are set, else the size it had.
/// A part that is 0 stands for "no suggestion".
pub open spec fn negotiated_size(current: (u32, u32), width: u32, height: u32) -> (u32, u32) {
    if width > 0 && height > 0 {
        (width, height)
    } else {
        current
    }
}

/// The size that an overlay has after the server suggested `(width, height)`: each part is
/// taken by itself, where it is set.
pub open spec fn overlay_size(current: (u32, u32), width: u32, height: u32) -> (u32, u32) {
    (
        if width > 0 {
            width
        } else {
            current.0
        },
        if height > 0 {
            height
        } else {
            current.1
        },
    )
}

impl RegistryModel {
    /// The surface is registered.
    pub open spec fn contains(self, s: SurfaceRef) -> bool {
        match s {
            SurfaceRef::Window(id) => self.windows.contains_key(id.0),
            SurfaceRef::Popup(id) => self.popups.contains_key(id.0),
            SurfaceRef::Overlay(id) => self.overlays.contains_key(id.0),
            SurfaceRef::Subsurface(id) => self.subsurfaces.contains_key(id.0),
            SurfaceRef::Attached(id) => self.attached_surfaces.contains_key(id.0),
        }
    }

    /// The surface is registered and a repaint is owed.
    pub open spec fn is_dirty(self, s: SurfaceRef) -> bool {
        self.contains(s) && match s {
            SurfaceRef::Window(id) => self.windows[id.0].dirty,
            SurfaceRef::Popup(id) => self.popups[id.0].dirty,
            SurfaceRef::Overlay(id) => self.overlays[id.0].dirty,
            SurfaceRef::Subsurface(id) => self.subsurfaces[id.0].dirty,
            SurfaceRef::Attached(id) => self.attached_surfaces[id.0].dirty,
        }
    }

    /// The surface is registered and may be painted: the server has configured it, or it
    /// is of the kind that needs no configuration.
    pub open spec fn is_configured(self, s: SurfaceRef) -> bool {
        self.contains(s) && match s {
            SurfaceRef::Window(id) => self.windows[id.0].configured,
            SurfaceRef::Popup(id) => self.popups[id.0].configured,
            SurfaceRef::Overlay(id) => self.overlays[id.0].configured,
            SurfaceRef::Subsurface(id) => true,
            SurfaceRef::Attached(id) => self.attached_surfaces[id.0].configured,
        }
    }

    /// Width and height of a registered surface.
    pub open spec fn extent(self, s: SurfaceRef) -> (u32, u32) {
        match s {
            SurfaceRef::Window(id) => (self.windows[id.0].width, self.windows[id.0].height),
            SurfaceRef::Popup(id) => (self.popups[id.0].width, self.popups[id.0].height),
            SurfaceRef::Overlay(id) => (self.overlays[id.0].width, self.overlays[id.0].height),
            SurfaceRef::Subsurface(id) => (
                self.subsurfaces[id.0].width,
                self.subsurfaces[id.0].height,
            ),
            SurfaceRef::Attached(id) => (
                self.attached_surfaces[id.0].width,
                self.attached_surfaces[id.0].height,
            ),
        }
    }

    /// Number of the protocol surface that backs a registered surface.
    pub open spec fn handle(self, s: SurfaceRef) -> u32 {
        match s {
            SurfaceRef::Window(id) => self.windows[id.0].surface,
            SurfaceRef::Popup(id) => self.popups[id.0].surface,
            SurfaceRef::Overlay(id) => self.overlays[id.0].surface,
            SurfaceRef::Subsurface(id) => self.subsurfaces[id.0].surface,
            SurfaceRef::Attached(id) => self.attached_surfaces[id.0].surface,
        }
    }

    /// A window was created. It waits for its first configuration: not configured, not
    /// dirty. Where the identifiers are used up, nothing is created.
    pub open spec fn created_window(
        self,
        surface: u32,
        width: u32,
        height: u32,
        decorations: bool,
    ) -> RegistryModel {
        if self.next_window_id < u64::MAX {
            self.skip_window_id().with_window(
                Window {
                    id: WindowId(self.next_window_id),
                    surface,
                    width,
                    height,
                    dirty: false,
                    configured: false,
                    decorations,
                },
            )
        } else {
            self
        }
    }

    /// A popup was created on a window. Its placement is computed here, from the parent's
    /// size at this moment. Without the parent, nothing is created.
    pub open spec fn created_popup(
        self,
        parent: WindowId,
        surface: u32,
        config: PopupConfig,
    ) -> RegistryModel {
        if self.windows.contains_key(parent.0) && self.next_popup_id < u64::MAX {
            self.skip_popup_id().with_popup(
                Popup {
                    id: PopupId(self.next_popup_id),
                    parent,
                    surface,
                    width: config.size.0,
                    height: config.size.1,
                    dirty: false,
                    configured: false,
                    placement: placement_for(
                        config,
                        self.windows[parent.0].width,
                        self.windows[parent.0].height,
                    ),
                },
            )
        } else {
            self
        }
    }

    /// An overlay was created.
    pub open spec fn created_overlay(self, surface: u32, width: u32, height: u32) -> RegistryModel {
        if self.next_overlay_id < u64::MAX {
            self.skip_overlay_id().with_overlay(
                Overlay {
                    id: OverlayId(self.next_overlay_id),
                    surface,
                    width,
                    height,
                    dirty: false,
                    configured: false,
                },
            )
        } else {
            self
        }
    }

    /// A subsurface was created on a window. It is dirty at once: it can be painted
    /// without waiting for the server.
    pub open spec fn created_subsurface(
        self,
        parent: WindowId,
        surface: u32,
        x: i32,
        y: i32,
        width: u32,
        height: u32,
    ) -> RegistryModel {
        if self.windows.contains_key(parent.0) && self.next_subsurface_id < u64::MAX {
            self.skip_subsurface_id().with_subsurface(
                Subsurface {
                    id: SubsurfaceId(self.next_subsurface_id),
                    parent,
                    surface,
                    x,
                    y,
                    width,
                    height,
                    dirty: true,
                },
            )
        } else {
            self
        }
    }

    /// An attached surface was created on a window.
    pub open spec fn created_attached_surface(
        self,
        parent: WindowId,
        surface: u32,
        x: i32,
        y: i32,
        width: u32,
        height: u32,
    ) -> RegistryModel {
        if self.windows.contains_key(parent.0) && self.next_attached_surface_id < u64::MAX {
            self.skip_attached_surface_id().with_attached_surface(
                AttachedSurface {
                    id: AttachedSurfaceId(self.next_attached_surface_id),
                    parent_window_id: parent,
                    surface,
                    x,
                    y,
                    width,
                    height,
                    dirty: false,
                    configured: false,
                    pending_configure: None,
                    anchor: Anchor::Unanchored,
                    margin: 0,
                    offset: 0,
                },
            )
        } else {
            self
        }
    }

    /// The server configured a surface and suggested a size. The surface is configured
    /// from now on, and a repaint is owed. A popup keeps its size. Subsurfaces are not
    /// configured by the server: for them nothing changes.
    pub open spec fn configured(self, s: SurfaceRef, width: u32, height: u32) -> RegistryModel {
        if !self.contains(s) {
            self
        } else {
            match s {
                SurfaceRef::Window(id) => {
                    let size = negotiated_size(self.extent(s), width, height);
                    self.with_window(
                        Window {
                            width: size.0,
                            height: size.1,
                            dirty: true,
                            configured: true,
                            ..self.windows[id.0]
                        },
                    )
                },
                SurfaceRef::Popup(id) => self.with_popup(
                    Popup { dirty: true, configured: true, ..self.popups[id.0] },
                ),
                SurfaceRef::Overlay(id) => {
                    let size = overlay_size(self.extent(s), width, height);
                    self.with_overlay(
                        Overlay {
                            width: size.0,
                            height: size.1,
                            dirty: true,
                            configured: true,
                            ..self.overlays[id.0]
                        },
                    )
                },
                SurfaceRef::Subsurface(id) => self,
                SurfaceRef::Attached(id) => {
                    let size = negotiated_size(self.extent(s), width, height);
                    self.with_attached_surface(
                        AttachedSurface {
                            width: size.0,
                            height: size.1,
                            dirty: true,
                            configured: true,
                            pending_configure: None,
                            ..self.attached_surfaces[id.0]
                        },
                    )
                },
            }
        }
    }

    /// A frame was rendered for a surface: no repaint is owed any more. A surface that
    /// still waits for its first configuration cannot be rendered, and stays as it is.
    pub open spec fn rendered(self, s: SurfaceRef) -> RegistryModel {
        if !self.is_configured(s) {
            self
        } else {
            match s {
                SurfaceRef::Window(id) => self.with_window(
                    Window { dirty: false, ..self.windows[id.0] },
                ),
                SurfaceRef::Popup(id) => self.with_popup(Popup { dirty: false, ..self.popups[id.0] }),
                SurfaceRef::Overlay(id) => self.with_overlay(
                    Overlay { dirty: false, ..self.overlays[id.0] },
                ),
                SurfaceRef::Subsurface(id) => self.with_subsurface(
                    Subsurface { dirty: false, ..self.subsurfaces[id.0] },
                ),
                SurfaceRef::Attached(id) => self.with_attached_surface(
                    AttachedSurface { dirty: false, ..self.attached_surfaces[id.0] },
                ),
            }
        }
    }

    /// A repaint was asked for. A surface that still waits for its first configuration
    /// stays clean.
    pub open spec fn marked_dirty(self, s: SurfaceRef) -> RegistryModel {
        if !self.is_configured(s) {
            self
        } else {
            match s {
                SurfaceRef::Window(id) => self.with_window(
                    Window { dirty: true, ..self.windows[id.0] },
                ),
                SurfaceRef::Popup(id) => self.with_popup(Popup { dirty: true, ..self.popups[id.0] }),
                SurfaceRef::Overlay(id) => self.with_overlay(
                    Overlay { dirty: true, ..self.overlays[id.0] },
                ),
                SurfaceRef::Subsurface(id) => self.with_subsurface(
                    Subsurface { dirty: true, ..self.subsurfaces[id.0] },
                ),
                SurfaceRef::Attached(id) => self.with_attached_surface(
                    AttachedSurface { dirty: true, ..self.attached_surfaces[id.0] },
                ),
            }
        }
    }

    /// A surface was closed. Closing a window closes its popups with it, and nothing else:
    /// subsurfaces and attached surfaces of the window stay registered until they are
    /// closed themselves.
    pub open spec fn closed(self, s: SurfaceRef) -> RegistryModel {
        match s {
            SurfaceRef::Window(id) => self.without_popups_of(id).without_window(id),
            SurfaceRef::Popup(id) => self.without_popup(id),
            SurfaceRef::Overlay(id) => self.without_overlay(id),
            SurfaceRef::Subsurface(id) => self.without_subsurface(id),
            SurfaceRef::Attached(id) => self.without_attached_surface(id),
        }
    }

    /// A subsurface was moved within its parent.
    pub open spec fn moved_subsurface(self, id: SubsurfaceId, x: i32, y: i32) -> RegistryModel {
        if self.subsurfaces.contains_key(id.0) {
            self.with_subsurface(Subsurface { x, y, ..self.subsurfaces[id.0] })
        } else {
            self
        }
    }

    /// An attached surface was moved relative to its parent.
    pub open spec fn moved_attached_surface(
        self,
        id: AttachedSurfaceId,
        x: i32,
        y: i32,
    ) -> RegistryModel {
        if self.attached_surfaces.contains_key(id.0) {
            self.with_attached_surface(AttachedSurface { x, y, ..self.attached_surfaces[id.0] })
        } else {
            self
        }
    }

    /// An attached surface was anchored to an edge of its parent.
    pub open spec fn anchored_attached_surface(
        self,
        id: AttachedSurfaceId,
        anchor: Anchor,
        margin: i32,
        offset: i32,
    ) -> RegistryModel {
        if self.attached_surfaces.contains_key(id.0) {
            self.with_attached_surface(
                AttachedSurface { anchor, margin, offset, ..self.attached_surfaces[id.0] },
            )
        } else {
            self
        }
    }
}

/// One step in the life of the registry.
#[allow(inconsistent_fields)]
pub enum SurfaceOp {
    CreateWindow { surface: u32, width: u32, height: u32, decorations: bool },
    CreatePopup { parent: WindowId, surface: u32, config: PopupConfig },
    CreateOverlay { surface: u32, width: u32, height: u32 },
    CreateSubsurface { parent: WindowId, surface: u32, x: i32, y: i32, width: u32, height: u32 },
    CreateAttached { parent: WindowId, surface: u32, x: i32, y: i32, width: u32, height: u32 },
    Configure { target: SurfaceRef, width: u32, height: u32 },
    Render { target: SurfaceRef },
    MarkDirty { target: SurfaceRef },
    Close { target: SurfaceRef },
    MoveSubsurface { id: SubsurfaceId, x: i32, y: i32 },
    MoveAttached { id: AttachedSurfaceId, x: i32, y: i32 },
    AnchorAttached { id: AttachedSurfaceId, anchor: Anchor, margin: i32, offset: i32 },
}

impl SurfaceOp {
    /// The step is a configuration of the given surface.
    pub open spec fn configures(self, s: SurfaceRef) -> bool {
        self matches SurfaceOp::Configure { target, .. } && target == s
    }

    /// The step renders the given surface.
    pub open spec fn renders(self, s: SurfaceRef) -> bool {
        self matches SurfaceOp::Render { target } && target == s
    }

    /// The step closes the given surface: it closes the surface itself, or `s` is a popup
    /// and the step closes the window `parent`.
    pub open spec fn closes(self, s: SurfaceRef, parent: WindowId) -> bool {
        self matches SurfaceOp::Close { target } && (target == s || (s is Popup && target
            == SurfaceRef::Window(parent)))
    }
}

impl RegistryModel {
    /// The registry after one step.
    pub open spec fn apply(self, op: SurfaceOp) -> RegistryModel {
        match op {
            SurfaceOp::CreateWindow { surface, width, height, decorations } => self.created_window(
                surface,
                width,
                height,
                decorations,
            ),
            SurfaceOp::CreatePopup { parent, surface, config } => self.created_popup(
                parent,
                surface,
                config,
            ),
            SurfaceOp::CreateOverlay { surface, width, height } => self.created_overlay(
                surface,
                width,
                height,
            ),
            SurfaceOp::CreateSubsurface {
                parent,
                surface,
                x,
                y,
                width,
                height,
            } => self.created_subsurface(parent, surface, x, y, width, height),
            SurfaceOp::CreateAttached {
                parent,
                surface,
                x,
                y,
                width,
                height,
            } => self.created_attached_surface(parent, surface, x, y, width, height),
            SurfaceOp::Configure { target, width, height } => self.configured(
                target,
                width,
                height,
            ),
            SurfaceOp::Render { target } => self.rendered(target),
            SurfaceOp::MarkDirty { target } => self.marked_dirty(target),
            SurfaceOp::Close { target } => self.closed(target),
            SurfaceOp::MoveSubsurface { id, x, y } => self.moved_subsurface(id, x, y),
            SurfaceOp::MoveAttached { id, x, y } => self.moved_attached_surface(id, x, y),
            SurfaceOp::AnchorAttached { id, anchor, margin, offset } => self.anchored_attached_surface(
                id,
                anchor,
                margin,
                offset,
            ),
        }
    }

    /// The registry after a sequence of steps, taken in order.
    pub open spec fn run(self, ops: Seq<SurfaceOp>) -> RegistryModel
        decreases ops.len(),
    {
        if ops.len() == 0 {
            self
        } else {
            self.run(ops.drop_last()).apply(ops.last())
        }
    }

    /// The window that a popup belongs to; meaningful for a registered popup.
    pub open spec fn parent_of(self, s: SurfaceRef) -> WindowId {
        match s {
            SurfaceRef::Popup(id) => self.popups[id.0].parent,
            _ => WindowId(0),
        }
    }
}

/// Creating a surface keeps the registry's invariant, whatever its kind.
#[verifier::rlimit(50)]
pub proof fn lemma_created_keeps_wf(r: RegistryModel, op: SurfaceOp)
    requires
        r.wf(),
        op is CreateWindow || op is CreatePopup || op is CreateOverlay || op is CreateSubsurface
            || op is CreateAttached,
    ensures
        r.apply(op).wf(),
{
    match op {
        SurfaceOp::CreateWindow { surface, width, height, decorations } => {
            if r.next_window_id < u64::MAX {
                lemma_skip_window_id_wf(r);
                lemma_with_window_wf(
                    r.skip_window_id(),
                    Window {
                        id: WindowId(r.next_window_id),
                        surface,
                        width,
                        height,
                        dirty: false,
                        configured: false,
                        decorations,
                    },
                );
            }
        },
        SurfaceOp::CreatePopup { parent, surface, config } => {
            if r.windows.contains_key(parent.0) && r.next_popup_id < u64::MAX {
                lemma_skip_popup_id_wf(r);
                lemma_with_popup_wf(
                    r.skip_popup_id(),
                    Popup {
                        id: PopupId(r.next_popup_id),
                        parent,
                        surface,
                        width: config.size.0,
                        height: config.size.1,
                        dirty: false,
                        configured: false,
                        placement: placement_for(
                            config,
                            r.windows[parent.0].width,
                            r.windows[parent.0].height,
                        ),
                    },
                );
            }
        },
        SurfaceOp::CreateOverlay { surface, width, height } => {
            if r.next_overlay_id < u64::MAX {
                lemma_skip_overlay_id_wf(r);
                lemma_with_overlay_wf(
                    r.skip_overlay_id(),
                    Overlay {
                        id: OverlayId(r.next_overlay_id),
                        surface,
                        width,
                        height,
                        dirty: false,
                        configured: false,
                    },
                );
            }
        },
        SurfaceOp::CreateSubsurface { parent, surface, x, y, width, height } => {
            if r.windows.contains_key(parent.0) && r.next_subsurface_id < u64::MAX {
                lemma_skip_subsurface_id_wf(r);
                lemma_with_subsurface_wf(
                    r.skip_subsurface_id(),
                    Subsurface {
                        id: SubsurfaceId(r.next_subsurface_id),
                        parent,
                        surface,
                        x,
                        y,
                        width,
                        height,
                        dirty: true,
                    },
                );
            }
        },
        SurfaceOp::CreateAttached { parent, surface, x, y, width, height } => {
            if r.windows.contains_key(parent.0) && r.next_attached_surface_id < u64::MAX {
                lemma_skip_attached_surface_id_wf(r);
                lemma_with_attached_surface_wf(
                    r.skip_attached_surface_id(),
                    AttachedSurface {
                        id: AttachedSurfaceId(r.next_attached_surface_id),
                        parent_window_id: parent,
                        surface,
                        x,
                        y,
                        width,
                        height,
                        dirty: false,
                        configured: false,
                        pending_configure: None,
                        anchor: Anchor::Unanchored,
                        margin: 0,
                        offset: 0,
                    },
                );
            }
        },
        _ => {},
    }
}

/// A configuration keeps the registry's invariant.
#[verifier::rlimit(50)]
pub proof fn lemma_configured_keeps_wf(r: RegistryModel, s: SurfaceRef, width: u32, height: u32)
    requires
        r.wf(),
    ensures
        r.configured(s, width, height).wf(),
{
    if r.contains(s) {
        match s {
            SurfaceRef::Window(id) => {
                let size = negotiated_size(r.extent(s), width, height);
                lemma_with_window_wf(
                    r,
                    Window {
                        width: size.0,
                        height: size.1,
                        dirty: true,
                        configured: true,
                        ..r.windows[id.0]
                    },
                );
            },
            SurfaceRef::Popup(id) => {
                lemma_with_popup_wf(r, Popup { dirty: true, configured: true, ..r.popups[id.0] });
            },
            SurfaceRef::Overlay(id) => {
                let size = overlay_size(r.extent(s), width, height);
                lemma_with_overlay_wf(
                    r,
                    Overlay {
                        width: size.0,
                        height: size.1,
                        dirty: true,
                        configured: true,
                        ..r.overlays[id.0]
                    },
                );
            },
            SurfaceRef::Subsurface(id) => {},
            SurfaceRef::Attached(id) => {
                let size = negotiated_size(r.extent(s), width, height);
                lemma_with_attached_surface_wf(
                    r,
                    AttachedSurface {
                        width: size.0,
                        height: size.1,
                        dirty: true,
                        configured: true,
                        pending_configure: None,
                        ..r.attached_surfaces[id.0]
                    },
                );
            },
        }
    }
}

/// Rendering and asking for a repaint keep the registry's invariant.
#[verifier::rlimit(50)]
pub proof fn lemma_dirty_flag_keeps_wf(r: RegistryModel, s: SurfaceRef)
    requires
        r.wf(),
    ensures
        r.rendered(s).wf(),
        r.marked_dirty(s).wf(),
{
    if r.is_configured(s) {
        match s {
            SurfaceRef::Window(id) => {
                lemma_with_window_wf(r, Window { dirty: false, ..r.windows[id.0] });
                lemma_with_window_wf(r, Window { dirty: true, ..r.windows[id.0] });
            },
            SurfaceRef::Popup(id) => {
                lemma_with_popup_wf(r, Popup { dirty: false, ..r.popups[id.0] });
                lemma_with_popup_wf(r, Popup { dirty: true, ..r.popups[id.0] });
            },
            SurfaceRef::Overlay(id) => {
                lemma_with_overlay_wf(r, Overlay { dirty: false, ..r.overlays[id.0] });
                lemma_with_overlay_wf(r, Overlay { dirty: true, ..r.overlays[id.0] });
            },
            SurfaceRef::Subsurface(id) => {
                lemma_with_subsurface_wf(r, Subsurface { dirty: false, ..r.subsurfaces[id.0] });
                lemma_with_subsurface_wf(r, Subsurface { dirty: true, ..r.subsurfaces[id.0] });
            },
            SurfaceRef::Attached(id) => {
                lemma_with_attached_surface_wf(
                    r,
                    AttachedSurface { dirty: false, ..r.attached_surfaces[id.0] },
                );
                lemma_with_attached_surface_wf(
                    r,
                    AttachedSurface { dirty: true, ..r.attached_surfaces[id.0] },
                );
            },
        }
    }
}

/// Closing a surface keeps the registry's invariant.
pub proof fn lemma_closed_keeps_wf(r: RegistryModel, s: SurfaceRef)
    requires
        r.wf(),
    ensures
        r.closed(s).wf(),
{
    match s {
        SurfaceRef::Window(id) => {
            lemma_without_popups_of_wf(r, id);
            lemma_without_window_wf(r.without_popups_of(id), id);
        },
        SurfaceRef::Popup(id) => lemma_without_popup_wf(r, id),
        SurfaceRef::Overlay(id) => lemma_without_overlay_wf(r, id),
        SurfaceRef::Subsurface(id) => lemma_without_subsurface_wf(r, id),
        SurfaceRef::Attached(id) => lemma_without_attached_surface_wf(r, id),
    }
}

/// Moving or anchoring a surface keeps the registry's invariant.
pub proof fn lemma_moved_keeps_wf(r: RegistryModel, op: SurfaceOp)
    requires
        r.wf(),
        op is MoveSubsurface || op is MoveAttached || op is AnchorAttached,
    ensures
        r.apply(op).wf(),
{
    match op {
        SurfaceOp::MoveSubsurface { id, x, y } => {
            if r.subsurfaces.contains_key(id.0) {
                lemma_with_subsurface_wf(r, Subsurface { x, y, ..r.subsurfaces[id.0] });
            }
        },
        SurfaceOp::MoveAttached { id, x, y } => {
            if r.attached_surfaces.contains_key(id.0) {
                lemma_with_attached_surface_wf(
                    r,
                    AttachedSurface { x, y, ..r.attached_surfaces[id.0] },
                );
            }
        },
        SurfaceOp::AnchorAttached { id, anchor, margin, offset } => {
            if r.attached_surfaces.contains_key(id.0) {
                lemma_with_attached_surface_wf(
                    r,
                    AttachedSurface { anchor, margin, offset, ..r.attached_surfaces[id.0] },
                );
            }
        },
        _ => {},
    }
}

/// Every step keeps the registry's invariant.
pub proof fn lemma_apply_keeps_wf(r: RegistryModel, op: SurfaceOp)
    requires
        r.wf(),
    ensures
        r.apply(op).wf(),
{
    match op {
        SurfaceOp::Configure { target, width, height } => lemma_configured_keeps_wf(
            r,
            target,
            width,
            height,
        ),
        SurfaceOp::Render { target } => lemma_dirty_flag_keeps_wf(r, target),
        SurfaceOp::MarkDirty { target } => lemma_dirty_flag_keeps_wf(r, target),
        SurfaceOp::Close { target } => lemma_closed_keeps_wf(r, target),
        SurfaceOp::MoveSubsurface { .. } => lemma_moved_keeps_wf(r, op),
        SurfaceOp::MoveAttached { .. } => lemma_moved_keeps_wf(r, op),
        SurfaceOp::AnchorAttached { .. } => lemma_moved_keeps_wf(r, op),
        _ => lemma_created_keeps_wf(r, op),
    }
}

/// A surface that waits for its first configuration still waits after any step that is not
/// its configuration. This holds also of a surface that does not exist yet: when it is
/// created, it waits.
#[verifier::rlimit(50)]
pub proof fn lemma_step_leaves_unconfigured(r: RegistryModel, op: SurfaceOp, s: SurfaceRef)
    requires
        r.wf(),
        s.needs_configure(),
        !r.is_configured(s),
        !op.configures(s),
    ensures
        !r.apply(op).is_configured(s),
{
    // By cases on the step.
    let after = r.apply(op);
    match op {
        SurfaceOp::CreateWindow { .. } => {
            assert(!after.is_configured(s));
        },
        SurfaceOp::CreatePopup { .. } => {
            assert(!after.is_configured(s));
        },
        SurfaceOp::CreateOverlay { .. } => {
            assert(!after.is_configured(s));
        },
        SurfaceOp::CreateSubsurface { .. } => {
            assert(!after.is_configured(s));
        },
        SurfaceOp::CreateAttached { .. } => {
            assert(!after.is_configured(s));
        },
        SurfaceOp::Configure { .. } => {
            assert(!after.is_configured(s));
        },
        SurfaceOp::Render { .. } => {
            assert(!after.is_configured(s));
        },
        SurfaceOp::MarkDirty { .. } => {
            assert(!after.is_configured(s));
        },
        SurfaceOp::Close { .. } => {
            assert(!after.is_configured(s));
        },
        SurfaceOp::MoveSubsurface { .. } => {
            assert(!after.is_configured(s));
        },
        SurfaceOp::MoveAttached { .. } => {
            assert(!after.is_configured(s));
        },
        SurfaceOp::AnchorAttached { .. } => {
            assert(!after.is_configured(s));
        },
    }
}

/// A surface is not dirty before the server has configured it: from a state in which it
/// is not configured, no sequence of steps without a configuration of that surface makes it
/// dirty.
pub proof fn lemma_clean_until_configured(r: RegistryModel, ops: Seq<SurfaceOp>, s: SurfaceRef)
    requires
        r.wf(),
        s.needs_configure(),
        !r.is_configured(s),
        forall|i: int| 0 <= i < ops.len() ==> !(#[trigger] ops[i]).configures(s),
    ensures
        !r.run(ops).is_configured(s),
        !r.run(ops).is_dirty(s),
    decreases ops.len(),
{
    lemma_run_keeps_wf(r, ops);
    if ops.len() > 0 {
        let before = ops.drop_last();
        assert forall|i: int| 0 <= i < before.len() implies !(#[trigger] before[i]).configures(
            s,
        ) by {
            assert(before[i] == ops[i]);
        }
        lemma_clean_until_configured(r, before, s);
        lemma_run_keeps_wf(r, before);
        lemma_step_leaves_unconfigured(r.run(before), ops.last(), s);
    }
}

/// A freshly created surface of a kind that needs configuration is neither configured nor
/// dirty; a freshly created subsurface is dirty.
#[verifier::rlimit(50)]
pub proof fn lemma_created_state(r: RegistryModel, op: SurfaceOp, s: SurfaceRef)
    requires
        r.wf(),
        !r.contains(s),
        r.apply(op).contains(s),
    ensures
        s.needs_configure() ==> !r.apply(op).is_configured(s) && !r.apply(op).is_dirty(s),
        !s.needs_configure() ==> r.apply(op).is_dirty(s),
{
    // By cases on the step.
    let after = r.apply(op);
    match op {
        SurfaceOp::CreateWindow { .. } => {
            assert(if s.needs_configure() {
                !after.is_configured(s) && !after.is_dirty(s)
            } else {
                after.is_dirty(s)
            });
        },
        SurfaceOp::CreatePopup { .. } => {
            assert(if s.needs_configure() {
                !after.is_configured(s) && !after.is_dirty(s)
            } else {
                after.is_dirty(s)
            });
        },
        SurfaceOp::CreateOverlay { .. } => {
            assert(if s.needs_configure() {
                !after.is_configured(s) && !after.is_dirty(s)
            } else {
                after.is_dirty(s)
            });
        },
        SurfaceOp::CreateSubsurface { .. } => {
            assert(if s.needs_configure() {
                !after.is_configured(s) && !after.is_dirty(s)
            } else {
                after.is_dirty(s)
            });
        },
        SurfaceOp::CreateAttached { .. } => {
            assert(if s.needs_configure() {
                !after.is_configured(s) && !after.is_dirty(s)
            } else {
                after.is_dirty(s)
            });
        },
        SurfaceOp::Configure { .. } => {
            assert(if s.needs_configure() {
                !after.is_configured(s) && !after.is_dirty(s)
            } else {
                after.is_dirty(s)
            });
        },
        SurfaceOp::Render { .. } => {
            assert(if s.needs_configure() {
                !after.is_configured(s) && !after.is_dirty(s)
            } else {
                after.is_dirty(s)
            });
        },
        SurfaceOp::MarkDirty { .. } => {
            assert(if s.needs_configure() {
                !after.is_configured(s) && !after.is_dirty(s)
            } else {
                after.is_dirty(s)
            });
        },
        SurfaceOp::Close { .. } => {
            assert(if s.needs_configure() {
                !after.is_configured(s) && !after.is_dirty(s)
            } else {
                after.is_dirty(s)
            });
        },
        SurfaceOp::MoveSubsurface { .. } => {
            assert(if s.needs_configure() {
                !after.is_configured(s) && !after.is_dirty(s)
            } else {
                after.is_dirty(s)
            });
        },
        SurfaceOp::MoveAttached { .. } => {
            assert(if s.needs_configure() {
                !after.is_configured(s) && !after.is_dirty(s)
            } else {
                after.is_dirty(s)
            });
        },
        SurfaceOp::AnchorAttached { .. } => {
            assert(if s.needs_configure() {
                !after.is_configured(s) && !after.is_dirty(s)
            } else {
                after.is_dirty(s)
            });
        },
    }
}

/// Right after its configuration a registered surface is dirty, and has the size that was
/// negotiated.
pub proof fn lemma_configure_makes_dirty(r: RegistryModel, s: SurfaceRef, width: u32, height: u32)
    requires
        r.wf(),
        r.contains(s),
        s.needs_configure(),
    ensures
        r.configured(s, width, height).is_configured(s),
        r.configured(s, width, height).is_dirty(s),
        r.configured(s, width, height).extent(s) == match s {
            SurfaceRef::Popup(_) => r.extent(s),
            SurfaceRef::Overlay(_) => overlay_size(r.extent(s), width, height),
            _ => negotiated_size(r.extent(s), width, height),
        },
{
}

/// A dirty surface is still dirty, and still belongs to the same window, after any step
/// that neither renders nor closes it.
#[verifier::rlimit(50)]
pub proof fn lemma_step_leaves_dirty(r: RegistryModel, op: SurfaceOp, s: SurfaceRef)
    requires
        r.wf(),
        r.is_dirty(s),
        !op.renders(s),
        !op.closes(s, r.parent_of(s)),
    ensures
        r.apply(op).is_dirty(s),
        r.apply(op).parent_of(s) == r.parent_of(s),
{
    // By cases on the step.
    let after = r.apply(op);
    match op {
        SurfaceOp::Close { target } => {
            if let SurfaceRef::Popup(id) = s {
                if let SurfaceRef::Window(w) = target {
                    assert(!r.popups_of(w).contains(id.0));
                }
            }
            assert(after.is_dirty(s) && after.parent_of(s) == r.parent_of(s));
        },
        SurfaceOp::Configure { target, width, height } => {
            assert(after.is_dirty(s) && after.parent_of(s) == r.parent_of(s));
        },
        SurfaceOp::Render { target } => {
            assert(after.is_dirty(s) && after.parent_of(s) == r.parent_of(s));
        },
        SurfaceOp::MarkDirty { target } => {
            assert(after.is_dirty(s) && after.parent_of(s) == r.parent_of(s));
        },
        SurfaceOp::CreateWindow { .. } => {
            assert(after.is_dirty(s) && after.parent_of(s) == r.parent_of(s));
        },
        SurfaceOp::CreatePopup { .. } => {
            assert(after.is_dirty(s) && after.parent_of(s) == r.parent_of(s));
        },
        SurfaceOp::CreateOverlay { .. } => {
            assert(after.is_dirty(s) && after.parent_of(s) == r.parent_of(s));
        },
        SurfaceOp::CreateSubsurface { .. } => {
            assert(after.is_dirty(s) && after.parent_of(s) == r.parent_of(s));
        },
        SurfaceOp::CreateAttached { .. } => {
            assert(after.is_dirty(s) && after.parent_of(s) == r.parent_of(s));
        },
        SurfaceOp::MoveSubsurface { .. } => {
            assert(after.is_dirty(s) && after.parent_of(s) == r.parent_of(s));
        },
        SurfaceOp::MoveAttached { .. } => {
            assert(after.is_dirty(s) && after.parent_of(s) == r.parent_of(s));
        },
        SurfaceOp::AnchorAttached { .. } => {
            assert(after.is_dirty(s) && after.parent_of(s) == r.parent_of(s));
        },
    }
}

/// A dirty surface stays dirty until it is rendered: no sequence of steps that neither
/// renders nor closes it clears the flag.
pub proof fn lemma_dirty_until_rendered(r: RegistryModel, ops: Seq<SurfaceOp>, s: SurfaceRef)
    requires
        r.wf(),
        r.is_dirty(s),
        forall|i: int|
            0 <= i < ops.len() ==> !(#[trigger] ops[i]).renders(s) && !ops[i].closes(
                s,
                r.parent_of(s),
            ),
    ensures
        r.run(ops).is_dirty(s),
        r.run(ops).parent_of(s) == r.parent_of(s),
    decreases ops.len(),
{
    if ops.len() > 0 {
        let before = ops.drop_last();
        assert forall|i: int| 0 <= i < before.len() implies !(#[trigger] before[i]).renders(s)
            && !before[i].closes(s, r.parent_of(s)) by {
            assert(before[i] == ops[i]);
        }
        lemma_dirty_until_rendered(r, before, s);
        lemma_run_keeps_wf(r, before);
        lemma_step_leaves_dirty(r.run(before), ops.last(), s);
    }
}

/// Rendering clears the dirty flag, and only that: a second rendering in a row, or a
/// rendering of a surface that is not dirty, changes nothing.
#[verifier::rlimit(50)]
pub proof fn lemma_render_clears_once(r: RegistryModel, s: SurfaceRef)
    requires
        r.wf(),
    ensures
        !r.rendered(s).is_dirty(s),
        r.rendered(s).rendered(s) == r.rendered(s),
        !r.is_dirty(s) ==> r.rendered(s) == r,
        r.rendered(s).is_configured(s) == r.is_configured(s),
        r.rendered(s).contains(s) ==> r.rendered(s).extent(s) == r.extent(s),
{
    let once = r.rendered(s);
    let twice = once.rendered(s);
    assert(twice.windows =~= once.windows);
    assert(twice.popups =~= once.popups);
    assert(twice.overlays =~= once.overlays);
    assert(twice.subsurfaces =~= once.subsurfaces);
    assert(twice.attached_surfaces =~= once.attached_surfaces);
    if !r.is_dirty(s) {
        assert(once.windows =~= r.windows);
        assert(once.popups =~= r.popups);
        assert(once.overlays =~= r.overlays);
        assert(once.subsurfaces =~= r.subsurfaces);
        assert(once.attached_surfaces =~= r.attached_surfaces);
    }
}

/// Closing a window removes the window and each of its popups, and nothing else: the
/// popups of other windows stay as they are, and so does every overlay, subsurface and
/// attached surface, whichever window it belongs to.
#[verifier::rlimit(50)]
pub proof fn lemma_close_window_cascade(r: RegistryModel, window: WindowId)
    ensures
        !r.closed(SurfaceRef::Window(window)).windows.contains_key(window.0),
        forall|k: u64|
            k != window.0 ==> (#[trigger] r.closed(SurfaceRef::Window(window)).windows.contains_key(
                k,
            ) <==> r.windows.contains_key(k)),
        forall|k: u64| #[trigger]
            r.closed(SurfaceRef::Window(window)).windows.contains_key(k) ==> r.closed(
                SurfaceRef::Window(window),
            ).windows[k] == r.windows[k],
        forall|k: u64| #[trigger]
            r.closed(SurfaceRef::Window(window)).popups.contains_key(k) <==> r.popups.contains_key(
                k,
            ) && r.popups[k].parent != window,
        forall|k: u64| #[trigger]
            r.closed(SurfaceRef::Window(window)).popups.contains_key(k) ==> r.closed(
                SurfaceRef::Window(window),
            ).popups[k] == r.popups[k],
        r.closed(SurfaceRef::Window(window)).popups_of(window) == Set::<u64>::empty(),
        r.closed(SurfaceRef::Window(window)).overlays == r.overlays,
        r.closed(SurfaceRef::Window(window)).subsurfaces == r.subsurfaces,
        r.closed(SurfaceRef::Window(window)).attached_surfaces == r.attached_surfaces,
{
    let c = r.closed(SurfaceRef::Window(window));
    assert(c.popups_of(window) =~= Set::<u64>::empty());
}

/// Closing a window with N popups leaves N popups fewer in the registry.
pub proof fn lemma_close_window_count(r: RegistryModel, window: WindowId)
    requires
        r.wf(),
    ensures
        r.popups_of(window).finite(),
        r.closed(SurfaceRef::Window(window)).popups.len() == r.popups.len() - r.popups_of(
            window,
        ).len(),
{
    let gone = r.popups_of(window);
    assert(gone.subset_of(r.popups.dom()));
    vstd::set_lib::lemma_len_subset(gone, r.popups.dom());
    r.popups.lemma_remove_keys_len(gone);
}

/// The placement of a popup is fixed when the popup is created: no step changes it, and
/// in particular no resizing of the parent window does. A step may close the popup; as long
/// as the popup is registered, its placement, parent and size are what they were.
#[verifier::rlimit(50)]
pub proof fn lemma_step_keeps_placement(r: RegistryModel, op: SurfaceOp, popup: PopupId)
    requires
        r.wf(),
        r.popups.contains_key(popup.0),
        r.apply(op).popups.contains_key(popup.0),
    ensures
        r.apply(op).popups[popup.0].placement == r.popups[popup.0].placement,
        r.apply(op).popups[popup.0].parent == r.popups[popup.0].parent,
        r.apply(op).extent(SurfaceRef::Popup(popup)) == r.extent(SurfaceRef::Popup(popup)),
{
    // By cases on the step.
    let after = r.apply(op);
    match op {
        SurfaceOp::CreateWindow { .. } => {
            assert(after.popups[popup.0].placement == r.popups[popup.0].placement
                && after.popups[popup.0].parent == r.popups[popup.0].parent
                && after.extent(SurfaceRef::Popup(popup)) == r.extent(SurfaceRef::Popup(popup)));
        },
        SurfaceOp::CreatePopup { .. } => {
            assert(after.popups[popup.0].placement == r.popups[popup.0].placement
                && after.popups[popup.0].parent == r.popups[popup.0].parent
                && after.extent(SurfaceRef::Popup(popup)) == r.extent(SurfaceRef::Popup(popup)));
        },
        SurfaceOp::CreateOverlay { .. } => {
            assert(after.popups[popup.0].placement == r.popups[popup.0].placement
                && after.popups[popup.0].parent == r.popups[popup.0].parent
                && after.extent(SurfaceRef::Popup(popup)) == r.extent(SurfaceRef::Popup(popup)));
        },
        SurfaceOp::CreateSubsurface { .. } => {
            assert(after.popups[popup.0].placement == r.popups[popup.0].placement
                && after.popups[popup.0].parent == r.popups[popup.0].parent
                && after.extent(SurfaceRef::Popup(popup)) == r.extent(SurfaceRef::Popup(popup)));
        },
        SurfaceOp::CreateAttached { .. } => {
            assert(after.popups[popup.0].placement == r.popups[popup.0].placement
                && after.popups[popup.0].parent == r.popups[popup.0].parent
                && after.extent(SurfaceRef::Popup(popup)) == r.extent(SurfaceRef::Popup(popup)));
        },
        SurfaceOp::Configure { .. } => {
            assert(after.popups[popup.0].placement == r.popups[popup.0].placement
                && after.popups[popup.0].parent == r.popups[popup.0].parent
                && after.extent(SurfaceRef::Popup(popup)) == r.extent(SurfaceRef::Popup(popup)));
        },
        SurfaceOp::Render { .. } => {
            assert(after.popups[popup.0].placement == r.popups[popup.0].placement
                && after.popups[popup.0].parent == r.popups[popup.0].parent
                && after.extent(SurfaceRef::Popup(popup)) == r.extent(SurfaceRef::Popup(popup)));
        },
        SurfaceOp::MarkDirty { .. } => {
            assert(after.popups[popup.0].placement == r.popups[popup.0].placement
                && after.popups[popup.0].parent == r.popups[popup.0].parent
                && after.extent(SurfaceRef::Popup(popup)) == r.extent(SurfaceRef::Popup(popup)));
        },
        SurfaceOp::Close { .. } => {
            assert(after.popups[popup.0].placement == r.popups[popup.0].placement
                && after.popups[popup.0].parent == r.popups[popup.0].parent
                && after.extent(SurfaceRef::Popup(popup)) == r.extent(SurfaceRef::Popup(popup)));
        },
        SurfaceOp::MoveSubsurface { .. } => {
            assert(after.popups[popup.0].placement == r.popups[popup.0].placement
                && after.popups[popup.0].parent == r.popups[popup.0].parent
                && after.extent(SurfaceRef::Popup(popup)) == r.extent(SurfaceRef::Popup(popup)));
        },
        SurfaceOp::MoveAttached { .. } => {
            assert(after.popups[popup.0].placement == r.popups[popup.0].placement
                && after.popups[popup.0].parent == r.popups[popup.0].parent
                && after.extent(SurfaceRef::Popup(popup)) == r.extent(SurfaceRef::Popup(popup)));
        },
        SurfaceOp::AnchorAttached { .. } => {
            assert(after.popups[popup.0].placement == r.popups[popup.0].placement
                && after.popups[popup.0].parent == r.popups[popup.0].parent
                && after.extent(SurfaceRef::Popup(popup)) == r.extent(SurfaceRef::Popup(popup)));
        },
    }
}

/// Identifiers are not used twice: a surface that is registered after a step and was not
/// before it was created by that step, under the next identifier of its kind, and no step
/// moves a counter back. So a surface that was closed does not come back.
#[verifier::rlimit(50)]
pub proof fn lemma_identifiers_are_fresh(r: RegistryModel, op: SurfaceOp, s: SurfaceRef)
    requires
        r.wf(),
        !r.contains(s),
        r.apply(op).contains(s),
    ensures
        match s {
            SurfaceRef::Window(id) => id.0 == r.next_window_id && op is CreateWindow,
            SurfaceRef::Popup(id) => id.0 == r.next_popup_id && op is CreatePopup,
            SurfaceRef::Overlay(id) => id.0 == r.next_overlay_id && op is CreateOverlay,
            SurfaceRef::Subsurface(id) => id.0 == r.next_subsurface_id && op is CreateSubsurface,
            SurfaceRef::Attached(id) => id.0 == r.next_attached_surface_id && op is CreateAttached,
        },
        r.apply(op).next_window_id >= r.next_window_id,
        r.apply(op).next_popup_id >= r.next_popup_id,
        r.apply(op).next_overlay_id >= r.next_overlay_id,
        r.apply(op).next_subsurface_id >= r.next_subsurface_id,
        r.apply(op).next_attached_surface_id >= r.next_attached_surface_id,
{
    // By cases on the step.
    let after = r.apply(op);
    match op {
        SurfaceOp::CreateWindow { .. } => {
            assert(match s {
                SurfaceRef::Window(id) => id.0 == r.next_window_id && op is CreateWindow,
                SurfaceRef::Popup(id) => id.0 == r.next_popup_id && op is CreatePopup,
                SurfaceRef::Overlay(id) => id.0 == r.next_overlay_id && op is CreateOverlay,
                SurfaceRef::Subsurface(id) => id.0 == r.next_subsurface_id
                    && op is CreateSubsurface,
                SurfaceRef::Attached(id) => id.0 == r.next_attached_surface_id
                    && op is CreateAttached,
            } && after.next_window_id >= r.next_window_id && after.next_popup_id
                >= r.next_popup_id && after.next_overlay_id >= r.next_overlay_id
                && after.next_subsurface_id >= r.next_subsurface_id
                && after.next_attached_surface_id >= r.next_attached_surface_id);
        },
        SurfaceOp::CreatePopup { .. } => {
            assert(match s {
                SurfaceRef::Window(id) => id.0 == r.next_window_id && op is CreateWindow,
                SurfaceRef::Popup(id) => id.0 == r.next_popup_id && op is CreatePopup,
                SurfaceRef::Overlay(id) => id.0 == r.next_overlay_id && op is CreateOverlay,
                SurfaceRef::Subsurface(id) => id.0 == r.next_subsurface_id
                    && op is CreateSubsurface,
                SurfaceRef::Attached(id) => id.0 == r.next_attached_surface_id
                    && op is CreateAttached,
            } && after.next_window_id >= r.next_window_id && after.next_popup_id
                >= r.next_popup_id && after.next_overlay_id >= r.next_overlay_id
                && after.next_subsurface_id >= r.next_subsurface_id
                && after.next_attached_surface_id >= r.next_attached_surface_id);
        },
        SurfaceOp::CreateOverlay { .. } => {
            assert(match s {
                SurfaceRef::Window(id) => id.0 == r.next_window_id && op is CreateWindow,
                SurfaceRef::Popup(id) => id.0 == r.next_popup_id && op is CreatePopup,
                SurfaceRef::Overlay(id) => id.0 == r.next_overlay_id && op is CreateOverlay,
                SurfaceRef::Subsurface(id) => id.0 == r.next_subsurface_id
                    && op is CreateSubsurface,
                SurfaceRef::Attached(id) => id.0 == r.next_attached_surface_id
                    && op is CreateAttached,
            } && after.next_window_id >= r.next_window_id && after.next_popup_id
                >= r.next_popup_id && after.next_overlay_id >= r.next_overlay_id
                && after.next_subsurface_id >= r.next_subsurface_id
                && after.next_attached_surface_id >= r.next_attached_surface_id);
        },
        SurfaceOp::CreateSubsurface { .. } => {
            assert(match s {
                SurfaceRef::Window(id) => id.0 == r.next_window_id && op is CreateWindow,
                SurfaceRef::Popup(id) => id.0 == r.next_popup_id && op is CreatePopup,
                SurfaceRef::Overlay(id) => id.0 == r.next_overlay_id && op is CreateOverlay,
                SurfaceRef::Subsurface(id) => id.0 == r.next_subsurface_id
                    && op is CreateSubsurface,
                SurfaceRef::Attached(id) => id.0 == r.next_attached_surface_id
                    && op is CreateAttached,
            } && after.next_window_id >= r.next_window_id && after.next_popup_id
                >= r.next_popup_id && after.next_overlay_id >= r.next_overlay_id
                && after.next_subsurface_id >= r.next_subsurface_id
                && after.next_attached_surface_id >= r.next_attached_surface_id);
        },
        SurfaceOp::CreateAttached { .. } => {
            assert(match s {
                SurfaceRef::Window(id) => id.0 == r.next_window_id && op is CreateWindow,
                SurfaceRef::Popup(id) => id.0 == r.next_popup_id && op is CreatePopup,
                SurfaceRef::Overlay(id) => id.0 == r.next_overlay_id && op is CreateOverlay,
                SurfaceRef::Subsurface(id) => id.0 == r.next_subsurface_id
                    && op is CreateSubsurface,
                SurfaceRef::Attached(id) => id.0 == r.next_attached_surface_id
                    && op is CreateAttached,
            } && after.next_window_id >= r.next_window_id && after.next_popup_id
                >= r.next_popup_id && after.next_overlay_id >= r.next_overlay_id
                && after.next_subsurface_id >= r.next_subsurface_id
                && after.next_attached_surface_id >= r.next_attached_surface_id);
        },
        SurfaceOp::Configure { .. } => {
            assert(match s {
                SurfaceRef::Window(id) => id.0 == r.next_window_id && op is CreateWindow,
                SurfaceRef::Popup(id) => id.0 == r.next_popup_id && op is CreatePopup,
                SurfaceRef::Overlay(id) => id.0 == r.next_overlay_id && op is CreateOverlay,
                SurfaceRef::Subsurface(id) => id.0 == r.next_subsurface_id
                    && op is CreateSubsurface,
                SurfaceRef::Attached(id) => id.0 == r.next_attached_surface_id
                    && op is CreateAttached,
            } && after.next_window_id >= r.next_window_id && after.next_popup_id
                >= r.next_popup_id && after.next_overlay_id >= r.next_overlay_id
                && after.next_subsurface_id >= r.next_subsurface_id
                && after.next_attached_surface_id >= r.next_attached_surface_id);
        },
        SurfaceOp::Render { .. } => {
            assert(match s {
                SurfaceRef::Window(id) => id.0 == r.next_window_id && op is CreateWindow,
                SurfaceRef::Popup(id) => id.0 == r.next_popup_id && op is CreatePopup,
                SurfaceRef::Overlay(id) => id.0 == r.next_overlay_id && op is CreateOverlay,
                SurfaceRef::Subsurface(id) => id.0 == r.next_subsurface_id
                    && op is CreateSubsurface,
                SurfaceRef::Attached(id) => id.0 == r.next_attached_surface_id
                    && op is CreateAttached,
            } && after.next_window_id >= r.next_window_id && after.next_popup_id
                >= r.next_popup_id && after.next_overlay_id >= r.next_overlay_id
                && after.next_subsurface_id >= r.next_subsurface_id
                && after.next_attached_surface_id >= r.next_attached_surface_id);
        },
        SurfaceOp::MarkDirty { .. } => {
            assert(match s {
                SurfaceRef::Window(id) => id.0 == r.next_window_id && op is CreateWindow,
                SurfaceRef::Popup(id) => id.0 == r.next_popup_id && op is CreatePopup,
                SurfaceRef::Overlay(id) => id.0 == r.next_overlay_id && op is CreateOverlay,
                SurfaceRef::Subsurface(id) => id.0 == r.next_subsurface_id
                    && op is CreateSubsurface,
                SurfaceRef::Attached(id) => id.0 == r.next_attached_surface_id
                    && op is CreateAttached,
            } && after.next_window_id >= r.next_window_id && after.next_popup_id
                >= r.next_popup_id && after.next_overlay_id >= r.next_overlay_id
                && after.next_subsurface_id >= r.next_subsurface_id
                && after.next_attached_surface_id >= r.next_attached_surface_id);
        },
        SurfaceOp::Close { .. } => {
            assert(match s {
                SurfaceRef::Window(id) => id.0 == r.next_window_id && op is CreateWindow,
                SurfaceRef::Popup(id) => id.0 == r.next_popup_id && op is CreatePopup,
                SurfaceRef::Overlay(id) => id.0 == r.next_overlay_id && op is CreateOverlay,
                SurfaceRef::Subsurface(id) => id.0 == r.next_subsurface_id
                    && op is CreateSubsurface,
                SurfaceRef::Attached(id) => id.0 == r.next_attached_surface_id
                    && op is CreateAttached,
            } && after.next_window_id >= r.next_window_id && after.next_popup_id
                >= r.next_popup_id && after.next_overlay_id >= r.next_overlay_id
                && after.next_subsurface_id >= r.next_subsurface_id
                && after.next_attached_surface_id >= r.next_attached_surface_id);
        },
        SurfaceOp::MoveSubsurface { .. } => {
            assert(match s {
                SurfaceRef::Window(id) => id.0 == r.next_window_id && op is CreateWindow,
                SurfaceRef::Popup(id) => id.0 == r.next_popup_id && op is CreatePopup,
                SurfaceRef::Overlay(id) => id.0 == r.next_overlay_id && op is CreateOverlay,
                SurfaceRef::Subsurface(id) => id.0 == r.next_subsurface_id
                    && op is CreateSubsurface,
                SurfaceRef::Attached(id) => id.0 == r.next_attached_surface_id
                    && op is CreateAttached,
            } && after.next_window_id >= r.next_window_id && after.next_popup_id
                >= r.next_popup_id && after.next_overlay_id >= r.next_overlay_id
                && after.next_subsurface_id >= r.next_subsurface_id
                && after.next_attached_surface_id >= r.next_attached_surface_id);
        },
        SurfaceOp::MoveAttached { .. } => {
            assert(match s {
                SurfaceRef::Window(id) => id.0 == r.next_window_id && op is CreateWindow,
                SurfaceRef::Popup(id) => id.0 == r.next_popup_id && op is CreatePopup,
                SurfaceRef::Overlay(id) => id.0 == r.next_overlay_id && op is CreateOverlay,
                SurfaceRef::Subsurface(id) => id.0 == r.next_subsurface_id
                    && op is CreateSubsurface,
                SurfaceRef::Attached(id) => id.0 == r.next_attached_surface_id
                    && op is CreateAttached,
            } && after.next_window_id >= r.next_window_id && after.next_popup_id
                >= r.next_popup_id && after.next_overlay_id >= r.next_overlay_id
                && after.next_subsurface_id >= r.next_subsurface_id
                && after.next_attached_surface_id >= r.next_attached_surface_id);
        },
        SurfaceOp::AnchorAttached { .. } => {
            assert(match s {
                SurfaceRef::Window(id) => id.0 == r.next_window_id && op is CreateWindow,
                SurfaceRef::Popup(id) => id.0 == r.next_popup_id && op is CreatePopup,
                SurfaceRef::Overlay(id) => id.0 == r.next_overlay_id && op is CreateOverlay,
                SurfaceRef::Subsurface(id) => id.0 == r.next_subsurface_id
                    && op is CreateSubsurface,
                SurfaceRef::Attached(id) => id.0 == r.next_attached_surface_id
                    && op is CreateAttached,
            } && after.next_window_id >= r.next_window_id && after.next_popup_id
                >= r.next_popup_id && after.next_overlay_id >= r.next_overlay_id
                && after.next_subsurface_id >= r.next_subsurface_id
                && after.next_attached_surface_id >= r.next_attached_surface_id);
        },
    }
}

/// No step moves a counter of identifiers back.
#[verifier::rlimit(50)]
pub proof fn lemma_step_counters_grow(r: RegistryModel, op: SurfaceOp)
    ensures
        r.apply(op).next_window_id >= r.next_window_id,
        r.apply(op).next_popup_id >= r.next_popup_id,
        r.apply(op).next_overlay_id >= r.next_overlay_id,
        r.apply(op).next_subsurface_id >= r.next_subsurface_id,
        r.apply(op).next_attached_surface_id >= r.next_attached_surface_id,
{
    // By cases on the step.
    let after = r.apply(op);
    match op {
        SurfaceOp::CreateWindow { .. } => {
            assert(after.next_window_id >= r.next_window_id && after.next_popup_id >= r.next_popup_id
                && after.next_overlay_id >= r.next_overlay_id && after.next_subsurface_id
                >= r.next_subsurface_id && after.next_attached_surface_id
                >= r.next_attached_surface_id);
        },
        SurfaceOp::CreatePopup { .. } => {
            assert(after.next_window_id >= r.next_window_id && after.next_popup_id >= r.next_popup_id
                && after.next_overlay_id >= r.next_overlay_id && after.next_subsurface_id
                >= r.next_subsurface_id && after.next_attached_surface_id
                >= r.next_attached_surface_id);
        },
        SurfaceOp::CreateOverlay { .. } => {
            assert(after.next_window_id >= r.next_window_id && after.next_popup_id >= r.next_popup_id
                && after.next_overlay_id >= r.next_overlay_id && after.next_subsurface_id
                >= r.next_subsurface_id && after.next_attached_surface_id
                >= r.next_attached_surface_id);
        },
        SurfaceOp::CreateSubsurface { .. } => {
            assert(after.next_window_id >= r.next_window_id && after.next_popup_id >= r.next_popup_id
                && after.next_overlay_id >= r.next_overlay_id && after.next_subsurface_id
                >= r.next_subsurface_id && after.next_attached_surface_id
                >= r.next_attached_surface_id);
        },
        SurfaceOp::CreateAttached { .. } => {
            assert(after.next_window_id >= r.next_window_id && after.next_popup_id >= r.next_popup_id
                && after.next_overlay_id >= r.next_overlay_id && after.next_subsurface_id
                >= r.next_subsurface_id && after.next_attached_surface_id
                >= r.next_attached_surface_id);
        },
        SurfaceOp::Configure { .. } => {
            assert(after.next_window_id >= r.next_window_id && after.next_popup_id >= r.next_popup_id
                && after.next_overlay_id >= r.next_overlay_id && after.next_subsurface_id
                >= r.next_subsurface_id && after.next_attached_surface_id
                >= r.next_attached_surface_id);
        },
        SurfaceOp::Render { .. } => {
            assert(after.next_window_id >= r.next_window_id && after.next_popup_id >= r.next_popup_id
                && after.next_overlay_id >= r.next_overlay_id && after.next_subsurface_id
                >= r.next_subsurface_id && after.next_attached_surface_id
                >= r.next_attached_surface_id);
        },
        SurfaceOp::MarkDirty { .. } => {
            assert(after.next_window_id >= r.next_window_id && after.next_popup_id >= r.next_popup_id
                && after.next_overlay_id >= r.next_overlay_id && after.next_subsurface_id
                >= r.next_subsurface_id && after.next_attached_surface_id
                >= r.next_attached_surface_id);
        },
        SurfaceOp::Close { .. } => {
            assert(after.next_window_id >= r.next_window_id && after.next_popup_id >= r.next_popup_id
                && after.next_overlay_id >= r.next_overlay_id && after.next_subsurface_id
                >= r.next_subsurface_id && after.next_attached_surface_id
                >= r.next_attached_surface_id);
        },
        SurfaceOp::MoveSubsurface { .. } => {
            assert(after.next_window_id >= r.next_window_id && after.next_popup_id >= r.next_popup_id
                && after.next_overlay_id >= r.next_overlay_id && after.next_subsurface_id
                >= r.next_subsurface_id && after.next_attached_surface_id
                >= r.next_attached_surface_id);
        },
        SurfaceOp::MoveAttached { .. } => {
            assert(after.next_window_id >= r.next_window_id && after.next_popup_id >= r.next_popup_id
                && after.next_overlay_id >= r.next_overlay_id && after.next_subsurface_id
                >= r.next_subsurface_id && after.next_attached_surface_id
                >= r.next_attached_surface_id);
        },
        SurfaceOp::AnchorAttached { .. } => {
            assert(after.next_window_id >= r.next_window_id && after.next_popup_id >= r.next_popup_id
                && after.next_overlay_id >= r.next_overlay_id && after.next_subsurface_id
                >= r.next_subsurface_id && after.next_attached_surface_id
                >= r.next_attached_surface_id);
        },
    }
}

/// No sequence of steps moves the counter of popup identifiers back.
pub proof fn lemma_run_popup_counter_grows(r: RegistryModel, ops: Seq<SurfaceOp>)
    ensures
        r.run(ops).next_popup_id >= r.next_popup_id,
    decreases ops.len(),
{
    if ops.len() > 0 {
        lemma_run_popup_counter_grows(r, ops.drop_last());
        lemma_step_counters_grow(r.run(ops.drop_last()), ops.last());
    }
}

/// A popup that is registered before and after a sequence of steps has the placement, the
/// parent and the size that it had: no step changes them, and a popup that was closed on
/// the way does not come back.
pub proof fn lemma_run_keeps_placement(r: RegistryModel, ops: Seq<SurfaceOp>, popup: PopupId)
    requires
        r.wf(),
        r.popups.contains_key(popup.0),
        r.run(ops).popups.contains_key(popup.0),
    ensures
        r.run(ops).popups[popup.0].placement == r.popups[popup.0].placement,
        r.run(ops).popups[popup.0].parent == r.popups[popup.0].parent,
        r.run(ops).extent(SurfaceRef::Popup(popup)) == r.extent(SurfaceRef::Popup(popup)),
    decreases ops.len(),
{
    if ops.len() > 0 {
        let before = r.run(ops.drop_last());
        lemma_run_keeps_wf(r, ops.drop_last());
        assert(before.popups.contains_key(popup.0)) by {
            // Else the last step would have created it anew, under an identifier that was
            // yet to come, while its own identifier was handed out long before.
            lemma_run_popup_counter_grows(r, ops.drop_last());
            if !before.popups.contains_key(popup.0) {
                lemma_identifiers_are_fresh(before, ops.last(), SurfaceRef::Popup(popup));
            }
        }
        lemma_run_keeps_placement(r, ops.drop_last(), popup);
        lemma_step_keeps_placement(before, ops.last(), popup);
    }
}

/// The placement of a popup is fixed at its creation. A popup that is created on a
/// registered window gets the next identifier, the size that was asked for, and the
/// placement that the configuration gives against the parent's size at that moment; it
/// waits for its configuration. Whatever happens afterwards, a resize of the parent
/// included, the popup has that placement for as long as it is registered.
pub proof fn lemma_placement_is_fixed_at_creation(
    r: RegistryModel,
    parent: WindowId,
    surface: u32,
    config: PopupConfig,
    ops: Seq<SurfaceOp>,
)
    requires
        r.wf(),
        r.windows.contains_key(parent.0),
        r.next_popup_id < u64::MAX,
    ensures
        ({
            let id = r.next_popup_id;
            let created = r.created_popup(parent, surface, config);
            let placement = placement_for(
                config,
                r.windows[parent.0].width,
                r.windows[parent.0].height,
            );
            &&& !r.popups.contains_key(id)
            &&& created.popups.contains_key(id)
            &&& created.popups[id] == (Popup {
                id: PopupId(id),
                parent,
                surface,
                width: config.size.0,
                height: config.size.1,
                dirty: false,
                configured: false,
                placement,
            })
            &&& created.run(ops).popups.contains_key(id) ==> created.run(ops).popups[id].placement
                == placement
        }),
{
    let id = r.next_popup_id;
    let created = r.created_popup(parent, surface, config);
    lemma_apply_keeps_wf(r, SurfaceOp::CreatePopup { parent, surface, config });
    assert(created == r.apply(SurfaceOp::CreatePopup { parent, surface, config }));
    if created.run(ops).popups.contains_key(id) {
        lemma_run_keeps_placement(created, ops, PopupId(id));
    }
}

/// Every sequence of steps keeps the registry's invariant.
pub proof fn lemma_run_keeps_wf(r: RegistryModel, ops: Seq<SurfaceOp>)
    requires
        r.wf(),
    ensures
        r.run(ops).wf(),
    decreases ops.len(),
{
    if ops.len() > 0 {
        lemma_run_keeps_wf(r, ops.drop_last());
        lemma_apply_keeps_wf(r.run(ops.drop_last()), ops.last());
    }
}

} // verus!
