//! Surfaces attached to a window that may extend beyond the window's bounds.

use crate::window::WindowId;
use vstd::prelude::*;

verus! {

/// Identifier of an attached surface.
#[derive(Clone, Copy, Debug, PartialEq, Eq, Hash, Structural)]
pub struct AttachedSurfaceId(pub u64);

/// The edge of the parent window that an attached surface is anchored to.
#[derive(Clone, Copy, Debug, PartialEq, Eq, Structural)]
pub enum Anchor {
    /// Anchored to no edge: the surface is placed by its position alone.
    Unanchored,
    Top,
    Bottom,
    Left,
    Right,
}

impl Default for Anchor {
    fn default() -> (a: Anchor)
        ensures
            a == Anchor::Unanchored,
    {
        Anchor::Unanchored
    }
}

/// The number that stands for an anchor in protocol requests.
pub open spec fn anchor_code(anchor: Anchor) -> u32 {
    match anchor {
        Anchor::Unanchored => 0,
        Anchor::Top => 1,
        Anchor::Bottom => 2,
        Anchor::Left => 3,
        Anchor::Right => 4,
    }
}

impl Anchor {
    /// The number that stands for this anchor in protocol requests.
    pub fn to_protocol(self) -> (code: u32)
        ensures
            code == anchor_code(self),
    {
        match self {
            Anchor::Unanchored => 0,
            Anchor::Top => 1,
            Anchor::Bottom => 2,
            Anchor::Left => 3,
            Anchor::Right => 4,
        }
    }
}

/// A surface attached to a window. Its position, size and anchor can change after creation.
#[derive(Clone, Copy, Debug)]
pub struct AttachedSurface {
    pub id: AttachedSurfaceId,
    pub parent_window_id: WindowId,
    /// Number of the protocol surface that backs this attached surface.
    pub surface: u32,
    pub x: i32,
    pub y: i32,
    pub width: u32,
    pub height: u32,
    /// A repaint is owed.
    pub dirty: bool,
    /// The server's configuration has been acknowledged.
    pub configured: bool,
    /// A configuration that waits to be acknowledged: serial, width, height.
    pub pending_configure: Option<(u32, u32, u32)>,
    pub anchor: Anchor,
    /// Distance from the anchored edge.
    pub margin: i32,
    /// Displacement along the anchored edge.
    pub offset: i32,
}

impl AttachedSurface {
    /// An attached surface is never dirty before its configuration is acknowledged.
    pub open spec fn valid(self) -> bool {
        self.dirty ==> self.configured
    }

    pub fn is_valid(&self) -> (v: bool)
        ensures
            v == self.valid(),
    {
        !self.dirty || self.configured
    }

    /// Number of the protocol surface that backs this attached surface.
    pub fn wl_surface(&self) -> (s: u32)
        ensures
            s == self.surface,
    {
        self.surface
    }

    /// Anchors the surface to an edge of its parent.
    pub fn set_anchor(&mut self, anchor: Anchor, margin: i32, offset: i32)
        ensures
            *final(self) == (AttachedSurface { anchor, margin, offset, ..*old(self) }),
    {
        self.anchor = anchor;
        self.margin = margin;
        self.offset = offset;
    }

    /// Moves the surface relative to its parent.
    pub fn set_position(&mut self, x: i32, y: i32)
        ensures
            *final(self) == (AttachedSurface { x, y, ..*old(self) }),
    {
        self.x = x;
        self.y = y;
    }

    /// Changes the size that is asked for.
    pub fn set_size(&mut self, width: u32, height: u32)
        ensures
            *final(self) == (AttachedSurface { width, height, ..*old(self) }),
    {
        self.width = width;
        self.height = height;
    }

    /// Records that the configuration with the given serial has been acknowledged.
    pub fn ack_configure(&mut self, serial: u32)
        ensures
            *final(self) == (AttachedSurface {
                configured: true,
                pending_configure: None,
                ..*old(self)
            }),
    {
        self.configured = true;
        self.pending_configure = None;
    }

    /// Records that a repaint is owed; without effect before the first configuration.
    pub fn mark_dirty(&mut self)
        ensures
            *final(self) == (AttachedSurface { dirty: old(self).configured, ..*old(self) }),
    {
        self.dirty = self.configured;
    }
}

} // verus!
