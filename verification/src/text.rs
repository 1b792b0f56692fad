//! Alignment of text within a rectangle.

use crate::widget::{clamped, signed, Rect};
use vstd::prelude::*;

verus! {

/// Horizontal alignment.
#[derive(Clone, Copy, Debug, PartialEq, Eq, Structural)]
pub enum HAlign {
    Left,
    Center,
    Right,
}

impl Default for HAlign {
    fn default() -> (a: HAlign)
        ensures
            a == HAlign::Left,
    {
        HAlign::Left
    }
}

/// Vertical alignment.
#[derive(Clone, Copy, Debug, PartialEq, Eq, Structural)]
pub enum VAlign {
    Top,
    Center,
    Bottom,
}

impl Default for VAlign {
    fn default() -> (a: VAlign)
        ensures
            a == VAlign::Center,
    {
        VAlign::Center
    }
}

/// Half of a value, rounded toward zero.
pub open spec fn half(value: int) -> int {
    if value >= 0 {
        value / 2
    } else {
        -((-value) / 2)
    }
}

/// Where text of the given extent starts along one axis of a rectangle that begins at
/// `start` and is `extent` long: at the beginning, in the middle, or so that it ends at the
/// end. `place` is 0, 1 or 2 for these. A position beyond the coordinate range is held to
/// its ends.
pub open spec fn aligned_start(start: i32, extent: u32, text_extent: i32, place: int) -> int {
    if place == 0 {
        start as int
    } else if place == 1 {
        clamped(start + half(signed(extent) - text_extent), i32::MIN as int, i32::MAX as int)
    } else {
        clamped(start + signed(extent) - text_extent, i32::MIN as int, i32::MAX as int)
    }
}

/// The place along the horizontal axis that an alignment stands for.
pub open spec fn h_place(align: HAlign) -> int {
    match align {
        HAlign::Left => 0,
        HAlign::Center => 1,
        HAlign::Right => 2,
    }
}

/// The place along the vertical axis that an alignment stands for.
pub open spec fn v_place(align: VAlign) -> int {
    match align {
        VAlign::Top => 0,
        VAlign::Center => 1,
        VAlign::Bottom => 2,
    }
}

/// Computes [`aligned_start`].
fn align_axis(start: i32, extent: u32, text_extent: i32, place: u8) -> (at: i32)
    requires
        place <= 2,
    ensures
        at == aligned_start(start, extent, text_extent, place as int),
{
    let extent_signed: i64 = if extent <= 0x7fff_ffff {
        extent as i64
    } else {
        extent as i64 - 0x1_0000_0000
    };
    let free: i64 = extent_signed - text_extent as i64;
    let offset: i64 = if place == 0 {
        0
    } else if place == 1 {
        if free >= 0 {
            free / 2
        } else {
            -((-free) / 2)
        }
    } else {
        free
    };
    let at: i64 = start as i64 + offset;
    if at < i32::MIN as i64 {
        i32::MIN
    } else if at > i32::MAX as i64 {
        i32::MAX
    } else {
        at as i32
    }
}

/// The top-left corner at which text of the given width and height is drawn so that it is
/// aligned within the rectangle.
pub fn aligned_origin(
    rect: Rect,
    text_width: i32,
    text_height: i32,
    h_align: HAlign,
    v_align: VAlign,
) -> (origin: (i32, i32))
    ensures
        origin.0 == aligned_start(rect.x, rect.width, text_width, h_place(h_align)),
        origin.1 == aligned_start(rect.y, rect.height, text_height, v_place(v_align)),
{
    let h: u8 = match h_align {
        HAlign::Left => 0,
        HAlign::Center => 1,
        HAlign::Right => 2,
    };
    let v: u8 = match v_align {
        VAlign::Top => 0,
        VAlign::Center => 1,
        VAlign::Bottom => 2,
    };
    (align_axis(rect.x, rect.width, text_width, h), align_axis(rect.y, rect.height, text_height, v))
}

} // verus!
