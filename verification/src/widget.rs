//! Plain geometry shared by layout and hit-testing code.

use vstd::prelude::*;

verus! {

/// Identifier of a widget, chosen by whoever builds the widget tree.
#[derive(Clone, Copy, Debug, PartialEq, Eq, Hash, Structural)]
pub struct WidgetId(pub u64);

/// An axis-aligned rectangle: its top-left corner and its extent in pixels.
#[derive(Clone, Copy, Debug, PartialEq, Eq, Structural)]
pub struct Rect {
    pub x: i32,
    pub y: i32,
    pub width: u32,
    pub height: u32,
}

impl Rect {
    /// The point `(px, py)` lies inside the rectangle; the right and bottom edges are outside.
    pub open spec fn covers(self, px: int, py: int) -> bool {
        &&& self.x <= px < self.x + self.width
        &&& self.y <= py < self.y + self.height
    }

    pub fn new(x: i32, y: i32, width: u32, height: u32) -> (r: Rect)
        ensures
            r == (Rect { x, y, width, height }),
    {
        Rect { x, y, width, height }
    }

    /// Hit test, computed without overflow for every rectangle and point.
    pub fn contains(&self, px: i32, py: i32) -> (inside: bool)
        ensures
            inside == self.covers(px as int, py as int),
    {
        let right: i64 = self.x as i64 + self.width as i64;
        let bottom: i64 = self.y as i64 + self.height as i64;
        px >= self.x && (px as i64) < right && py >= self.y && (py as i64) < bottom
    }
}

impl Default for Rect {
    fn default() -> (r: Rect)
        ensures
            r == (Rect { x: 0, y: 0, width: 0, height: 0 }),
    {
        Rect { x: 0, y: 0, width: 0, height: 0 }
    }
}

/// Bounds that a layout pass hands to a widget.
#[derive(Clone, Copy, Debug, PartialEq, Eq, Structural)]
pub struct Constraints {
    pub min_width: u32,
    pub max_width: u32,
    pub min_height: u32,
    pub max_height: u32,
}

impl Constraints {
    /// Constraints that admit exactly one size.
    pub fn tight(width: u32, height: u32) -> (c: Constraints)
        ensures
            c == (Constraints {
                min_width: width,
                max_width: width,
                min_height: height,
                max_height: height,
            }),
    {
        Constraints { min_width: width, max_width: width, min_height: height, max_height: height }
    }

    /// Constraints that admit every size up to the given maximum.
    pub fn loose(max_width: u32, max_height: u32) -> (c: Constraints)
        ensures
            c == (Constraints { min_width: 0, max_width, min_height: 0, max_height }),
    {
        Constraints { min_width: 0, max_width, min_height: 0, max_height }
    }
}

impl Default for Constraints {
    fn default() -> (c: Constraints)
        ensures
            c == (Constraints { min_width: 0, max_width: 0, min_height: 0, max_height: 0 }),
    {
        Constraints { min_width: 0, max_width: 0, min_height: 0, max_height: 0 }
    }
}

/// A width and a height in pixels.
#[derive(Clone, Copy, Debug, PartialEq, Eq, Structural)]
pub struct Size {
    pub width: u32,
    pub height: u32,
}

impl Size {
    pub fn new(width: u32, height: u32) -> (s: Size)
        ensures
            s == (Size { width, height }),
    {
        Size { width, height }
    }
}

impl Default for Size {
    fn default() -> (s: Size)
        ensures
            s == (Size { width: 0, height: 0 }),
    {
        Size { width: 0, height: 0 }
    }
}

/// A value limited to the range from `low` to `high`.
pub open spec fn clamped(value: int, low: int, high: int) -> int {
    if value < low {
        low
    } else if value > high {
        high
    } else {
        value
    }
}

/// The sum of the heights of the first `n` sizes.
pub open spec fn total_height(sizes: Seq<Size>, n: int) -> int
    decreases n,
{
    if n <= 0 {
        0
    } else {
        total_height(sizes, n - 1) + sizes[n - 1].height
    }
}

/// The greatest width among the first `n` sizes; 0 where there is none.
pub open spec fn greatest_width(sizes: Seq<Size>, n: int) -> int
    decreases n,
{
    if n <= 0 {
        0
    } else if sizes[n - 1].width > greatest_width(sizes, n - 1) {
        sizes[n - 1].width as int
    } else {
        greatest_width(sizes, n - 1)
    }
}

/// The height that a vertical stack of children with the given sizes takes, before it is
/// held to the constraints: the heights of the children and the spacing between them.
pub open spec fn stacked_height(sizes: Seq<Size>, spacing: u32) -> int {
    if sizes.len() == 0 {
        0
    } else {
        total_height(sizes, sizes.len() as int) + spacing * (sizes.len() - 1)
    }
}

/// The size of a vertical stack: as wide as its widest child and as high as its children
/// and the spacing between them, each held to the constraints.
pub open spec fn stacked_size(sizes: Seq<Size>, spacing: u32, constraints: Constraints) -> Size {
    Size {
        width: clamped(
            greatest_width(sizes, sizes.len() as int),
            constraints.min_width as int,
            constraints.max_width as int,
        ) as u32,
        height: clamped(
            stacked_height(sizes, spacing),
            constraints.min_height as int,
            constraints.max_height as int,
        ) as u32,
    }
}

/// The constraints that a vertical stack hands to each child: its own, without a least
/// height.
pub fn stack_child_constraints(constraints: Constraints) -> (child: Constraints)
    ensures
        child == (Constraints { min_height: 0, ..constraints }),
{
    Constraints {
        min_width: constraints.min_width,
        max_width: constraints.max_width,
        min_height: 0,
        max_height: constraints.max_height,
    }
}

/// Adds without overflow: the sum, or `u32::MAX` where the sum is larger.
fn add_capped(a: u32, b: u32) -> (sum: u32)
    ensures
        sum == clamped(a + b, 0, u32::MAX as int),
{
    if a > u32::MAX - b {
        u32::MAX
    } else {
        a + b
    }
}

/// Computes the size of a vertical stack from the sizes of its children.
#[verifier::rlimit(50)]
pub fn stack_size(sizes: &[Size], spacing: u32, constraints: Constraints) -> (size: Size)
    requires
        constraints.min_width <= constraints.max_width,
        constraints.min_height <= constraints.max_height,
    ensures
        size == stacked_size(sizes@, spacing, constraints),
{
    let mut total: u32 = 0;
    let mut widest: u32 = 0;
    let mut i: usize = 0;
    while i < sizes.len()
        invariant
            i <= sizes@.len(),
            widest == greatest_width(sizes@, i as int),
            total == clamped(
                if i == 0 {
                    0
                } else {
                    total_height(sizes@, i as int) + spacing * (i - 1)
                },
                0,
                u32::MAX as int,
            ),
            total_height(sizes@, i as int) >= 0,
        decreases sizes@.len() - i,
    {
        proof {
            assert(spacing * (i - 1) + spacing == spacing * i) by (nonlinear_arith);
            assert(i > 0 ==> spacing * (i - 1) >= 0) by (nonlinear_arith)
                requires
                    spacing >= 0,
            ;
            assert(spacing * 0 == 0) by (nonlinear_arith);
            assert(total_height(sizes@, i + 1) == total_height(sizes@, i as int)
                + sizes@[i as int].height);
        }
        total = add_capped(total, sizes[i].height);
        if i > 0 {
            total = add_capped(total, spacing);
        }
        if sizes[i].width > widest {
            widest = sizes[i].width;
        }
        i = i + 1;
    }
    let width = if widest < constraints.min_width {
        constraints.min_width
    } else if widest > constraints.max_width {
        constraints.max_width
    } else {
        widest
    };
    let height = if total < constraints.min_height {
        constraints.min_height
    } else if total > constraints.max_height {
        constraints.max_height
    } else {
        total
    };
    Size { width, height }
}

/// The value of a `u32` reinterpreted as a two's-complement `i32`.
pub open spec fn signed(x: u32) -> int {
    if x <= i32::MAX {
        x as int
    } else {
        x - 0x1_0000_0000
    }
}

/// The top edge of each child of a vertical stack that starts at `top`: each child comes
/// below the one before it, after the spacing. Edges beyond the coordinate range are held
/// to its ends.
pub open spec fn stacked_top(top: i32, sizes: Seq<Size>, spacing: u32, n: int) -> int
    decreases n,
{
    if n <= 0 {
        top as int
    } else {
        clamped(
            stacked_top(top, sizes, spacing, n - 1) + signed(sizes[n - 1].height) + signed(spacing),
            i32::MIN as int,
            i32::MAX as int,
        )
    }
}

/// Reinterprets a `u32` as a two's-complement `i32`, which is how sizes travel in the
/// protocol's signed arguments.
pub fn to_signed(x: u32) -> (r: i32)
    ensures
        r == signed(x),
{
    if x <= 0x7fff_ffff {
        x as i32
    } else {
        let low: i32 = (x - 0x8000_0000) as i32;
        low + i32::MIN
    }
}

/// Holds a value to the range of `i32`.
fn clamp_to_i32(value: i64) -> (r: i32)
    ensures
        r == clamped(value as int, i32::MIN as int, i32::MAX as int),
{
    if value < i32::MIN as i64 {
        i32::MIN
    } else if value > i32::MAX as i64 {
        i32::MAX
    } else {
        value as i32
    }
}

/// The area of each child of a vertical stack that fills `bounds`: the children come one
/// below the other from the top of the bounds, at the left edge of the bounds, each with
/// its own size.
pub fn stack_child_bounds(bounds: Rect, sizes: &[Size], spacing: u32) -> (areas: Vec<Rect>)
    ensures
        areas@.len() == sizes@.len(),
        forall|i: int|
            0 <= i < sizes@.len() ==> #[trigger] areas@[i] == (Rect {
                x: bounds.x,
                y: stacked_top(bounds.y, sizes@, spacing, i) as i32,
                width: sizes@[i].width,
                height: sizes@[i].height,
            }),
{
    let mut areas: Vec<Rect> = Vec::new();
    let mut y: i32 = bounds.y;
    let mut i: usize = 0;
    while i < sizes.len()
        invariant
            i <= sizes@.len(),
            areas@.len() == i,
            y == stacked_top(bounds.y, sizes@, spacing, i as int),
            forall|j: int|
                0 <= j < i ==> #[trigger] areas@[j] == (Rect {
                    x: bounds.x,
                    y: stacked_top(bounds.y, sizes@, spacing, j) as i32,
                    width: sizes@[j].width,
                    height: sizes@[j].height,
                }),
        decreases sizes@.len() - i,
    {
        areas.push(Rect { x: bounds.x, y, width: sizes[i].width, height: sizes[i].height });
        y = clamp_to_i32(y as i64 + to_signed(sizes[i].height) as i64 + to_signed(spacing) as i64);
        i = i + 1;
    }
    areas
}

} // verus!
