//! Pixel buffers: the pool they are carved from, the plan of one frame, and the canvas
//! that a draw callback paints on.

use tiny_skia::{Color, IntSize, Pixmap, PixmapMut, PixmapPaint, Transform};
use vstd::prelude::*;

verus! {

/// The size of the buffer pool when the runtime starts: one full-HD frame.
pub const INITIAL_POOL_SIZE: usize = 8294400;

/// The largest pool, and so the largest frame, that the protocol's signed 32-bit sizes
/// can express.
pub const POOL_LIMIT: usize = 0x7fff_ffff;

/// The bytes that a frame of the given size takes.
pub open spec fn frame_bytes(width: u32, height: u32) -> int {
    width * height * 4
}

/// A frame of this size can be backed by a buffer: no side is zero, and its bytes do not
/// exceed what a pool can hold.
pub open spec fn frame_fits(width: u32, height: u32) -> bool {
    width > 0 && height > 0 && frame_bytes(width, height) <= POOL_LIMIT
}

/// The bookkeeping of the shared-memory pool: how large it has been asked to be. The pool
/// grows on demand and never shrinks.
pub struct BufferPool {
    len: usize,
}

impl View for BufferPool {
    type V = usize;

    closed spec fn view(&self) -> usize {
        self.len
    }
}

impl BufferPool {
    /// A pool of the given size.
    pub fn new(len: usize) -> (pool: BufferPool)
        ensures
            pool@ == len,
    {
        BufferPool { len }
    }

    /// The size of the pool in bytes.
    pub fn len(&self) -> (len: usize)
        ensures
            len == self@,
    {
        self.len
    }

    /// Makes sure that the pool holds at least `size` bytes, and says whether it had to
    /// grow for that.
    pub fn reserve(&mut self, size: usize) -> (grew: bool)
        ensures
            grew == (old(self)@ < size),
            final(self)@ == if old(self)@ < size {
                size
            } else {
                old(self)@
            },
    {
        if self.len < size {
            self.len = size;
            true
        } else {
            false
        }
    }
}

/// What has to be done to put one frame of a surface on screen: carve a buffer of
/// `buffer_size` bytes from the pool (after growing the pool where `grow_pool_to` says
/// so), let the application draw `width` by `height` pixels with rows of `stride` bytes,
/// and attach the buffer to the protocol surface `surface`.
#[derive(Clone, Copy, Debug, PartialEq, Eq)]
pub struct RenderPlan {
    pub surface: u32,
    pub width: u32,
    pub height: u32,
    pub stride: u32,
    pub buffer_size: usize,
    pub grow_pool_to: Option<usize>,
}

/// The plan for a frame of the given size on the given protocol surface, with a pool of
/// `pool_len` bytes: `None` where no buffer can back the frame.
pub open spec fn frame_plan(surface: u32, width: u32, height: u32, pool_len: usize) -> Option<
    RenderPlan,
> {
    if frame_fits(width, height) {
        Some(
            RenderPlan {
                surface,
                width,
                height,
                stride: (width * 4) as u32,
                buffer_size: frame_bytes(width, height) as usize,
                grow_pool_to: if pool_len < frame_bytes(width, height) {
                    Some(frame_bytes(width, height) as usize)
                } else {
                    None
                },
            },
        )
    } else {
        None
    }
}

/// The size of the pool after a frame of the given size was planned.
pub open spec fn pool_after_frame(width: u32, height: u32, pool_len: usize) -> usize {
    if frame_fits(width, height) && pool_len < frame_bytes(width, height) {
        frame_bytes(width, height) as usize
    } else {
        pool_len
    }
}

/// The bytes of a frame, where the frame fits.
pub fn frame_size(width: u32, height: u32) -> (size: Option<usize>)
    ensures
        size == if frame_fits(width, height) {
            Some(frame_bytes(width, height) as usize)
        } else {
            None::<usize>
        },
{
    if width == 0 || height == 0 {
        return None;
    }
    assert(width * height <= 0xffff_ffff * 0xffff_ffff) by (nonlinear_arith)
        requires
            width <= 0xffff_ffff,
            height <= 0xffff_ffff,
    ;
    let pixels: u64 = (width as u64) * (height as u64);
    if pixels > 0x1fff_ffff {
        return None;
    }
    let bytes: u64 = pixels * 4;
    Some(bytes as usize)
}

/// Plans one frame and grows the pool's bookkeeping where the frame needs it.
pub fn plan_frame(surface: u32, width: u32, height: u32, pool: &mut BufferPool) -> (plan: Option<
    RenderPlan,
>)
    ensures
        plan == frame_plan(surface, width, height, old(pool)@),
        final(pool)@ == pool_after_frame(width, height, old(pool)@),
{
    match frame_size(width, height) {
        Some(buffer_size) => {
            assert(width * 4 <= frame_bytes(width, height)) by (nonlinear_arith)
                requires
                    height >= 1,
            ;
            let grew = pool.reserve(buffer_size);
            Some(
                RenderPlan {
                    surface,
                    width,
                    height,
                    stride: width * 4,
                    buffer_size,
                    grow_pool_to: if grew {
                        Some(buffer_size)
                    } else {
                        None
                    },
                },
            )
        },
        None => None,
    }
}

/// The pool never shrinks; after a frame was planned it holds the frame, and a second
/// frame of the same size needs no growth.
pub proof fn lemma_pool_grows_only(surface: u32, width: u32, height: u32, pool_len: usize)
    ensures
        pool_after_frame(width, height, pool_len) >= pool_len,
        frame_fits(width, height) ==> pool_after_frame(width, height, pool_len) >= frame_bytes(
            width,
            height,
        ),
        frame_plan(surface, width, height, pool_after_frame(width, height, pool_len)) matches Some(
            plan,
        ) ==> plan.grow_pool_to is None,
{
}

/// A color given by four channel bytes, not premultiplied.
#[derive(Clone, Copy, Debug, PartialEq, Eq, Structural)]
pub struct Rgba {
    pub r: u8,
    pub g: u8,
    pub b: u8,
    pub a: u8,
}

/// `tiny_skia::Color`, the drawing library's color, declared so that it can be handed on.
/// Nothing is known of what a value of it holds.
#[verifier::external_type_specification]
#[verifier::external_body]
pub struct ExColor(Color);

/// The color that `tiny_skia::Color::from_rgba8` makes of four channel bytes.
pub uninterp spec fn color_of(r: u8, g: u8, b: u8, a: u8) -> Color;

/// Calls `tiny_skia::Color::from_rgba8`, which makes the color with the given channel
/// bytes.
#[verifier::external_body]
fn color_from_rgba8(r: u8, g: u8, b: u8, a: u8) -> (color: Color)
    ensures
        color == color_of(r, g, b, a),
{
    Color::from_rgba8(r, g, b, a)
}

impl Rgba {
    pub fn black() -> (c: Rgba)
        ensures
            c == (Rgba { r: 0, g: 0, b: 0, a: 255 }),
    {
        Rgba::rgb(0, 0, 0)
    }

    pub fn white() -> (c: Rgba)
        ensures
            c == (Rgba { r: 255, g: 255, b: 255, a: 255 }),
    {
        Rgba::rgb(255, 255, 255)
    }

    pub fn red() -> (c: Rgba)
        ensures
            c == (Rgba { r: 255, g: 0, b: 0, a: 255 }),
    {
        Rgba::rgb(255, 0, 0)
    }

    pub fn green() -> (c: Rgba)
        ensures
            c == (Rgba { r: 0, g: 255, b: 0, a: 255 }),
    {
        Rgba::rgb(0, 255, 0)
    }

    pub fn blue() -> (c: Rgba)
        ensures
            c == (Rgba { r: 0, g: 0, b: 255, a: 255 }),
    {
        Rgba::rgb(0, 0, 255)
    }

    pub fn transparent() -> (c: Rgba)
        ensures
            c == (Rgba { r: 0, g: 0, b: 0, a: 0 }),
    {
        Rgba::new(0, 0, 0, 0)
    }

    pub fn new(r: u8, g: u8, b: u8, a: u8) -> (c: Rgba)
        ensures
            c == (Rgba { r, g, b, a }),
    {
        Rgba { r, g, b, a }
    }

    /// An opaque color.
    pub fn rgb(r: u8, g: u8, b: u8) -> (c: Rgba)
        ensures
            c == (Rgba { r, g, b, a: 255 }),
    {
        Rgba { r, g, b, a: 255 }
    }

    /// The same color in the drawing library's type.
    pub fn to_color(&self) -> (color: Color)
        ensures
            color == color_of(self.r, self.g, self.b, self.a),
    {
        color_from_rgba8(self.r, self.g, self.b, self.a)
    }
}

/// The number of bytes that `tiny_skia` asks of a pixel buffer of the given size, and
/// `None` where it takes no buffer of that size: a side is zero, a row is longer than
/// `i32::MAX` bytes, or the whole does not fit the address space.
pub open spec fn pixmap_bytes(width: u32, height: u32) -> Option<int> {
    if width > 0 && height > 0 && width * 4 <= i32::MAX && width * height * 4 <= usize::MAX {
        Some(width * height * 4)
    } else {
        None
    }
}

/// Computes [`pixmap_bytes`].
pub fn pixmap_len(width: u32, height: u32) -> (len: Option<usize>)
    ensures
        match pixmap_bytes(width, height) {
            Some(n) => len == Some(n as usize),
            None => len is None,
        },
{
    if width == 0 || height == 0 || width > 0x1fff_ffff {
        return None;
    }
    assert(width * 4 * height <= 0x7fff_fffc * 0xffff_ffff) by (nonlinear_arith)
        requires
            width * 4 <= 0x7fff_fffc,
            height <= 0xffff_ffff,
    ;
    assert(width * 4 * height == width * height * 4) by (nonlinear_arith);
    let total: u64 = (width as u64) * 4 * (height as u64);
    if total > usize::MAX as u64 {
        None
    } else {
        Some(total as usize)
    }
}

/// One channel scaled by an alpha value: `channel * alpha / 255`, rounded down.
pub open spec fn scaled_channel(channel: u8, alpha: u8) -> u8 {
    ((channel * alpha) / 255) as u8
}

/// Computes [`scaled_channel`].
pub fn scale_channel(channel: u8, alpha: u8) -> (scaled: u8)
    ensures
        scaled == scaled_channel(channel, alpha),
{
    assert(channel * alpha <= 255 * 255) by (nonlinear_arith)
        requires
            channel <= 255,
            alpha <= 255,
    ;
    ((channel as u32 * alpha as u32) / 255) as u8
}

/// Pixels given as red, green, blue, alpha, turned into premultiplied pixels in the order
/// blue, green, red, alpha: each color channel is scaled by the pixel's alpha.
pub open spec fn premultiplied_argb(rgba: Seq<u8>) -> Seq<u8> {
    Seq::new(
        rgba.len(),
        |i: int|
            if i % 4 == 0 {
                scaled_channel(rgba[i + 2], rgba[i + 3])
            } else if i % 4 == 1 {
                scaled_channel(rgba[i], rgba[i + 2])
            } else if i % 4 == 2 {
                scaled_channel(rgba[i - 2], rgba[i + 1])
            } else {
                rgba[i]
            },
    )
}

/// The bytes of a buffer with the first and third byte of every whole pixel exchanged.
/// Bytes after the last whole pixel stay where they are.
pub open spec fn red_blue_swapped(bytes: Seq<u8>) -> Seq<u8> {
    Seq::new(
        bytes.len(),
        |i: int|
            if i >= (bytes.len() / 4) * 4 {
                bytes[i]
            } else if i % 4 == 0 {
                bytes[i + 2]
            } else if i % 4 == 2 {
                bytes[i - 2]
            } else {
                bytes[i]
            },
    )
}

/// Every whole pixel of the buffer holds the same four bytes.
pub open spec fn uniform_pixels(bytes: Seq<u8>) -> bool {
    forall|i: int, k: int|
        0 <= i < bytes.len() / 4 && 0 <= k < 4 ==> #[trigger] bytes[4 * i + k] == bytes[k]
}

/// The byte at index `i` of a buffer with rows of `data_width` pixels belongs to a pixel
/// of the rectangle of the given size at `(x, y)`.
pub open spec fn in_region(
    i: int,
    data_width: u32,
    x: i32,
    y: i32,
    width: u32,
    height: u32,
) -> bool {
    let column = (i / 4) % (data_width as int);
    let row = (i / 4) / (data_width as int);
    x <= column < x + width && y <= row < y + height
}

/// The drawing library places an image of the given size at `(x, y)` on a buffer of
/// `data_width` by `data_height` pixels exactly where it is asked to: the corner is not
/// negative, no edge lies farther than 2^24 from the origin, and the buffer is small enough
/// to be painted in one piece (no side above 8191 pixels).
///
/// The library places images in single precision. It rounds a negative edge toward zero,
/// so that an image that hangs over the left or top edge is moved by one pixel, and it
/// holds whole numbers exactly only up to 2^24.
pub open spec fn placed_exactly(
    data_width: u32,
    data_height: u32,
    x: i32,
    y: i32,
    width: u32,
    height: u32,
) -> bool {
    &&& 0 <= x
    &&& 0 <= y
    &&& x + width <= 0x100_0000
    &&& y + height <= 0x100_0000
    &&& data_width <= 8191
    &&& data_height <= 8191
}

/// The buffer can be painted on as a pixmap of the given size: the size is one that the
/// drawing library takes, the buffer holds that many bytes, and it is made of whole pixels.
pub open spec fn paintable(len: nat, width: u32, height: u32) -> bool {
    pixmap_bytes(width, height) matches Some(n) && n <= len && len % 4 == 0
}

/// Calls `tiny_skia::PixmapMut::from_bytes` on the buffer and `PixmapMut::fill` on what it
/// gives.
///
/// Taken on trust: the buffer keeps its length, and every whole pixel of it holds the same
/// four bytes afterwards, since `fill` writes one premultiplied color to each pixel of the
/// buffer. Which bytes these are is left open. The buffer must be `paintable`: then
/// `from_bytes` takes it, and `fill`, which looks at the buffer as four-byte pixels, does
/// not panic.
#[verifier::external_body]
fn fill_pixels(data: &mut [u8], width: u32, height: u32, color: Color)
    requires
        paintable(old(data)@.len(), width, height),
    ensures
        final(data)@.len() == old(data)@.len(),
        uniform_pixels(final(data)@),
{
    if let Some(mut pixmap) = PixmapMut::from_bytes(data, width, height) {
        pixmap.fill(color);
    }
}

/// What `tiny_skia::PixmapMut::draw_pixmap` leaves in a buffer: the bytes of a buffer of
/// `data_width` by `data_height` pixels that held `data`, after an image of `width` by
/// `height` premultiplied `pixels` was blended onto it with its top-left corner at
/// `(x, y)`, with the default paint and no transform or mask.
///
/// The drawing library computes this in software from these values alone: it reads no
/// clock, thread or random source, and the single-precision steps it takes are exact
/// operations of the arithmetic, the same in each of its vector variants. The blending is
/// not spelled out here.
pub uninterp spec fn blended(
    data: Seq<u8>,
    data_width: u32,
    data_height: u32,
    x: i32,
    y: i32,
    pixels: Seq<u8>,
    width: u32,
    height: u32,
) -> Seq<u8>;

/// Calls `tiny_skia::IntSize::from_wh` and `Pixmap::from_vec` to make an image of the
/// premultiplied pixels, `PixmapMut::from_bytes` on the buffer, and `PixmapMut::draw_pixmap`
/// to blend the image onto the buffer with its top-left corner at `(x, y)`.
///
/// Taken on trust: the buffer holds `blended` of what it held and of what was handed in.
/// Of `blended` two things are taken from the drawing library's source: the buffer keeps
/// its length, and where the image is `placed_exactly`, the bytes of pixels outside the
/// image's rectangle keep their value (`draw_pixmap` then fills that rectangle, clipped to
/// the buffer, and nothing else). The conditions make the three constructors succeed and
/// keep `draw_pixmap` from panicking: it cannot place an image that is higher than
/// `i32::MAX` or whose far edge lies beyond `i32::MAX`, and it looks at the buffer as
/// four-byte pixels.
#[verifier::external_body]
fn blend_pixels(
    data: &mut [u8],
    data_width: u32,
    data_height: u32,
    x: i32,
    y: i32,
    pixels: Vec<u8>,
    width: u32,
    height: u32,
)
    requires
        paintable(old(data)@.len(), data_width, data_height),
        pixmap_bytes(width, height) == Some(pixels@.len() as int),
        height <= i32::MAX,
        x + width <= i32::MAX,
        y + height <= i32::MAX,
    ensures
        final(data)@ == blended(
            old(data)@,
            data_width,
            data_height,
            x,
            y,
            pixels@,
            width,
            height,
        ),
        final(data)@.len() == old(data)@.len(),
        placed_exactly(data_width, data_height, x, y, width, height) ==> forall|i: int|
            0 <= i < old(data)@.len() && !in_region(i, data_width, x, y, width, height)
                ==> #[trigger] final(data)@[i] == old(data)@[i],
{
    if let Some(size) = IntSize::from_wh(width, height) {
        if let Some(image) = Pixmap::from_vec(pixels, size) {
            if let Some(mut target) = PixmapMut::from_bytes(data, data_width, data_height) {
                let paint = PixmapPaint::default();
                target.draw_pixmap(x, y, image.as_ref(), &paint, Transform::identity(), None);
            }
        }
    }
}

/// A pixel buffer that is being painted: `width` by `height` pixels of four bytes each.
pub struct Canvas<'a> {
    data: &'a mut [u8],
    width: u32,
    height: u32,
}

impl<'a> Canvas<'a> {
    /// The bytes of the buffer as they are now.
    pub closed spec fn bytes(&self) -> Seq<u8> {
        (*self.data)@
    }

    /// The buffer that the canvas paints on.
    pub closed spec fn target(&self) -> &'a mut [u8] {
        self.data
    }

    /// Width in pixels.
    pub closed spec fn spec_width(&self) -> u32 {
        self.width
    }

    /// Height in pixels.
    pub closed spec fn spec_height(&self) -> u32 {
        self.height
    }

    /// The canvas has the same size as `other`, in pixels and in bytes.
    pub open spec fn same_frame(&self, other: &Canvas<'a>) -> bool {
        &&& self.spec_width() == other.spec_width()
        &&& self.spec_height() == other.spec_height()
        &&& self.bytes().len() == other.bytes().len()
    }

    pub fn new(data: &'a mut [u8], width: u32, height: u32) -> (canvas: Canvas<'a>)
        ensures
            canvas.bytes() == old(data)@,
            canvas.spec_width() == width,
            canvas.spec_height() == height,
            final(canvas.target())@ == final(data)@,
    {
        Canvas { data, width, height }
    }

    #[verifier::when_used_as_spec(spec_width)]
    pub fn width(&self) -> (w: u32)
        ensures
            w == self.spec_width(),
    {
        self.width
    }

    #[verifier::when_used_as_spec(spec_height)]
    pub fn height(&self) -> (h: u32)
        ensures
            h == self.spec_height(),
    {
        self.height
    }

    /// The bytes of the buffer.
    pub fn data(&self) -> (bytes: &[u8])
        ensures
            bytes@ == self.bytes(),
    {
        self.data
    }

    /// The bytes of the buffer, to be written.
    pub fn data_mut(&mut self) -> (bytes: &mut [u8])
        ensures
            bytes@ == old(self).bytes(),
            final(self).bytes() == final(bytes)@,
            final(self).spec_width() == old(self).spec_width(),
            final(self).spec_height() == old(self).spec_height(),
            final(final(self).target())@ == final(old(self).target())@,
    {
        self.data
    }

    /// Fills the whole canvas with one color. Nothing is painted where the buffer cannot
    /// be painted on as a pixmap of the canvas's size.
    pub fn clear(&mut self, color: Color)
        ensures
            final(self).same_frame(old(self)),
            final(final(self).target())@ == final(old(self).target())@,
            paintable(old(self).bytes().len(), old(self).width(), old(self).height())
                ==> uniform_pixels(final(self).bytes()),
            !paintable(old(self).bytes().len(), old(self).width(), old(self).height())
                ==> final(self).bytes() == old(self).bytes(),
    {
        if !self.is_paintable() {
            return;
        }
        fill_pixels(self.data, self.width, self.height, color);
    }

    /// Whether the buffer can be painted on as a pixmap of the canvas's size.
    pub fn is_paintable(&self) -> (ok: bool)
        ensures
            ok == paintable(self.bytes().len(), self.width(), self.height()),
    {
        match pixmap_len(self.width, self.height) {
            Some(n) => n <= self.data.len() && self.data.len() % 4 == 0,
            None => false,
        }
    }

    /// Draws an image given as `width` by `height` pixels of red, green, blue and alpha
    /// bytes, with its top-left corner at `(x, y)`.
    ///
    /// Nothing is drawn where the image is empty, where `rgba_data` is not exactly the
    /// image's pixels, where the image is higher than `i32::MAX` or its far edge lies
    /// beyond `i32::MAX`, or where the canvas cannot be painted on. Else the canvas holds
    /// what the drawing library makes of it when the image's pixels, premultiplied and in
    /// the order blue, green, red, alpha, are blended onto it at `(x, y)`. Where the image
    /// is `placed_exactly`, the bytes outside its rectangle keep their value.
    pub fn draw_rgba(&mut self, x: i32, y: i32, width: u32, height: u32, rgba_data: &[u8])
        ensures
            final(self).same_frame(old(self)),
            final(final(self).target())@ == final(old(self).target())@,
            final(self).bytes() == if old(self).draws_rgba(x, y, width, height, rgba_data@) {
                blended(
                    old(self).bytes(),
                    old(self).width(),
                    old(self).height(),
                    x,
                    y,
                    premultiplied_argb(rgba_data@),
                    width,
                    height,
                )
            } else {
                old(self).bytes()
            },
            placed_exactly(old(self).width(), old(self).height(), x, y, width, height)
                ==> forall|i: int|
                0 <= i < old(self).bytes().len() && !in_region(
                    i,
                    old(self).width(),
                    x,
                    y,
                    width,
                    height,
                ) ==> #[trigger] final(self).bytes()[i] == old(self).bytes()[i],
    {
        let expected = match pixmap_len(width, height) {
            Some(n) => n,
            None => {
                return;
            },
        };
        if rgba_data.len() != expected {
            return;
        }
        if height > 0x7fff_ffff || x as i64 + width as i64 > i32::MAX as i64 || y as i64
            + height as i64 > i32::MAX as i64 {
            return;
        }
        if !self.is_paintable() {
            return;
        }
        let pixels = Canvas::rgba_to_premultiplied_argb(rgba_data);
        blend_pixels(self.data, self.width, self.height, x, y, pixels, width, height);
    }

    /// The conditions under which [`Canvas::draw_rgba`] draws.
    pub open spec fn draws_rgba(&self, x: i32, y: i32, width: u32, height: u32, rgba: Seq<u8>) -> bool {
        &&& pixmap_bytes(width, height) == Some(rgba.len() as int)
        &&& height <= i32::MAX
        &&& x + width <= i32::MAX
        &&& y + height <= i32::MAX
        &&& paintable(self.bytes().len(), self.spec_width(), self.spec_height())
    }

    /// Turns pixels of red, green, blue and alpha bytes into premultiplied pixels in the
    /// order blue, green, red, alpha.
    pub fn rgba_to_premultiplied_argb(rgba: &[u8]) -> (result: Vec<u8>)
        requires
            rgba@.len() % 4 == 0,
        ensures
            result@ == premultiplied_argb(rgba@),
    {
        let mut result: Vec<u8> = Vec::with_capacity(rgba.len());
        let mut i: usize = 0;
        while i < rgba.len()
            invariant
                i % 4 == 0,
                i <= rgba@.len(),
                rgba@.len() % 4 == 0,
                result@.len() == i,
                forall|j: int| 0 <= j < i ==> #[trigger] result@[j] == premultiplied_argb(rgba@)[j],
            decreases rgba@.len() - i,
        {
            let r = rgba[i];
            let g = rgba[i + 1];
            let b = rgba[i + 2];
            let a = rgba[i + 3];
            result.push(scale_channel(b, a));
            result.push(scale_channel(g, a));
            result.push(scale_channel(r, a));
            result.push(a);
            i = i + 4;
        }
        assert(result@ =~= premultiplied_argb(rgba@));
        result
    }

    /// Ends the painting and gives the buffer back: it holds what was painted.
    pub fn finish(self) -> (data: &'a mut [u8])
        ensures
            data@ == self.bytes(),
            final(data)@ == final(self.target())@,
    {
        self.data
    }

    /// Exchanges the red and the blue channel of every pixel, which turns the byte order
    /// that was painted into the one the display server reads. To be called once, when all
    /// drawing is done.
    pub fn finalize_for_wayland(&mut self)
        ensures
            final(self).bytes() == red_blue_swapped(old(self).bytes()),
            final(self).same_frame(old(self)),
            final(final(self).target())@ == final(old(self).target())@,
    {
        let n: usize = self.data.len() / 4;
        let mut i: usize = 0;
        while i < n
            invariant
                i <= n,
                n == old(self).bytes().len() / 4,
                4 * n <= old(self).bytes().len() <= usize::MAX,
                self.bytes().len() == old(self).bytes().len(),
                self.same_frame(old(self)),
                final(self.target())@ == final(old(self).target())@,
                forall|j: int|
                    0 <= j < 4 * i ==> #[trigger] self.bytes()[j] == red_blue_swapped(
                        old(self).bytes(),
                    )[j],
                forall|j: int|
                    4 * i <= j < self.bytes().len() ==> #[trigger] self.bytes()[j] == old(
                        self,
                    ).bytes()[j],
            decreases n - i,
        {
            let red = self.data[4 * i];
            let blue = self.data[4 * i + 2];
            self.data[4 * i] = blue;
            self.data[4 * i + 2] = red;
            i = i + 1;
        }
        assert(self.bytes() =~= red_blue_swapped(old(self).bytes()));
    }
}

} // verus!
