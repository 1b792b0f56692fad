//! The choice of renderer backend, and the unpacking of pixels that were read back from a GPU.

use vstd::prelude::*;

verus! {

/// Renderer backend type.
#[derive(Debug, Clone, Copy, PartialEq, Eq, Structural)]
pub enum RendererBackend {
    /// GPU-accelerated.
    Gpu,
    /// Software rendering on the CPU.
    Software,
}

/// A renderer and the backend it draws with. Whether a GPU can be had is found out by
/// whoever talks to the graphics driver; this type holds the choice.
pub struct Renderer {
    backend: RendererBackend,
}

impl View for Renderer {
    type V = RendererBackend;

    closed spec fn view(&self) -> RendererBackend {
        self.backend
    }
}

impl Renderer {
    /// Create a new renderer without looking for a GPU: the software renderer.
    pub fn new() -> (renderer: Renderer)
        ensures
            renderer@ == RendererBackend::Software,
    {
        Renderer::select(false)
    }

    /// The renderer to use: the GPU is preferred where one is available, and software
    /// rendering is the fallback.
    pub fn select(gpu_available: bool) -> (renderer: Renderer)
        ensures
            renderer@ == if gpu_available {
                RendererBackend::Gpu
            } else {
                RendererBackend::Software
            },
    {
        if gpu_available {
            Renderer { backend: RendererBackend::Gpu }
        } else {
            Renderer { backend: RendererBackend::Software }
        }
    }

    /// Force software rendering (useful for testing).
    pub fn new_software() -> (renderer: Renderer)
        ensures
            renderer@ == RendererBackend::Software,
    {
        Renderer { backend: RendererBackend::Software }
    }

    /// Get the current backend type.
    pub fn backend(&self) -> (backend: RendererBackend)
        ensures
            backend == self@,
    {
        self.backend
    }

    /// Check if GPU rendering is active.
    pub fn is_gpu(&self) -> (gpu: bool)
        ensures
            gpu == (self@ == RendererBackend::Gpu),
    {
        self.backend == RendererBackend::Gpu
    }
}

impl Default for Renderer {
    fn default() -> (renderer: Renderer)
        ensures
            renderer@ == RendererBackend::Software,
    {
        Renderer::new()
    }
}

/// The bytes of one row of a readback buffer: the row's pixels, padded to the next
/// multiple of 256 bytes, which is what a GPU copy asks for.
pub open spec fn padded_row(width: u32) -> int {
    ((width * 4 + 255) / 256) * 256
}

/// Computes [`padded_row`].
pub fn padded_row_bytes(width: u32) -> (bytes: u64)
    ensures
        bytes == padded_row(width),
        bytes >= width * 4,
        bytes % 256 == 0,
{
    let raw: u64 = width as u64 * 4 + 255;
    (raw / 256) * 256
}

/// The pixels of a readback buffer without the padding of its rows, with red and blue
/// exchanged: byte `i` of the result belongs to pixel `(i / 4) % width` of row
/// `(i / 4) / width`.
pub open spec fn unpadded_bgra(source: Seq<u8>, stride: int, width: int, height: int) -> Seq<u8> {
    Seq::new(
        (width * height * 4) as nat,
        |i: int|
            {
                let row = (i / 4) / width;
                let column = (i / 4) % width;
                let at = row * stride + column * 4;
                source[at + swapped_channel(i % 4)]
            },
    )
}

/// The source byte that goes to place `k` of a pixel: red and blue change places.
pub open spec fn swapped_channel(k: int) -> int {
    if k == 0 {
        2
    } else if k == 2 {
        0
    } else {
        k
    }
}

/// Copies one row of `width` pixels from `source` at `from` to `output` at `to`, with red
/// and blue exchanged.
#[verifier::rlimit(50)]
fn copy_row_bgra(source: &[u8], from: usize, output: &mut [u8], to: usize, width: usize)
    requires
        from + width * 4 <= source@.len(),
        to + width * 4 <= old(output)@.len(),
    ensures
        final(output)@.len() == old(output)@.len(),
        forall|j: int|
            0 <= j < width * 4 ==> #[trigger] final(output)@[to + j] == source@[from + (j / 4) * 4
                + swapped_channel(j % 4)],
        forall|i: int|
            0 <= i < old(output)@.len() && !(to <= i < to + width * 4) ==> final(output)@[i]
                == old(output)@[i],
{
    let n = output.len();
    let m = source.len();
    let mut x: usize = 0;
    while x < width
        invariant
            x <= width,
            n == output@.len(),
            m == source@.len(),
            output@.len() == old(output)@.len(),
            from + width * 4 <= source@.len(),
            to + width * 4 <= output@.len(),
            forall|j: int|
                0 <= j < x * 4 ==> #[trigger] output@[to + j] == source@[from + (j / 4) * 4
                    + swapped_channel(j % 4)],
            forall|i: int|
                0 <= i < old(output)@.len() && !(to <= i < to + x * 4) ==> output@[i] == old(
                    output,
                )@[i],
        decreases width - x,
    {
        let si: usize = from + x * 4;
        let di: usize = to + x * 4;
        let ghost before = output@;
        output[di] = source[si + 2];
        output[di + 1] = source[si + 1];
        output[di + 2] = source[si];
        output[di + 3] = source[si + 3];
        proof {
            assert forall|j: int| 0 <= j < (x + 1) * 4 implies #[trigger] output@[to + j]
                == source@[from + (j / 4) * 4 + swapped_channel(j % 4)] by {
                if j < x * 4 {
                    assert(output@[to + j] == before[to + j]);
                } else {
                    assert(j / 4 == x as int);
                }
            }
        }
        x = x + 1;
    }
}

/// Copies the pixels of a readback buffer with padded rows of `stride` bytes into a
/// buffer of tightly packed rows, and exchanges red and blue on the way. Bytes of `output`
/// after the last pixel stay as they are.
#[verifier::rlimit(50)]
pub fn unpad_rows_bgra(source: &[u8], stride: usize, width: u32, height: u32, output: &mut [u8])
    requires
        width * 4 <= stride,
        stride * height <= source@.len(),
        width * height * 4 <= old(output)@.len(),
    ensures
        final(output)@.len() == old(output)@.len(),
        final(output)@.subrange(0, width * height * 4) == unpadded_bgra(
            source@,
            stride as int,
            width as int,
            height as int,
        ),
        forall|i: int|
            width * height * 4 <= i < old(output)@.len() ==> final(output)@[i] == old(output)@[i],
{
    let n = output.len();
    let m = source.len();
    let row_bytes: usize = width as usize * 4;
    let ghost wanted = unpadded_bgra(source@, stride as int, width as int, height as int);
    proof {
        assert(height * row_bytes == width * height * 4) by (nonlinear_arith)
            requires
                row_bytes == width * 4,
        ;
    }
    let mut y: usize = 0;
    while y < height as usize
        invariant
            y <= height,
            n == output@.len(),
            m == source@.len(),
            row_bytes == width * 4,
            width * 4 <= stride,
            stride * height <= source@.len(),
            height * row_bytes == width * height * 4,
            width * height * 4 <= old(output)@.len(),
            output@.len() == old(output)@.len(),
            wanted == unpadded_bgra(source@, stride as int, width as int, height as int),
            forall|i: int| 0 <= i < y * row_bytes ==> #[trigger] output@[i] == wanted[i],
            forall|i: int| y * row_bytes <= i < old(output)@.len() ==> output@[i] == old(output)@[i],
        decreases height - y,
    {
        proof {
            assert((y + 1) * stride <= stride * height) by (nonlinear_arith)
                requires
                    y + 1 <= height,
                    stride >= 0,
            ;
            assert((y + 1) * row_bytes <= height * row_bytes) by (nonlinear_arith)
                requires
                    y + 1 <= height,
                    row_bytes >= 0,
            ;
            assert((y + 1) * stride == y * stride + stride) by (nonlinear_arith);
            assert((y + 1) * row_bytes == y * row_bytes + row_bytes) by (nonlinear_arith);
            assert(y * stride >= 0 && y * row_bytes >= 0) by (nonlinear_arith)
                requires
                    y >= 0,
                    stride >= 0,
                    row_bytes >= 0,
            ;
        }
        let src_offset: usize = y * stride;
        let dst_offset: usize = y * row_bytes;
        let ghost before = output@;
        copy_row_bgra(source, src_offset, output, dst_offset, width as usize);
        proof {
            assert forall|i: int| 0 <= i < dst_offset + row_bytes implies #[trigger] output@[i]
                == wanted[i] by {
                if i < dst_offset {
                    assert(output@[i] == before[i]);
                } else {
                    let j = i - dst_offset;
                    let x = j / 4;
                    let k = j % 4;
                    assert(output@[dst_offset + j] == source@[src_offset + (j / 4) * 4
                        + swapped_channel(j % 4)]);
                    lemma_pixel_position(y as int, x, width as int, height as int);
                    assert(i == y * (width * 4) + 4 * x + k);
                }
            }
        }
        y = y + 1;
    }
    assert(output@.subrange(0, width * height * 4) =~= wanted);
}

/// The four bytes of pixel `x` of row `y` lie at `(y * width + x) * 4`, and their index
/// gives the row and the pixel back.
#[verifier::rlimit(50)]
proof fn lemma_pixel_position(y: int, x: int, width: int, height: int)
    requires
        0 <= y < height,
        0 <= x < width,
    ensures
        forall|k: int|
            0 <= k < 4 ==> {
                let i = #[trigger] (y * (width * 4) + 4 * x + k);
                &&& (i / 4) / width == y
                &&& (i / 4) % width == x
                &&& i % 4 == k
                &&& 0 <= i < width * height * 4
            },
{
    assert forall|k: int| 0 <= k < 4 implies {
        let i = #[trigger] (y * (width * 4) + 4 * x + k);
        &&& (i / 4) / width == y
        &&& (i / 4) % width == x
        &&& i % 4 == k
        &&& 0 <= i < width * height * 4
    } by {
        let i = y * (width * 4) + 4 * x + k;
        let p = y * width + x;
        assert(i == 4 * p + k) by (nonlinear_arith)
            requires
                i == y * (width * 4) + 4 * x + k,
                p == y * width + x,
        ;
        assert(i / 4 == p && i % 4 == k) by {
            vstd::arithmetic::div_mod::lemma_fundamental_div_mod_converse(i, 4, p, k);
        }
        assert(p / width == y && p % width == x) by {
            assert(p == width * y + x) by (nonlinear_arith)
                requires
                    p == y * width + x,
            ;
            vstd::arithmetic::div_mod::lemma_fundamental_div_mod_converse(p, width, y, x);
        }
        assert(0 <= i < width * height * 4) by (nonlinear_arith)
            requires
                i == 4 * p + k,
                p == y * width + x,
                0 <= y < height,
                0 <= x < width,
                0 <= k < 4,
        ;
    }
}

} // verus!
