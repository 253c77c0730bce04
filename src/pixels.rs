//! RGB8 pixel buffers: block signals read out of them, and images put
//! together from reconstructed blocks.

use vstd::prelude::*;
use crate::error::DgfError;
use crate::format::DgfImageProperties;
use crate::tiling::{
    Chunk, blocks_across, count_across, get_image_chunks, is_tiling, lemma_tile_in_grid, tile_index,
};

verus! {

/// Raw RGB8 image: three bytes per pixel, rows top to bottom.
pub struct PixelBuffer {
    pub width: u32,
    pub height: u32,
    pub data: Vec<u8>,
}

/// Conversion of an image representation into a pixel buffer.
pub trait ToPixelBuffer {
    fn to_pixel_buffer(&self) -> PixelBuffer;
}

impl PixelBuffer {
    /// The data holds exactly three bytes per pixel.
    pub open spec fn wf(&self) -> bool {
        self.data@.len() == self.width * self.height * 3
    }

    /// A buffer over `data`, which must hold three bytes per pixel.
    pub fn new(width: u32, height: u32, data: Vec<u8>) -> (r: Option<PixelBuffer>)
        ensures
            r is Some <==> data@.len() == width * height * 3,
            r matches Some(p) ==> p.width == width && p.height == height && p.data@ == data@,
    {
        let len = data.len();
        let pixels = match (width as usize).checked_mul(height as usize) {
            Some(n) => n,
            None => {
                assert(width * height * 3 > len) by (nonlinear_arith)
                    requires
                        width * height > usize::MAX,
                        len <= usize::MAX,
                ;
                return None;
            },
        };
        let bytes = match pixels.checked_mul(3) {
            Some(n) => n,
            None => return None,
        };
        if data.len() != bytes {
            return None;
        }
        Some(PixelBuffer { width, height, data })
    }
}

/// Intensity sample at `(x, y)`: the red byte of the pixel, or 0 outside
/// the image.
pub open spec fn sample_at(img: PixelBuffer, x: int, y: int) -> u8 {
    if 0 <= x < img.width && 0 <= y < img.height {
        img.data@[(y * img.width + x) * 3]
    } else {
        0
    }
}

/// The block's flattened signal: its samples in row-major order within the
/// block, sample `m` at column `m % size` and row `m / size`.
pub open spec fn block_signal(img: PixelBuffer, c: Chunk) -> Seq<u8> {
    Seq::new(
        (c.size * c.size) as nat,
        |m: int| sample_at(img, c.x + m % (c.size as int), c.y + m / (c.size as int)),
    )
}

/// The block at position `b` of the row-major grid over an image `width` wide.
pub open spec fn grid_chunk(width: nat, size: nat, b: int) -> Chunk {
    let cols = blocks_across(width, size) as int;
    Chunk { x: ((b % cols) * size) as u32, y: ((b / cols) * size) as u32, size: size as u32 }
}

proof fn lemma_pixel_index(w: int, h: int, x: int, y: int)
    requires
        0 <= x < w,
        0 <= y < h,
    ensures
        0 <= y * w + x,
        (y * w + x) * 3 + 3 <= w * h * 3,
{
    assert((y * w + x) * 3 + 3 <= w * h * 3) by (nonlinear_arith)
        requires
            0 <= x < w,
            0 <= y < h,
    ;
    assert(0 <= y * w + x) by (nonlinear_arith)
        requires
            0 <= x,
            0 <= y,
            0 <= w,
    ;
}

/// Reads the block's signal out of the image, with 0 for samples past its
/// right or bottom edge.
pub fn block_samples(img: &PixelBuffer, chunk: &Chunk) -> (r: Vec<u8>)
    requires
        img.wf(),
        chunk.x + chunk.size <= u32::MAX,
        chunk.y + chunk.size <= u32::MAX,
        chunk.size * chunk.size <= usize::MAX,
    ensures
        r@ == block_signal(*img, *chunk),
{
    let s = chunk.size;
    let n = img.data.len();
    let mut out: Vec<u8> = Vec::new();
    let mut ly: u32 = 0;
    while ly < s
        invariant
            img.wf(),
            n == img.data@.len(),
            s == chunk.size,
            chunk.x + s <= u32::MAX,
            chunk.y + s <= u32::MAX,
            ly <= s,
            out@.len() == ly * s,
            forall|m: int|
                0 <= m < out@.len() ==> #[trigger] out@[m] == sample_at(
                    *img,
                    chunk.x + m % (s as int),
                    chunk.y + m / (s as int),
                ),
        decreases s - ly,
    {
        let y = chunk.y + ly;
        let mut lx: u32 = 0;
        while lx < s
            invariant
                img.wf(),
                n == img.data@.len(),
                s == chunk.size,
                chunk.x + s <= u32::MAX,
                ly < s,
                y == chunk.y + ly,
                lx <= s,
                out@.len() == ly * s + lx,
                forall|m: int|
                    0 <= m < out@.len() ==> #[trigger] out@[m] == sample_at(
                        *img,
                        chunk.x + m % (s as int),
                        chunk.y + m / (s as int),
                    ),
            decreases s - lx,
        {
            let x = chunk.x + lx;
            let v = if x < img.width && y < img.height {
                proof {
                    lemma_pixel_index(img.width as int, img.height as int, x as int, y as int);
                }
                img.data[((y as usize) * (img.width as usize) + x as usize) * 3]
            } else {
                0
            };
            proof {
                vstd::arithmetic::div_mod::lemma_fundamental_div_mod_converse(
                    ly * s + lx,
                    s as int,
                    ly as int,
                    lx as int,
                );
            }
            out.push(v);
            lx = lx + 1;
        }
        proof {
            assert(out@.len() == (ly + 1) * s) by (nonlinear_arith)
                requires
                    out@.len() == ly * s + s,
            ;
        }
        ly = ly + 1;
    }
    assert(out@ =~= block_signal(*img, *chunk));
    out
}

/// Signals of all blocks of side `size` over the image, in tiling order.
pub fn block_signals(img: &PixelBuffer, size: u32) -> (r: Result<Vec<Vec<u8>>, DgfError>)
    requires
        img.wf(),
        img.width + size <= u32::MAX,
        img.height + size <= u32::MAX,
        size * size <= usize::MAX,
    ensures
        size == 0 ==> r == Err::<Vec<Vec<u8>>, DgfError>(DgfError::Configuration),
        size > 0 <==> r is Ok,
        r matches Ok(v) ==> {
            &&& v@.len() == blocks_across(img.height as nat, size as nat) * blocks_across(
                img.width as nat,
                size as nat,
            )
            &&& forall|b: int|
                0 <= b < v@.len() ==> (#[trigger] v@[b])@ == block_signal(
                    *img,
                    grid_chunk(img.width as nat, size as nat, b),
                )
        },
{
    let chunks = match get_image_chunks(img.width, img.height, size) {
        Ok(c) => c,
        Err(e) => return Err(e),
    };
    let ghost cols = blocks_across(img.width as nat, size as nat) as int;
    let ghost rows = blocks_across(img.height as nat, size as nat) as int;
    let mut signals: Vec<Vec<u8>> = Vec::new();
    let mut i: usize = 0;
    while i < chunks.len()
        invariant
            img.wf(),
            size > 0,
            img.width + size <= u32::MAX,
            img.height + size <= u32::MAX,
            size * size <= usize::MAX,
            is_tiling(img.width as nat, img.height as nat, size as nat, chunks@),
            cols == blocks_across(img.width as nat, size as nat),
            rows == blocks_across(img.height as nat, size as nat),
            chunks@.len() == rows * cols,
            i <= chunks@.len(),
            signals@.len() == i,
            forall|b: int|
                0 <= b < i ==> (#[trigger] signals@[b])@ == block_signal(
                    *img,
                    grid_chunk(img.width as nat, size as nat, b),
                ),
        decreases chunks@.len() - i,
    {
        let chunk = chunks[i];
        proof {
            let c = chunk;
            assert(c == chunks@[i as int]);
            assert(c.x == (i as int % cols) * size);
            assert(c.y == (i as int / cols) * size);
            assert(c == grid_chunk(img.width as nat, size as nat, i as int));
        }
        signals.push(block_samples(img, &chunk));
        i = i + 1;
    }
    Ok(signals)
}

/// Value of the pixel at `(px, py)` in an image put together from
/// reconstructed blocks: the entry of the block holding it, at the pixel's
/// row-major position within that block.
pub open spec fn block_value(width: nat, size: nat, blocks: Seq<Vec<u8>>, px: int, py: int) -> u8 {
    blocks[tile_index(width, size, px, py)]@[(py % (size as int)) * size + px % (size as int)]
}

/// Byte `i` of an RGB8 image put together from reconstructed blocks: the
/// pixel's value, on each of its three channels.
pub open spec fn assembled_byte(width: nat, size: nat, blocks: Seq<Vec<u8>>, i: int) -> u8 {
    block_value(width, size, blocks, (i / 3) % (width as int), (i / 3) / (width as int))
}

/// Puts an RGB8 image together from one reconstructed grayscale block per
/// tile, in tiling order; the parts of blocks past the image are dropped.
pub fn assemble_image(width: u32, height: u32, size: u32, blocks: &Vec<Vec<u8>>) -> (r:
    PixelBuffer)
    requires
        size > 0,
        width * height * 3 <= usize::MAX,
        blocks@.len() == blocks_across(height as nat, size as nat) * blocks_across(
            width as nat,
            size as nat,
        ),
        forall|b: int| 0 <= b < blocks@.len() ==> (#[trigger] blocks@[b])@.len() == size * size,
    ensures
        r.width == width,
        r.height == height,
        r.wf(),
        forall|i: int|
            0 <= i < r.data@.len() ==> #[trigger] r.data@[i] == assembled_byte(
                width as nat,
                size as nat,
                blocks@,
                i,
            ),
{
    let cols = count_across(width, size);
    let nb = blocks.len();
    let ghost w = width as int;
    let ghost s = size as int;
    let mut out: Vec<u8> = Vec::new();
    let mut py: u32 = 0;
    while py < height
        invariant
            w == width,
            s == size,
            s > 0,
            cols == blocks_across(width as nat, size as nat),
            width * height * 3 <= usize::MAX,
            nb == blocks@.len(),
            blocks@.len() == blocks_across(height as nat, size as nat) * cols,
            forall|b: int| 0 <= b < blocks@.len() ==> (#[trigger] blocks@[b])@.len() == s * s,
            py <= height,
            out@.len() == py * w * 3,
            forall|i: int|
                0 <= i < out@.len() ==> #[trigger] out@[i] == assembled_byte(
                    width as nat,
                    size as nat,
                    blocks@,
                    i,
                ),
        decreases height - py,
    {
        let mut px: u32 = 0;
        while px < width
            invariant
                w == width,
                s == size,
                s > 0,
                cols == blocks_across(width as nat, size as nat),
                width * height * 3 <= usize::MAX,
                nb == blocks@.len(),
                blocks@.len() == blocks_across(height as nat, size as nat) * cols,
                forall|b: int| 0 <= b < blocks@.len() ==> (#[trigger] blocks@[b])@.len() == s * s,
                py < height,
                px <= width,
                out@.len() == (py * w + px) * 3,
                forall|i: int|
                    0 <= i < out@.len() ==> #[trigger] out@[i] == assembled_byte(
                        width as nat,
                        size as nat,
                        blocks@,
                        i,
                    ),
            decreases width - px,
        {
            proof {
                lemma_tile_in_grid(width as nat, height as nat, size as nat, px as int, py as int);
                lemma_pixel_index(w, height as int, px as int, py as int);
                vstd::arithmetic::div_mod::lemma_mod_pos_bound(px as int, s);
                vstd::arithmetic::div_mod::lemma_mod_pos_bound(py as int, s);
                assert((py as int % s) * s + px as int % s < s * s) by (nonlinear_arith)
                    requires
                        0 <= py as int % s < s,
                        0 <= px as int % s < s,
                ;
                assert(0 <= (py as int / s) * cols <= tile_index(width as nat, size as nat, px as int, py as int));
            }
            let k = (py / size) as usize * (cols as usize) + (px / size) as usize;
            let block = &blocks[k];
            let block_len = block.len();
            assert(block_len == s * s);
            let local = (py % size) as usize * (size as usize) + (px % size) as usize;
            let v = block[local];
            let ghost p = py * w + px;
            proof {
                assert(v == block_value(width as nat, size as nat, blocks@, px as int, py as int));
                vstd::arithmetic::div_mod::lemma_fundamental_div_mod_converse(p, w, py as int, px as int);
                vstd::arithmetic::div_mod::lemma_fundamental_div_mod_converse(p * 3, 3, p, 0);
                vstd::arithmetic::div_mod::lemma_fundamental_div_mod_converse(p * 3 + 1, 3, p, 1);
                vstd::arithmetic::div_mod::lemma_fundamental_div_mod_converse(p * 3 + 2, 3, p, 2);
            }
            out.push(v);
            out.push(v);
            out.push(v);
            assert(out@[p * 3] == v && out@[p * 3 + 1] == v && out@[p * 3 + 2] == v);
            px = px + 1;
        }
        proof {
            assert(out@.len() == (py + 1) * w * 3) by (nonlinear_arith)
                requires
                    out@.len() == (py * w + w) * 3,
            ;
        }
        py = py + 1;
    }
    proof {
        assert(out@.len() == width * height * 3) by (nonlinear_arith)
            requires
                out@.len() == height * w * 3,
                w == width,
        ;
    }
    PixelBuffer { width, height, data: out }
}

/// Pixels stored without image compression: the data as it is, if it holds
/// three bytes per pixel of the image the properties describe.
pub fn raw_pixels(properties: &DgfImageProperties, data: Vec<u8>) -> (r: Result<
    PixelBuffer,
    DgfError,
>)
    ensures
        data@.len() == properties.width * properties.height * 3 <==> r is Ok,
        r matches Ok(p) ==> p.width == properties.width && p.height == properties.height
            && p.data@ == data@,
        r matches Err(e) ==> e == DgfError::Reconstruction,
{
    match PixelBuffer::new(properties.width as u32, properties.height as u32, data) {
        Some(p) => Ok(p),
        None => Err(DgfError::Reconstruction),
    }
}

} // verus!
