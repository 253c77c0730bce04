//! Partition of an image into a row-major grid of square blocks.

use vstd::prelude::*;
use crate::error::DgfError;

verus! {

/// A square block of the image: top-left corner and side length.
#[derive(Debug, Clone, Copy, PartialEq, Eq, Structural)]
pub struct Chunk {
    pub x: u32,
    pub y: u32,
    pub size: u32,
}

/// Number of blocks of side `size` needed to cover `len` samples along one axis.
pub open spec fn blocks_across(len: nat, size: nat) -> nat {
    if size == 0 {
        0
    } else {
        ((len + size - 1) as int / size as int) as nat
    }
}

/// `chunks` is the row-major grid of blocks of side `size` over a
/// `width` x `height` image: one row per `size` lines, one block per `size`
/// columns, the last row and column possibly reaching past the image.
pub open spec fn is_tiling(width: nat, height: nat, size: nat, chunks: Seq<Chunk>) -> bool {
    let cols = blocks_across(width, size);
    let rows = blocks_across(height, size);
    &&& chunks.len() == rows * cols
    &&& forall|i: int|
        0 <= i < chunks.len() ==> {
            &&& (#[trigger] chunks[i]).x == (i % cols as int) * size
            &&& chunks[i].y == (i / cols as int) * size
            &&& chunks[i].size == size
            &&& chunks[i].x < width
            &&& chunks[i].y < height
        }
}

/// Whether the block contains the image coordinate `(px, py)`.
pub open spec fn covers(c: Chunk, px: int, py: int) -> bool {
    c.x <= px < c.x + c.size && c.y <= py < c.y + c.size
}

/// Index, in row-major tiling order, of the block that holds `(px, py)`.
pub open spec fn tile_index(width: nat, size: nat, px: int, py: int) -> int {
    (py / size as int) * blocks_across(width, size) + px / size as int
}

impl Chunk {
    /// First column past the block.
    pub fn end_x(&self) -> (r: u32)
        requires
            self.x + self.size <= u32::MAX,
        ensures
            r == self.x + self.size,
    {
        self.x + self.size
    }

    /// First row past the block.
    pub fn end_y(&self) -> (r: u32)
        requires
            self.y + self.size <= u32::MAX,
        ensures
            r == self.y + self.size,
    {
        self.y + self.size
    }

    /// The block's columns.
    pub fn range_x(&self) -> (r: std::ops::Range<u32>)
        requires
            self.x + self.size <= u32::MAX,
        ensures
            r.start == self.x,
            r.end == self.x + self.size,
    {
        self.x..self.end_x()
    }

    /// The block's rows.
    pub fn range_y(&self) -> (r: std::ops::Range<u32>)
        requires
            self.y + self.size <= u32::MAX,
        ensures
            r.start == self.y,
            r.end == self.y + self.size,
    {
        self.y..self.end_y()
    }

    /// Number of samples in the block.
    pub fn pixels(&self) -> (r: u32)
        requires
            self.size * self.size <= u32::MAX,
        ensures
            r == self.size * self.size,
    {
        self.size * self.size
    }
}

/// Number of blocks of side `size` (non-zero) along an axis of `len` samples.
pub(crate) fn count_across(len: u32, size: u32) -> (r: u32)
    requires
        size > 0,
    ensures
        r == blocks_across(len as nat, size as nat),
        r > 0 ==> (r - 1) * size < len,
        r <= len,
{
    if len == 0 {
        proof {
            vstd::arithmetic::div_mod::lemma_basic_div_specific_divisor(size as int);
            assert((size - 1) as int / size as int == 0);
        }
        0
    } else {
        let r = (len - 1) / size + 1;
        proof {
            let l = len as int;
            let d = size as int;
            vstd::arithmetic::div_mod::lemma_div_plus_one(l - 1, d);
            assert(l + d - 1 == d + (l - 1));
            vstd::arithmetic::div_mod::lemma_fundamental_div_mod(l - 1, d);
            vstd::arithmetic::div_mod::lemma_mod_pos_bound(l - 1, d);
            assert(((l - 1) / d) * d <= l - 1) by (nonlinear_arith)
                requires
                    l - 1 == d * ((l - 1) / d) + (l - 1) % d,
                    (l - 1) % d >= 0,
            ;
            assert((l - 1) / d <= l - 1) by (nonlinear_arith)
                requires
                    ((l - 1) / d) * d <= l - 1,
                    d >= 1,
                    l >= 1,
            ;
        }
        r
    }
}

/// Row-major grid of blocks of side `chunk_size` over a `width` x `height`
/// image; blocks of the last row and column may reach past the image.
pub fn get_image_chunks(width: u32, height: u32, chunk_size: u32) -> (r: Result<Vec<Chunk>, DgfError>)
    ensures
        chunk_size == 0 ==> r == Err::<Vec<Chunk>, DgfError>(DgfError::Configuration),
        chunk_size > 0 <==> r is Ok,
        r matches Ok(v) ==> is_tiling(width as nat, height as nat, chunk_size as nat, v@),
{
    if chunk_size == 0 {
        return Err(DgfError::Configuration);
    }
    let cols = count_across(width, chunk_size);
    let rows = count_across(height, chunk_size);
    let ghost s = chunk_size as int;
    let mut chunks: Vec<Chunk> = Vec::new();
    let mut row: u32 = 0;
    while row < rows
        invariant
            s == chunk_size,
            s > 0,
            cols == blocks_across(width as nat, s as nat),
            rows == blocks_across(height as nat, s as nat),
            cols > 0 ==> (cols - 1) * s < width,
            rows > 0 ==> (rows - 1) * s < height,
            row <= rows,
            chunks@.len() == row * cols,
            forall|i: int|
                0 <= i < chunks@.len() ==> {
                    &&& (#[trigger] chunks@[i]).x == (i % cols as int) * s
                    &&& chunks@[i].y == (i / cols as int) * s
                    &&& chunks@[i].size == s
                    &&& chunks@[i].x < width
                    &&& chunks@[i].y < height
                },
        decreases rows - row,
    {
        let ghost y = row as int * s;
        proof {
            assert(y <= (rows - 1) * s) by (nonlinear_arith)
                requires y == row as int * s, row < rows, s > 0;
        }
        let cy = row * chunk_size;
        let mut col: u32 = 0;
        while col < cols
            invariant
                s == chunk_size,
                s > 0,
                cols == blocks_across(width as nat, s as nat),
                cols > 0 ==> (cols - 1) * s < width,
                row < rows,
                cy == row * s,
                cy < height,
                col <= cols,
                chunks@.len() == row * cols + col,
                forall|i: int|
                    0 <= i < chunks@.len() ==> {
                        &&& (#[trigger] chunks@[i]).x == (i % cols as int) * s
                        &&& chunks@[i].y == (i / cols as int) * s
                        &&& chunks@[i].size == s
                        &&& chunks@[i].x < width
                        &&& chunks@[i].y < height
                    },
            decreases cols - col,
        {
            proof {
                assert(col as int * s <= (cols - 1) * s) by (nonlinear_arith)
                    requires col < cols, s > 0;
                vstd::arithmetic::div_mod::lemma_fundamental_div_mod_converse(
                    row * cols + col,
                    cols as int,
                    row as int,
                    col as int,
                );
            }
            let cx = col * chunk_size;
            chunks.push(Chunk { x: cx, y: cy, size: chunk_size });
            col = col + 1;
        }
        proof {
            assert(chunks@.len() == (row + 1) * cols) by (nonlinear_arith)
                requires chunks@.len() == row * cols + cols;
        }
        row = row + 1;
    }
    Ok(chunks)
}

proof fn lemma_blocks_reach(len: nat, size: nat)
    requires
        size > 0,
    ensures
        blocks_across(len, size) * size >= len,
{
    let l = len as int;
    let d = size as int;
    let c = blocks_across(len, size) as int;
    vstd::arithmetic::div_mod::lemma_fundamental_div_mod(l + d - 1, d);
    vstd::arithmetic::div_mod::lemma_mod_pos_bound(l + d - 1, d);
    assert(c * d >= l) by (nonlinear_arith)
        requires
            l + d - 1 == d * c + (l + d - 1) % d,
            (l + d - 1) % d < d,
    ;
}

proof fn lemma_position_in_block(p: int, size: int, k: int)
    requires
        size > 0,
        0 <= k,
        k * size <= p < k * size + size,
    ensures
        k == p / size,
{
    vstd::arithmetic::div_mod::lemma_fundamental_div_mod_converse(p, size, k, p - k * size);
}

/// The block holding an image coordinate is within the grid, at column
/// `px / size` and row `py / size`.
pub proof fn lemma_tile_in_grid(width: nat, height: nat, size: nat, px: int, py: int)
    requires
        size > 0,
        0 <= px < width,
        0 <= py < height,
    ensures
        0 <= px / (size as int) < blocks_across(width, size),
        0 <= py / (size as int) < blocks_across(height, size),
        0 <= tile_index(width, size, px, py) < blocks_across(height, size) * blocks_across(
            width,
            size,
        ),
{
    let s = size as int;
    let cols = blocks_across(width, size) as int;
    let rows = blocks_across(height, size) as int;
    let cx = px / s;
    let cy = py / s;
    let idx = tile_index(width, size, px, py);
    lemma_blocks_reach(width, size);
    lemma_blocks_reach(height, size);
    vstd::arithmetic::div_mod::lemma_fundamental_div_mod(px, s);
    vstd::arithmetic::div_mod::lemma_mod_pos_bound(px, s);
    vstd::arithmetic::div_mod::lemma_fundamental_div_mod(py, s);
    vstd::arithmetic::div_mod::lemma_mod_pos_bound(py, s);
    assert(0 <= cx < cols) by (nonlinear_arith)
        requires
            px == s * cx + px % s,
            0 <= px % s < s,
            0 <= px < width,
            cols * s >= width,
            s > 0,
    ;
    assert(0 <= cy < rows) by (nonlinear_arith)
        requires
            py == s * cy + py % s,
            0 <= py % s < s,
            0 <= py < height,
            rows * s >= height,
            s > 0,
    ;
    assert(0 <= idx < rows * cols) by (nonlinear_arith)
        requires
            idx == cy * cols + cx,
            0 <= cx < cols,
            0 <= cy < rows,
    ;
}

/// Every coordinate of the image lies in exactly one block of the tiling:
/// the one at `tile_index`, and in no other.
pub proof fn lemma_tiling_exact_cover(
    width: nat,
    height: nat,
    size: nat,
    chunks: Seq<Chunk>,
    px: int,
    py: int,
)
    requires
        size > 0,
        is_tiling(width, height, size, chunks),
        0 <= px < width,
        0 <= py < height,
    ensures
        0 <= tile_index(width, size, px, py) < chunks.len(),
        covers(chunks[tile_index(width, size, px, py)], px, py),
        forall|j: int|
            0 <= j < chunks.len() && covers(#[trigger] chunks[j], px, py) ==> j
                == tile_index(width, size, px, py),
{
    let s = size as int;
    let cols = blocks_across(width, size) as int;
    let rows = blocks_across(height, size) as int;
    let cx = px / s;
    let cy = py / s;
    let idx = tile_index(width, size, px, py);
    lemma_tile_in_grid(width, height, size, px, py);
    vstd::arithmetic::div_mod::lemma_fundamental_div_mod(px, s);
    vstd::arithmetic::div_mod::lemma_mod_pos_bound(px, s);
    vstd::arithmetic::div_mod::lemma_fundamental_div_mod(py, s);
    vstd::arithmetic::div_mod::lemma_mod_pos_bound(py, s);
    vstd::arithmetic::div_mod::lemma_fundamental_div_mod_converse(idx, cols, cy, cx);
    assert(chunks[idx].x == cx * s);
    assert(chunks[idx].y == cy * s);
    assert forall|j: int|
        0 <= j < chunks.len() && covers(#[trigger] chunks[j], px, py) implies j == idx by {
        vstd::arithmetic::div_mod::lemma_fundamental_div_mod(j, cols);
        vstd::arithmetic::div_mod::lemma_mod_pos_bound(j, cols);
        assert(0 <= j / cols) by (nonlinear_arith)
            requires 0 <= j, cols > 0;
        lemma_position_in_block(px, s, j % cols);
        lemma_position_in_block(py, s, j / cols);
        assert(j == idx) by (nonlinear_arith)
            requires
                j == cols * (j / cols) + j % cols,
                j % cols == cx,
                j / cols == cy,
                idx == cy * cols + cx,
        ;
    }
}

} // verus!
