//! The coefficient stream: per-block groups of 32-bit words (the bit
//! patterns of the DCT coefficients), concatenated little-endian in tiling
//! order.

use vstd::prelude::*;
use crate::error::DgfError;
use crate::format::{le32, lemma_le32_read, push_u32_le, read_u32_le, u32_at};

verus! {

/// The four bytes of word `i` of a stream.
pub open spec fn word_at(b: Seq<u8>, i: int) -> Seq<u8> {
    b.subrange(4 * i, 4 * i + 4)
}

/// Writes the words one after the other, each little-endian.
pub fn pack_coefficients(words: &Vec<u32>) -> (r: Vec<u8>)
    requires
        words@.len() * 4 <= usize::MAX,
    ensures
        r@.len() == 4 * words@.len(),
        forall|i: int| 0 <= i < words@.len() ==> #[trigger] word_at(r@, i) == le32(words@[i]),
{
    let mut out: Vec<u8> = Vec::new();
    let mut i: usize = 0;
    while i < words.len()
        invariant
            i <= words@.len(),
            out@.len() == 4 * i,
            forall|j: int| 0 <= j < i ==> #[trigger] word_at(out@, j) == le32(words@[j]),
        decreases words@.len() - i,
    {
        let ghost before = out@;
        push_u32_le(&mut out, words[i]);
        proof {
            assert forall|j: int| 0 <= j < i + 1 implies #[trigger] word_at(out@, j) == le32(
                words@[j],
            ) by {
                if j < i {
                    assert(word_at(out@, j) =~= word_at(before, j));
                } else {
                    assert(word_at(out@, j) =~= le32(words@[j]));
                }
            }
        }
        i = i + 1;
    }
    out
}

/// Reads `blocks` groups of `count` words off the front of the stream.
pub fn split_coefficients(payload: &Vec<u8>, blocks: usize, count: usize) -> (r: Result<
    Vec<Vec<u32>>,
    DgfError,
>)
    ensures
        blocks * count * 4 > payload@.len() <==> r == Err::<Vec<Vec<u32>>, DgfError>(
            DgfError::Truncated,
        ),
        r is Err ==> r == Err::<Vec<Vec<u32>>, DgfError>(DgfError::Truncated),
        r matches Ok(g) ==> {
            &&& g@.len() == blocks
            &&& forall|b: int| 0 <= b < blocks ==> (#[trigger] g@[b])@.len() == count
            &&& forall|b: int, j: int|
                0 <= b < blocks && 0 <= j < count ==> #[trigger] g@[b]@[j] == u32_at(
                    payload@,
                    4 * (b * count + j),
                )
        },
{
    let len = payload.len();
    let words = match blocks.checked_mul(count) {
        Some(n) => n,
        None => {
            assert(blocks * count * 4 > len) by (nonlinear_arith)
                requires
                    blocks * count > usize::MAX,
                    len <= usize::MAX,
            ;
            return Err(DgfError::Truncated);
        },
    };
    if words > len / 4 {
        return Err(DgfError::Truncated);
    }
    let mut groups: Vec<Vec<u32>> = Vec::new();
    let mut b: usize = 0;
    while b < blocks
        invariant
            words == blocks * count,
            words * 4 <= len,
            len == payload@.len(),
            b <= blocks,
            groups@.len() == b,
            forall|i: int| 0 <= i < b ==> (#[trigger] groups@[i])@.len() == count,
            forall|i: int, j: int|
                0 <= i < b && 0 <= j < count ==> #[trigger] groups@[i]@[j] == u32_at(
                    payload@,
                    4 * (i * count + j),
                ),
        decreases blocks - b,
    {
        let mut group: Vec<u32> = Vec::new();
        let mut j: usize = 0;
        while j < count
            invariant
                words == blocks * count,
                words * 4 <= len,
                len == payload@.len(),
                b < blocks,
                j <= count,
                group@.len() == j,
                forall|k: int| 0 <= k < j ==> #[trigger] group@[k] == u32_at(
                    payload@,
                    4 * (b * count + k),
                ),
            decreases count - j,
        {
            assert(b * count + j < blocks * count) by (nonlinear_arith)
                requires
                    b < blocks,
                    j < count,
            ;
            let pos = 4 * (b * count + j);
            group.push(read_u32_le(payload, pos));
            j = j + 1;
        }
        groups.push(group);
        b = b + 1;
    }
    Ok(groups)
}

/// Each word of a packed stream reads back, at four times its index, as the
/// word that was packed: the stream keeps the words and their order.
pub proof fn lemma_packed_word_reads_back(words: Seq<u32>, packed: Seq<u8>, i: int)
    requires
        packed.len() == 4 * words.len(),
        forall|j: int| 0 <= j < words.len() ==> #[trigger] word_at(packed, j) == le32(words[j]),
        0 <= i < words.len(),
    ensures
        u32_at(packed, 4 * i) == words[i],
{
    assert(word_at(packed, i) == le32(words[i]));
    lemma_le32_read(packed, 4 * i, words[i]);
}

} // verus!
