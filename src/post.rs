//! Post-compression: a generic byte-stream stage selected by the header's
//! mode tag, applied to the payload after the image stage.

use vstd::prelude::*;
use crate::error::DgfError;
use crate::format::{PostCompression, PostCompressionMode};

verus! {

/// The Snappy frame-format encoding of a byte sequence.
pub uninterp spec fn snappy_framed(data: Seq<u8>) -> Seq<u8>;

/// The bytes that a Snappy frame-format stream decodes to, or `None` where
/// the stream is malformed.
pub uninterp spec fn snappy_unframed(data: Seq<u8>) -> Option<Seq<u8>>;

/// Relies on snap::write::FrameEncoder: the bytes it writes for `data` into
/// a vector, once flushed by `into_inner`, are the frame-format encoding of
/// `data`, which depends on `data` alone. The encoder fails only where its
/// writer fails, and a vector never does, so the result is always there.
#[verifier::external_body]
fn snappy_compress(data: &Vec<u8>) -> (r: Option<Vec<u8>>)
    ensures
        r is Some,
        r matches Some(v) ==> v@ == snappy_framed(data@),
{
    let mut encoder = snap::write::FrameEncoder::new(Vec::new());
    std::io::Write::write_all(&mut encoder, data.as_slice()).ok()?;
    encoder.into_inner().ok()
}

/// Relies on snap::read::FrameDecoder: reading it to the end over `data`
/// yields the decoded bytes, or an error for a malformed stream; either
/// outcome depends on `data` alone.
#[verifier::external_body]
fn snappy_decompress(data: &Vec<u8>) -> (r: Option<Vec<u8>>)
    ensures
        match r {
            Some(v) => snappy_unframed(data@) == Some(v@),
            None => snappy_unframed(data@) is None,
        },
{
    let mut decoder = snap::read::FrameDecoder::new(data.as_slice());
    let mut out = Vec::new();
    std::io::Read::read_to_end(&mut decoder, &mut out).ok()?;
    Some(out)
}

/// What undoing the post-compression stage of mode `mode` gives for `data`.
pub open spec fn post_decompress_spec(mode: PostCompressionMode, data: Seq<u8>) -> Result<
    Seq<u8>,
    DgfError,
> {
    match mode {
        PostCompressionMode::Identity => Ok(data),
        PostCompressionMode::Rle => Err(DgfError::UnsupportedPostMode(1)),
        PostCompressionMode::Snappy => match snappy_unframed(data) {
            Some(d) => Ok(d),
            None => Err(DgfError::Io),
        },
    }
}

fn copy_bytes(data: &Vec<u8>) -> (r: Vec<u8>)
    ensures
        r@ == data@,
{
    let mut out: Vec<u8> = Vec::new();
    let mut i: usize = 0;
    while i < data.len()
        invariant
            i <= data@.len(),
            out@ =~= data@.subrange(0, i as int),
        decreases data@.len() - i,
    {
        out.push(data[i]);
        i = i + 1;
    }
    assert(out@ =~= data@);
    out
}

/// Applies the post-compression stage selected by `compression`; the
/// reserved run-length mode is refused.
pub fn apply_post_compression(data: &Vec<u8>, compression: PostCompression) -> (r: Result<
    Vec<u8>,
    DgfError,
>)
    ensures
        compression.mode == PostCompressionMode::Identity ==> (r matches Ok(v) && v@ == data@),
        compression.mode == PostCompressionMode::Rle ==> r == Err::<Vec<u8>, DgfError>(
            DgfError::UnsupportedPostMode(1),
        ),
        compression.mode == PostCompressionMode::Snappy ==> (r matches Ok(v) && v@
            == snappy_framed(data@)),
{
    match compression.mode {
        PostCompressionMode::Identity => Ok(copy_bytes(data)),
        PostCompressionMode::Rle => Err(DgfError::UnsupportedPostMode(1)),
        PostCompressionMode::Snappy => match snappy_compress(data) {
            Some(v) => Ok(v),
            None => Err(DgfError::Io),
        },
    }
}

/// Undoes the post-compression stage selected by `compression`; the
/// reserved run-length mode is refused.
pub fn post_decompress(compressed: Vec<u8>, compression: PostCompression) -> (r: Result<
    Vec<u8>,
    DgfError,
>)
    ensures
        match r {
            Ok(v) => post_decompress_spec(compression.mode, compressed@) == Ok::<
                Seq<u8>,
                DgfError,
            >(v@),
            Err(e) => post_decompress_spec(compression.mode, compressed@) == Err::<
                Seq<u8>,
                DgfError,
            >(e),
        },
{
    match compression.mode {
        PostCompressionMode::Identity => Ok(compressed),
        PostCompressionMode::Rle => Err(DgfError::UnsupportedPostMode(1)),
        PostCompressionMode::Snappy => match snappy_decompress(&compressed) {
            Some(v) => Ok(v),
            None => Err(DgfError::Io),
        },
    }
}

} // verus!
