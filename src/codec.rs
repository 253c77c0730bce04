//! Whole-container encoding and decoding around the image stage.

use vstd::prelude::*;
use crate::dgf::{Dgf, check_compression, check_dct_properties, valid_compression, valid_dct};
use crate::error::DgfError;
use crate::format::{
    DgfImageProperties, ImageCompressionMode, ImageMode, image_mode_tag, parse_header_spec,
    DgfHeader, HEADER_LEN, OFFSET_PLACEHOLDER, PostCompressionMode, container_bytes,
    read_container, read_container_spec, u32_at, write_container, with_payload,
    lemma_container_round_trip,
};
use crate::coefficients::split_coefficients;
use crate::pixels::{PixelBuffer, raw_pixels};
use crate::post::{
    apply_post_compression, post_decompress, post_decompress_spec, snappy_framed,
};
use crate::tiling::{blocks_across, count_across};

verus! {

/// The header that describes `d`, payload fields not yet known.
pub open spec fn described_header(d: Dgf) -> DgfHeader {
    DgfHeader {
        version: d.version,
        properties: d.properties,
        compression: d.compression,
        data_offset: OFFSET_PLACEHOLDER,
        data_length: OFFSET_PLACEHOLDER,
    }
}

/// Checks that the image stage can encode the pixel layout: only 8-bit
/// grayscale is encoded.
pub fn check_encodable(properties: &DgfImageProperties) -> (r: Result<(), DgfError>)
    ensures
        r is Ok <==> properties.mode == ImageMode::Grayscale8,
        r matches Err(e) ==> e == DgfError::UnsupportedPixelMode(image_mode_tag(properties.mode)),
{
    match properties.mode {
        ImageMode::Grayscale8 => Ok(()),
        _ => Err(DgfError::UnsupportedPixelMode(properties.mode.tag())),
    }
}

/// Encodes an image whose image stage has produced `compressed`: applies
/// post-compression, writes the header and the payload, and patches the
/// payload's offset and length into the header.
pub fn encode(dgf: &Dgf, compressed: &Vec<u8>) -> (r: Result<Vec<u8>, DgfError>)
    ensures
        !valid_compression(dgf.compression) ==> r == Err::<Vec<u8>, DgfError>(
            DgfError::Configuration,
        ),
        valid_compression(dgf.compression) && dgf.compression.post.mode
            == PostCompressionMode::Rle ==> r == Err::<Vec<u8>, DgfError>(
            DgfError::UnsupportedPostMode(1),
        ),
        valid_compression(dgf.compression) && dgf.compression.post.mode
            == PostCompressionMode::Identity ==> {
            &&& compressed@.len() + HEADER_LEN > u32::MAX ==> r == Err::<Vec<u8>, DgfError>(
                DgfError::TooLarge,
            )
            &&& compressed@.len() + HEADER_LEN <= u32::MAX ==> (r matches Ok(v) && v@
                == container_bytes(described_header(*dgf), compressed@))
        },
        valid_compression(dgf.compression) && dgf.compression.post.mode
            == PostCompressionMode::Snappy ==> {
            let framed = snappy_framed(compressed@);
            &&& framed.len() + HEADER_LEN > u32::MAX ==> r == Err::<Vec<u8>, DgfError>(
                DgfError::TooLarge,
            )
            &&& framed.len() + HEADER_LEN <= u32::MAX ==> (r matches Ok(v) && v@
                == container_bytes(described_header(*dgf), framed))
        },
{
    match check_compression(&dgf.compression) {
        Ok(()) => {},
        Err(e) => return Err(e),
    }
    let payload = match apply_post_compression(compressed, dgf.compression.post) {
        Ok(p) => p,
        Err(e) => return Err(e),
    };
    let header = dgf.to_dgf_header();
    write_container(&header, &payload)
}

/// What reading a container's payload gives: its header and its payload
/// with the post-compression stage undone.
pub open spec fn decode_payload_spec(b: Seq<u8>) -> Result<(DgfHeader, Seq<u8>), DgfError> {
    match read_container_spec(b) {
        Err(e) => Err(e),
        Ok((h, p)) => match post_decompress_spec(h.compression.post.mode, p) {
            Err(e) => Err(e),
            Ok(d) => Ok((h, d)),
        },
    }
}

/// Reads a container's payload: checks and reads its header, reads the
/// payload it points at and undoes the payload's post-compression.
pub fn decode_payload(bytes: &Vec<u8>) -> (r: Result<(DgfHeader, Vec<u8>), DgfError>)
    ensures
        match r {
            Ok((h, d)) => decode_payload_spec(bytes@) == Ok::<(DgfHeader, Seq<u8>), DgfError>(
                (h, d@),
            ),
            Err(e) => decode_payload_spec(bytes@) == Err::<(DgfHeader, Seq<u8>), DgfError>(e),
        },
{
    let (header, payload) = match read_container(bytes) {
        Ok(v) => v,
        Err(e) => return Err(e),
    };
    match post_decompress(payload, header.compression.post) {
        Ok(d) => Ok((header, d)),
        Err(e) => Err(e),
    }
}

/// Decoding a container written without post-compression gives back the
/// header, now pointing at the payload, and the image stage's bytes.
pub proof fn lemma_encode_decode_identity(d: Dgf, compressed: Seq<u8>)
    requires
        d.compression.post.mode == PostCompressionMode::Identity,
        compressed.len() + HEADER_LEN <= u32::MAX,
    ensures
        decode_payload_spec(container_bytes(described_header(d), compressed)) == Ok::<
            (DgfHeader, Seq<u8>),
            DgfError,
        >(
            (
                with_payload(described_header(d), HEADER_LEN as u32, compressed.len() as u32),
                compressed,
            ),
        ),
{
    lemma_container_round_trip(described_header(d), compressed);
}

/// Number of blocks in the tiling of the header's image.
pub open spec fn block_count(h: DgfHeader) -> nat {
    blocks_across(h.properties.height as nat, h.compression.image.dct.block_size as nat)
        * blocks_across(h.properties.width as nat, h.compression.image.dct.block_size as nat)
}

/// `g` holds the DCT coefficient stream `data` as the header lays it out:
/// one group of `coefficient_count` words per block, in tiling order.
pub open spec fn groups_of(h: DgfHeader, data: Seq<u8>, g: Seq<Vec<u32>>) -> bool {
    let k = h.compression.image.dct.coefficient_count as int;
    &&& g.len() == block_count(h)
    &&& forall|b: int| 0 <= b < g.len() ==> (#[trigger] g[b])@.len() == k
    &&& forall|b: int, j: int|
        0 <= b < g.len() && 0 <= j < k ==> #[trigger] g[b]@[j] == u32_at(data, 4 * (b * k + j))
}

/// Reads the DCT coefficient stream laid out by the header's DCT parameters:
/// one group of `coefficient_count` words per block, in tiling order.
pub fn coefficient_groups(h: &DgfHeader, data: &Vec<u8>) -> (r: Result<Vec<Vec<u32>>, DgfError>)
    ensures
        !valid_dct(h.compression.image.dct) ==> r == Err::<Vec<Vec<u32>>, DgfError>(
            DgfError::Configuration,
        ),
        valid_dct(h.compression.image.dct) ==> (block_count(*h)
            * h.compression.image.dct.coefficient_count * 4 > data@.len() <==> r == Err::<
            Vec<Vec<u32>>,
            DgfError,
        >(DgfError::Truncated)),
        valid_dct(h.compression.image.dct) && block_count(*h)
            * h.compression.image.dct.coefficient_count * 4 <= data@.len() ==> r is Ok,
        r matches Ok(g) ==> valid_dct(h.compression.image.dct) && groups_of(*h, data@, g@),
{
    let dct = h.compression.image.dct;
    match check_dct_properties(dct) {
        Ok(()) => {},
        Err(e) => return Err(e),
    }
    let size = dct.block_size as u32;
    let cols = count_across(h.properties.width as u32, size);
    let rows = count_across(h.properties.height as u32, size);
    assert(rows * cols <= 65535 * 65535) by (nonlinear_arith)
        requires
            rows <= 65535,
            cols <= 65535,
    ;
    let blocks = rows as usize * cols as usize;
    split_coefficients(data, blocks, dct.coefficient_count as usize)
}

/// The image stage's data once read: the pixels themselves, or the DCT
/// coefficient groups that the blocks are rebuilt from.
pub enum ImageData {
    Pixels(PixelBuffer),
    Coefficients(Vec<Vec<u32>>),
}

/// What reading the image stage's data `d` of header `h` gives.
pub open spec fn image_data_spec(h: DgfHeader, d: Seq<u8>, r: Result<ImageData, DgfError>) -> bool {
    let p = h.properties;
    let dct = h.compression.image.dct;
    match h.compression.image.mode {
        ImageCompressionMode::Raw => if d.len() == p.width * p.height * 3 {
            r matches Ok(ImageData::Pixels(px)) && px.width == p.width && px.height == p.height
                && px.data@ == d
        } else {
            r == Err::<ImageData, DgfError>(DgfError::Reconstruction)
        },
        ImageCompressionMode::Dct => if !valid_dct(dct) {
            r == Err::<ImageData, DgfError>(DgfError::Configuration)
        } else if block_count(h) * dct.coefficient_count * 4 > d.len() {
            r == Err::<ImageData, DgfError>(DgfError::Truncated)
        } else {
            r matches Ok(ImageData::Coefficients(g)) && groups_of(h, d, g@)
        },
    }
}

/// Reads the image stage's data: the pixels, which must number width *
/// height, or the coefficient groups.
pub fn decode_image_data(h: &DgfHeader, data: Vec<u8>) -> (r: Result<ImageData, DgfError>)
    ensures
        image_data_spec(*h, data@, r),
{
    match h.compression.image.mode {
        ImageCompressionMode::Raw => match raw_pixels(&h.properties, data) {
            Ok(p) => Ok(ImageData::Pixels(p)),
            Err(e) => Err(e),
        },
        ImageCompressionMode::Dct => match coefficient_groups(h, &data) {
            Ok(g) => Ok(ImageData::Coefficients(g)),
            Err(e) => Err(e),
        },
    }
}

/// Decodes a container up to the floating-point work: its header, and its
/// pixels or coefficient groups.
pub fn decode(bytes: &Vec<u8>) -> (r: Result<(DgfHeader, ImageData), DgfError>)
    ensures
        match decode_payload_spec(bytes@) {
            Err(e) => r == Err::<(DgfHeader, ImageData), DgfError>(e),
            Ok((h, d)) => match r {
                Ok((h2, img)) => h2 == h && image_data_spec(h, d, Ok::<ImageData, DgfError>(img)),
                Err(e) => image_data_spec(h, d, Err::<ImageData, DgfError>(e)),
            },
        },
{
    let (header, data) = match decode_payload(bytes) {
        Ok(v) => v,
        Err(e) => return Err(e),
    };
    match decode_image_data(&header, data) {
        Ok(img) => Ok((header, img)),
        Err(e) => Err(e),
    }
}

/// A container whose header selects the reserved run-length mode, and whose
/// payload lies inside the stream, is refused as unsupported: its payload
/// is neither passed through nor decoded.
pub proof fn lemma_reserved_post_mode_refused(b: Seq<u8>)
    requires
        parse_header_spec(b) is Ok,
        parse_header_spec(b)->Ok_0.compression.post.mode == PostCompressionMode::Rle,
        parse_header_spec(b)->Ok_0.data_offset + parse_header_spec(b)->Ok_0.data_length
            <= b.len(),
    ensures
        decode_payload_spec(b) == Err::<(DgfHeader, Seq<u8>), DgfError>(
            DgfError::UnsupportedPostMode(1),
        ),
{
}

} // verus!
