//! The container header: its fields, its fixed little-endian byte layout,
//! and the reading and writing of whole container streams.

use vstd::prelude::*;
use crate::error::DgfError;

verus! {

/// Size in bytes of the serialized header; the payload starts right after it.
pub const HEADER_LEN: usize = 68;

/// Byte offset, inside the header, of the `data_offset` field.
pub const DATA_OFFSET_POS: usize = 60;

/// Byte offset, inside the header, of the `data_length` field.
pub const DATA_LENGTH_POS: usize = 64;

/// Value written in the two payload fields until the payload is known.
pub const OFFSET_PLACEHOLDER: u32 = 0xFFFF_FFFF;

/// Container format version.
#[derive(Debug, Clone, Copy, PartialEq, Eq, Structural)]
pub enum DgfVersion {
    Version1,
}

/// Pixel layout of the image.
#[derive(Debug, Clone, Copy, PartialEq, Eq, Structural)]
pub enum ImageMode {
    Grayscale1,
    Grayscale8,
    Rgb8,
}

/// Geometry and pixel layout. The 32 reserved bytes that follow these fields
/// in the layout are written as zero and ignored when read.
#[derive(Debug, Clone, Copy, PartialEq, Eq, Structural)]
pub struct DgfImageProperties {
    pub mode: ImageMode,
    pub width: u16,
    pub height: u16,
}

/// Lossy stage applied to the image.
#[derive(Debug, Clone, Copy, PartialEq, Eq, Structural)]
pub enum ImageCompressionMode {
    /// Pixels stored as they are.
    Raw,
    Dct,
}

/// Parameters of the DCT stage: side of the square blocks and number of
/// coefficients kept per block.
#[derive(Debug, Clone, Copy, PartialEq, Eq, Structural)]
pub struct DctProperties {
    pub coefficient_count: u16,
    pub block_size: u8,
}

/// Image compression mode with its parameters; the parameters are written
/// whatever the mode, so that every header byte is determined.
#[derive(Debug, Clone, Copy, PartialEq, Eq, Structural)]
pub struct ImageCompressionProps {
    pub mode: ImageCompressionMode,
    pub dct: DctProperties,
}

/// Generic byte-stream stage applied to the payload.
#[derive(Debug, Clone, Copy, PartialEq, Eq, Structural)]
pub enum PostCompressionMode {
    /// Payload stored as it is.
    Identity,
    /// Reserved tag: run-length coding has no implementation and is refused.
    Rle,
    /// Snappy frame format.
    Snappy,
}

/// Post-compression settings; three reserved zero bytes follow the mode.
#[derive(Debug, Clone, Copy, PartialEq, Eq, Structural)]
pub struct PostCompression {
    pub mode: PostCompressionMode,
}

/// Both compression stages' settings.
#[derive(Debug, Clone, Copy, PartialEq, Eq, Structural)]
pub struct CompressionInfo {
    pub image: ImageCompressionProps,
    pub post: PostCompression,
}

/// The fixed-size prefix of a container. The two magic values and the
/// reserved fields of the layout are constants and are not held here.
#[derive(Debug, Clone, Copy, PartialEq, Eq, Structural)]
pub struct DgfHeader {
    pub version: DgfVersion,
    pub properties: DgfImageProperties,
    pub compression: CompressionInfo,
    pub data_offset: u32,
    pub data_length: u32,
}

/// Tags of the enumerations in the layout, and the values they stand for.
pub open spec fn version_tag(v: DgfVersion) -> u16 {
    match v {
        DgfVersion::Version1 => 1,
    }
}

pub open spec fn image_mode_tag(m: ImageMode) -> u16 {
    match m {
        ImageMode::Grayscale1 => 0x00,
        ImageMode::Grayscale8 => 0x01,
        ImageMode::Rgb8 => 0x10,
    }
}

pub open spec fn image_compression_tag(m: ImageCompressionMode) -> u8 {
    match m {
        ImageCompressionMode::Raw => 0,
        ImageCompressionMode::Dct => 1,
    }
}

pub open spec fn post_compression_tag(m: PostCompressionMode) -> u8 {
    match m {
        PostCompressionMode::Identity => 0,
        PostCompressionMode::Rle => 1,
        PostCompressionMode::Snappy => 2,
    }
}

pub open spec fn image_mode_of_tag(t: u16) -> Option<ImageMode> {
    if t == 0x00 {
        Some(ImageMode::Grayscale1)
    } else if t == 0x01 {
        Some(ImageMode::Grayscale8)
    } else if t == 0x10 {
        Some(ImageMode::Rgb8)
    } else {
        None
    }
}

pub open spec fn image_compression_of_tag(t: u8) -> Option<ImageCompressionMode> {
    if t == 0 {
        Some(ImageCompressionMode::Raw)
    } else if t == 1 {
        Some(ImageCompressionMode::Dct)
    } else {
        None
    }
}

pub open spec fn post_compression_of_tag(t: u8) -> Option<PostCompressionMode> {
    if t == 0 {
        Some(PostCompressionMode::Identity)
    } else if t == 1 {
        Some(PostCompressionMode::Rle)
    } else if t == 2 {
        Some(PostCompressionMode::Snappy)
    } else {
        None
    }
}

impl DgfVersion {
    /// The version's tag in the layout.
    pub fn tag(&self) -> (r: u16)
        ensures
            r == version_tag(*self),
    {
        match self {
            DgfVersion::Version1 => 1,
        }
    }
}

impl ImageMode {
    /// The layout's tag in the header.
    pub fn tag(&self) -> (r: u16)
        ensures
            r == image_mode_tag(*self),
    {
        match self {
            ImageMode::Grayscale1 => 0x00,
            ImageMode::Grayscale8 => 0x01,
            ImageMode::Rgb8 => 0x10,
        }
    }

    /// The layout a header tag stands for, if any.
    pub fn from_tag(t: u16) -> (r: Option<ImageMode>)
        ensures
            r == image_mode_of_tag(t),
    {
        if t == 0x00 {
            Some(ImageMode::Grayscale1)
        } else if t == 0x01 {
            Some(ImageMode::Grayscale8)
        } else if t == 0x10 {
            Some(ImageMode::Rgb8)
        } else {
            None
        }
    }
}

impl ImageCompressionMode {
    /// The mode's tag in the header.
    pub fn tag(&self) -> (r: u8)
        ensures
            r == image_compression_tag(*self),
    {
        match self {
            ImageCompressionMode::Raw => 0,
            ImageCompressionMode::Dct => 1,
        }
    }

    /// The mode a header tag stands for, if any.
    pub fn from_tag(t: u8) -> (r: Option<ImageCompressionMode>)
        ensures
            r == image_compression_of_tag(t),
    {
        if t == 0 {
            Some(ImageCompressionMode::Raw)
        } else if t == 1 {
            Some(ImageCompressionMode::Dct)
        } else {
            None
        }
    }
}

impl PostCompressionMode {
    /// The mode's tag in the header.
    pub fn tag(&self) -> (r: u8)
        ensures
            r == post_compression_tag(*self),
    {
        match self {
            PostCompressionMode::Identity => 0,
            PostCompressionMode::Rle => 1,
            PostCompressionMode::Snappy => 2,
        }
    }

    /// The mode a header tag stands for, if any.
    pub fn from_tag(t: u8) -> (r: Option<PostCompressionMode>)
        ensures
            r == post_compression_of_tag(t),
    {
        if t == 0 {
            Some(PostCompressionMode::Identity)
        } else if t == 1 {
            Some(PostCompressionMode::Rle)
        } else if t == 2 {
            Some(PostCompressionMode::Snappy)
        } else {
            None
        }
    }
}

/// Little-endian bytes of a 16-bit value.
pub open spec fn le16(v: u16) -> Seq<u8> {
    seq![(v % 256) as u8, (v / 256) as u8]
}

/// Little-endian bytes of a 32-bit value.
pub open spec fn le32(v: u32) -> Seq<u8> {
    seq![(v % 256) as u8, ((v / 256) % 256) as u8, ((v / 65536) % 256) as u8, (v / 16777216) as u8]
}

/// The 16-bit value stored little-endian at `b[i..i + 2]`.
pub open spec fn u16_at(b: Seq<u8>, i: int) -> u16 {
    (b[i] + 256 * b[i + 1]) as u16
}

/// The 32-bit value stored little-endian at `b[i..i + 4]`.
pub open spec fn u32_at(b: Seq<u8>, i: int) -> u32 {
    (b[i] + 256 * b[i + 1] + 65536 * b[i + 2] + 16777216 * b[i + 3]) as u32
}

/// `n` zero bytes, as written in reserved fields.
pub open spec fn zeros(n: nat) -> Seq<u8> {
    Seq::new(n, |i: int| 0u8)
}

/// Leading signature: 0x07 'D' 'G' 'F'.
pub open spec fn dgf_magic() -> Seq<u8> {
    seq![0x07u8, 0x44u8, 0x47u8, 0x46u8]
}

/// Signature of the data section: '.' 'd' 'a' 't'.
pub open spec fn data_section_magic() -> Seq<u8> {
    seq![0x2eu8, 0x64u8, 0x61u8, 0x74u8]
}

/// The serialized header up to the two payload fields, which come last.
pub open spec fn header_prefix(h: DgfHeader) -> Seq<u8> {
    dgf_magic()
        + le16(version_tag(h.version))
        + zeros(2)
        + le16(image_mode_tag(h.properties.mode))
        + le16(h.properties.width)
        + le16(h.properties.height)
        + zeros(32)
        + seq![image_compression_tag(h.compression.image.mode)]
        + le16(h.compression.image.dct.coefficient_count)
        + seq![h.compression.image.dct.block_size]
        + zeros(2)
        + seq![post_compression_tag(h.compression.post.mode)]
        + zeros(3)
        + data_section_magic()
}

/// The serialized header, field by field in declared order.
pub open spec fn header_bytes(h: DgfHeader) -> Seq<u8> {
    header_prefix(h) + le32(h.data_offset) + le32(h.data_length)
}

/// `h` with its payload fields set to `offset` and `length`.
pub open spec fn with_payload(h: DgfHeader, offset: u32, length: u32) -> DgfHeader {
    DgfHeader {
        version: h.version,
        properties: h.properties,
        compression: h.compression,
        data_offset: offset,
        data_length: length,
    }
}

/// A whole container: the header, patched to point at the payload that
/// follows it, then the payload.
pub open spec fn container_bytes(h: DgfHeader, payload: Seq<u8>) -> Seq<u8> {
    header_bytes(with_payload(h, HEADER_LEN as u32, payload.len() as u32)) + payload
}

/// What reading a container out of `b` gives: its header and the
/// `data_length` bytes found at `data_offset`.
pub open spec fn read_container_spec(b: Seq<u8>) -> Result<(DgfHeader, Seq<u8>), DgfError> {
    match parse_header_spec(b) {
        Err(e) => Err(e),
        Ok(h) => if h.data_offset + h.data_length <= b.len() {
            Ok((h, b.subrange(h.data_offset as int, h.data_offset + h.data_length)))
        } else {
            Err(DgfError::Truncated)
        },
    }
}

fn push_u16_le(out: &mut Vec<u8>, v: u16)
    ensures
        final(out)@ == old(out)@ + le16(v),
{
    out.push((v % 256) as u8);
    out.push((v / 256) as u8);
    assert(final(out)@ =~= old(out)@ + le16(v));
}

pub(crate) fn push_u32_le(out: &mut Vec<u8>, v: u32)
    ensures
        final(out)@ == old(out)@ + le32(v),
{
    out.push((v % 256) as u8);
    out.push(((v / 256) % 256) as u8);
    out.push(((v / 65536) % 256) as u8);
    out.push((v / 16777216) as u8);
    assert(final(out)@ =~= old(out)@ + le32(v));
}

fn push_zeros(out: &mut Vec<u8>, n: usize)
    ensures
        final(out)@ == old(out)@ + zeros(n as nat),
{
    let ghost start = out@;
    let mut i: usize = 0;
    while i < n
        invariant
            i <= n,
            out@ =~= start + zeros(i as nat),
        decreases n - i,
    {
        out.push(0u8);
        i = i + 1;
    }
}

/// Writes the header in its fixed layout.
pub fn serialize_header(h: &DgfHeader) -> (r: Vec<u8>)
    ensures
        r@ == header_bytes(*h),
        r@.len() == HEADER_LEN,
{
    let mut out: Vec<u8> = Vec::new();
    out.push(0x07u8);
    out.push(0x44u8);
    out.push(0x47u8);
    out.push(0x46u8);
    assert(out@ =~= dgf_magic());
    push_u16_le(&mut out, h.version.tag());
    push_zeros(&mut out, 2);
    push_u16_le(&mut out, h.properties.mode.tag());
    push_u16_le(&mut out, h.properties.width);
    push_u16_le(&mut out, h.properties.height);
    push_zeros(&mut out, 32);
    out.push(h.compression.image.mode.tag());
    push_u16_le(&mut out, h.compression.image.dct.coefficient_count);
    out.push(h.compression.image.dct.block_size);
    push_zeros(&mut out, 2);
    out.push(h.compression.post.mode.tag());
    push_zeros(&mut out, 3);
    out.push(0x2eu8);
    out.push(0x64u8);
    out.push(0x61u8);
    out.push(0x74u8);
    assert(out@ =~= header_prefix(*h));
    push_u32_le(&mut out, h.data_offset);
    push_u32_le(&mut out, h.data_length);
    out
}

/// What reading a header out of `b` gives: the first failed check in layout
/// order, or the header whose fields the bytes hold.
pub open spec fn parse_header_spec(b: Seq<u8>) -> Result<DgfHeader, DgfError> {
    if b.len() < HEADER_LEN {
        Err(DgfError::Truncated)
    } else if b.subrange(0, 4) != dgf_magic() {
        Err(DgfError::BadMagic)
    } else if u16_at(b, 4) != 1 {
        Err(DgfError::UnknownVersion(u16_at(b, 4)))
    } else if b.subrange(56, 60) != data_section_magic() {
        Err(DgfError::BadDataMagic)
    } else if image_mode_of_tag(u16_at(b, 8)) is None {
        Err(DgfError::UnsupportedPixelMode(u16_at(b, 8)))
    } else if image_compression_of_tag(b[46]) is None {
        Err(DgfError::UnsupportedImageMode(b[46]))
    } else if post_compression_of_tag(b[52]) is None {
        Err(DgfError::UnsupportedPostMode(b[52]))
    } else {
        Ok(
            DgfHeader {
                version: DgfVersion::Version1,
                properties: DgfImageProperties {
                    mode: image_mode_of_tag(u16_at(b, 8))->Some_0,
                    width: u16_at(b, 10),
                    height: u16_at(b, 12),
                },
                compression: CompressionInfo {
                    image: ImageCompressionProps {
                        mode: image_compression_of_tag(b[46])->Some_0,
                        dct: DctProperties {
                            coefficient_count: u16_at(b, 47),
                            block_size: b[49],
                        },
                    },
                    post: PostCompression { mode: post_compression_of_tag(b[52])->Some_0 },
                },
                data_offset: u32_at(b, 60),
                data_length: u32_at(b, 64),
            },
        )
    }
}

fn read_u16_le(b: &Vec<u8>, i: usize) -> (r: u16)
    requires
        i + 2 <= b@.len(),
    ensures
        r == u16_at(b@, i as int),
{
    let n = b.len();
    assert(i + 2 <= n);
    b[i] as u16 + 256 * (b[i + 1] as u16)
}

pub(crate) fn read_u32_le(b: &Vec<u8>, i: usize) -> (r: u32)
    requires
        i + 4 <= b@.len(),
    ensures
        r == u32_at(b@, i as int),
{
    let n = b.len();
    assert(i + 4 <= n);
    b[i] as u32 + 256 * (b[i + 1] as u32) + 65536 * (b[i + 2] as u32) + 16777216 * (b[i + 3] as u32)
}

/// Whether `b[at..at + 4]` holds the four bytes `m`.
fn has_signature(b: &Vec<u8>, at: usize, m0: u8, m1: u8, m2: u8, m3: u8) -> (r: bool)
    requires
        at + 4 <= b@.len(),
    ensures
        r == (b@.subrange(at as int, at + 4) == seq![m0, m1, m2, m3]),
{
    let n = b.len();
    assert(at + 4 <= n);
    let r = b[at] == m0 && b[at + 1] == m1 && b[at + 2] == m2 && b[at + 3] == m3;
    proof {
        let sub = b@.subrange(at as int, at + 4);
        if r {
            assert(sub =~= seq![m0, m1, m2, m3]);
        } else if sub == seq![m0, m1, m2, m3] {
            assert(sub[0] == m0 && sub[1] == m1 && sub[2] == m2 && sub[3] == m3);
        }
    }
    r
}

/// Reads the header at the start of `b`, checking both magic values, the
/// version and every enumeration tag.
pub fn parse_header(b: &Vec<u8>) -> (r: Result<DgfHeader, DgfError>)
    ensures
        r == parse_header_spec(b@),
{
    if b.len() < HEADER_LEN {
        return Err(DgfError::Truncated);
    }
    if !has_signature(b, 0, 0x07, 0x44, 0x47, 0x46) {
        return Err(DgfError::BadMagic);
    }
    let version = read_u16_le(b, 4);
    if version != 1 {
        return Err(DgfError::UnknownVersion(version));
    }
    if !has_signature(b, 56, 0x2e, 0x64, 0x61, 0x74) {
        return Err(DgfError::BadDataMagic);
    }
    let mode_tag = read_u16_le(b, 8);
    let mode = match ImageMode::from_tag(mode_tag) {
        Some(m) => m,
        None => return Err(DgfError::UnsupportedPixelMode(mode_tag)),
    };
    let image_mode = match ImageCompressionMode::from_tag(b[46]) {
        Some(m) => m,
        None => return Err(DgfError::UnsupportedImageMode(b[46])),
    };
    let post_mode = match PostCompressionMode::from_tag(b[52]) {
        Some(m) => m,
        None => return Err(DgfError::UnsupportedPostMode(b[52])),
    };
    Ok(
        DgfHeader {
            version: DgfVersion::Version1,
            properties: DgfImageProperties {
                mode,
                width: read_u16_le(b, 10),
                height: read_u16_le(b, 12),
            },
            compression: CompressionInfo {
                image: ImageCompressionProps {
                    mode: image_mode,
                    dct: DctProperties {
                        coefficient_count: read_u16_le(b, 47),
                        block_size: b[49],
                    },
                },
                post: PostCompression { mode: post_mode },
            },
            data_offset: read_u32_le(b, 60),
            data_length: read_u32_le(b, 64),
        },
    )
}

proof fn lemma_le16_read(b: Seq<u8>, i: int, v: u16)
    requires
        0 <= i,
        i + 2 <= b.len(),
        b.subrange(i, i + 2) == le16(v),
    ensures
        u16_at(b, i) == v,
{
    assert(b[i] == b.subrange(i, i + 2)[0]);
    assert(b[i + 1] == b.subrange(i, i + 2)[1]);
}

pub(crate) proof fn lemma_le32_read(b: Seq<u8>, i: int, v: u32)
    requires
        0 <= i,
        i + 4 <= b.len(),
        b.subrange(i, i + 4) == le32(v),
    ensures
        u32_at(b, i) == v,
{
    assert(b[i] == b.subrange(i, i + 4)[0]);
    assert(b[i + 1] == b.subrange(i, i + 4)[1]);
    assert(b[i + 2] == b.subrange(i, i + 4)[2]);
    assert(b[i + 3] == b.subrange(i, i + 4)[3]);
}

/// Reading back a serialized header gives the same header, for every
/// version, pixel layout, compression mode and field value.
#[verifier::rlimit(50)]
pub proof fn lemma_header_round_trip(h: DgfHeader)
    ensures
        parse_header_spec(header_bytes(h)) == Ok::<DgfHeader, DgfError>(h),
{
    let b = header_bytes(h);
    assert(b.len() == HEADER_LEN);
    assert(b.subrange(0, 4) == dgf_magic()) by {
        assert(b.subrange(0, 4) =~= dgf_magic());
    }
    assert(b.subrange(4, 6) == le16(version_tag(h.version))) by {
        assert(b.subrange(4, 6) =~= le16(version_tag(h.version)));
    }
    assert(b.subrange(8, 10) == le16(image_mode_tag(h.properties.mode))) by {
        assert(b.subrange(8, 10) =~= le16(image_mode_tag(h.properties.mode)));
    }
    assert(b.subrange(10, 12) == le16(h.properties.width)) by {
        assert(b.subrange(10, 12) =~= le16(h.properties.width));
    }
    assert(b.subrange(12, 14) == le16(h.properties.height)) by {
        assert(b.subrange(12, 14) =~= le16(h.properties.height));
    }
    assert(b.subrange(47, 49) == le16(h.compression.image.dct.coefficient_count)) by {
        assert(b.subrange(47, 49) =~= le16(h.compression.image.dct.coefficient_count));
    }
    assert(b.subrange(56, 60) == data_section_magic()) by {
        assert(b.subrange(56, 60) =~= data_section_magic());
    }
    assert(b.subrange(60, 64) == le32(h.data_offset)) by {
        assert(b.subrange(60, 64) =~= le32(h.data_offset));
    }
    assert(b.subrange(64, 68) == le32(h.data_length)) by {
        assert(b.subrange(64, 68) =~= le32(h.data_length));
    }
    assert(b[46] == image_compression_tag(h.compression.image.mode)) by {}
    assert(b[49] == h.compression.image.dct.block_size) by {}
    assert(b[52] == post_compression_tag(h.compression.post.mode)) by {}
    lemma_le16_read(b, 4, version_tag(h.version));
    lemma_le16_read(b, 8, image_mode_tag(h.properties.mode));
    lemma_le16_read(b, 10, h.properties.width);
    lemma_le16_read(b, 12, h.properties.height);
    lemma_le16_read(b, 47, h.compression.image.dct.coefficient_count);
    lemma_le32_read(b, 60, h.data_offset);
    lemma_le32_read(b, 64, h.data_length);
}

/// Overwrites the four bytes at `pos` with `v`, little-endian.
pub fn patch_u32_le(buf: &mut Vec<u8>, pos: usize, v: u32)
    requires
        pos + 4 <= old(buf)@.len(),
    ensures
        final(buf)@ == old(buf)@.subrange(0, pos as int) + le32(v) + old(buf)@.subrange(
            pos + 4,
            old(buf)@.len() as int,
        ),
{
    let n = buf.len();
    assert(pos + 4 <= n);
    buf.set(pos, (v % 256) as u8);
    buf.set(pos + 1, ((v / 256) % 256) as u8);
    buf.set(pos + 2, ((v / 65536) % 256) as u8);
    buf.set(pos + 3, (v / 16777216) as u8);
    assert(final(buf)@ =~= old(buf)@.subrange(0, pos as int) + le32(v) + old(buf)@.subrange(
        pos + 4,
        old(buf)@.len() as int,
    ));
}

/// Appends `src[from..to]` to `out`.
pub fn append_range(out: &mut Vec<u8>, src: &Vec<u8>, from: usize, to: usize)
    requires
        from <= to <= src@.len(),
    ensures
        final(out)@ == old(out)@ + src@.subrange(from as int, to as int),
{
    let ghost start = out@;
    let mut i: usize = from;
    while i < to
        invariant
            from <= i <= to <= src@.len(),
            out@ =~= start + src@.subrange(from as int, i as int),
        decreases to - i,
    {
        out.push(src[i]);
        i = i + 1;
    }
}

/// Writes the header with placeholder payload fields, then the payload,
/// then patches the payload's true offset and length into the header.
pub fn write_container(h: &DgfHeader, payload: &Vec<u8>) -> (r: Result<Vec<u8>, DgfError>)
    ensures
        payload@.len() + HEADER_LEN > u32::MAX ==> r == Err::<Vec<u8>, DgfError>(
            DgfError::TooLarge,
        ),
        payload@.len() + HEADER_LEN <= u32::MAX ==> (r matches Ok(v) && v@ == container_bytes(
            *h,
            payload@,
        )),
{
    if payload.len() > 0xFFFF_FFFF - HEADER_LEN {
        return Err(DgfError::TooLarge);
    }
    let placeholder = DgfHeader {
        version: h.version,
        properties: h.properties,
        compression: h.compression,
        data_offset: OFFSET_PLACEHOLDER,
        data_length: OFFSET_PLACEHOLDER,
    };
    let mut out = serialize_header(&placeholder);
    let data_offset = out.len();
    append_range(&mut out, payload, 0, payload.len());
    let data_length = out.len() - data_offset;
    patch_u32_le(&mut out, DATA_LENGTH_POS, data_length as u32);
    patch_u32_le(&mut out, DATA_OFFSET_POS, data_offset as u32);
    proof {
        let fin = with_payload(*h, HEADER_LEN as u32, payload@.len() as u32);
        assert(header_prefix(fin) == header_prefix(placeholder));
        assert(payload@.subrange(0, payload@.len() as int) =~= payload@);
        assert(out@ =~= container_bytes(*h, payload@));
    }
    Ok(out)
}

/// Reads the header of a container and the payload it points at.
pub fn read_container(b: &Vec<u8>) -> (r: Result<(DgfHeader, Vec<u8>), DgfError>)
    ensures
        match r {
            Ok((h, p)) => read_container_spec(b@) == Ok::<(DgfHeader, Seq<u8>), DgfError>((h, p@)),
            Err(e) => read_container_spec(b@) == Err::<(DgfHeader, Seq<u8>), DgfError>(e),
        },
{
    let h = match parse_header(b) {
        Ok(h) => h,
        Err(e) => return Err(e),
    };
    let start = h.data_offset as usize;
    let len = h.data_length as usize;
    if len > b.len() || start > b.len() - len {
        return Err(DgfError::Truncated);
    }
    let mut payload: Vec<u8> = Vec::new();
    append_range(&mut payload, b, start, start + len);
    assert(payload@ =~= b@.subrange(start as int, start + len));
    Ok((h, payload))
}

proof fn lemma_parse_ignores_tail(b: Seq<u8>, tail: Seq<u8>)
    requires
        b.len() >= HEADER_LEN,
    ensures
        parse_header_spec(b + tail) == parse_header_spec(b),
{
    let c = b + tail;
    assert(c.subrange(0, 4) =~= b.subrange(0, 4));
    assert(c.subrange(56, 60) =~= b.subrange(56, 60));
}

/// Reading back a written container gives the header, now pointing at the
/// payload (offset: the header's size; length: the payload's size), and the
/// payload itself.
pub proof fn lemma_container_round_trip(h: DgfHeader, payload: Seq<u8>)
    requires
        payload.len() + HEADER_LEN <= u32::MAX,
    ensures
        read_container_spec(container_bytes(h, payload)) == Ok::<(DgfHeader, Seq<u8>), DgfError>(
            (with_payload(h, HEADER_LEN as u32, payload.len() as u32), payload),
        ),
{
    let placed = with_payload(h, HEADER_LEN as u32, payload.len() as u32);
    let b = container_bytes(h, payload);
    let hb = header_bytes(placed);
    assert(hb.len() == HEADER_LEN);
    assert(parse_header_spec(b) == Ok::<DgfHeader, DgfError>(placed)) by {
        lemma_header_round_trip(placed);
        lemma_parse_ignores_tail(hb, payload);
    }
    assert(b.subrange(HEADER_LEN as int, HEADER_LEN + payload.len()) == payload) by {
        assert(b.subrange(HEADER_LEN as int, HEADER_LEN + payload.len()) =~= payload);
    }
}

} // verus!
