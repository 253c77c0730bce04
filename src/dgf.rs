//! An image description ready to be written as a container header.

use vstd::prelude::*;
use crate::error::DgfError;
use crate::format::{
    CompressionInfo, DctProperties, DgfHeader, DgfImageProperties, DgfVersion,
    ImageCompressionMode, ImageCompressionProps, ImageMode, PostCompression, PostCompressionMode,
    OFFSET_PLACEHOLDER,
};

verus! {

/// Version, geometry and compression settings of an image, with its data.
pub struct Dgf {
    pub version: DgfVersion,
    pub properties: DgfImageProperties,
    pub compression: CompressionInfo,
    pub data: Vec<u8>,
}

/// Settings of a fresh description: no image compression (DCT parameters
/// preset to 8 x 8 blocks keeping all 64 coefficients), no post-compression.
pub open spec fn default_compression() -> CompressionInfo {
    CompressionInfo {
        image: ImageCompressionProps {
            mode: ImageCompressionMode::Raw,
            dct: DctProperties { coefficient_count: 64, block_size: 8 },
        },
        post: PostCompression { mode: PostCompressionMode::Identity },
    }
}

/// DCT parameters are usable: non-empty blocks, and between one coefficient
/// and as many as a block has samples.
pub open spec fn valid_dct(d: DctProperties) -> bool {
    d.block_size >= 1 && 1 <= d.coefficient_count <= d.block_size * d.block_size
}

/// The settings can drive an encode or decode: DCT parameters are checked
/// only when the DCT stage is selected.
pub open spec fn valid_compression(c: CompressionInfo) -> bool {
    c.image.mode == ImageCompressionMode::Dct ==> valid_dct(c.image.dct)
}

/// Checks the DCT parameters.
pub fn check_dct_properties(d: DctProperties) -> (r: Result<(), DgfError>)
    ensures
        r is Ok <==> valid_dct(d),
        r matches Err(e) ==> e == DgfError::Configuration,
{
    let bs = d.block_size as u16;
    assert(bs * bs <= 65025) by (nonlinear_arith)
        requires
            bs <= 255,
    ;
    if bs == 0 || d.coefficient_count == 0 || d.coefficient_count > bs * bs {
        Err(DgfError::Configuration)
    } else {
        Ok(())
    }
}

/// Checks the settings that the selected image compression mode uses.
pub fn check_compression(c: &CompressionInfo) -> (r: Result<(), DgfError>)
    ensures
        r is Ok <==> valid_compression(*c),
        r matches Err(e) ==> e == DgfError::Configuration,
{
    match c.image.mode {
        ImageCompressionMode::Dct => check_dct_properties(c.image.dct),
        ImageCompressionMode::Raw => Ok(()),
    }
}

impl Dgf {
    /// A description of a `width` x `height` image in pixel layout `mode`,
    /// with the default settings and no data.
    pub fn new(version: DgfVersion, width: u16, height: u16, mode: ImageMode) -> (r: Dgf)
        ensures
            r.version == version,
            r.properties == (DgfImageProperties { mode, width, height }),
            r.compression == default_compression(),
            r.data@ == Seq::<u8>::empty(),
    {
        Dgf {
            version,
            properties: DgfImageProperties { mode, width, height },
            compression: CompressionInfo {
                image: ImageCompressionProps {
                    mode: ImageCompressionMode::Raw,
                    dct: DctProperties { coefficient_count: 64, block_size: 8 },
                },
                post: PostCompression { mode: PostCompressionMode::Identity },
            },
            data: Vec::new(),
        }
    }

    /// The header for this description, its payload fields holding the
    /// placeholder until the payload is written.
    pub fn to_dgf_header(&self) -> (r: DgfHeader)
        ensures
            r == (DgfHeader {
                version: self.version,
                properties: self.properties,
                compression: self.compression,
                data_offset: OFFSET_PLACEHOLDER,
                data_length: OFFSET_PLACEHOLDER,
            }),
    {
        DgfHeader {
            version: self.version,
            properties: self.properties,
            compression: self.compression,
            data_offset: OFFSET_PLACEHOLDER,
            data_length: OFFSET_PLACEHOLDER,
        }
    }
}

} // verus!
