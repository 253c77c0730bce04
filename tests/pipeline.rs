use dgf::codec::{check_encodable, coefficient_groups, decode, decode_payload, encode, ImageData};
use dgf::coefficients::pack_coefficients;
use dgf::dgf::{check_dct_properties, Dgf};
use dgf::error::DgfError;
use dgf::format::{
    write_container, DctProperties, DgfImageProperties, DgfVersion, ImageCompressionMode, ImageMode,
    PostCompression, PostCompressionMode, HEADER_LEN,
};
use dgf::pixels::{assemble_image, block_signals, PixelBuffer};
use dgf::post::{apply_post_compression, post_decompress};
use std::f32::consts::PI;

fn forward(signal: &[f32], k: u32) -> f32 {
    let n = signal.len() as f32;
    if k == 0 {
        return signal.iter().sum::<f32>() / n.sqrt();
    }
    let mut sum = 0.0f32;
    for (m, s) in signal.iter().enumerate() {
        sum += s * (PI * k as f32 * (2.0 * m as f32 + 1.0) / (2.0 * n)).cos();
    }
    sum * (2.0 / n).sqrt()
}

fn inverse(coeffs: &[f32], size: u32, x: u32, y: u32) -> f32 {
    let n = (size * size) as f32;
    let m = (y * size + x) as f32;
    let mut sum = 0.0f32;
    for k in 1..coeffs.len() {
        sum += coeffs[k] * (PI * k as f32 * (2.0 * m + 1.0) / (2.0 * n)).cos();
    }
    coeffs[0] / n.sqrt() + (2.0 / n).sqrt() * sum
}

fn to_byte(v: f32) -> u8 {
    (v * 255.0).round().clamp(0.0, 255.0) as u8
}

fn dct_description(w: u16, h: u16, block: u8, count: u16, post: PostCompressionMode) -> Dgf {
    let mut d = Dgf::new(DgfVersion::Version1, w, h, ImageMode::Grayscale8);
    d.compression.image.mode = ImageCompressionMode::Dct;
    d.compression.image.dct = DctProperties { coefficient_count: count, block_size: block };
    d.compression.post.mode = post;
    d
}

fn encode_image(img: &PixelBuffer, d: &Dgf) -> Vec<u8> {
    let dct = d.compression.image.dct;
    let mut words = Vec::new();
    for signal in block_signals(img, dct.block_size as u32).unwrap() {
        let f: Vec<f32> = signal.iter().map(|&s| s as f32 / 255.0).collect();
        for k in 0..dct.coefficient_count as u32 {
            words.push(forward(&f, k).to_bits());
        }
    }
    encode(d, &pack_coefficients(&words)).unwrap()
}

fn decode_image(bytes: &Vec<u8>) -> PixelBuffer {
    let (h, data) = decode(bytes).unwrap();
    let size = h.compression.image.dct.block_size as u32;
    let groups = match data {
        ImageData::Coefficients(g) => g,
        ImageData::Pixels(_) => panic!("expected coefficients"),
    };
    let blocks: Vec<Vec<u8>> = groups
        .iter()
        .map(|g| {
            let c: Vec<f32> = g.iter().map(|&w| f32::from_bits(w)).collect();
            (0..size * size).map(|m| to_byte(inverse(&c, size, m % size, m / size))).collect()
        })
        .collect();
    assemble_image(h.properties.width as u32, h.properties.height as u32, size, &blocks)
}

fn repeated_block_image(side: u32) -> PixelBuffer {
    let mut data = Vec::new();
    for y in 0..side {
        for x in 0..side {
            let v = (((x % 8) * 8 + (y % 8)) * 4) as u8;
            data.extend_from_slice(&[v, v, v]);
        }
    }
    PixelBuffer::new(side, side, data).unwrap()
}

#[test]
fn offset_patch_sixteen_square() {
    let d = dct_description(16, 16, 8, 4, PostCompressionMode::Identity);
    let bytes = encode_image(&repeated_block_image(16), &d);
    let (h, data) = decode_payload(&bytes).unwrap();
    assert_eq!(h.data_offset as usize, HEADER_LEN);
    assert_eq!(h.data_offset, 68);
    // four blocks of four coefficients of four bytes
    assert_eq!(h.data_length, 64);
    assert_eq!(data.len(), 64);
    assert_eq!(bytes.len(), 68 + 64);
}

#[test]
fn offset_patch_sixteen_blocks() {
    let d = dct_description(32, 32, 8, 4, PostCompressionMode::Identity);
    let bytes = encode_image(&repeated_block_image(32), &d);
    let (h, _) = decode_payload(&bytes).unwrap();
    assert_eq!(h.data_offset, 68);
    assert_eq!(h.data_length, 16 * 4 * 4);
    assert_eq!(h.data_length, 256);
}

#[test]
fn uniform_gray_round_trip() {
    let d = dct_description(8, 8, 8, 1, PostCompressionMode::Identity);
    let signal = vec![0.5f32; 64];
    let words = vec![forward(&signal, 0).to_bits()];
    assert!((f32::from_bits(words[0]) - 4.0).abs() < 1e-5);
    let bytes = encode(&d, &pack_coefficients(&words)).unwrap();
    let img = decode_image(&bytes);
    assert_eq!(img.width, 8);
    assert_eq!(img.height, 8);
    assert_eq!(img.data.len(), 8 * 8 * 3);
    assert!(img.data.iter().all(|&v| v == 128));
}

#[test]
fn full_coefficients_reproduce_pixels() {
    let d = dct_description(10, 6, 4, 16, PostCompressionMode::Snappy);
    let mut data = Vec::new();
    for y in 0..6u32 {
        for x in 0..10u32 {
            let v = (x * 20 + y * 7) as u8;
            data.extend_from_slice(&[v, v, v]);
        }
    }
    let img = PixelBuffer::new(10, 6, data.clone()).unwrap();
    let out = decode_image(&encode_image(&img, &d));
    for (a, b) in out.data.iter().zip(data.iter()) {
        assert!((*a as i32 - *b as i32).abs() <= 1);
    }
}

#[test]
fn reserved_post_mode_is_unsupported_on_decode() {
    let mut d = dct_description(8, 8, 8, 1, PostCompressionMode::Identity);
    let header = d.to_dgf_header();
    let mut rle = header;
    rle.compression.post.mode = PostCompressionMode::Rle;
    let bytes = write_container(&rle, &vec![0u8; 4]).unwrap();
    assert_eq!(decode_payload(&bytes).unwrap_err(), DgfError::UnsupportedPostMode(1));
    assert_eq!(decode(&bytes).err(), Some(DgfError::UnsupportedPostMode(1)));
    d.compression.post.mode = PostCompressionMode::Rle;
    assert_eq!(encode(&d, &vec![0u8; 4]).unwrap_err(), DgfError::UnsupportedPostMode(1));
}

#[test]
fn snappy_stage_round_trip() {
    let data: Vec<u8> = (0..2000u32).map(|i| (i % 7) as u8).collect();
    let snappy = PostCompression { mode: PostCompressionMode::Snappy };
    let packed = apply_post_compression(&data, snappy).unwrap();
    assert_ne!(packed, data);
    assert_eq!(&packed[0..4], &[0xff, 0x06, 0x00, 0x00]);
    assert_eq!(post_decompress(packed, snappy).unwrap(), data);
}

#[test]
fn identity_stage_keeps_bytes() {
    let identity = PostCompression { mode: PostCompressionMode::Identity };
    assert_eq!(apply_post_compression(&vec![1, 2, 3], identity).unwrap(), vec![1, 2, 3]);
    assert_eq!(post_decompress(vec![1, 2, 3], identity).unwrap(), vec![1, 2, 3]);
}

#[test]
fn malformed_snappy_stream() {
    let snappy = PostCompression { mode: PostCompressionMode::Snappy };
    assert_eq!(post_decompress(vec![1, 2, 3, 4, 5], snappy).unwrap_err(), DgfError::Io);
}

#[test]
fn dct_settings_are_checked() {
    let ok = DctProperties { coefficient_count: 64, block_size: 8 };
    assert_eq!(check_dct_properties(ok), Ok(()));
    for bad in [
        DctProperties { coefficient_count: 65, block_size: 8 },
        DctProperties { coefficient_count: 0, block_size: 8 },
        DctProperties { coefficient_count: 1, block_size: 0 },
    ] {
        assert_eq!(check_dct_properties(bad), Err(DgfError::Configuration));
        let mut d = dct_description(8, 8, 8, 1, PostCompressionMode::Identity);
        d.compression.image.dct = bad;
        assert_eq!(encode(&d, &Vec::new()).unwrap_err(), DgfError::Configuration);
    }
}

#[test]
fn short_coefficient_stream() {
    let d = dct_description(16, 8, 8, 2, PostCompressionMode::Identity);
    let bytes = encode(&d, &pack_coefficients(&vec![0, 0, 0])).unwrap();
    let (h, data) = decode_payload(&bytes).unwrap();
    assert_eq!(coefficient_groups(&h, &data).unwrap_err(), DgfError::Truncated);
    assert_eq!(decode(&bytes).err(), Some(DgfError::Truncated));
    let bytes = encode(&d, &pack_coefficients(&vec![0, 0, 0, 7])).unwrap();
    let (h, data) = decode_payload(&bytes).unwrap();
    assert_eq!(coefficient_groups(&h, &data).unwrap(), vec![vec![0, 0], vec![0, 7]]);
}

#[test]
fn fresh_description_defaults() {
    let d = Dgf::new(DgfVersion::Version1, 3, 4, ImageMode::Grayscale8);
    assert_eq!(d.properties.width, 3);
    assert_eq!(d.properties.height, 4);
    assert_eq!(d.properties.mode, ImageMode::Grayscale8);
    assert_eq!(d.compression.image.mode, ImageCompressionMode::Raw);
    assert_eq!(d.compression.image.dct, DctProperties { coefficient_count: 64, block_size: 8 });
    assert_eq!(d.compression.post.mode, PostCompressionMode::Identity);
    assert!(d.data.is_empty());
    let h = d.to_dgf_header();
    assert_eq!(h.data_offset, 0xFFFF_FFFF);
    assert_eq!(h.data_length, 0xFFFF_FFFF);
}

#[test]
fn raw_image_container() {
    let d = Dgf::new(DgfVersion::Version1, 2, 1, ImageMode::Rgb8);
    let bytes = encode(&d, &vec![1, 2, 3, 4, 5, 6]).unwrap();
    let (h, data) = decode(&bytes).unwrap();
    assert_eq!(h.compression.image.mode, ImageCompressionMode::Raw);
    match data {
        ImageData::Pixels(p) => {
            assert_eq!((p.width, p.height), (2, 1));
            assert_eq!(p.data, vec![1, 2, 3, 4, 5, 6]);
        }
        ImageData::Coefficients(_) => panic!("expected pixels"),
    }
}

#[test]
fn raw_image_of_wrong_size() {
    let d = Dgf::new(DgfVersion::Version1, 2, 2, ImageMode::Rgb8);
    let bytes = encode(&d, &vec![1, 2, 3, 4, 5, 6]).unwrap();
    assert_eq!(decode(&bytes).err(), Some(DgfError::Reconstruction));
}

#[test]
fn snappy_container_round_trip() {
    let d = dct_description(4, 4, 4, 2, PostCompressionMode::Snappy);
    let words = vec![0x3f00_0000u32, 0x4080_0000];
    let bytes = encode(&d, &pack_coefficients(&words)).unwrap();
    let (h, data) = decode(&bytes).unwrap();
    assert_eq!(h.compression.post.mode, PostCompressionMode::Snappy);
    match data {
        ImageData::Coefficients(g) => assert_eq!(g, vec![words]),
        ImageData::Pixels(_) => panic!("expected coefficients"),
    }
}

#[test]
fn only_grayscale_is_encodable() {
    let p = |mode| DgfImageProperties { mode, width: 4, height: 4 };
    assert_eq!(check_encodable(&p(ImageMode::Grayscale8)), Ok(()));
    assert_eq!(check_encodable(&p(ImageMode::Rgb8)), Err(DgfError::UnsupportedPixelMode(0x10)));
    assert_eq!(check_encodable(&p(ImageMode::Grayscale1)), Err(DgfError::UnsupportedPixelMode(0)));
}
