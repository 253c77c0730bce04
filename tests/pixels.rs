use dgf::coefficients::{pack_coefficients, split_coefficients};
use dgf::error::DgfError;
use dgf::format::DgfImageProperties;
use dgf::format::ImageMode;
use dgf::pixels::{assemble_image, block_samples, block_signals, raw_pixels, PixelBuffer};
use dgf::tiling::Chunk;

fn gradient(width: u32, height: u32) -> PixelBuffer {
    let mut data = Vec::new();
    for y in 0..height {
        for x in 0..width {
            let v = (y * 16 + x) as u8;
            data.extend_from_slice(&[v, 200, 100]);
        }
    }
    PixelBuffer::new(width, height, data).unwrap()
}

#[test]
fn buffer_size_must_match() {
    assert!(PixelBuffer::new(2, 2, vec![0; 12]).is_some());
    assert!(PixelBuffer::new(2, 2, vec![0; 11]).is_none());
    assert!(PixelBuffer::new(0, 5, Vec::new()).is_some());
}

#[test]
fn block_samples_read_red_channel_and_pad_with_zero() {
    let img = gradient(3, 3);
    let s = block_samples(&img, &Chunk { x: 2, y: 1, size: 2 });
    assert_eq!(s, vec![18, 0, 34, 0]);
    let s = block_samples(&img, &Chunk { x: 0, y: 0, size: 2 });
    assert_eq!(s, vec![0, 1, 16, 17]);
}

#[test]
fn block_signals_follow_tiling() {
    let img = gradient(3, 3);
    let signals = block_signals(&img, 2).unwrap();
    assert_eq!(
        signals,
        vec![vec![0, 1, 16, 17], vec![2, 0, 18, 0], vec![32, 33, 0, 0], vec![34, 0, 0, 0]]
    );
    assert_eq!(block_signals(&img, 0).unwrap_err(), DgfError::Configuration);
}

#[test]
fn assemble_places_blocks_and_drops_overhang() {
    let blocks = vec![vec![1, 2, 3, 4], vec![5, 6, 7, 8], vec![9, 10, 11, 12], vec![13, 14, 15, 16]];
    let img = assemble_image(3, 3, 2, &blocks);
    assert_eq!(img.width, 3);
    assert_eq!(img.height, 3);
    let gray: Vec<u8> = img.data.chunks(3).map(|p| {
        assert!(p[0] == p[1] && p[1] == p[2]);
        p[0]
    }).collect();
    assert_eq!(gray, vec![1, 2, 5, 3, 4, 7, 9, 10, 13]);
}

#[test]
fn raw_pixels_check_size() {
    let props = DgfImageProperties { mode: ImageMode::Rgb8, width: 2, height: 1 };
    let p = raw_pixels(&props, vec![1, 2, 3, 4, 5, 6]).unwrap();
    assert_eq!(p.data, vec![1, 2, 3, 4, 5, 6]);
    assert_eq!(raw_pixels(&props, vec![1, 2, 3]).err(), Some(DgfError::Reconstruction));
}

#[test]
fn coefficients_pack_little_endian() {
    assert_eq!(
        pack_coefficients(&vec![0x0403_0201, 0xFF00_0000]),
        vec![1, 2, 3, 4, 0, 0, 0, 0xFF]
    );
    assert!(pack_coefficients(&Vec::new()).is_empty());
}

#[test]
fn coefficients_split_into_groups() {
    let words: Vec<u32> = (1..=6).collect();
    let bytes = pack_coefficients(&words);
    assert_eq!(split_coefficients(&bytes, 3, 2), Ok(vec![vec![1, 2], vec![3, 4], vec![5, 6]]));
    assert_eq!(split_coefficients(&bytes, 2, 2), Ok(vec![vec![1, 2], vec![3, 4]]));
    assert_eq!(split_coefficients(&bytes, 7, 1), Err(DgfError::Truncated));
    assert_eq!(split_coefficients(&bytes, usize::MAX, 2), Err(DgfError::Truncated));
}
