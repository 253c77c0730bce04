use dgf::error::DgfError;
use dgf::tiling::{get_image_chunks, Chunk};

#[test]
fn partial_last_column() {
    let chunks = get_image_chunks(10, 4, 4).unwrap();
    let xs: Vec<u32> = chunks.iter().map(|c| c.x).collect();
    assert_eq!(xs, vec![0, 4, 8]);
    assert!(chunks.iter().all(|c| c.y == 0 && c.size == 4));
}

#[test]
fn row_major_order() {
    let chunks = get_image_chunks(5, 5, 2).unwrap();
    let origins: Vec<(u32, u32)> = chunks.iter().map(|c| (c.x, c.y)).collect();
    assert_eq!(
        origins,
        vec![(0, 0), (2, 0), (4, 0), (0, 2), (2, 2), (4, 2), (0, 4), (2, 4), (4, 4)]
    );
}

#[test]
fn every_pixel_in_exactly_one_block() {
    for &(w, h, s) in &[(10u32, 7u32, 4u32), (16, 16, 8), (1, 1, 3), (9, 2, 1), (13, 5, 13)] {
        let chunks = get_image_chunks(w, h, s).unwrap();
        for py in 0..h {
            for px in 0..w {
                let n = chunks
                    .iter()
                    .filter(|c| c.x <= px && px < c.x + c.size && c.y <= py && py < c.y + c.size)
                    .count();
                assert_eq!(n, 1, "pixel ({}, {}) of {}x{} / {}", px, py, w, h, s);
            }
        }
    }
}

#[test]
fn zero_block_size_is_refused() {
    assert_eq!(get_image_chunks(10, 10, 0).unwrap_err(), DgfError::Configuration);
}

#[test]
fn empty_image_has_no_blocks() {
    assert!(get_image_chunks(0, 10, 4).unwrap().is_empty());
    assert!(get_image_chunks(10, 0, 4).unwrap().is_empty());
}

#[test]
fn chunk_extent() {
    let c = Chunk { x: 8, y: 4, size: 4 };
    assert_eq!(c.end_x(), 12);
    assert_eq!(c.end_y(), 8);
    assert_eq!(c.range_x(), 8..12);
    assert_eq!(c.range_y(), 4..8);
    assert_eq!(c.pixels(), 16);
}
