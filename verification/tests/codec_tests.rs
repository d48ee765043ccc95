use veriphoto::codec::{blocks_to_image, to_blocks, PixelBlock};
use veriphoto::RecoveryError;

#[test]
fn round_trip_512() {
    let buffer: Vec<u8> = (0..512usize * 512).map(|i| (i % 256) as u8).collect();
    let blocks = to_blocks(&buffer, 512, 512).unwrap();
    assert_eq!(blocks.len(), 4096);
    for block in &blocks {
        assert_eq!(block.samples.len(), 64);
    }
    let out = blocks_to_image(&blocks);
    assert_eq!(out, buffer);
}

#[test]
fn to_blocks_rejects_wrong_length() {
    let buffer: Vec<u8> = vec![0; 100];
    let r = to_blocks(&buffer, 512, 512);
    assert_eq!(r.unwrap_err(), RecoveryError::SizeMismatch);
}

#[test]
fn to_blocks_rejects_partial_block() {
    let buffer: Vec<u8> = vec![0; 100];
    let r = to_blocks(&buffer, 10, 10);
    assert_eq!(r.unwrap_err(), RecoveryError::SizeMismatch);
}

#[test]
fn to_blocks_chunks_in_raster_order() {
    let buffer: Vec<u8> = (0..128usize).map(|i| i as u8).collect();
    let blocks = to_blocks(&buffer, 16, 8).unwrap();
    assert_eq!(blocks.len(), 2);
    for j in 0..64 {
        assert_eq!(blocks[0].samples[j], j as u8);
        assert_eq!(blocks[1].samples[j], (64 + j) as u8);
    }
}

#[test]
fn blocks_to_image_concatenates() {
    let a = PixelBlock { samples: vec![1; 64] };
    let b = PixelBlock { samples: vec![2; 64] };
    let out = blocks_to_image(&vec![a, b]);
    assert_eq!(out.len(), 128);
    assert!(out[..64].iter().all(|&v| v == 1));
    assert!(out[64..].iter().all(|&v| v == 2));
}
