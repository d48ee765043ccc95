use veriphoto::dct::from_entries;
use veriphoto::pipeline::{corrupt_image, recover_image};
use veriphoto::recovery::FallbackSolver;
use veriphoto::RecoveryError;

#[test]
fn corrupt_image_keep_all_is_identity() {
    let buffer: Vec<u8> = (0..128u8).collect();
    let out = corrupt_image(&buffer, 16, 8, 64).unwrap();
    assert_eq!(out, buffer);
}

#[test]
fn corrupt_image_keep_none_zeroes_everything() {
    let buffer: Vec<u8> = (0..128u8).map(|i| i.wrapping_add(1)).collect();
    let out = corrupt_image(&buffer, 16, 8, 0).unwrap();
    assert!(out.iter().all(|&v| v == 0));
    assert_eq!(out.len(), 128);
}

#[test]
fn corrupt_image_samples_are_kept_or_zero() {
    let buffer: Vec<u8> = vec![9; 512 * 512];
    let out = corrupt_image(&buffer, 512, 512, 50).unwrap();
    assert_eq!(out.len(), 512 * 512);
    assert!(out.iter().all(|&v| v == 9 || v == 0));
    // every block keeps exactly its own 50 samples
    for block in out.chunks(64) {
        assert_eq!(block.iter().filter(|&&v| v == 9).count(), 50);
    }
}

#[test]
fn corrupt_image_rejects_bad_dimensions() {
    let buffer: Vec<u8> = vec![0; 100];
    assert_eq!(corrupt_image(&buffer, 16, 8, 10).unwrap_err(), RecoveryError::SizeMismatch);
}

#[test]
fn recover_image_with_everything_known_is_identity() {
    let buffer: Vec<u8> = (0..128u8).collect();
    let basis = from_entries(vec![0; 4096]);
    let mut solver = FallbackSolver;
    let out = recover_image(&buffer, 16, 8, 64, 0, &basis, &mut solver).unwrap();
    assert_eq!(out, buffer);
}

#[test]
fn recover_image_keeps_dimensions() {
    let buffer: Vec<u8> = vec![42; 512 * 512];
    let basis = from_entries(vec![0; 4096]);
    let mut solver = FallbackSolver;
    let out = recover_image(&buffer, 512, 512, 50, 0, &basis, &mut solver).unwrap();
    assert_eq!(out.len(), 512 * 512);
}

#[test]
fn recover_image_rejects_bad_dimensions() {
    let buffer: Vec<u8> = vec![0; 100];
    let basis = from_entries(vec![0; 4096]);
    let mut solver = FallbackSolver;
    let r = recover_image(&buffer, 512, 512, 50, 0, &basis, &mut solver);
    assert_eq!(r.unwrap_err(), RecoveryError::SizeMismatch);
}
