use veriphoto::image::{Image, PixelFormat};
use veriphoto::transformations::{crop, grayscale, transpose, Transformation};

#[test]
fn test_grayscale() {
    let buffer: Vec<u8> = vec![255, 255, 255, 0, 0, 0, 10, 200, 30];
    let image = Image::raw_image(buffer, 3, 1, PixelFormat::RGB);
    let (new_buff, format) = grayscale(&image.buffer, image.color_type);
    let new_image = Image::raw_image(new_buff, image.width, image.height, format);
    assert_eq!(new_image.color_type, PixelFormat::Grayscale);
    assert_eq!(new_image.buffer, vec![255, 0, 0]);
}

#[test]
fn test_crop() {
    let buffer: Vec<u8> = (0..26400usize).map(|i| (i % 251) as u8).collect();
    let image = Image::raw_image(buffer, 120, 220, PixelFormat::Grayscale);
    let new_buff = crop(&image.buffer, image.color_type, 20, 120, 120, 220);
    let new_image = Image::raw_image(new_buff, 100, 100, image.color_type);
    assert_eq!(new_image.buffer.len(), 100 * 100);
    // source pixel of window position (y, x) sits at y * x1 + x, with the
    // crop's right edge serving as the stride
    assert_eq!(new_image.buffer[0], image.buffer[120 * 120 + 20]);
    assert_eq!(new_image.buffer[9999], image.buffer[219 * 120 + 119]);
    assert_eq!(new_image.buffer[100], image.buffer[121 * 120 + 20]);
}

#[test]
fn test_transpose() {
    let buffer: Vec<u8> = (0..60u8).collect();
    let image = Image::raw_image(buffer.clone(), 10, 6, PixelFormat::Grayscale);
    let new_buff = transpose(&image.buffer);
    let new_image = Image::raw_image(new_buff, image.height, image.width, image.color_type);
    assert_eq!(new_image.buffer, buffer);
    assert_eq!(new_image.width, 6);
    assert_eq!(new_image.height, 10);
}

#[test]
fn grayscale_thresholds_at_mid_intensity() {
    let buffer: Vec<u8> = vec![128, 128, 128, 127, 127, 127];
    let (out, format) = grayscale(&buffer, PixelFormat::RGB);
    assert_eq!(format, PixelFormat::Grayscale);
    assert_eq!(out, vec![255, 0]);
}

#[test]
fn grayscale_rgba_preserves_alpha() {
    let buffer: Vec<u8> = vec![255, 255, 255, 42, 0, 0, 0, 7];
    let (out, format) = grayscale(&buffer, PixelFormat::RGBA);
    assert_eq!(format, PixelFormat::GrayscaleA);
    assert_eq!(out, vec![255, 42, 0, 7]);
}

#[test]
fn grayscale_copies_grayscale_formats() {
    let buffer: Vec<u8> = vec![5, 6, 7];
    let (out, format) = grayscale(&buffer, PixelFormat::Grayscale);
    assert_eq!(format, PixelFormat::Grayscale);
    assert_eq!(out, buffer);
    let buffer2: Vec<u8> = vec![5, 6, 7, 8];
    let (out2, format2) = grayscale(&buffer2, PixelFormat::GrayscaleA);
    assert_eq!(format2, PixelFormat::GrayscaleA);
    assert_eq!(out2, buffer2);
}

#[test]
fn grayscale_ycbcr_keeps_luminance() {
    let buffer: Vec<u8> = vec![10, 1, 2, 20, 3, 4, 30];
    let (out, format) = grayscale(&buffer, PixelFormat::YCbCr);
    assert_eq!(format, PixelFormat::Grayscale);
    assert_eq!(out, vec![10, 20, 30]);
}

#[test]
fn apply_transformation_grayscale() {
    let buffer: Vec<u8> = vec![255, 255, 255, 0, 0, 0];
    let image = Image::raw_image(buffer, 2, 1, PixelFormat::RGB);
    let out = image.apply_transformation(Transformation::Grayscale);
    assert_eq!(out.color_type, PixelFormat::Grayscale);
    assert_eq!(out.buffer, vec![255, 0]);
    assert_eq!(out.width, 2);
    assert_eq!(out.height, 1);
}

#[test]
fn apply_transformation_crop_sets_window_dimensions() {
    let buffer: Vec<u8> = (0..200u8).collect();
    let image = Image::raw_image(buffer, 20, 10, PixelFormat::Grayscale);
    let out = image.apply_transformation(Transformation::Crop(2, 3, 10, 10));
    assert_eq!(out.width, 8);
    assert_eq!(out.height, 7);
    assert_eq!(out.buffer.len(), 56);
    assert_eq!(out.buffer[0], image.buffer[3 * 10 + 2]);
}

#[test]
fn apply_transformation_transpose_swaps_dimensions() {
    let buffer: Vec<u8> = (0..24u8).collect();
    let image = Image::raw_image(buffer.clone(), 6, 4, PixelFormat::Grayscale);
    let out = image.apply_transformation(Transformation::Transpose);
    assert_eq!(out.width, 4);
    assert_eq!(out.height, 6);
    assert_eq!(out.buffer, buffer);
}

#[test]
fn apply_transformation_drops_provenance() {
    let mut image = Image::raw_image((0..24u8).collect(), 6, 4, PixelFormat::Grayscale);
    image.prev_proof = Some(String::from("proof-of-an-earlier-run"));
    let transposed = image.apply_transformation(Transformation::Transpose);
    assert!(transposed.prev_proof.is_none());
    let cropped = image.apply_transformation(Transformation::Crop(0, 0, 2, 2));
    assert!(cropped.prev_proof.is_none());
    let gray = image.apply_transformation(Transformation::Grayscale);
    assert!(gray.prev_proof.is_none());
    // the source image itself still carries its string
    assert!(image.prev_proof.is_some());
}

#[test]
fn raw_image_has_no_provenance() {
    let image = Image::raw_image(vec![1, 2, 3], 3, 1, PixelFormat::Grayscale);
    assert!(image.prev_proof.is_none());
    assert_eq!(image.buffer, vec![1, 2, 3]);
}
