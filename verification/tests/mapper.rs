use img2wav::error::ConvError;
use img2wav::header::ChunkScan;
use img2wav::mapper::{
    ceil_sqrt, choose_dimensions, infer_dimensions, pixels_to_samples, rotate_pixel,
    samples_to_pixels, Rgb,
};
use img2wav::sample::encode_sample_24;

fn px(r: u8, g: u8, b: u8) -> Rgb {
    Rgb { r, g, b }
}

#[test]
fn encode_2x2_24bit_known_samples() {
    let pixels = vec![px(255, 0, 0), px(0, 255, 0), px(0, 0, 255), px(128, 128, 128)];
    let samples = pixels_to_samples(&pixels, 24, false).unwrap();
    assert_eq!(
        samples,
        vec![
            255 - 8388608,
            255 * 256 - 8388608,
            255 * 65536 - 8388608,
            128 + 128 * 256 + 128 * 65536 - 8388608,
        ]
    );
}

#[test]
fn round_trip_2x2_24bit() {
    let pixels = vec![px(255, 0, 0), px(0, 255, 0), px(0, 0, 255), px(128, 128, 128)];
    let samples = pixels_to_samples(&pixels, 24, false).unwrap();
    let back = samples_to_pixels(&samples, 2, 2, 24, false, 0).unwrap();
    assert_eq!(back, pixels);
}

#[test]
fn padding_sentinel_24bit() {
    let samples = vec![encode_sample_24(9, 8, 7), encode_sample_24(1, 2, 3)];
    let pixels = samples_to_pixels(&samples, 2, 2, 24, false, 0).unwrap();
    assert_eq!(pixels[0], px(9, 8, 7));
    assert_eq!(pixels[1], px(1, 2, 3));
    assert_eq!(pixels[2], px(0, 0, 128));
    assert_eq!(pixels[3], px(0, 0, 128));
    // the sentinel re-encodes to the zero-amplitude sample
    assert_eq!(encode_sample_24(0, 0, 128), 0);
}

#[test]
fn padding_sentinel_16bit() {
    let pixels = samples_to_pixels(&vec![-32768], 2, 2, 16, false, 0).unwrap();
    assert_eq!(pixels[0], px(0, 0, 0));
    assert_eq!(pixels[1], px(0, 128, 0));
    assert_eq!(pixels[2], px(0, 128, 0));
    assert_eq!(pixels[3], px(0, 128, 0));
}

#[test]
fn grayscale_24bit_round_trip() {
    let v = [10u8, 20, 30, 40, 50, 60];
    let pixels: Vec<Rgb> = v.iter().map(|&x| px(x, x, x)).collect();
    let samples = pixels_to_samples(&pixels, 24, true).unwrap();
    assert_eq!(samples.len(), 2);
    assert_eq!(samples[0], encode_sample_24(10, 20, 30));
    assert_eq!(samples[1], encode_sample_24(40, 50, 60));
    let back = samples_to_pixels(&samples, 3, 2, 24, true, 0).unwrap();
    assert_eq!(back, pixels);
}

#[test]
fn grayscale_drops_partial_group() {
    let pixels = vec![px(1, 1, 1), px(2, 2, 2), px(3, 3, 3), px(4, 4, 4)];
    let samples = pixels_to_samples(&pixels, 24, true).unwrap();
    assert_eq!(samples, vec![encode_sample_24(1, 2, 3)]);
}

#[test]
fn grayscale_16bit_bytes() {
    // intensities 16 and 8 pack as RGB565 of (16, 8, 0): u = 2*2048 + 2*32 = 4160
    let pixels = vec![px(16, 0, 0), px(8, 0, 0)];
    let samples = pixels_to_samples(&pixels, 16, true).unwrap();
    assert_eq!(samples, vec![4160 - 32768]);
    // the little-endian bytes of 4160 are (64, 16)
    let back = samples_to_pixels(&samples, 2, 1, 16, true, 0).unwrap();
    assert_eq!(back, vec![px(64, 64, 64), px(16, 16, 16)]);
}

#[test]
fn rotation_permutes_channels() {
    assert_eq!(rotate_pixel(px(1, 2, 3), 0), px(1, 2, 3));
    assert_eq!(rotate_pixel(px(1, 2, 3), 1), px(2, 3, 1));
    assert_eq!(rotate_pixel(px(1, 2, 3), 2), px(3, 1, 2));
    assert_eq!(rotate_pixel(px(1, 2, 3), 3), px(1, 2, 3));
    let samples = vec![encode_sample_24(1, 2, 3)];
    let rotated = samples_to_pixels(&samples, 1, 1, 24, false, 1).unwrap();
    assert_eq!(rotated, vec![px(2, 3, 1)]);
}

#[test]
fn unsupported_bit_depth_is_rejected() {
    let pixels = vec![px(1, 2, 3)];
    assert_eq!(pixels_to_samples(&pixels, 8, false), Err(ConvError::UnsupportedBitDepth));
    assert_eq!(pixels_to_samples(&pixels, 32, true), Err(ConvError::UnsupportedBitDepth));
    assert_eq!(samples_to_pixels(&vec![0], 1, 1, 8, false, 0), Err(ConvError::UnsupportedBitDepth));
}

#[test]
fn insufficient_canvas_is_rejected() {
    let samples = vec![0, 0, 0, 0, 0];
    assert_eq!(samples_to_pixels(&samples, 2, 2, 24, false, 0), Err(ConvError::InsufficientCanvas));
}

#[test]
fn out_of_range_sample_is_rejected() {
    assert_eq!(
        samples_to_pixels(&vec![8388608], 1, 1, 24, false, 0),
        Err(ConvError::MalformedChunk)
    );
    assert_eq!(samples_to_pixels(&vec![32768], 1, 1, 16, false, 0), Err(ConvError::MalformedChunk));
}

#[test]
fn ceil_sqrt_values() {
    assert_eq!(ceil_sqrt(0), 0);
    assert_eq!(ceil_sqrt(1), 1);
    assert_eq!(ceil_sqrt(2), 2);
    assert_eq!(ceil_sqrt(9), 3);
    assert_eq!(ceil_sqrt(10), 4);
    assert_eq!(ceil_sqrt(0xFFFF_FFFF), 65536);
}

#[test]
fn inferred_dimensions_are_square_and_minimal() {
    assert_eq!(infer_dimensions(10, false, 1), (4, 4));
    assert_eq!(infer_dimensions(9, false, 1), (3, 3));
    // grayscale triples the unit count: 2 samples -> 6 units -> side 3
    assert_eq!(infer_dimensions(2, true, 1), (3, 3));
    // stereo doubles it: 10 samples, 2 channels -> 20 units -> side 5
    assert_eq!(infer_dimensions(10, false, 2), (5, 5));
    assert_eq!(infer_dimensions(0, false, 1), (0, 0));
}

#[test]
fn chunk_dimensions_take_precedence() {
    // inference from 16 samples would give 4x4, the explicit request 7x9;
    // the recorded chunk must win over both
    let scan = ChunkScan::Found { width: 10, height: 20 };
    assert_eq!(choose_dimensions(&scan, Some((7, 9)), 16, false, 1), (10, 20));
    assert_eq!(choose_dimensions(&scan, None, 16, false, 1), (10, 20));
    assert_eq!(choose_dimensions(&ChunkScan::NoChunk, Some((7, 9)), 16, false, 1), (7, 9));
    assert_eq!(choose_dimensions(&ChunkScan::NoChunk, None, 16, false, 1), (4, 4));
    assert_eq!(choose_dimensions(&ChunkScan::Unrecognized, None, 16, false, 1), (4, 4));
}
