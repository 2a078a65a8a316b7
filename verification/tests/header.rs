use img2wav::error::ConvError;
use img2wav::header::{patch_header, read_header, read_le32, ChunkScan};
use img2wav::mapper::{choose_dimensions, pixels_to_samples, samples_to_pixels, Rgb};

/// A canonical WAV layout: 12 RIFF bytes, a 48-byte format chunk region
/// ending at 0x3C, then the data chunk tag, its size, and `payload`.
fn canonical_wav(riff_size: u32, payload: &[u8]) -> Vec<u8> {
    let mut wav = Vec::new();
    wav.extend_from_slice(b"RIFF");
    wav.extend_from_slice(&riff_size.to_le_bytes());
    wav.extend_from_slice(b"WAVE");
    wav.extend_from_slice(b"fmt ");
    wav.extend_from_slice(&40u32.to_le_bytes());
    while wav.len() < 0x3C {
        wav.push(0xAB);
    }
    wav.extend_from_slice(b"data");
    wav.extend_from_slice(&(payload.len() as u32).to_le_bytes());
    wav.extend_from_slice(payload);
    wav
}

#[test]
fn read_le32_is_little_endian() {
    let wav = vec![0x78, 0x56, 0x34, 0x12, 0xFF, 0xFF, 0xFF, 0xFF];
    assert_eq!(read_le32(&wav, 0), 0x12345678);
    assert_eq!(read_le32(&wav, 4), 0xFFFF_FFFF);
}

#[test]
fn patch_inserts_chunk_and_grows_riff_size() {
    let payload = [1u8, 2, 3, 4, 5, 6, 7, 8];
    let original = canonical_wav(100, &payload);
    let mut wav = original.clone();
    patch_header(&mut wav, 2, 2);
    assert_eq!(wav.len(), original.len() + 16);
    // RIFF tag kept, size field grown by 16
    assert_eq!(&wav[0..4], b"RIFF");
    assert_eq!(read_le32(&wav, 4), 116);
    // bytes between the size field and the splice point kept
    assert_eq!(&wav[8..0x3C], &original[8..0x3C]);
    // the 16-byte chunk sits at 0x3C: tag, length 8, width, height
    assert_eq!(&wav[0x3C..0x40], b"i2w ");
    assert_eq!(read_le32(&wav, 0x40), 8);
    assert_eq!(read_le32(&wav, 0x44), 2);
    assert_eq!(read_le32(&wav, 0x48), 2);
    // the data chunk and its payload are byte-identical, only relocated
    assert_eq!(&wav[0x4C..], &original[0x3C..]);
}

#[test]
fn reader_finds_patched_chunk() {
    let mut wav = canonical_wav(52, &[0u8; 12]);
    patch_header(&mut wav, 10, 20);
    assert_eq!(read_header(&wav), Ok(ChunkScan::Found { width: 10, height: 20 }));
}

#[test]
fn reader_reports_no_chunk_on_data_tag() {
    let wav = canonical_wav(52, &[0u8; 12]);
    assert_eq!(read_header(&wav), Ok(ChunkScan::NoChunk));
}

#[test]
fn reader_degrades_on_unknown_tag() {
    let mut wav = canonical_wav(52, &[0u8; 12]);
    wav[0x3C..0x40].copy_from_slice(b"LIST");
    assert_eq!(read_header(&wav), Ok(ChunkScan::Unrecognized));
}

#[test]
fn reader_rejects_chunk_with_wrong_length() {
    let mut wav = canonical_wav(52, &[0u8; 12]);
    patch_header(&mut wav, 10, 20);
    wav[0x40] = 9;
    assert_eq!(read_header(&wav), Err(ConvError::MalformedChunk));
}

#[test]
fn full_round_trip_via_chunk() {
    // encode a 2x2 image, store its samples behind a patched header, then
    // decode using the dimensions the reader recovers
    let pixels = vec![
        Rgb { r: 255, g: 0, b: 0 },
        Rgb { r: 0, g: 255, b: 0 },
        Rgb { r: 0, g: 0, b: 255 },
        Rgb { r: 128, g: 128, b: 128 },
    ];
    let samples = pixels_to_samples(&pixels, 24, false).unwrap();
    let mut payload = Vec::new();
    for s in &samples {
        payload.extend_from_slice(&s.to_le_bytes()[0..3]);
    }
    let mut wav = canonical_wav(36 + payload.len() as u32, &payload);
    patch_header(&mut wav, 2, 2);

    let scan = read_header(&wav).unwrap();
    let (w, h) = choose_dimensions(&scan, None, samples.len() as u64, false, 1);
    assert_eq!((w, h), (2, 2));
    let back = samples_to_pixels(&samples, w, h, 24, false, 0).unwrap();
    assert_eq!(back, pixels);
}
