//! The pixel stream mapper.
//!
//! Walks an image's pixels (or a WAV's samples) in row-major order and
//! applies the per-sample codec. Non-grayscale streams map one pixel to one
//! sample. Grayscale streams use only the red channel of each pixel as an
//! intensity byte and pack two (16-bit) or three (24-bit) consecutive bytes
//! into one sample; decoding writes each recovered byte to all three
//! channels of its pixel. When a canvas is larger than the sample stream,
//! the remaining pixels are filled with a silence sentinel. The mapper also
//! infers square image dimensions from a sample count when no explicit or
//! recorded dimensions are available.

use vstd::arithmetic::div_mod::{lemma_fundamental_div_mod, lemma_mod_pos_bound};
use vstd::prelude::*;

use crate::error::ConvError;
use crate::header::ChunkScan;
use crate::sample::{
    decode16_b_spec, decode16_g_spec, decode16_r_spec, decode24_b_spec, decode24_g_spec,
    decode24_r_spec, decode_sample_16, decode_sample_24, encode16_spec, encode24_spec,
    encode_sample_16, encode_sample_24, lemma_byte_split_24, lemma_pixel24_round_trip,
    sample_in_range,
};

verus! {

/// One RGB pixel, a byte per channel.
#[derive(Clone, Copy, Debug, PartialEq, Eq, Structural)]
pub struct Rgb {
    pub r: u8,
    pub g: u8,
    pub b: u8,
}

/// The two sample widths the codec supports.
pub open spec fn supported_bits(bits: u16) -> bool {
    bits == 16 || bits == 24
}

/// How many grayscale intensity bytes one sample carries.
pub open spec fn gray_group_spec(bits: u16) -> int {
    if bits == 16 {
        2
    } else {
        3
    }
}

/// The pixel written once the sample stream has run out: a single 128 at
/// the byte position that makes the unsigned sample form 0x8000 (16-bit) or
/// 0x800000 (24-bit), the zero-amplitude midpoint.
pub open spec fn sentinel_pixel_spec(bits: u16) -> Rgb {
    if bits == 16 {
        Rgb { r: 0, g: 128, b: 0 }
    } else {
        Rgb { r: 0, g: 0, b: 128 }
    }
}

/// Cyclic permutation of the channel order, as a rotation by `rot` places
/// of the three-byte array; a rotation by 3 is the identity again.
pub open spec fn rotate_pixel_spec(p: Rgb, rot: u8) -> Rgb {
    if rot == 1 {
        Rgb { r: p.g, g: p.b, b: p.r }
    } else if rot == 2 {
        Rgb { r: p.b, g: p.r, b: p.g }
    } else {
        p
    }
}

/// How many samples a pixel stream of length `n` encodes to: one per pixel,
/// or one per full grayscale group; a trailing partial group is dropped.
pub open spec fn encoded_len_spec(n: int, bits: u16, grayscale: bool) -> int {
    if grayscale {
        n / gray_group_spec(bits)
    } else {
        n
    }
}

/// The sample at position `j` of an encoded pixel stream.
pub open spec fn encoded_sample_spec(pixels: Seq<Rgb>, bits: u16, grayscale: bool, j: int) -> int {
    if grayscale {
        if bits == 16 {
            encode16_spec(pixels[2 * j].r, pixels[2 * j + 1].r, 0)
        } else {
            encode24_spec(pixels[3 * j].r, pixels[3 * j + 1].r, pixels[3 * j + 2].r)
        }
    } else {
        if bits == 16 {
            encode16_spec(pixels[j].r, pixels[j].g, pixels[j].b)
        } else {
            encode24_spec(pixels[j].r, pixels[j].g, pixels[j].b)
        }
    }
}

/// The shift from a signed sample onto its unsigned little-endian form.
pub open spec fn sample_offset_spec(bits: u16) -> int {
    if bits == 16 {
        32768
    } else {
        8388608
    }
}

/// Byte `k` (little-endian) of the unsigned form of sample `s`.
pub open spec fn gray_byte_spec(s: int, bits: u16, k: int) -> int {
    let u = s + sample_offset_spec(bits);
    if k == 0 {
        u % 256
    } else if k == 1 {
        (u / 256) % 256
    } else {
        u / 65536
    }
}

/// The pixel at position `i` of a decoded sample stream: the decoded
/// channel triple (rotated) or grayscale byte while samples remain, the
/// silence sentinel afterwards.
pub open spec fn decoded_pixel_spec(
    samples: Seq<i32>,
    bits: u16,
    grayscale: bool,
    rot: u8,
    i: int,
) -> Rgb {
    if grayscale {
        let grp = gray_group_spec(bits);
        if i / grp < samples.len() {
            let v = gray_byte_spec(samples[i / grp] as int, bits, i % grp);
            Rgb { r: v as u8, g: v as u8, b: v as u8 }
        } else {
            sentinel_pixel_spec(bits)
        }
    } else {
        if i < samples.len() {
            let s = samples[i] as int;
            if bits == 16 {
                rotate_pixel_spec(
                    Rgb {
                        r: decode16_r_spec(s) as u8,
                        g: decode16_g_spec(s) as u8,
                        b: decode16_b_spec(s) as u8,
                    },
                    rot,
                )
            } else {
                rotate_pixel_spec(
                    Rgb {
                        r: decode24_r_spec(s) as u8,
                        g: decode24_g_spec(s) as u8,
                        b: decode24_b_spec(s) as u8,
                    },
                    rot,
                )
            }
        } else {
            sentinel_pixel_spec(bits)
        }
    }
}

/// Permute a pixel's channel order cyclically by `rot` places.
pub fn rotate_pixel(p: Rgb, rot: u8) -> (q: Rgb)
    requires
        rot <= 3,
    ensures
        q == rotate_pixel_spec(p, rot),
{
    if rot == 1 {
        Rgb { r: p.g, g: p.b, b: p.r }
    } else if rot == 2 {
        Rgb { r: p.b, g: p.r, b: p.g }
    } else {
        p
    }
}

/// Whether `s` is representable at the given bit depth.
pub fn check_sample(s: i32, bits: u16) -> (ok: bool)
    ensures
        ok == sample_in_range(s as int, bits),
{
    if bits == 16 {
        -32768 <= s && s <= 32767
    } else {
        -8388608 <= s && s <= 8388607
    }
}

/// Encode a pixel stream (row-major) into a PCM sample stream at the given
/// bit depth, grouping red-channel bytes two or three at a time in
/// grayscale mode. Fails exactly on an unsupported bit depth.
pub fn pixels_to_samples(pixels: &Vec<Rgb>, bits: u16, grayscale: bool) -> (r: Result<
    Vec<i32>,
    ConvError,
>)
    ensures
        r.is_ok() <==> supported_bits(bits),
        r matches Ok(samples) ==> {
            &&& samples@.len() == encoded_len_spec(pixels@.len() as int, bits, grayscale)
            &&& forall|j: int|
                0 <= j < samples@.len() ==> samples@[j] as int == encoded_sample_spec(
                    pixels@,
                    bits,
                    grayscale,
                    j,
                )
            &&& forall|j: int|
                0 <= j < samples@.len() ==> sample_in_range(samples@[j] as int, bits)
        },
        r matches Err(e) ==> e == ConvError::UnsupportedBitDepth,
{
    if bits != 16 && bits != 24 {
        return Err(ConvError::UnsupportedBitDepth);
    }
    let n: usize = pixels.len();
    let mut samples: Vec<i32> = Vec::new();
    if grayscale {
        let grp: usize = if bits == 16 {
            2
        } else {
            3
        };
        let groups: usize = n / grp;
        let mut j: usize = 0;
        while j < groups
            invariant
                supported_bits(bits),
                grp == gray_group_spec(bits),
                n == pixels@.len(),
                groups == n as int / grp as int,
                j <= groups,
                samples@.len() == j,
                forall|t: int|
                    0 <= t < j ==> samples@[t] as int == encoded_sample_spec(
                        pixels@,
                        bits,
                        true,
                        t,
                    ),
                forall|t: int| 0 <= t < j ==> sample_in_range(samples@[t] as int, bits),
            decreases groups - j,
        {
            proof {
                lemma_fundamental_div_mod(n as int, grp as int);
                lemma_mod_pos_bound(n as int, grp as int);
            }
            let base: usize = grp * j;
            let s: i32 = if bits == 16 {
                encode_sample_16(pixels[base].r, pixels[base + 1].r, 0)
            } else {
                encode_sample_24(pixels[base].r, pixels[base + 1].r, pixels[base + 2].r)
            };
            samples.push(s);
            j = j + 1;
        }
        Ok(samples)
    } else {
        let mut i: usize = 0;
        while i < n
            invariant
                supported_bits(bits),
                n == pixels@.len(),
                i <= n,
                samples@.len() == i,
                forall|t: int|
                    0 <= t < i ==> samples@[t] as int == encoded_sample_spec(
                        pixels@,
                        bits,
                        false,
                        t,
                    ),
                forall|t: int| 0 <= t < i ==> sample_in_range(samples@[t] as int, bits),
            decreases n - i,
        {
            let p = pixels[i];
            let s: i32 = if bits == 16 {
                encode_sample_16(p.r, p.g, p.b)
            } else {
                encode_sample_24(p.r, p.g, p.b)
            };
            samples.push(s);
            i = i + 1;
        }
        Ok(samples)
    }
}

/// Decode a PCM sample stream onto a `width` by `height` canvas in
/// row-major order, rotating non-grayscale channels by `rotate` and filling
/// pixels past the end of the stream with the silence sentinel. Fails
/// exactly on an unsupported bit depth, a canvas smaller than the sample
/// count, or a sample outside the signed range of the bit depth.
pub fn samples_to_pixels(
    samples: &Vec<i32>,
    width: u32,
    height: u32,
    bits: u16,
    grayscale: bool,
    rotate: u8,
) -> (r: Result<Vec<Rgb>, ConvError>)
    requires
        rotate <= 3,
        width * height <= u32::MAX,
    ensures
        r.is_ok() <==> supported_bits(bits) && width * height >= samples@.len() && (forall|j: int|
            0 <= j < samples@.len() ==> sample_in_range(samples@[j] as int, bits)),
        r matches Ok(pixels) ==> {
            &&& pixels@.len() == width * height
            &&& forall|i: int|
                0 <= i < pixels@.len() ==> pixels@[i] == decoded_pixel_spec(
                    samples@,
                    bits,
                    grayscale,
                    rotate,
                    i,
                )
        },
        !supported_bits(bits) ==> (r matches Err(e) && e == ConvError::UnsupportedBitDepth),
        supported_bits(bits) && width * height < samples@.len() ==> (r matches Err(e) && e
            == ConvError::InsufficientCanvas),
        supported_bits(bits) && width * height >= samples@.len() && !(forall|j: int|
            0 <= j < samples@.len() ==> sample_in_range(samples@[j] as int, bits)) ==> (
        r matches Err(e) && e == ConvError::MalformedChunk),
{
    if bits != 16 && bits != 24 {
        return Err(ConvError::UnsupportedBitDepth);
    }
    let total64: u64 = (width as u64) * (height as u64);
    if total64 < samples.len() as u64 {
        return Err(ConvError::InsufficientCanvas);
    }
    let mut idx: usize = 0;
    while idx < samples.len()
        invariant
            supported_bits(bits),
            width * height >= samples@.len(),
            idx <= samples@.len(),
            forall|k: int| 0 <= k < idx ==> sample_in_range(samples@[k] as int, bits),
        decreases samples@.len() - idx,
    {
        if !check_sample(samples[idx], bits) {
            return Err(ConvError::MalformedChunk);
        }
        idx = idx + 1;
    }
    let total: usize = total64 as usize;
    let mut pixels: Vec<Rgb> = Vec::new();
    if grayscale {
        let grp: usize = if bits == 16 {
            2
        } else {
            3
        };
        let mut i: usize = 0;
        while i < total
            invariant
                supported_bits(bits),
                grp == gray_group_spec(bits),
                i <= total,
                pixels@.len() == i,
                forall|k: int| 0 <= k < samples@.len() ==> sample_in_range(samples@[k] as int, bits),
                forall|t: int|
                    0 <= t < i ==> pixels@[t] == decoded_pixel_spec(samples@, bits, true, rotate, t),
            decreases total - i,
        {
            let j: usize = i / grp;
            let k: usize = i % grp;
            let px: Rgb;
            if j < samples.len() {
                let u: u32 = if bits == 16 {
                    (samples[j] + 32768) as u32
                } else {
                    (samples[j] + 8388608) as u32
                };
                proof {
                    lemma_byte_split_24(u as int);
                }
                let v: u8 = if k == 0 {
                    (u % 256) as u8
                } else if k == 1 {
                    ((u / 256) % 256) as u8
                } else {
                    (u / 65536) as u8
                };
                px = Rgb { r: v, g: v, b: v };
            } else {
                px = if bits == 16 {
                    Rgb { r: 0, g: 128, b: 0 }
                } else {
                    Rgb { r: 0, g: 0, b: 128 }
                };
            }
            pixels.push(px);
            i = i + 1;
        }
        Ok(pixels)
    } else {
        let mut i: usize = 0;
        while i < total
            invariant
                supported_bits(bits),
                rotate <= 3,
                i <= total,
                pixels@.len() == i,
                forall|k: int| 0 <= k < samples@.len() ==> sample_in_range(samples@[k] as int, bits),
                forall|t: int|
                    0 <= t < i ==> pixels@[t] == decoded_pixel_spec(
                        samples@,
                        bits,
                        false,
                        rotate,
                        t,
                    ),
            decreases total - i,
        {
            let px: Rgb;
            if i < samples.len() {
                let decoded = if bits == 16 {
                    decode_sample_16(samples[i])
                } else {
                    decode_sample_24(samples[i])
                };
                match decoded {
                    Ok(t) => {
                        px = rotate_pixel(Rgb { r: t.0, g: t.1, b: t.2 }, rotate);
                    },
                    Err(_) => {
                        // unreachable: every sample was range-checked above
                        return Err(ConvError::MalformedChunk);
                    },
                }
            } else {
                px = if bits == 16 {
                    Rgb { r: 0, g: 128, b: 0 }
                } else {
                    Rgb { r: 0, g: 0, b: 128 }
                };
            }
            pixels.push(px);
            i = i + 1;
        }
        Ok(pixels)
    }
}

/// The number of canvas units a sample stream needs: one per sample, times
/// three in grayscale mode (three intensity bytes per sample), times the
/// audio channel count.
pub open spec fn stream_units_spec(sample_count: int, grayscale: bool, channels: u16) -> int {
    sample_count * (if grayscale {
        3int
    } else {
        1int
    }) * channels
}

/// The smallest side of a square canvas with at least `n` cells.
pub fn ceil_sqrt(n: u64) -> (s: u64)
    requires
        n <= 0xFFFF_FFFF,
    ensures
        s * s >= n,
        s > 0 ==> (s - 1) * (s - 1) < n,
        s <= 0x10000,
{
    let mut lo: u64 = 0;
    let mut hi: u64 = 0x10000;
    while lo < hi
        invariant
            lo <= hi <= 0x10000,
            hi * hi >= n,
            lo > 0 ==> (lo - 1) * (lo - 1) < n,
        decreases hi - lo,
    {
        let mid: u64 = lo + (hi - lo) / 2;
        proof {
            assert(mid * mid <= 0x10000 * 0x10000) by (nonlinear_arith)
                requires
                    mid <= 0x10000,
            ;
        }
        if mid * mid >= n {
            hi = mid;
        } else {
            lo = mid + 1;
        }
    }
    lo
}

/// Infer square image dimensions from a sample count, as the side of the
/// smallest square canvas that holds every stream unit.
pub fn infer_dimensions(sample_count: u64, grayscale: bool, channels: u16) -> (d: (u32, u32))
    requires
        channels >= 1,
        stream_units_spec(sample_count as int, grayscale, channels) <= 0xFFFF_FFFF,
    ensures
        d.0 == d.1,
        (d.0 as int) * (d.0 as int) >= stream_units_spec(sample_count as int, grayscale, channels),
        d.0 > 0 ==> (d.0 - 1) * (d.0 - 1) < stream_units_spec(
            sample_count as int,
            grayscale,
            channels,
        ),
{
    let factor: u64 = if grayscale {
        3
    } else {
        1
    };
    proof {
        assert(sample_count * factor * (channels as u64) <= 0xFFFF_FFFF && sample_count * factor
            <= 0xFFFF_FFFF) by (nonlinear_arith)
            requires
                channels >= 1,
                factor >= 1,
                sample_count * factor * (channels as int) == stream_units_spec(
                    sample_count as int,
                    grayscale,
                    channels,
                ),
                stream_units_spec(sample_count as int, grayscale, channels) <= 0xFFFF_FFFF,
        ;
    }
    let units: u64 = sample_count * factor * (channels as u64);
    let side: u64 = ceil_sqrt(units);
    (side as u32, side as u32)
}

/// Pick the image dimensions for a decode: the recorded dimensions of the
/// private chunk when it is present, else explicitly requested dimensions,
/// else square dimensions inferred from the sample count.
pub fn choose_dimensions(
    scan: &ChunkScan,
    explicit: Option<(u32, u32)>,
    sample_count: u64,
    grayscale: bool,
    channels: u16,
) -> (d: (u32, u32))
    requires
        channels >= 1,
        stream_units_spec(sample_count as int, grayscale, channels) <= 0xFFFF_FFFF,
    ensures
        scan matches ChunkScan::Found { width, height } ==> d.0 == width && d.1 == height,
        !(scan is Found) && explicit is Some ==> d == explicit->0,
        !(scan is Found) && explicit is None ==> {
            &&& d.0 == d.1
            &&& (d.0 as int) * (d.0 as int) >= stream_units_spec(
                sample_count as int,
                grayscale,
                channels,
            )
            &&& d.0 > 0 ==> (d.0 - 1) * (d.0 - 1) < stream_units_spec(
                sample_count as int,
                grayscale,
                channels,
            )
        },
{
    match scan {
        ChunkScan::Found { width, height } => (*width, *height),
        _ => match explicit {
            Some(e) => e,
            None => infer_dimensions(sample_count, grayscale, channels),
        },
    }
}

/// Round trip: encoding a pixel stream at 24 bits without grayscale, then
/// decoding the samples without rotation, reproduces every pixel exactly.
pub proof fn lemma_stream_round_trip_24(pixels: Seq<Rgb>, samples: Seq<i32>)
    requires
        samples.len() == pixels.len(),
        forall|j: int|
            0 <= j < samples.len() ==> samples[j] as int == encoded_sample_spec(
                pixels,
                24,
                false,
                j,
            ),
    ensures
        forall|i: int| 0 <= i < pixels.len() ==> decoded_pixel_spec(samples, 24, false, 0, i)
            == pixels[i],
{
    assert forall|i: int|
        0 <= i < pixels.len() implies decoded_pixel_spec(samples, 24, false, 0, i)
        == pixels[i] by {
        lemma_pixel24_round_trip(pixels[i].r, pixels[i].g, pixels[i].b);
    }
}

/// Re-encoding the 24-bit silence sentinel yields exactly the
/// zero-amplitude sample.
pub proof fn lemma_sentinel_silence_24()
    ensures
        encode24_spec(
            sentinel_pixel_spec(24).r,
            sentinel_pixel_spec(24).g,
            sentinel_pixel_spec(24).b,
        ) == 0,
{
}

} // verus!
