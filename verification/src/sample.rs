//! The per-sample codec.
//!
//! A PCM sample is a signed 16- or 24-bit value; a pixel channel is an
//! unsigned byte. The 24-bit codec maps the three channel bytes, read as a
//! little-endian unsigned value, onto the signed range by adding the minimum
//! representable sample; it is a bijection. The 16-bit codec first packs the
//! channels as RGB565 (5 bits red, 6 green, 5 blue) and is lossy by
//! construction: the discarded low bits are zero-filled on decode.

use vstd::arithmetic::div_mod::{
    lemma_fundamental_div_mod, lemma_fundamental_div_mod_converse, lemma_mod_pos_bound,
};
use vstd::prelude::*;

use crate::error::ConvError;

verus! {

/// Minimum signed 24-bit sample value.
pub const SAMPLE_MIN_24: i32 = -8388608;

/// Maximum signed 24-bit sample value.
pub const SAMPLE_MAX_24: i32 = 8388607;

/// Minimum signed 16-bit sample value.
pub const SAMPLE_MIN_16: i32 = -32768;

/// Maximum signed 16-bit sample value.
pub const SAMPLE_MAX_16: i32 = 32767;

/// The 24-bit sample a channel triple encodes to: the little-endian unsigned
/// value of the three bytes, shifted onto the signed range.
pub open spec fn encode24_spec(r: u8, g: u8, b: u8) -> int {
    r + 256 * g + 65536 * b - 8388608
}

/// Red channel recovered from a 24-bit sample: the low byte of the unsigned form.
pub open spec fn decode24_r_spec(s: int) -> int {
    (s + 8388608) % 256
}

/// Green channel recovered from a 24-bit sample: the middle byte of the unsigned form.
pub open spec fn decode24_g_spec(s: int) -> int {
    ((s + 8388608) / 256) % 256
}

/// Blue channel recovered from a 24-bit sample: the high byte of the unsigned form.
pub open spec fn decode24_b_spec(s: int) -> int {
    (s + 8388608) / 65536
}

/// The RGB565 packing of a channel triple: 5 bits of red, 6 of green, 5 of
/// blue, with the low bits of each channel discarded.
pub open spec fn pack565_spec(r: u8, g: u8, b: u8) -> int {
    2048 * (r / 8) + 32 * (g / 4) + b / 8
}

/// The 16-bit sample a channel triple encodes to: the RGB565 packing shifted
/// onto the signed range.
pub open spec fn encode16_spec(r: u8, g: u8, b: u8) -> int {
    pack565_spec(r, g, b) - 32768
}

/// Red channel recovered from a 16-bit sample: the top 5 bits of the packed
/// form, zero-filled back to 8 bits.
pub open spec fn decode16_r_spec(s: int) -> int {
    8 * ((s + 32768) / 2048)
}

/// Green channel recovered from a 16-bit sample: the middle 6 bits of the
/// packed form, zero-filled back to 8 bits.
pub open spec fn decode16_g_spec(s: int) -> int {
    4 * (((s + 32768) % 2048) / 32)
}

/// Blue channel recovered from a 16-bit sample: the low 5 bits of the packed
/// form, zero-filled back to 8 bits.
pub open spec fn decode16_b_spec(s: int) -> int {
    8 * ((s + 32768) % 32)
}

/// Whether `s` is representable at the given bit depth; meaningful only for
/// depths 16 and 24.
pub open spec fn sample_in_range(s: int, bits: u16) -> bool {
    if bits == 16 {
        -32768 <= s <= 32767
    } else {
        -8388608 <= s <= 8388607
    }
}

/// Encode one channel triple as a signed 24-bit sample.
pub fn encode_sample_24(r: u8, g: u8, b: u8) -> (s: i32)
    ensures
        s == encode24_spec(r, g, b),
        sample_in_range(s as int, 24),
{
    let u: u32 = r as u32 + 256 * (g as u32) + 65536 * (b as u32);
    u as i32 - 8388608
}

/// Decode a signed 24-bit sample back into its channel triple. A sample
/// outside the 24-bit range means the stream was written at another depth or
/// corrupted, and is reported rather than truncated.
pub fn decode_sample_24(s: i32) -> (r: Result<(u8, u8, u8), ConvError>)
    ensures
        r.is_ok() <==> sample_in_range(s as int, 24),
        r matches Ok(p) ==> p.0 == decode24_r_spec(s as int) && p.1 == decode24_g_spec(s as int)
            && p.2 == decode24_b_spec(s as int),
        r matches Err(e) ==> e == ConvError::MalformedChunk,
{
    if s < SAMPLE_MIN_24 || s > SAMPLE_MAX_24 {
        return Err(ConvError::MalformedChunk);
    }
    let u: u32 = (s + 8388608) as u32;
    proof {
        lemma_byte_split_24(u as int);
    }
    Ok(((u % 256) as u8, ((u / 256) % 256) as u8, (u / 65536) as u8))
}

/// Encode one channel triple as a signed 16-bit sample via RGB565 packing.
pub fn encode_sample_16(r: u8, g: u8, b: u8) -> (s: i32)
    ensures
        s == encode16_spec(r, g, b),
        sample_in_range(s as int, 16),
{
    let packed: u32 = 2048 * ((r / 8) as u32) + 32 * ((g / 4) as u32) + (b / 8) as u32;
    packed as i32 - 32768
}

/// Decode a signed 16-bit sample back into its (quantized) channel triple.
/// A sample outside the 16-bit range is reported rather than truncated.
pub fn decode_sample_16(s: i32) -> (r: Result<(u8, u8, u8), ConvError>)
    ensures
        r.is_ok() <==> sample_in_range(s as int, 16),
        r matches Ok(p) ==> p.0 == decode16_r_spec(s as int) && p.1 == decode16_g_spec(s as int)
            && p.2 == decode16_b_spec(s as int),
        r matches Err(e) ==> e == ConvError::MalformedChunk,
{
    if s < SAMPLE_MIN_16 || s > SAMPLE_MAX_16 {
        return Err(ConvError::MalformedChunk);
    }
    let u: u32 = (s + 32768) as u32;
    proof {
        lemma_pack_split_16(u as int);
    }
    Ok(((8 * (u / 2048)) as u8, (4 * ((u % 2048) / 32)) as u8, (8 * (u % 32)) as u8))
}

/// A value below 2^24 splits into three bytes that reassemble to it.
pub proof fn lemma_byte_split_24(u: int)
    requires
        0 <= u < 0x1000000,
    ensures
        0 <= u % 256 < 256,
        0 <= (u / 256) % 256 < 256,
        0 <= u / 65536 < 256,
        u % 256 + 256 * ((u / 256) % 256) + 65536 * (u / 65536) == u,
{
    lemma_fundamental_div_mod(u, 256);
    lemma_mod_pos_bound(u, 256);
    let q: int = u / 256;
    lemma_fundamental_div_mod(q, 256);
    lemma_mod_pos_bound(q, 256);
    // u == 65536 * (q / 256) + 256 * (q % 256) + u % 256, so q / 256 == u / 65536
    lemma_fundamental_div_mod_converse(u, 65536, q / 256, 256 * (q % 256) + u % 256);
}

/// A value below 2^16 splits into RGB565 fields that reassemble to it.
proof fn lemma_pack_split_16(u: int)
    requires
        0 <= u < 0x10000,
    ensures
        0 <= u / 2048 < 32,
        0 <= (u % 2048) / 32 < 64,
        0 <= u % 32 < 32,
        2048 * (u / 2048) + 32 * ((u % 2048) / 32) + u % 32 == u,
{
    lemma_fundamental_div_mod(u, 2048);
    lemma_mod_pos_bound(u, 2048);
    let m: int = u % 2048;
    lemma_fundamental_div_mod(m, 32);
    lemma_mod_pos_bound(m, 32);
    // m == 32 * (m / 32) + m % 32 and u == 2048 * (u / 2048) + m, so u % 32 == m % 32
    lemma_fundamental_div_mod_converse(u, 32, 64 * (u / 2048) + m / 32, m % 32);
}

/// Decoding any representable 24-bit sample yields three channel bytes, and
/// encoding them again restores the sample exactly: the 24-bit codec is a
/// bijection between the signed sample range and the channel triples.
pub proof fn lemma_sample24_round_trip(s: int)
    requires
        sample_in_range(s, 24),
    ensures
        0 <= decode24_r_spec(s) < 256,
        0 <= decode24_g_spec(s) < 256,
        0 <= decode24_b_spec(s) < 256,
        encode24_spec(
            decode24_r_spec(s) as u8,
            decode24_g_spec(s) as u8,
            decode24_b_spec(s) as u8,
        ) == s,
{
    lemma_byte_split_24(s + 8388608);
}

/// Encoding a channel triple as a 24-bit sample and decoding it restores
/// every channel byte exactly.
pub proof fn lemma_pixel24_round_trip(r: u8, g: u8, b: u8)
    ensures
        decode24_r_spec(encode24_spec(r, g, b)) == r,
        decode24_g_spec(encode24_spec(r, g, b)) == g,
        decode24_b_spec(encode24_spec(r, g, b)) == b,
{
    let u: int = r + 256 * g + 65536 * b;
    lemma_fundamental_div_mod_converse(u, 256, g + 256 * b, r as int);
    lemma_fundamental_div_mod_converse(g + 256 * b, 256, b as int, g as int);
    lemma_fundamental_div_mod_converse(u, 65536, b as int, r + 256 * g);
}

/// The RGB565 codec loses only the discarded low bits: after an encode and
/// decode, red and blue are each at most 7 below their original value and
/// green at most 3, never above it.
pub proof fn lemma_rgb565_quantization_bound(r: u8, g: u8, b: u8)
    ensures
        0 <= r - decode16_r_spec(encode16_spec(r, g, b)) <= 7,
        0 <= g - decode16_g_spec(encode16_spec(r, g, b)) <= 3,
        0 <= b - decode16_b_spec(encode16_spec(r, g, b)) <= 7,
{
    let u: int = pack565_spec(r, g, b);
    lemma_fundamental_div_mod_converse(u, 2048, (r as int) / 8, 32 * ((g as int) / 4) + (b as int) / 8);
    lemma_fundamental_div_mod_converse(
        32 * ((g as int) / 4) + (b as int) / 8,
        32,
        (g as int) / 4,
        (b as int) / 8,
    );
    lemma_fundamental_div_mod(r as int, 8);
    lemma_mod_pos_bound(r as int, 8);
    lemma_fundamental_div_mod(g as int, 4);
    lemma_mod_pos_bound(g as int, 4);
    lemma_fundamental_div_mod(b as int, 8);
    lemma_mod_pos_bound(b as int, 8);
}

} // verus!
