//! The RIFF/WAVE header patcher.
//!
//! After a standard WAV file is finalized, a private 16-byte chunk carrying
//! the image dimensions is spliced in at offset 0x3C, the point right after
//! the format chunk and just before the data chunk tag in the canonical
//! layout, and the RIFF size field at offset 4 is grown by 16. Every byte of
//! the original file stays, only relocated. The matching reader inspects the
//! tag at 0x3C before a decode and recovers the exact dimensions, falling
//! back to inference when some other chunk sits there.

use vstd::arithmetic::div_mod::{
    lemma_fundamental_div_mod, lemma_fundamental_div_mod_converse, lemma_mod_pos_bound,
};
use vstd::prelude::*;

use crate::error::ConvError;

verus! {

/// What an inspection of the bytes right after the format chunk found.
#[derive(Clone, Copy, Debug, PartialEq, Eq, Structural)]
pub enum ChunkScan {
    /// The private dimension chunk is present and carries these dimensions.
    Found { width: u32, height: u32 },
    /// The standard data chunk follows directly: no private chunk.
    NoChunk,
    /// Some other tag follows: treated as the no-chunk case.
    Unrecognized,
}

/// The unsigned value of the four little-endian bytes at `off`.
pub open spec fn le32_spec(s: Seq<u8>, off: int) -> int {
    s[off] + 256 * s[off + 1] + 65536 * s[off + 2] + 16777216 * s[off + 3]
}

/// The four little-endian bytes of a 32-bit value.
pub open spec fn le32_bytes_spec(x: int) -> Seq<u8> {
    seq![
        (x % 256) as u8,
        ((x / 256) % 256) as u8,
        ((x / 65536) % 256) as u8,
        (x / 16777216) as u8,
    ]
}

/// The 16-byte private chunk: the tag `"i2w "`, a length of 8, then the
/// width and the height, all little-endian.
pub open spec fn chunk_bytes_spec(width: u32, height: u32) -> Seq<u8> {
    seq![105u8, 50u8, 119u8, 32u8] + le32_bytes_spec(8) + le32_bytes_spec(width as int)
        + le32_bytes_spec(height as int)
}

/// Whether the four bytes at 0x3C read `"i2w "`.
pub open spec fn has_i2w_tag(s: Seq<u8>) -> bool {
    s[0x3C] == 105u8 && s[0x3D] == 50u8 && s[0x3E] == 119u8 && s[0x3F] == 32u8
}

/// Whether the four bytes at 0x3C read `"data"`.
pub open spec fn has_data_tag(s: Seq<u8>) -> bool {
    s[0x3C] == 100u8 && s[0x3D] == 97u8 && s[0x3E] == 116u8 && s[0x3F] == 97u8
}

/// A WAV byte buffer after the patch: the RIFF size grown by 16, the
/// private chunk spliced in at 0x3C, every other byte kept in order.
pub open spec fn patched_wav_spec(s: Seq<u8>, width: u32, height: u32) -> Seq<u8> {
    s.subrange(0, 4) + le32_bytes_spec(le32_spec(s, 4) + 16) + s.subrange(8, 0x3C)
        + chunk_bytes_spec(width, height) + s.subrange(0x3C, s.len() as int)
}

/// The little-endian bytes of a 32-bit value reassemble to it.
pub proof fn lemma_le32_round_trip(x: int)
    requires
        0 <= x < 0x100000000,
    ensures
        le32_spec(le32_bytes_spec(x), 0) == x,
{
    lemma_fundamental_div_mod(x, 256);
    lemma_mod_pos_bound(x, 256);
    let q1: int = x / 256;
    lemma_fundamental_div_mod(q1, 256);
    lemma_mod_pos_bound(q1, 256);
    let q2: int = q1 / 256;
    lemma_fundamental_div_mod(q2, 256);
    lemma_mod_pos_bound(q2, 256);
    let q3: int = q2 / 256;
    lemma_fundamental_div_mod_converse(x, 65536, q2, 256 * (q1 % 256) + x % 256);
    lemma_fundamental_div_mod_converse(
        x,
        16777216,
        q3,
        65536 * (q2 % 256) + 256 * (q1 % 256) + x % 256,
    );
}

/// Read the unsigned little-endian 32-bit value at `off`.
pub fn read_le32(wav: &Vec<u8>, off: usize) -> (x: u32)
    requires
        off + 4 <= wav@.len(),
    ensures
        x == le32_spec(wav@, off as int),
{
    let n: usize = wav.len();
    assert(off + 4 <= n);
    wav[off] as u32 + 256 * (wav[off + 1] as u32) + 65536 * (wav[off + 2] as u32) + 16777216 * (
    wav[off + 3] as u32)
}

/// Append the four little-endian bytes of `x`.
fn push_le32(out: &mut Vec<u8>, x: u32)
    ensures
        final(out)@ == old(out)@ + le32_bytes_spec(x as int),
{
    proof {
        lemma_mod_pos_bound(x as int, 256);
        lemma_mod_pos_bound(x as int / 256, 256);
        lemma_mod_pos_bound(x as int / 65536, 256);
    }
    out.push((x % 256) as u8);
    out.push(((x / 256) % 256) as u8);
    out.push(((x / 65536) % 256) as u8);
    out.push((x / 16777216) as u8);
    assert(out@ =~= old(out)@ + le32_bytes_spec(x as int));
}

/// Splice the private dimension chunk into a finished WAV buffer at offset
/// 0x3C and grow the RIFF size field by 16; all following bytes, the data
/// chunk included, are relocated unchanged.
pub fn patch_header(wav: &mut Vec<u8>, width: u32, height: u32)
    requires
        old(wav)@.len() >= 0x40,
        le32_spec(old(wav)@, 4) + 16 <= u32::MAX,
        old(wav)@.len() + 16 <= usize::MAX,
    ensures
        final(wav)@ == patched_wav_spec(old(wav)@, width, height),
        final(wav)@.len() == old(wav)@.len() + 16,
        final(wav)@.subrange(0, 4) == old(wav)@.subrange(0, 4),
        le32_spec(final(wav)@, 4) == le32_spec(old(wav)@, 4) + 16,
        final(wav)@.subrange(8, 0x3C) == old(wav)@.subrange(8, 0x3C),
        final(wav)@.subrange(0x3C, 0x4C) == chunk_bytes_spec(width, height),
        final(wav)@.subrange(0x4C, final(wav)@.len() as int) == old(wav)@.subrange(
            0x3C,
            old(wav)@.len() as int,
        ),
{
    let n: usize = wav.len();
    let riff: u32 = read_le32(wav, 4);
    let new_riff: u32 = riff + 16;
    let ghost prefix: Seq<u8> = wav@.subrange(0, 4) + le32_bytes_spec(new_riff as int);
    let mut out: Vec<u8> = Vec::new();
    let mut i: usize = 0;
    while i < 4
        invariant
            wav@ == old(wav)@,
            old(wav)@.len() >= 0x40,
            i <= 4,
            out@ == old(wav)@.subrange(0, i as int),
        decreases 4 - i,
    {
        out.push(wav[i]);
        i = i + 1;
        assert(out@ =~= old(wav)@.subrange(0, i as int));
    }
    push_le32(&mut out, new_riff);
    let mut i: usize = 8;
    while i < 0x3C
        invariant
            wav@ == old(wav)@,
            old(wav)@.len() >= 0x40,
            8 <= i <= 0x3C,
            prefix == old(wav)@.subrange(0, 4) + le32_bytes_spec(new_riff as int),
            out@ == prefix + old(wav)@.subrange(8, i as int),
        decreases 0x3C - i,
    {
        out.push(wav[i]);
        i = i + 1;
        assert(out@ =~= prefix + old(wav)@.subrange(8, i as int));
    }
    let ghost mid: Seq<u8> = out@;
    out.push(105);
    out.push(50);
    out.push(119);
    out.push(32);
    push_le32(&mut out, 8);
    push_le32(&mut out, width);
    push_le32(&mut out, height);
    assert(out@ =~= mid + chunk_bytes_spec(width, height));
    let ghost before_tail: Seq<u8> = out@;
    let mut i: usize = 0x3C;
    while i < n
        invariant
            wav@ == old(wav)@,
            n == old(wav)@.len(),
            old(wav)@.len() + 16 <= usize::MAX,
            0x3C <= i <= n,
            out@ == before_tail + old(wav)@.subrange(0x3C, i as int),
        decreases n - i,
    {
        out.push(wav[i]);
        i = i + 1;
        assert(out@ =~= before_tail + old(wav)@.subrange(0x3C, i as int));
    }
    *wav = out;
    proof {
        assert(wav@ =~= patched_wav_spec(old(wav)@, width, height));
        assert(wav@.subrange(0, 4) =~= old(wav)@.subrange(0, 4));
        assert(wav@.subrange(8, 0x3C) =~= old(wav)@.subrange(8, 0x3C));
        assert(wav@.subrange(0x3C, 0x4C) =~= chunk_bytes_spec(width, height));
        assert(wav@.subrange(0x4C, wav@.len() as int) =~= old(wav)@.subrange(
            0x3C,
            old(wav)@.len() as int,
        ));
        lemma_le32_round_trip(new_riff as int);
        assert(le32_spec(wav@, 4) == le32_spec(le32_bytes_spec(new_riff as int), 0));
    }
}

/// Inspect the bytes at 0x3C of a WAV buffer. The private chunk's recorded
/// dimensions are returned when its tag is present and its length field is
/// 8; a present tag with any other length is malformed; any other tag means
/// no private chunk.
pub fn read_header(wav: &Vec<u8>) -> (r: Result<ChunkScan, ConvError>)
    requires
        wav@.len() >= 0x40,
    ensures
        r.is_ok() <==> !(has_i2w_tag(wav@) && (wav@.len() < 0x4C || le32_spec(wav@, 0x40) != 8)),
        r matches Err(e) ==> e == ConvError::MalformedChunk,
        has_i2w_tag(wav@) && wav@.len() >= 0x4C && le32_spec(wav@, 0x40) == 8 ==> (r matches Ok(s)
            && s matches ChunkScan::Found { width, height } && width == le32_spec(wav@, 0x44)
            && height == le32_spec(wav@, 0x48)),
        !has_i2w_tag(wav@) && has_data_tag(wav@) ==> (r matches Ok(s) && s is NoChunk),
        !has_i2w_tag(wav@) && !has_data_tag(wav@) ==> (r matches Ok(s) && s is Unrecognized),
{
    if wav[0x3C] == 105 && wav[0x3D] == 50 && wav[0x3E] == 119 && wav[0x3F] == 32 {
        if wav.len() < 0x4C {
            return Err(ConvError::MalformedChunk);
        }
        let len_field: u32 = read_le32(wav, 0x40);
        if len_field != 8 {
            return Err(ConvError::MalformedChunk);
        }
        let w: u32 = read_le32(wav, 0x44);
        let h: u32 = read_le32(wav, 0x48);
        Ok(ChunkScan::Found { width: w, height: h })
    } else if wav[0x3C] == 100 && wav[0x3D] == 97 && wav[0x3E] == 116 && wav[0x3F] == 97 {
        Ok(ChunkScan::NoChunk)
    } else {
        Ok(ChunkScan::Unrecognized)
    }
}

/// After a patch, a reader of the buffer finds the private chunk: the tag,
/// a length field of 8, and exactly the patched dimensions.
pub proof fn lemma_patched_header_reads_back(s: Seq<u8>, width: u32, height: u32)
    requires
        s.len() >= 0x40,
    ensures
        patched_wav_spec(s, width, height).len() == s.len() + 16,
        has_i2w_tag(patched_wav_spec(s, width, height)),
        le32_spec(patched_wav_spec(s, width, height), 0x40) == 8,
        le32_spec(patched_wav_spec(s, width, height), 0x44) == width,
        le32_spec(patched_wav_spec(s, width, height), 0x48) == height,
{
    let p = patched_wav_spec(s, width, height);
    assert(p.subrange(0x3C, 0x4C) =~= chunk_bytes_spec(width, height));
    assert forall|k: int| 0 <= k < 16 implies p[0x3C + k] == chunk_bytes_spec(width, height)[k] by {
        assert(p[0x3C + k] == p.subrange(0x3C, 0x4C)[k]);
    }
    lemma_le32_round_trip(8);
    lemma_le32_round_trip(width as int);
    lemma_le32_round_trip(height as int);
    assert(le32_spec(p, 0x40) == le32_spec(le32_bytes_spec(8), 0));
    assert(le32_spec(p, 0x44) == le32_spec(le32_bytes_spec(width as int), 0));
    assert(le32_spec(p, 0x48) == le32_spec(le32_bytes_spec(height as int), 0));
}

} // verus!
