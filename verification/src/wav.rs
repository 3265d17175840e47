//! The canonical 44-byte WAV header for 16-bit little-endian PCM, sample
//! serialization, and a frame reader over an in-memory file; writing the
//! bytes to disk is the caller's business.

use vstd::prelude::*;
use crate::config::AudioConfig;
use crate::encoding::{le_bytes, le_val, lemma_le_bytes_len, lemma_le_round_trip,
    lemma_le_val_bound, lemma_pow256_values, enc_le, dec_le};

verus! {

/// The two's-complement 16-bit wire form of a sample.
pub open spec fn i16_field(x: i16) -> int {
    if x >= 0 {
        x as int
    } else {
        x + 0x1_0000
    }
}

/// The sample a 16-bit wire field stands for.
pub open spec fn i16_of_field(v: int) -> i16 {
    if v < 0x8000 {
        v as i16
    } else {
        (v - 0x1_0000) as i16
    }
}

pub proof fn lemma_i16_field_round_trip(x: i16)
    ensures
        0 <= i16_field(x) < 0x1_0000,
        i16_of_field(i16_field(x)) == x,
{
}

/// The little-endian bytes of a run of samples.
pub open spec fn pcm_bytes(s: Seq<i16>) -> Seq<u8>
    decreases s.len(),
{
    if s.len() == 0 {
        Seq::empty()
    } else {
        le_bytes(i16_field(s[0]), 2) + pcm_bytes(s.skip(1))
    }
}

/// The samples a byte string of even length holds.
pub open spec fn pcm_samples(b: Seq<u8>) -> Seq<i16>
    decreases b.len(),
{
    if b.len() < 2 {
        Seq::empty()
    } else {
        seq![i16_of_field(le_val(b.subrange(0, 2)))] + pcm_samples(b.skip(2))
    }
}

/// Serializing samples and reading them back is the identity.
pub proof fn lemma_pcm_round_trip(s: Seq<i16>)
    ensures
        pcm_bytes(s).len() == 2 * s.len(),
        pcm_samples(pcm_bytes(s)) == s,
    decreases s.len(),
{
    if s.len() == 0 {
        assert(pcm_samples(pcm_bytes(s)) =~= s);
    } else {
        lemma_pow256_values();
        lemma_i16_field_round_trip(s[0]);
        lemma_le_bytes_len(i16_field(s[0]), 2);
        lemma_pcm_round_trip(s.skip(1));
        let b = pcm_bytes(s);
        assert(b.subrange(0, 2) =~= le_bytes(i16_field(s[0]), 2));
        lemma_le_round_trip(i16_field(s[0]), 2);
        assert(b.skip(2) =~= pcm_bytes(s.skip(1)));
        assert(pcm_samples(b) =~= s);
    }
}

/// Serialize samples as 16-bit little-endian PCM.
pub fn samples_to_bytes(samples: &Vec<i16>) -> (r: Vec<u8>)
    ensures
        r@ == pcm_bytes(samples@),
{
    proof {
        lemma_pow256_values();
    }
    let mut out: Vec<u8> = Vec::new();
    let mut k: usize = 0;
    #[verifier::loop_isolation(false)]
    while k < samples.len()
        invariant
            k <= samples.len(),
            out@ == pcm_bytes(samples@.subrange(0, k as int)),
        decreases samples.len() - k,
    {
        let x: i16 = samples[k];
        let field: u16 = if x >= 0 {
            x as u16
        } else {
            ((x as i32) + 0x1_0000i32) as u16
        };
        enc_le(field as u128, 2, &mut out);
        proof {
            lemma_pcm_bytes_push(samples@.subrange(0, k as int), x);
            assert(samples@.subrange(0, k as int).push(x) =~= samples@.subrange(
                0,
                (k + 1) as int,
            ));
            assert(out@ =~= pcm_bytes(samples@.subrange(0, (k + 1) as int)));
        }
        k = k + 1;
    }
    proof {
        assert(samples@.subrange(0, samples@.len() as int) =~= samples@);
    }
    out
}

/// Appending one sample appends its two bytes.
proof fn lemma_pcm_bytes_push(s: Seq<i16>, x: i16)
    ensures
        pcm_bytes(s.push(x)) == pcm_bytes(s) + le_bytes(i16_field(x), 2),
    decreases s.len(),
{
    if s.len() == 0 {
        reveal_with_fuel(pcm_bytes, 3);
        assert(s.push(x)[0] == x);
        assert(s.push(x).skip(1) =~= Seq::<i16>::empty());
        assert(pcm_bytes(s.push(x)) =~= pcm_bytes(s) + le_bytes(i16_field(x), 2));
    } else {
        assert(s.push(x).skip(1) =~= s.skip(1).push(x));
        lemma_pcm_bytes_push(s.skip(1), x);
        assert(pcm_bytes(s.push(x)) =~= pcm_bytes(s) + le_bytes(i16_field(x), 2));
    }
}

/// Read 16-bit little-endian PCM back into samples; a trailing odd byte
/// is ignored.
pub fn bytes_to_samples(b: &Vec<u8>) -> (r: Vec<i16>)
    ensures
        r@ == pcm_samples(b@),
{
    proof {
        lemma_pow256_values();
        assert(b@.skip(0) =~= b@);
    }
    let mut out: Vec<i16> = Vec::new();
    let mut i: usize = 0;
    #[verifier::loop_isolation(false)]
    while i < b.len() && b.len() - i >= 2
        invariant
            i <= b.len(),
            out@ + pcm_samples(b@.skip(i as int)) == pcm_samples(b@),
        decreases b.len() - i,
    {
        let v: u128 = dec_le(b, i, 2);
        proof {
            lemma_le_val_bound(b@.subrange(i as int, i as int + 2));
            assert(b@.skip(i as int).subrange(0, 2) =~= b@.subrange(i as int, i as int + 2));
            assert(b@.skip(i as int).skip(2) =~= b@.skip(i as int + 2));
        }
        let v16: u16 = v as u16;
        let x: i16 = if v16 < 0x8000 {
            v16 as i16
        } else {
            ((v16 as i32) - 0x1_0000i32) as i16
        };
        let ghost preo = out@;
        out.push(x);
        proof {
            assert(out@ =~= preo.push(x));
            assert(preo.push(x) + pcm_samples(b@.skip(i as int + 2)) =~= preo + pcm_samples(
                b@.skip(i as int),
            ));
        }
        i = i + 2;
    }
    proof {
        assert(pcm_samples(b@.skip(i as int)) =~= Seq::<i16>::empty());
        assert(out@ + Seq::<i16>::empty() =~= out@);
    }
    out
}

/// The canonical 44-byte header: RIFF/WAVE, a 16-byte PCM format block
/// (tag 1, 16 bits per sample), and the data block length.
pub open spec fn wav_header(sample_rate: u32, channels: u16, data_size: u32) -> Seq<u8> {
    seq![0x52u8, 0x49u8, 0x46u8, 0x46u8]  // "RIFF"
     + le_bytes(36 + data_size, 4) + seq![0x57u8, 0x41u8, 0x56u8, 0x45u8]  // "WAVE"
     + seq![0x66u8, 0x6Du8, 0x74u8, 0x20u8]  // "fmt "
     + le_bytes(16, 4) + le_bytes(1, 2) + le_bytes(channels as int, 2) + le_bytes(
        sample_rate as int,
        4,
    ) + le_bytes(sample_rate * channels * 2, 4) + le_bytes(channels * 2, 2) + le_bytes(16, 2)
        + seq![0x64u8, 0x61u8, 0x74u8, 0x61u8]  // "data"
     + le_bytes(data_size as int, 4)
}

/// Build the header.  The rates must stay within the 32-bit fields.
pub fn build_wav_header(sample_rate: u32, channels: u16, data_size: u32) -> (r: Vec<u8>)
    requires
        36 + data_size <= u32::MAX,
        sample_rate * channels * 2 <= u32::MAX,
        channels * 2 <= u16::MAX,
    ensures
        r@ == wav_header(sample_rate, channels, data_size),
        r@.len() == 44,
{
    proof {
        lemma_pow256_values();
    }
    let mut out: Vec<u8> = Vec::new();
    out.push(0x52);
    out.push(0x49);
    out.push(0x46);
    out.push(0x46);
    enc_le((36 + data_size) as u128, 4, &mut out);
    out.push(0x57);
    out.push(0x41);
    out.push(0x56);
    out.push(0x45);
    out.push(0x66);
    out.push(0x6D);
    out.push(0x74);
    out.push(0x20);
    assert(out@ =~= seq![0x52u8, 0x49u8, 0x46u8, 0x46u8] + le_bytes(36 + data_size, 4) + seq![
        0x57u8,
        0x41u8,
        0x56u8,
        0x45u8,
    ] + seq![0x66u8, 0x6Du8, 0x74u8, 0x20u8]);
    enc_le(16, 4, &mut out);
    enc_le(1, 2, &mut out);
    enc_le(channels as u128, 2, &mut out);
    enc_le(sample_rate as u128, 4, &mut out);
    let byte_rate: u32 = sample_rate * (channels as u32) * 2;
    enc_le(byte_rate as u128, 4, &mut out);
    let block_align: u16 = channels * 2;
    enc_le(block_align as u128, 2, &mut out);
    enc_le(16, 2, &mut out);
    out.push(0x64);
    out.push(0x61);
    out.push(0x74);
    out.push(0x61);
    enc_le(data_size as u128, 4, &mut out);
    proof {
        lemma_le_bytes_len(36 + data_size, 4);
        lemma_le_bytes_len(16, 4);
        lemma_le_bytes_len(1, 2);
        lemma_le_bytes_len(channels as int, 2);
        lemma_le_bytes_len(sample_rate as int, 4);
        lemma_le_bytes_len(sample_rate * channels * 2, 4);
        lemma_le_bytes_len(channels * 2, 2);
        lemma_le_bytes_len(16, 2);
        lemma_le_bytes_len(data_size as int, 4);
        assert(out@ =~= wav_header(sample_rate, channels, data_size));
    }
    out
}

/// What a parsed header yields: the stream shape and the data length.
#[derive(Debug, Clone, Copy, PartialEq, Eq, Structural)]
pub struct WavInfo {
    pub sample_rate: u32,
    pub channels: u16,
    pub data_size: u32,
}

/// Whether `b` starts with a canonical 16-bit PCM header, and what it
/// announces.
pub open spec fn spec_parse_wav_header(b: Seq<u8>) -> Option<WavInfo> {
    if b.len() >= 44 && b.subrange(0, 4) == seq![0x52u8, 0x49u8, 0x46u8, 0x46u8] && b.subrange(
        8,
        12,
    ) == seq![0x57u8, 0x41u8, 0x56u8, 0x45u8] && b.subrange(12, 16) == seq![
        0x66u8,
        0x6Du8,
        0x74u8,
        0x20u8,
    ] && le_val(b.subrange(16, 20)) == 16 && le_val(b.subrange(20, 22)) == 1 && le_val(
        b.subrange(34, 36),
    ) == 16 && b.subrange(36, 40) == seq![0x64u8, 0x61u8, 0x74u8, 0x61u8] {
        Some(
            WavInfo {
                sample_rate: le_val(b.subrange(24, 28)) as u32,
                channels: le_val(b.subrange(22, 24)) as u16,
                data_size: le_val(b.subrange(40, 44)) as u32,
            },
        )
    } else {
        None
    }
}

/// Parse a canonical header.
pub fn parse_wav_header(b: &Vec<u8>) -> (r: Option<WavInfo>)
    ensures
        r == spec_parse_wav_header(b@),
{
    proof {
        lemma_pow256_values();
    }
    if b.len() < 44 {
        return None;
    }
    let ok: bool = b[0] == 0x52 && b[1] == 0x49 && b[2] == 0x46 && b[3] == 0x46 && b[8] == 0x57
        && b[9] == 0x41 && b[10] == 0x56 && b[11] == 0x45 && b[12] == 0x66 && b[13] == 0x6D
        && b[14] == 0x74 && b[15] == 0x20 && b[36] == 0x64 && b[37] == 0x61 && b[38] == 0x74
        && b[39] == 0x61;
    proof {
        assert(b@.subrange(0, 4) =~= seq![b@[0], b@[1], b@[2], b@[3]]);
        assert(b@.subrange(8, 12) =~= seq![b@[8], b@[9], b@[10], b@[11]]);
        assert(b@.subrange(12, 16) =~= seq![b@[12], b@[13], b@[14], b@[15]]);
        assert(b@.subrange(36, 40) =~= seq![b@[36], b@[37], b@[38], b@[39]]);
    }
    if !ok {
        return None;
    }
    let fmt_len: u128 = dec_le(b, 16, 4);
    let fmt_tag: u128 = dec_le(b, 20, 2);
    let bits: u128 = dec_le(b, 34, 2);
    if fmt_len != 16 || fmt_tag != 1 || bits != 16 {
        return None;
    }
    let channels: u128 = dec_le(b, 22, 2);
    let sample_rate: u128 = dec_le(b, 24, 4);
    let data_size: u128 = dec_le(b, 40, 4);
    proof {
        lemma_le_val_bound(b@.subrange(22, 24));
        lemma_le_val_bound(b@.subrange(24, 28));
        lemma_le_val_bound(b@.subrange(40, 44));
    }
    Some(
        WavInfo {
            sample_rate: sample_rate as u32,
            channels: channels as u16,
            data_size: data_size as u32,
        },
    )
}

/// Writing a header and parsing it back yields the values written.
pub proof fn lemma_wav_header_round_trip(sample_rate: u32, channels: u16, data_size: u32)
    requires
        36 + data_size <= u32::MAX,
        sample_rate * channels * 2 <= u32::MAX,
        channels * 2 <= u16::MAX,
    ensures
        spec_parse_wav_header(wav_header(sample_rate, channels, data_size)) == Some(
            WavInfo { sample_rate, channels, data_size },
        ),
{
    lemma_pow256_values();
    let h = wav_header(sample_rate, channels, data_size);
    lemma_le_bytes_len(36 + data_size, 4);
    lemma_le_bytes_len(16, 4);
    lemma_le_bytes_len(1, 2);
    lemma_le_bytes_len(channels as int, 2);
    lemma_le_bytes_len(sample_rate as int, 4);
    lemma_le_bytes_len(sample_rate * channels * 2, 4);
    lemma_le_bytes_len(channels * 2, 2);
    lemma_le_bytes_len(16, 2);
    lemma_le_bytes_len(data_size as int, 4);
    assert(h.len() == 44);
    assert(h.subrange(0, 4) =~= seq![0x52u8, 0x49u8, 0x46u8, 0x46u8]);
    assert(h.subrange(8, 12) =~= seq![0x57u8, 0x41u8, 0x56u8, 0x45u8]);
    assert(h.subrange(12, 16) =~= seq![0x66u8, 0x6Du8, 0x74u8, 0x20u8]);
    assert(h.subrange(16, 20) =~= le_bytes(16, 4));
    lemma_le_round_trip(16, 4);
    assert(h.subrange(20, 22) =~= le_bytes(1, 2));
    lemma_le_round_trip(1, 2);
    assert(h.subrange(22, 24) =~= le_bytes(channels as int, 2));
    lemma_le_round_trip(channels as int, 2);
    assert(h.subrange(24, 28) =~= le_bytes(sample_rate as int, 4));
    lemma_le_round_trip(sample_rate as int, 4);
    assert(h.subrange(34, 36) =~= le_bytes(16, 2));
    lemma_le_round_trip(16, 2);
    assert(h.subrange(36, 40) =~= seq![0x64u8, 0x61u8, 0x74u8, 0x61u8]);
    assert(h.subrange(40, 44) =~= le_bytes(data_size as int, 4));
    lemma_le_round_trip(data_size as int, 4);
}

/// Reads a WAV file held in memory frame by frame.
#[derive(Debug)]
pub struct WavReader {
    samples: Vec<i16>,
    pos: usize,
    /// The stream shape the file announced, completed with the music
    /// profile's encoder settings.
    pub config: AudioConfig,
}

impl WavReader {
    /// The samples not yet read.
    pub closed spec fn remaining(self) -> Seq<i16> {
        self.samples@.skip(self.pos as int)
    }

    /// The stream shape, as a mathematical value.
    pub closed spec fn config_spec(self) -> crate::config::AudioConfigView {
        self.config@
    }

    pub closed spec fn wf(self) -> bool {
        self.pos <= self.samples@.len()
    }

    /// Open an in-memory WAV file: parse and check the header, take the
    /// samples, and derive the stream configuration (20 ms frames).
    pub fn open(bytes: &Vec<u8>) -> (r: Option<WavReader>)
        ensures
            r is None ==> spec_parse_wav_header(bytes@) is None,
            r matches Some(w) ==> {
                &&& spec_parse_wav_header(bytes@) matches Some(info)
                &&& w.wf()
                &&& w.remaining() == pcm_samples(bytes@.skip(44))
                &&& w.config_spec().sample_rate == info.sample_rate
                &&& w.config_spec().channels == info.channels
                &&& w.config_spec().frame_size == info.sample_rate / 50
            },
    {
        let info: WavInfo = match parse_wav_header(bytes) {
            None => {
                return None;
            },
            Some(v) => v,
        };
        let mut data: Vec<u8> = Vec::new();
        let mut k: usize = 44;
        #[verifier::loop_isolation(false)]
        while k < bytes.len()
            invariant
                44 <= k <= bytes.len() || (bytes.len() < 44 && k == 44),
                44 <= bytes.len() ==> data@ == bytes@.subrange(44, k as int),
                bytes.len() >= 44,
            decreases bytes.len() - k,
        {
            data.push(bytes[k]);
            assert(data@ =~= bytes@.subrange(44, (k + 1) as int));
            k = k + 1;
        }
        proof {
            assert(data@ =~= bytes@.skip(44));
        }
        let samples: Vec<i16> = bytes_to_samples(&data);
        let base: AudioConfig = AudioConfig::music_48k();
        let config = AudioConfig {
            sample_rate: info.sample_rate,
            channels: info.channels,
            frame_size: (info.sample_rate / 50) as usize,
            ..base
        };
        let w = WavReader { samples, pos: 0, config };
        proof {
            assert(w.remaining() =~= w.samples@);
        }
        Some(w)
    }

    /// The next frame of up to `frame_size * channels` samples, or
    /// nothing at the end of the file.
    pub fn read_one_frame(&mut self) -> (r: Option<Vec<i16>>)
        requires
            old(self).wf(),
            old(self).config_spec().frame_size * old(self).config_spec().channels
                <= 0x1_0000_0000,
        ensures
            final(self).wf(),
            final(self).config_spec() == old(self).config_spec(),
            r is None <==> old(self).remaining().len() == 0,
            r is None ==> *final(self) == *old(self),
            r matches Some(v) ==> {
                let want = old(self).config_spec().frame_size * old(
                    self,
                ).config_spec().channels;
                let n = if old(self).remaining().len() >= want {
                    want as int
                } else {
                    old(self).remaining().len() as int
                };
                v@ == old(self).remaining().subrange(0, n) && final(self).remaining()
                    == old(self).remaining().skip(n)
            },
    {
        if self.pos >= self.samples.len() {
            return None;
        }
        let want128: u128 = (self.config.frame_size as u128) * (self.config.channels as u128);
        let remaining: usize = self.samples.len() - self.pos;
        let n: usize = if (remaining as u128) >= want128 {
            want128 as usize
        } else {
            remaining
        };
        let mut v: Vec<i16> = Vec::new();
        let mut k: usize = 0;
        #[verifier::loop_isolation(false)]
        while k < n
            invariant
                k <= n,
                self.pos + n <= self.samples@.len(),
                *self == *old(self),
                v@ == self.samples@.subrange(self.pos as int, self.pos as int + k as int),
            decreases n - k,
        {
            v.push(self.samples[self.pos + k]);
            assert(v@ =~= self.samples@.subrange(
                self.pos as int,
                self.pos as int + (k + 1) as int,
            ));
            k = k + 1;
        }
        self.pos = self.pos + n;
        proof {
            assert(v@ =~= old(self).remaining().subrange(0, n as int));
            assert(final(self).remaining() =~= old(self).remaining().skip(n as int));
        }
        Some(v)
    }
}

/// Interleave a left and a right channel sample run, left first in each
/// pair, as a stereo frame is laid out.
pub fn interleave(left: &Vec<i16>, right: &Vec<i16>) -> (r: Vec<i16>)
    requires
        left@.len() == right@.len(),
        left@.len() * 2 <= usize::MAX,
    ensures
        r@.len() == 2 * left@.len(),
        forall|i: int|
            0 <= i < left@.len() ==> r@[2 * i] == left@[i] && r@[2 * i + 1] == right@[i],
{
    let mut out: Vec<i16> = Vec::new();
    let mut k: usize = 0;
    #[verifier::loop_isolation(false)]
    while k < left.len()
        invariant
            k <= left.len(),
            out@.len() == 2 * k,
            forall|i: int|
                0 <= i < k ==> out@[2 * i] == left@[i] && out@[2 * i + 1] == right@[i],
        decreases left.len() - k,
    {
        out.push(left[k]);
        out.push(right[k]);
        k = k + 1;
    }
    out
}

} // verus!
