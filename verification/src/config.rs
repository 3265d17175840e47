//! Audio stream configuration: sample rate, channel count, frame size and
//! encoder settings, with the two stock profiles for voice and music.

use vstd::prelude::*;
use crate::encoding::{
    le_bytes, bool_byte, string_bytes, sd_le, sd_bool, sd_string, lemma_sd_le, lemma_sd_bool,
    lemma_sd_string, lemma_pow256_values, enc_le, enc_u16, enc_u32, enc_u64,
    enc_bool, enc_string, rd_u16, rd_u32, rd_u64, rd_bool, rd_string,
};

verus! {

/// What the stream carries; steers the encoder mode.
#[derive(Debug, Clone, Copy, PartialEq, Eq, Hash, Structural)]
pub enum AudioScene {
    Music,
    Voice,
}

/// Settings of one audio stream.  `frame_size` counts samples per channel
/// per frame; the stock profiles use 20 ms frames.
#[derive(Debug, Clone, PartialEq, Eq)]
pub struct AudioConfig {
    pub capture_device: String,
    pub playback_device: String,
    pub sample_rate: u32,
    pub channels: u16,
    pub frame_size: usize,
    pub audio_scene: AudioScene,
    pub bitrate: i32,
    pub vbr: bool,
    pub fec: bool,
}

/// The mathematical value of an `AudioConfig`.
pub struct AudioConfigView {
    pub capture_device: Seq<char>,
    pub playback_device: Seq<char>,
    pub sample_rate: u32,
    pub channels: u16,
    pub frame_size: usize,
    pub audio_scene: AudioScene,
    pub bitrate: i32,
    pub vbr: bool,
    pub fec: bool,
}

impl View for AudioConfig {
    type V = AudioConfigView;

    open spec fn view(&self) -> AudioConfigView {
        AudioConfigView {
            capture_device: self.capture_device@,
            playback_device: self.playback_device@,
            sample_rate: self.sample_rate,
            channels: self.channels,
            frame_size: self.frame_size,
            audio_scene: self.audio_scene,
            bitrate: self.bitrate,
            vbr: self.vbr,
            fec: self.fec,
        }
    }
}

impl AudioConfigView {
    /// Both device names fit a four-byte character count on the wire.
    pub open spec fn wf(self) -> bool {
        self.capture_device.len() < 0x1_0000_0000 && self.playback_device.len() < 0x1_0000_0000
    }
}

impl AudioConfig {
    /// 16 kHz mono voice profile: 20 ms frames, 32 kbit/s.
    pub fn voice_16k() -> (r: AudioConfig)
        ensures
            r@.sample_rate == 16000,
            r@.channels == 1,
            r@.frame_size == 320,
            r@.audio_scene == AudioScene::Voice,
            r@.bitrate == 32000,
            r@.vbr,
            r@.fec,
            r@.wf(),
    {
        let r = AudioConfig {
            capture_device: "plug:Capture".to_owned(),
            playback_device: "plug:default".to_owned(),
            sample_rate: 16000,
            channels: 1,
            frame_size: 320,
            audio_scene: AudioScene::Voice,
            bitrate: 32000,
            vbr: true,
            fec: true,
        };
        proof {
            reveal_strlit("plug:Capture");
            reveal_strlit("plug:default");
        }
        r
    }

    /// 48 kHz stereo music profile: 20 ms frames, 128 kbit/s.
    pub fn music_48k() -> (r: AudioConfig)
        ensures
            r@.sample_rate == 48000,
            r@.channels == 2,
            r@.frame_size == 960,
            r@.audio_scene == AudioScene::Music,
            r@.bitrate == 128000,
            r@.vbr,
            r@.fec,
            r@.wf(),
    {
        let r = AudioConfig {
            capture_device: "plug:Capture".to_owned(),
            playback_device: "plug:default".to_owned(),
            sample_rate: 48000,
            channels: 2,
            frame_size: 960,
            audio_scene: AudioScene::Music,
            bitrate: 128000,
            vbr: true,
            fec: true,
        };
        proof {
            reveal_strlit("plug:Capture");
            reveal_strlit("plug:default");
        }
        r
    }

    /// How long one frame lasts, in microseconds.
    pub fn frame_duration_us(&self) -> (r: u64)
        requires
            self@.sample_rate > 0,
            self@.frame_size <= 0x1_0000_0000,
        ensures
            r == self@.frame_size * 1_000_000 / (self@.sample_rate as int),
    {
        (self.frame_size as u64) * 1_000_000 / (self.sample_rate as u64)
    }
}

impl Default for AudioConfig {
    /// The voice profile is the default.
    fn default() -> (r: AudioConfig)
        ensures
            r@.sample_rate == 16000,
            r@.channels == 1,
            r@.wf(),
    {
        AudioConfig::voice_16k()
    }
}

/// A field-for-field copy whose mathematical value is the same.
pub fn clone_config(c: &AudioConfig) -> (r: AudioConfig)
    ensures
        r@ == c@,
{
    AudioConfig {
        capture_device: c.capture_device.clone(),
        playback_device: c.playback_device.clone(),
        sample_rate: c.sample_rate,
        channels: c.channels,
        frame_size: c.frame_size,
        audio_scene: c.audio_scene,
        bitrate: c.bitrate,
        vbr: c.vbr,
        fec: c.fec,
    }
}

/// The sample rates the stream encoder accepts directly.
pub open spec fn supported_rate(rate: u32) -> bool {
    rate == 8000 || rate == 12000 || rate == 16000 || rate == 24000 || rate == 48000
}

/// The sample rate the encoder is opened with: the configured rate where
/// the encoder supports it, else the nearest stock fallback.
pub fn encoder_rate(sample_rate: u32) -> (r: u32)
    ensures
        supported_rate(sample_rate) ==> r == sample_rate,
        !supported_rate(sample_rate) && sample_rate < 24000 ==> r == 16000,
        !supported_rate(sample_rate) && sample_rate >= 24000 ==> r == 48000,
        supported_rate(r),
{
    if sample_rate == 8000 || sample_rate == 12000 || sample_rate == 16000 || sample_rate == 24000
        || sample_rate == 48000 {
        sample_rate
    } else if sample_rate < 24000 {
        16000
    } else {
        48000
    }
}

/// Encoded field order of an `AudioConfig` on the wire.
pub open spec fn enc_config(v: AudioConfigView) -> Seq<u8> {
    string_bytes(v.capture_device) + string_bytes(v.playback_device) + le_bytes(
        v.sample_rate as int,
        4,
    ) + le_bytes(v.channels as int, 2) + le_bytes(v.frame_size as int, 8) + le_bytes(
        scene_code(v.audio_scene) as int,
        1,
    ) + le_bytes(i32_field(v.bitrate), 4) + bool_byte(v.vbr) + bool_byte(v.fec)
}

/// The one-byte wire code of an `AudioScene`.
pub open spec fn scene_code(s: AudioScene) -> u8 {
    match s {
        AudioScene::Music => 0,
        AudioScene::Voice => 1,
    }
}

/// A signed 32-bit value as its unsigned wire form (two's complement).
pub open spec fn i32_field(x: i32) -> int {
    if x >= 0 {
        x as int
    } else {
        x + 0x1_0000_0000
    }
}

/// The signed value a 32-bit wire field stands for.
pub open spec fn i32_of_field(v: int) -> i32 {
    if v < 0x8000_0000 {
        v as i32
    } else {
        (v - 0x1_0000_0000) as i32
    }
}

pub proof fn lemma_i32_field_round_trip(x: i32)
    ensures
        0 <= i32_field(x) < 0x1_0000_0000,
        i32_of_field(i32_field(x)) == x,
{
}

/// Append the four-byte two's-complement form of `x` to `out`.
pub fn enc_i32(x: i32, out: &mut Vec<u8>)
    ensures
        final(out)@ == old(out)@ + le_bytes(i32_field(x), 4),
{
    proof {
        lemma_pow256_values();
        lemma_i32_field_round_trip(x);
    }
    let bits: u32 = if x >= 0 {
        x as u32
    } else {
        ((x as i64) + 0x1_0000_0000i64) as u32
    };
    enc_le(bits as u128, 4, out);
}

/// Read a four-byte two's-complement field at cursor `i`, advancing it.
pub fn rd_i32(b: &Vec<u8>, i: &mut usize) -> (r: Option<i32>)
    requires
        *old(i) <= b.len(),
    ensures
        r is None ==> sd_le(b@.skip(*old(i) as int), 4) is None,
        r matches Some(v) ==> *old(i) <= *final(i) <= b.len() && (sd_le(
            b@.skip(*old(i) as int),
            4,
        ) matches Some((w, rem)) && v == i32_of_field(w) && rem == b@.skip(*final(i) as int)),
{
    let bits: u32 = match rd_u32(b, i) {
        None => {
            return None;
        },
        Some(v) => v,
    };
    if bits < 0x8000_0000 {
        Some(bits as i32)
    } else {
        Some(((bits as i64) - 0x1_0000_0000i64) as i32)
    }
}

/// Parse an `AudioConfig` value from the front of `s`.
pub open spec fn sd_config(s: Seq<u8>) -> Option<(AudioConfigView, Seq<u8>)> {
    match sd_string(s) {
        None => None,
        Some((capture_device, s)) => match sd_string(s) {
            None => None,
            Some((playback_device, s)) => match sd_le(s, 4) {
                None => None,
                Some((sample_rate, s)) => match sd_le(s, 2) {
                    None => None,
                    Some((channels, s)) => match sd_le(s, 8) {
                        None => None,
                        Some((frame_size, s)) => if frame_size <= usize::MAX {
                            match sd_le(s, 1) {
                                None => None,
                                Some((scene, s)) => if scene == 0 || scene == 1 {
                                    match sd_le(s, 4) {
                                        None => None,
                                        Some((bitrate, s)) => match sd_bool(s) {
                                            None => None,
                                            Some((vbr, s)) => match sd_bool(s) {
                                                None => None,
                                                Some((fec, s)) => Some(
                                                    (
                                                        AudioConfigView {
                                                            capture_device,
                                                            playback_device,
                                                            sample_rate: sample_rate as u32,
                                                            channels: channels as u16,
                                                            frame_size: frame_size as usize,
                                                            audio_scene: if scene == 0 {
                                                                AudioScene::Music
                                                            } else {
                                                                AudioScene::Voice
                                                            },
                                                            bitrate: i32_of_field(bitrate),
                                                            vbr,
                                                            fec,
                                                        },
                                                        s,
                                                    ),
                                                ),
                                            },
                                        },
                                    }
                                } else {
                                    None
                                },
                            }
                        } else {
                            None
                        },
                    },
                },
            },
        },
    }
}

/// An encoded `AudioConfig` reads back as the value it was written from.
pub proof fn lemma_config_round_trip(v: AudioConfigView, rest: Seq<u8>)
    requires
        v.wf(),
    ensures
        sd_config(enc_config(v) + rest) == Some((v, rest)),
{
    lemma_pow256_values();
    lemma_i32_field_round_trip(v.bitrate);
    let r8 = bool_byte(v.fec) + rest;
    let r7 = bool_byte(v.vbr) + r8;
    let r6 = le_bytes(i32_field(v.bitrate), 4) + r7;
    let r5 = le_bytes(scene_code(v.audio_scene) as int, 1) + r6;
    let r4 = le_bytes(v.frame_size as int, 8) + r5;
    let r3 = le_bytes(v.channels as int, 2) + r4;
    let r2 = le_bytes(v.sample_rate as int, 4) + r3;
    let r1 = string_bytes(v.playback_device) + r2;
    assert(enc_config(v) + rest =~= string_bytes(v.capture_device) + r1);
    lemma_sd_string(v.capture_device, r1);
    assert(r1 =~= string_bytes(v.playback_device) + r2);
    lemma_sd_string(v.playback_device, r2);
    assert(r2 =~= le_bytes(v.sample_rate as int, 4) + r3);
    lemma_sd_le(v.sample_rate as int, 4, r3);
    assert(r3 =~= le_bytes(v.channels as int, 2) + r4);
    lemma_sd_le(v.channels as int, 2, r4);
    assert(r4 =~= le_bytes(v.frame_size as int, 8) + r5);
    lemma_sd_le(v.frame_size as int, 8, r5);
    assert(r5 =~= le_bytes(scene_code(v.audio_scene) as int, 1) + r6);
    lemma_sd_le(scene_code(v.audio_scene) as int, 1, r6);
    assert(r6 =~= le_bytes(i32_field(v.bitrate), 4) + r7);
    lemma_sd_le(i32_field(v.bitrate), 4, r7);
    assert(r7 =~= bool_byte(v.vbr) + r8);
    lemma_sd_bool(v.vbr, r8);
    assert(r8 =~= bool_byte(v.fec) + rest);
    lemma_sd_bool(v.fec, rest);
}

/// Append the wire form of `c` to `out`.
#[verifier::rlimit(40)]
pub fn enc_config_exec(c: &AudioConfig, out: &mut Vec<u8>)
    requires
        c@.wf(),
    ensures
        final(out)@ == old(out)@ + enc_config(c@),
{
    proof {
        lemma_pow256_values();
        lemma_i32_field_round_trip(c@.bitrate);
    }
    let ghost v = c@;
    enc_string(&c.capture_device, out);
    enc_string(&c.playback_device, out);
    assert(out@ =~= old(out)@ + (string_bytes(v.capture_device) + string_bytes(
        v.playback_device,
    )));
    enc_u32(c.sample_rate, out);
    assert(out@ =~= old(out)@ + (string_bytes(v.capture_device) + string_bytes(
        v.playback_device,
    ) + le_bytes(v.sample_rate as int, 4)));
    enc_u16(c.channels, out);
    enc_u64(c.frame_size as u64, out);
    assert(out@ =~= old(out)@ + (string_bytes(v.capture_device) + string_bytes(
        v.playback_device,
    ) + le_bytes(v.sample_rate as int, 4) + le_bytes(v.channels as int, 2) + le_bytes(
        v.frame_size as int,
        8,
    )));
    let scene: u8 = match c.audio_scene {
        AudioScene::Music => 0,
        AudioScene::Voice => 1,
    };
    enc_le(scene as u128, 1, out);
    let bits: u32 = if c.bitrate >= 0 {
        c.bitrate as u32
    } else {
        ((c.bitrate as i64) + 0x1_0000_0000i64) as u32
    };
    enc_u32(bits, out);
    assert(out@ =~= old(out)@ + (string_bytes(v.capture_device) + string_bytes(
        v.playback_device,
    ) + le_bytes(v.sample_rate as int, 4) + le_bytes(v.channels as int, 2) + le_bytes(
        v.frame_size as int,
        8,
    ) + le_bytes(scene_code(v.audio_scene) as int, 1) + le_bytes(i32_field(v.bitrate), 4)));
    enc_bool(c.vbr, out);
    enc_bool(c.fec, out);
    assert(out@ =~= old(out)@ + enc_config(c@));
}

/// Read an `AudioConfig` at cursor `i`, advancing it.
pub fn rd_config(b: &Vec<u8>, i: &mut usize) -> (r: Option<AudioConfig>)
    requires
        *old(i) <= b.len(),
    ensures
        r is None ==> sd_config(b@.skip(*old(i) as int)) is None,
        r matches Some(v) ==> *old(i) <= *final(i) <= b.len() && sd_config(
            b@.skip(*old(i) as int),
        ) == Some((v@, b@.skip(*final(i) as int))),
{
    let capture_device: String = match rd_string(b, i) {
        None => {
            return None;
        },
        Some(v) => v,
    };
    let playback_device: String = match rd_string(b, i) {
        None => {
            return None;
        },
        Some(v) => v,
    };
    let sample_rate: u32 = match rd_u32(b, i) {
        None => {
            return None;
        },
        Some(v) => v,
    };
    let channels: u16 = match rd_u16(b, i) {
        None => {
            return None;
        },
        Some(v) => v,
    };
    let frame_size64: u64 = match rd_u64(b, i) {
        None => {
            return None;
        },
        Some(v) => v,
    };
    if frame_size64 > usize::MAX as u64 {
        return None;
    }
    let scene_byte: u8 = match crate::encoding::rd_u8(b, i) {
        None => {
            return None;
        },
        Some(v) => v,
    };
    if scene_byte > 1 {
        return None;
    }
    let bits: u32 = match rd_u32(b, i) {
        None => {
            return None;
        },
        Some(v) => v,
    };
    let vbr: bool = match rd_bool(b, i) {
        None => {
            return None;
        },
        Some(v) => v,
    };
    let fec: bool = match rd_bool(b, i) {
        None => {
            return None;
        },
        Some(v) => v,
    };
    let bitrate: i32 = if bits < 0x8000_0000 {
        bits as i32
    } else {
        ((bits as i64) - 0x1_0000_0000i64) as i32
    };
    Some(
        AudioConfig {
            capture_device,
            playback_device,
            sample_rate,
            channels,
            frame_size: frame_size64 as usize,
            audio_scene: if scene_byte == 0 {
                AudioScene::Music
            } else {
                AudioScene::Voice
            },
            bitrate,
            vbr,
            fec,
        },
    )
}

/// Runtime check of the wire bounds that `enc_config` needs.
pub fn config_wf_check(c: &AudioConfig) -> (r: bool)
    ensures
        r == c@.wf(),
{
    (c.capture_device.as_str().unicode_len() as u64) < 0x1_0000_0000u64 && (
    c.playback_device.as_str().unicode_len() as u64) < 0x1_0000_0000u64
}

} // verus!
