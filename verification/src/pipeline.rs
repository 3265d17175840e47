//! The two audio pipeline cores.  Recording stamps each encoded frame
//! with a sequence number and a scheduled wall-clock timestamp and paces
//! the sender; playback runs arrivals through the jitter buffer and
//! releases them on the remote timeline.  Capture, encoding and device
//! output happen outside; these cores decide.

use vstd::prelude::*;
use crate::jitter::{JitterBuffer, JitterConfig, seq_after, zero_stats, has_ts, is_late,
    sorted_insert};
use crate::protocol::{AudioPacket, AudioPacketView, MAX_AUDIO_PAYLOAD};

verus! {

/// How long an outgoing packet may lead the wall clock before the sender
/// pauses, in microseconds.
pub const MAX_LEAD_US: u64 = 1_000_000;

/// The record pipeline's state: where the stream started on the
/// synchronized clock, how long a frame lasts, and the next sequence
/// number.
#[derive(Debug, Clone, Copy, PartialEq, Eq, Structural)]
pub struct RecordPipeline {
    /// Timestamp of frame zero, in microseconds.
    pub start_ts: u64,
    /// Duration of one frame, in microseconds.
    pub frame_duration_us: u64,
    /// Sequence number of the next frame.
    pub seq: u32,
}

impl RecordPipeline {
    /// A pipeline whose first frame is scheduled at `start_ts`.
    pub fn new(start_ts: u64, frame_duration_us: u64) -> (r: RecordPipeline)
        ensures
            r.start_ts == start_ts,
            r.frame_duration_us == frame_duration_us,
            r.seq == 0,
    {
        RecordPipeline { start_ts, frame_duration_us, seq: 0 }
    }

    /// The scheduled timestamp of the next frame:
    /// `start + seq * frame_duration`.
    pub fn next_timestamp(&self) -> (r: u128)
        ensures
            r == self.start_ts + self.seq * self.frame_duration_us,
    {
        proof {
            assert((self.seq as int) * (self.frame_duration_us as int)
                < 0x1_0000_0000_0000_0000_0000_0000) by (nonlinear_arith)
                requires
                    self.seq <= 0xFFFF_FFFFu32,
                    self.frame_duration_us <= 0xFFFF_FFFF_FFFF_FFFFu64,
            ;
        }
        (self.start_ts as u128) + (self.seq as u128) * (self.frame_duration_us as u128)
    }

    /// Wrap one encoded frame into a packet: the current sequence number
    /// and scheduled timestamp, then advance the sequence.
    pub fn next_packet(&mut self, payload: Vec<u8>) -> (r: AudioPacket)
        requires
            payload@.len() <= MAX_AUDIO_PAYLOAD,
        ensures
            r@.seq == old(self).seq,
            r@.timestamp == old(self).start_ts + old(self).seq * old(self).frame_duration_us,
            r@.data == payload@,
            r@.wf(),
            final(self).seq == seq_after(old(self).seq),
            final(self).start_ts == old(self).start_ts,
            final(self).frame_duration_us == old(self).frame_duration_us,
    {
        let ts: u128 = self.next_timestamp();
        let seq: u32 = self.seq;
        self.seq = if self.seq == u32::MAX {
            0
        } else {
            self.seq + 1
        };
        AudioPacket { seq, timestamp: ts, data: payload }
    }
}

/// How many milliseconds the sender sleeps before the next frame: zero
/// while the scheduled time is within the lead window, else the excess
/// lead in milliseconds, but at most 100 ms.
pub fn pace_delay_ms(target_ts: u128, now_us: u128, max_lead_us: u64) -> (r: u64)
    ensures
        target_ts <= now_us + max_lead_us ==> r == 0,
        target_ts > now_us + max_lead_us ==> {
            let excess_ms = (target_ts - now_us - max_lead_us) / 1000;
            r == (if excess_ms > 100 {
                100int
            } else {
                excess_ms
            })
        },
{
    if target_ts <= now_us {
        return 0;
    }
    let lead: u128 = target_ts - now_us;
    if lead <= max_lead_us as u128 {
        0
    } else {
        let excess_ms: u128 = (lead - max_lead_us as u128) / 1000;
        if excess_ms > 100 {
            100
        } else {
            excess_ms as u64
        }
    }
}

/// The playback pipeline's state: the jitter buffer that reorders and
/// paces what the network delivers.
#[derive(Debug)]
pub struct PlaybackPipeline {
    /// The reordering buffer; packets come out in strictly increasing
    /// timestamp order.
    pub jitter: JitterBuffer,
}

impl PlaybackPipeline {
    pub open spec fn wf(self) -> bool {
        self.jitter.wf()
    }

    /// A pipeline with a fresh jitter buffer under the given settings.
    pub fn new(config: JitterConfig) -> (r: PlaybackPipeline)
        ensures
            r.wf(),
            r.jitter.packets() == Seq::<AudioPacketView>::empty(),
            r.jitter.stats_spec() == zero_stats(),
            r.jitter.config_spec() == config,
    {
        PlaybackPipeline { jitter: JitterBuffer::new(config) }
    }

    /// Take one datagram in; `arrival_remote_us` is the arrival time
    /// mapped onto the sender's clock.  Exactly the jitter buffer's
    /// acceptance rules apply.
    pub fn on_packet(&mut self, packet: AudioPacket, arrival_remote_us: u128)
        requires
            old(self).wf(),
        ensures
            final(self).wf(),
            final(self).jitter.last_played() == old(self).jitter.last_played(),
            !has_ts(old(self).jitter.packets(), packet@.timestamp) && !is_late(
                old(self).jitter,
                packet@,
                arrival_remote_us,
            ) ==> final(self).jitter.packets() == sorted_insert(
                old(self).jitter.packets(),
                packet@,
            ),
            has_ts(old(self).jitter.packets(), packet@.timestamp) || is_late(
                old(self).jitter,
                packet@,
                arrival_remote_us,
            ) ==> final(self).jitter.packets() == old(self).jitter.packets(),
    {
        self.jitter.push(packet, arrival_remote_us);
    }

    /// The next packet due for decoding at the given remote-clock time,
    /// if the buffer is deep enough and its earliest packet is due.
    pub fn next_due(&mut self, now_remote_us: u128) -> (r: Option<AudioPacket>)
        requires
            old(self).wf(),
        ensures
            final(self).wf(),
            r is None ==> *final(self) == *old(self),
            r matches Some(p) ==> p@ == old(self).jitter.packets()[0] && final(self).jitter.packets() == old(self).jitter.packets().skip(1) && p@.timestamp
                <= now_remote_us,
            r matches Some(p) ==> (old(self).jitter.stats_spec().played > 0 ==> p@.timestamp
                > old(self).jitter.last_played()),
    {
        self.jitter.pop(now_remote_us)
    }
}

} // verus!
