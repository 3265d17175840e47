//! Clock synchronization: a smoothed estimate of the peer clock's offset,
//! fed by heartbeat round trips, with conversions between the local and
//! the remote timeline.

use vstd::prelude::*;

verus! {

/// Offsets stay within twice the 64-bit clock span; fresh samples are
/// always within one span, and blending never leaves this range.
pub open spec fn offset_in_range(offset: int) -> bool {
    -0x2_0000_0000_0000_0000 <= offset <= 0x2_0000_0000_0000_0000
}

/// The estimated offset of the remote clock against the local one, in
/// microseconds, with the lowest round-trip time seen and the time of the
/// last sample.
#[derive(Debug, Clone, Copy, PartialEq, Eq, Structural)]
pub struct ClockState {
    /// Estimate of remote minus local, in microseconds.
    pub offset_us: i128,
    /// Lowest round-trip time seen, in microseconds.
    pub min_rtt_us: u128,
    /// Local time of the last accepted sample, in microseconds.
    pub last_sample_ts: u64,
}

/// The raw offset a single ping/pong round trip suggests: the average of
/// the two one-way clock differences.
pub open spec fn sample_offset(t1: u64, t2: u64, t4: u64) -> int {
    ((t2 - t1) + (t2 - t4)) / 2
}

/// One eighth of the fresh sample blended into the running estimate.
pub open spec fn blended_offset(current: int, sample: int) -> int {
    (7 * current + sample) / 8
}

/// The state after feeding one ping/pong round trip: ignored when the
/// pong precedes its ping; wholesale replacement on a record-low round
/// trip; otherwise a 1/8 blend.
pub open spec fn clock_after_pong(c: ClockState, t1: u64, t2: u64, t4: u64) -> ClockState {
    if t4 < t1 {
        c
    } else {
        let rtt = (t4 - t1) as u128;
        if rtt < c.min_rtt_us {
            ClockState {
                offset_us: sample_offset(t1, t2, t4) as i128,
                min_rtt_us: rtt,
                last_sample_ts: t4,
            }
        } else {
            ClockState {
                offset_us: blended_offset(c.offset_us as int, sample_offset(t1, t2, t4)) as i128,
                min_rtt_us: c.min_rtt_us,
                last_sample_ts: t4,
            }
        }
    }
}

/// Floor division of `x` by 8, matching the spec-level `/ 8`.
fn div8_floor(x: i128) -> (r: i128)
    requires
        -0x1_0000_0000_0000_0000_0000 < x < 0x1_0000_0000_0000_0000_0000,
    ensures
        r == x as int / 8,
{
    if x >= 0 {
        x / 8
    } else {
        let up: i128 = -x + 7;
        -(up / 8)
    }
}

impl ClockState {
    /// No estimate yet: offset zero, no round trip seen.
    pub fn new() -> (r: ClockState)
        ensures
            r.offset_us == 0,
            r.min_rtt_us == u128::MAX,
            r.last_sample_ts == 0,
            offset_in_range(r.offset_us as int),
    {
        ClockState { offset_us: 0, min_rtt_us: u128::MAX, last_sample_ts: 0 }
    }

    /// Whether this state's offset is inside one clock span, as every
    /// state built from samples is.
    pub open spec fn wf(self) -> bool {
        offset_in_range(self.offset_us as int)
    }

    /// Feed one ping/pong round trip: `t1` when the ping left (local),
    /// `t2` when the peer answered (remote), `t4` when the pong arrived
    /// (local).  A round trip faster than any before replaces the
    /// estimate wholesale; a slower one is blended in with weight 1/8.
    /// A pong that seems to arrive before its ping left is ignored.
    pub fn on_pong(&mut self, t1: u64, t2: u64, t4: u64)
        requires
            old(self).wf(),
        ensures
            final(self).wf(),
            *final(self) == clock_after_pong(*old(self), t1, t2, t4),
            t4 < t1 ==> *final(self) == *old(self),
            t4 >= t1 ==> {
                let rtt = (t4 - t1) as u128;
                &&& final(self).last_sample_ts == t4
                &&& (rtt < old(self).min_rtt_us ==> final(self).offset_us == sample_offset(
                    t1,
                    t2,
                    t4,
                ) && final(self).min_rtt_us == rtt)
                &&& (rtt >= old(self).min_rtt_us ==> final(self).offset_us == blended_offset(
                    old(self).offset_us as int,
                    sample_offset(t1, t2, t4),
                ) && final(self).min_rtt_us == old(self).min_rtt_us)
            },
    {
        if t4 < t1 {
            return;
        }
        let rtt: u128 = (t4 - t1) as u128;
        let num: i128 = (2 * (t2 as i128) - t1 as i128) - t4 as i128;
        let sample: i128 = if num >= 0 {
            num / 2
        } else {
            -((-num + 1) / 2)
        };
        proof {
            assert(sample == sample_offset(t1, t2, t4));
            assert(-0x1_0000_0000_0000_0000 < sample < 0x1_0000_0000_0000_0000);
        }
        if rtt < self.min_rtt_us {
            self.offset_us = sample;
            self.min_rtt_us = rtt;
        } else {
            let blended: i128 = div8_floor(7 * self.offset_us + sample);
            self.offset_us = blended;
        }
        self.last_sample_ts = t4;
    }

    /// A local time on the remote timeline.
    pub fn to_remote(&self, local_us: u64) -> (r: u64)
        requires
            0 <= local_us + self.offset_us,
            local_us + self.offset_us <= u64::MAX,
        ensures
            r == local_us + self.offset_us,
    {
        ((local_us as i128) + self.offset_us) as u64
    }

    /// A remote time on the local timeline.
    pub fn to_local(&self, remote_us: u64) -> (r: u64)
        requires
            0 <= remote_us - self.offset_us,
            remote_us - self.offset_us <= u64::MAX,
        ensures
            r == remote_us - self.offset_us,
    {
        ((remote_us as i128) - self.offset_us) as u64
    }
}

/// While the offset estimate stands still, mapping a remote time to the
/// local timeline and back returns it unchanged: with `to_local` giving
/// `t - offset` and `to_remote` giving `local + offset`, the two cancel.
pub proof fn lemma_clock_round_trip(offset: int, t: u64)
    requires
        0 <= t - offset <= u64::MAX,
    ensures
        (t - offset) + offset == t,
{
}

} // verus!
