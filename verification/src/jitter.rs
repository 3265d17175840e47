//! The jitter buffer: reorders audio packets by timestamp, drops
//! duplicates and late arrivals, counts losses from sequence gaps, and
//! adapts its target depth to the observed delay spread.
//!
//! Packets leave the buffer in strictly increasing timestamp order: a
//! packet is never released at or below the timestamp last released.

use vstd::prelude::*;
use crate::protocol::{AudioPacket, AudioPacketView};

verus! {

/// Running counters and delay statistics of one jitter buffer.
#[derive(Debug, Clone, Copy, PartialEq, Eq, Structural)]
pub struct JitterStats {
    /// Packets accepted into the buffer.
    pub received: u64,
    /// Packets inferred missing from sequence gaps.
    pub lost: u64,
    /// Packets released for playback.
    pub played: u64,
    /// Packets dropped as too old to play.
    pub late: u64,
    /// Packets dropped because their timestamp was already buffered.
    pub duplicate: u64,
    /// Packets currently buffered.
    pub buffer_size: usize,
    /// Smallest scheduling headroom seen, in microseconds.
    pub min_delay: u128,
    /// Largest scheduling headroom seen, in microseconds.
    pub max_delay: u128,
    /// Smoothed scheduling headroom, in microseconds.
    pub avg_delay: u128,
}

/// All-zero statistics.
pub open spec fn zero_stats() -> JitterStats {
    JitterStats {
        received: 0,
        lost: 0,
        played: 0,
        late: 0,
        duplicate: 0,
        buffer_size: 0,
        min_delay: 0,
        max_delay: 0,
        avg_delay: 0,
    }
}

impl Default for JitterStats {
    fn default() -> (r: JitterStats)
        ensures
            r == zero_stats(),
    {
        JitterStats {
            received: 0,
            lost: 0,
            played: 0,
            late: 0,
            duplicate: 0,
            buffer_size: 0,
            min_delay: 0,
            max_delay: 0,
            avg_delay: 0,
        }
    }
}

/// Sizing and tolerance settings of a jitter buffer.
#[derive(Debug, Clone, Copy, PartialEq, Eq, Structural)]
pub struct JitterConfig {
    /// Depth at which draining may begin even below target.
    pub min_buffer_size: usize,
    /// Largest depth the adaptive target may reach.
    pub max_buffer_size: usize,
    /// Depth the buffer tries to hold before releasing.
    pub target_buffer_size: usize,
    /// Accepted packets between two target recomputations.
    pub adapt_interval: usize,
    /// Largest acceptable age of a packet on arrival, in microseconds.
    pub max_tolerable_delay: u128,
}

impl Default for JitterConfig {
    /// Stock settings: depth 2 to 20, target 5, adapt every 50 packets,
    /// tolerate 100 ms.
    fn default() -> (r: JitterConfig)
        ensures
            r.min_buffer_size == 2,
            r.max_buffer_size == 20,
            r.target_buffer_size == 5,
            r.adapt_interval == 50,
            r.max_tolerable_delay == 100_000,
    {
        JitterConfig {
            min_buffer_size: 2,
            max_buffer_size: 20,
            target_buffer_size: 5,
            adapt_interval: 50,
            max_tolerable_delay: 100_000,
        }
    }
}

/// Add with a ceiling at `u64::MAX`.
pub open spec fn sat_add64(a: u64, b: int) -> u64 {
    if a + b > u64::MAX {
        u64::MAX
    } else {
        (a + b) as u64
    }
}

/// The scheduling headroom of a packet: how far ahead of its arrival its
/// playback time lies.  A packet arriving after its playback time has
/// headroom zero.
pub open spec fn delay_of(ts: u128, arrival: u128) -> u128 {
    if ts >= arrival {
        (ts - arrival) as u128
    } else {
        0
    }
}

/// Delay values are recorded with a ceiling at `u64::MAX` microseconds.
pub open spec fn cap_delay(d: u128) -> u64 {
    if d > u64::MAX {
        u64::MAX
    } else {
        d as u64
    }
}

/// Statistics after recording one delay sample: first sample seeds the
/// extremes; later samples keep a 9/10 moving average.
pub open spec fn stats_with_delay(st: JitterStats, d: u64) -> JitterStats {
    if st.received == 0 {
        JitterStats { min_delay: d as u128, max_delay: d as u128, avg_delay: d as u128, ..st }
    } else {
        JitterStats {
            min_delay: if d < st.min_delay {
                d as u128
            } else {
                st.min_delay
            },
            max_delay: if d > st.max_delay {
                d as u128
            } else {
                st.max_delay
            },
            avg_delay: ((st.avg_delay * 9 + d) / 10) as u128,
            ..st
        }
    }
}

/// The rolling delay window holds the most recent 100 samples.
pub open spec fn window_push(w: Seq<u64>, d: u64) -> Seq<u64> {
    if w.len() >= 100 {
        w.push(d).skip(1)
    } else {
        w.push(d)
    }
}

/// A delay clamped to 32 bits for squaring; above that the spread is
/// saturated anyway.
pub open spec fn clamp32(d: int) -> int {
    if d > 0xFFFF_FFFF {
        0xFFFF_FFFF
    } else {
        d
    }
}

/// Sum of squared deviations of the window from the average.
pub open spec fn sum_sq_dev(w: Seq<u64>, avg: u128) -> int
    decreases w.len(),
{
    if w.len() == 0 {
        0
    } else {
        let diff = clamp32(w[0] as int) - clamp32(avg as int);
        diff * diff + sum_sq_dev(w.skip(1), avg)
    }
}

/// The adapted target depth: grow by two under high delay spread (over
/// 50 ms standard deviation), shrink by one under low spread (under
/// 10 ms), clamped between the configured bounds.  Fewer than ten samples
/// leave the target alone.
pub open spec fn adapted_target(cfg: JitterConfig, w: Seq<u64>, avg: u128) -> usize {
    if w.len() < 10 {
        cfg.target_buffer_size
    } else {
        let t = if sum_sq_dev(w, avg) > w.len() * 2_500_000_000 {
            cfg.target_buffer_size + 2
        } else if sum_sq_dev(w, avg) < w.len() * 100_000_000 {
            if cfg.target_buffer_size > 0 {
                cfg.target_buffer_size - 1
            } else {
                0
            }
        } else {
            cfg.target_buffer_size as int
        };
        let lo = if t < cfg.min_buffer_size {
            cfg.min_buffer_size as int
        } else {
            t
        };
        if lo > cfg.max_buffer_size {
            cfg.max_buffer_size
        } else {
            lo as usize
        }
    }
}

/// The wrapped distance from `expected` up to `seq`.
pub open spec fn seq_gap(seq: u32, expected: u32) -> u32 {
    if seq >= expected {
        (seq - expected) as u32
    } else {
        (seq + 0x1_0000_0000 - expected) as u32
    }
}

/// The sequence number after `seq`, wrapping at 32 bits.
pub open spec fn seq_after(seq: u32) -> u32 {
    if seq == u32::MAX {
        0
    } else {
        (seq + 1) as u32
    }
}

/// Whether some buffered packet already has this timestamp.
pub open spec fn has_ts(s: Seq<AudioPacketView>, ts: u128) -> bool {
    exists|j: int| 0 <= j < s.len() && s[j].timestamp == ts
}

/// A packet sequence in strictly increasing timestamp order.
pub open spec fn ts_sorted(s: Seq<AudioPacketView>) -> bool {
    forall|i: int, j: int| 0 <= i < j < s.len() ==> s[i].timestamp < s[j].timestamp
}

/// `p` placed at its timestamp position in an ordered packet sequence.
pub open spec fn sorted_insert(s: Seq<AudioPacketView>, p: AudioPacketView) -> Seq<
    AudioPacketView,
>
    decreases s.len(),
{
    if s.len() == 0 {
        seq![p]
    } else if p.timestamp < s[0].timestamp {
        seq![p] + s
    } else {
        seq![s[0]] + sorted_insert(s.skip(1), p)
    }
}

/// Reorders, deduplicates and paces audio packets; see the module
/// description.
#[derive(Debug)]
pub struct JitterBuffer {
    config: JitterConfig,
    buffer: Vec<AudioPacket>,
    stats: JitterStats,
    expected_seq: u32,
    first_packet_received: bool,
    delay_samples: Vec<u64>,
    adapt_counter: usize,
    last_played_timestamp: u128,
}

impl JitterBuffer {
    /// The buffered packets, earliest timestamp first.
    pub closed spec fn packets(self) -> Seq<AudioPacketView> {
        Seq::new(self.buffer@.len(), |i: int| self.buffer@[i]@)
    }

    /// The current statistics.
    pub closed spec fn stats_spec(self) -> JitterStats {
        self.stats
    }

    /// The current settings, including the adapted target depth.
    pub closed spec fn config_spec(self) -> JitterConfig {
        self.config
    }

    /// Timestamp of the packet most recently released.
    pub closed spec fn last_played(self) -> u128 {
        self.last_played_timestamp
    }

    /// The sequence number the next packet is expected to carry.
    pub closed spec fn expected_seq_spec(self) -> u32 {
        self.expected_seq
    }

    /// Whether any packet has ever been accepted.
    pub closed spec fn first_received(self) -> bool {
        self.first_packet_received
    }

    /// The rolling delay window.
    pub closed spec fn delay_window(self) -> Seq<u64> {
        self.delay_samples@
    }

    /// Accepted packets since the target depth was last recomputed.
    pub closed spec fn adapt_count(self) -> usize {
        self.adapt_counter
    }

    /// The structural invariant: contents strictly ordered by timestamp,
    /// everything buffered strictly newer than the last released packet,
    /// counters consistent, and the rolling window bounded.
    pub closed spec fn wf(self) -> bool {
        &&& ts_sorted(self.packets())
        &&& self.stats.played > 0 ==> forall|i: int|
            0 <= i < self.packets().len() ==> self.packets()[i].timestamp
                > self.last_played_timestamp
        &&& self.stats.buffer_size == self.buffer@.len()
        &&& self.delay_samples@.len() <= 100
        &&& (self.adapt_counter == 0 || self.adapt_counter < self.config.adapt_interval)
        &&& self.stats.min_delay <= u64::MAX
        &&& self.stats.max_delay <= u64::MAX
        &&& self.stats.avg_delay <= u64::MAX
    }

    /// A fresh, empty buffer with the given settings.
    pub fn new(config: JitterConfig) -> (r: JitterBuffer)
        ensures
            r.wf(),
            r.packets() == Seq::<AudioPacketView>::empty(),
            r.stats_spec() == zero_stats(),
            r.config_spec() == config,
            r.last_played() == 0,
            !r.first_received(),
            r.delay_window() == Seq::<u64>::empty(),
            r.adapt_count() == 0,
    {
        let r = JitterBuffer {
            config,
            buffer: Vec::new(),
            stats: JitterStats::default(),
            expected_seq: 0,
            first_packet_received: false,
            delay_samples: Vec::new(),
            adapt_counter: 0,
            last_played_timestamp: 0,
        };
        proof {
            assert(r.packets() =~= Seq::<AudioPacketView>::empty());
        }
        r
    }

    /// A fresh, empty buffer with the stock settings.
    pub fn default() -> (r: JitterBuffer)
        ensures
            r.wf(),
            r.packets() == Seq::<AudioPacketView>::empty(),
            r.stats_spec() == zero_stats(),
            r.config_spec().min_buffer_size == 2,
            r.config_spec().max_buffer_size == 20,
            r.config_spec().target_buffer_size == 5,
            r.config_spec().adapt_interval == 50,
            r.config_spec().max_tolerable_delay == 100_000,
            r.last_played() == 0,
            !r.first_received(),
    {
        JitterBuffer::new(JitterConfig::default())
    }

    /// How many packets are buffered.
    pub fn len(&self) -> (r: usize)
        ensures
            r == self.packets().len(),
    {
        self.buffer.len()
    }

    /// Whether no packet is buffered.
    pub fn is_empty(&self) -> (r: bool)
        ensures
            r == (self.packets().len() == 0),
    {
        self.buffer.len() == 0
    }

    /// The current statistics.
    pub fn stats(&self) -> (r: &JitterStats)
        ensures
            r == self.stats_spec(),
    {
        &self.stats
    }

    /// Timestamp of the earliest buffered packet, without removing it.
    pub fn peek_next_timestamp(&self) -> (r: Option<u128>)
        ensures
            self.packets().len() == 0 ==> r is None,
            self.packets().len() > 0 ==> r == Some(self.packets()[0].timestamp),
    {
        if self.buffer.len() == 0 {
            None
        } else {
            Some(self.buffer[0].timestamp)
        }
    }

    /// Zero the counters; the buffered packets stay, and `buffer_size`
    /// keeps tracking them.
    pub fn reset_stats(&mut self)
        requires
            old(self).wf(),
        ensures
            final(self).wf(),
            final(self).packets() == old(self).packets(),
            final(self).stats_spec() == (JitterStats {
                buffer_size: old(self).packets().len() as usize,
                ..zero_stats()
            }),
            final(self).config_spec() == old(self).config_spec(),
            final(self).last_played() == old(self).last_played(),
            final(self).first_received() == old(self).first_received(),
            final(self).expected_seq_spec() == old(self).expected_seq_spec(),
    {
        let n: usize = self.buffer.len();
        self.stats = JitterStats::default();
        self.stats.buffer_size = n;
        assert(final(self).packets() =~= old(self).packets());
    }

    /// Drop every buffered packet and forget the playback position; the
    /// counters other than `buffer_size` stay.
    pub fn clear(&mut self)
        requires
            old(self).wf(),
        ensures
            final(self).wf(),
            final(self).packets() == Seq::<AudioPacketView>::empty(),
            final(self).stats_spec() == (JitterStats {
                buffer_size: 0,
                ..old(self).stats_spec()
            }),
            final(self).last_played() == 0,
            !final(self).first_received(),
            final(self).config_spec() == old(self).config_spec(),
    {
        self.buffer.clear();
        self.stats.buffer_size = 0;
        self.first_packet_received = false;
        self.last_played_timestamp = 0;
        assert(final(self).packets() =~= Seq::<AudioPacketView>::empty());
    }

    /// Whether the buffer may drain below its target depth: it holds at
    /// least the minimum depth.
    pub fn should_drain(&self) -> (r: bool)
        ensures
            r == (self.packets().len() > 0 && self.packets().len()
                >= self.config_spec().min_buffer_size),
    {
        self.buffer.len() > 0 && self.buffer.len() >= self.config.min_buffer_size
    }
}

/// Whether a packet arrives too old to play: at or before the last
/// released timestamp once something has played, or more than the
/// tolerable delay after its own playback time.
pub open spec fn is_late(old_buf: JitterBuffer, p: AudioPacketView, arrival: u128) -> bool {
    (old_buf.stats_spec().played > 0 && p.timestamp <= old_buf.last_played()) || arrival
        > p.timestamp + old_buf.config_spec().max_tolerable_delay
}

/// The loss counter after seeing sequence number `seq`: a wrapped gap
/// strictly between 0 and 1000 counts as that many lost packets.
pub open spec fn lost_after(old_buf: JitterBuffer, seq: u32) -> u64 {
    if !old_buf.first_received() {
        old_buf.stats_spec().lost
    } else {
        let g = seq_gap(seq, old_buf.expected_seq_spec());
        if 0 < g < 1000 {
            sat_add64(old_buf.stats_spec().lost, g as int)
        } else {
            old_buf.stats_spec().lost
        }
    }
}

/// `sorted_insert` places `p` exactly at the position where everything
/// before is older and everything after is newer.
proof fn lemma_sorted_insert_at(s: Seq<AudioPacketView>, p: AudioPacketView, idx: int)
    requires
        0 <= idx <= s.len(),
        forall|k: int| 0 <= k < idx ==> s[k].timestamp < p.timestamp,
        forall|k: int| idx <= k < s.len() ==> s[k].timestamp > p.timestamp,
    ensures
        sorted_insert(s, p) == s.insert(idx, p),
    decreases idx,
{
    if idx == 0 {
        if s.len() == 0 {
            assert(sorted_insert(s, p) =~= s.insert(0, p));
        } else {
            assert(p.timestamp < s[0].timestamp);
            assert(seq![p] + s =~= s.insert(0, p));
        }
    } else {
        assert(s[0].timestamp < p.timestamp);
        lemma_sorted_insert_at(s.skip(1), p, idx - 1);
        assert(seq![s[0]] + s.skip(1).insert(idx - 1, p) =~= s.insert(idx, p));
    }
}

impl JitterBuffer {
    /// Record one delay sample: update the extremes and the moving
    /// average, and roll the sample window.
    fn update_delay_stats(&mut self, delay: u128)
        requires
            old(self).wf(),
        ensures
            final(self).wf(),
            final(self).stats_spec() == stats_with_delay(
                old(self).stats_spec(),
                cap_delay(delay),
            ),
            final(self).delay_window() == window_push(old(self).delay_window(), cap_delay(delay)),
            final(self).packets() == old(self).packets(),
            final(self).config_spec() == old(self).config_spec(),
            final(self).last_played() == old(self).last_played(),
            final(self).first_received() == old(self).first_received(),
            final(self).expected_seq_spec() == old(self).expected_seq_spec(),
            final(self).adapt_count() == old(self).adapt_count(),
    {
        let d: u64 = if delay > u64::MAX as u128 {
            u64::MAX
        } else {
            delay as u64
        };
        if self.stats.received == 0 {
            self.stats.min_delay = d as u128;
            self.stats.max_delay = d as u128;
            self.stats.avg_delay = d as u128;
        } else {
            if (d as u128) < self.stats.min_delay {
                self.stats.min_delay = d as u128;
            }
            if (d as u128) > self.stats.max_delay {
                self.stats.max_delay = d as u128;
            }
            self.stats.avg_delay = (self.stats.avg_delay * 9 + d as u128) / 10;
        }
        self.delay_samples.push(d);
        if self.delay_samples.len() > 100 {
            self.delay_samples.remove(0);
            assert(self.delay_window() =~= window_push(
                old(self).delay_window(),
                cap_delay(delay),
            ));
        }
        assert(self.packets() =~= old(self).packets());
    }

    /// Recompute the target depth from the delay spread of the window.
    fn adapt_buffer_size(&mut self)
        requires
            old(self).wf(),
        ensures
            final(self).wf(),
            final(self).config_spec() == (JitterConfig {
                target_buffer_size: adapted_target(
                    old(self).config_spec(),
                    old(self).delay_window(),
                    old(self).stats_spec().avg_delay,
                ),
                ..old(self).config_spec()
            }),
            final(self).packets() == old(self).packets(),
            final(self).stats_spec() == old(self).stats_spec(),
            final(self).delay_window() == old(self).delay_window(),
            final(self).last_played() == old(self).last_played(),
            final(self).first_received() == old(self).first_received(),
            final(self).expected_seq_spec() == old(self).expected_seq_spec(),
            final(self).adapt_count() == old(self).adapt_count(),
    {
        if self.delay_samples.len() < 10 {
            return;
        }
        let ghost w = self.delay_samples@;
        let ghost avg = self.stats.avg_delay;
        let ca: u128 = if self.stats.avg_delay > 0xFFFF_FFFFu128 {
            0xFFFF_FFFF
        } else {
            self.stats.avg_delay
        };
        let mut sum: u128 = 0;
        let mut k: usize = 0;
        proof {
            assert(w.skip(0) =~= w);
        }
        #[verifier::loop_isolation(false)]
        while k < self.delay_samples.len()
            invariant
                k <= self.delay_samples.len(),
                sum + sum_sq_dev(w.skip(k as int), avg) == sum_sq_dev(w, avg),
                sum <= k * 0x1_0000_0000_0000_0000,
            decreases self.delay_samples.len() - k,
        {
            let s: u64 = self.delay_samples[k];
            let cd: u128 = if s > 0xFFFF_FFFFu64 {
                0xFFFF_FFFF
            } else {
                s as u128
            };
            let diff: u128 = if cd >= ca {
                cd - ca
            } else {
                ca - cd
            };
            proof {
                assert(w.skip(k as int)[0] == w[k as int]);
                assert(w.skip(k as int).skip(1) =~= w.skip(k as int + 1));
                let a = clamp32(w[k as int] as int);
                let b = clamp32(avg as int);
                assert(diff == if a >= b {
                    a - b
                } else {
                    b - a
                });
                assert((a - b) * (a - b) == diff * diff) by (nonlinear_arith)
                    requires
                        diff == if a >= b {
                            a - b
                        } else {
                            b - a
                        },
                ;
                assert(diff <= 0xFFFF_FFFF);
                assert(diff * diff <= 0xFFFF_FFFF * 0xFFFF_FFFF) by (nonlinear_arith)
                    requires
                        0 <= diff <= 0xFFFF_FFFF,
                ;
            }
            sum = sum + diff * diff;
            k = k + 1;
        }
        proof {
            assert(w.skip(w.len() as int) =~= Seq::<u64>::empty());
            assert(sum == sum_sq_dev(w, avg));
        }
        let n: u128 = self.delay_samples.len() as u128;
        let base: u128 = self.config.target_buffer_size as u128;
        let t: u128 = if sum > n * 2_500_000_000u128 {
            base + 2
        } else if sum < n * 100_000_000u128 {
            if base > 0 {
                base - 1
            } else {
                0
            }
        } else {
            base
        };
        let lo: u128 = if t < self.config.min_buffer_size as u128 {
            self.config.min_buffer_size as u128
        } else {
            t
        };
        let clamped: u128 = if lo > self.config.max_buffer_size as u128 {
            self.config.max_buffer_size as u128
        } else {
            lo
        };
        self.config.target_buffer_size = clamped as usize;
    }

    /// Take one packet in: drop duplicates and late arrivals, track the
    /// sequence numbers for loss detection, insert in timestamp order,
    /// and every `adapt_interval` accepted packets recompute the target
    /// depth.
    #[verifier::rlimit(100)]
    #[verifier::spinoff_prover]
    pub fn push(&mut self, packet: AudioPacket, arrival_time: u128)
        requires
            old(self).wf(),
        ensures
            final(self).wf(),
            final(self).last_played() == old(self).last_played(),
            // A timestamp already buffered: counted as a duplicate,
            // nothing else changes.
            has_ts(old(self).packets(), packet@.timestamp) ==> final(self).packets() == old(self).packets() && final(self).stats_spec() == (JitterStats {
                duplicate: sat_add64(old(self).stats_spec().duplicate, 1),
                ..old(self).stats_spec()
            }) && final(self).config_spec() == old(self).config_spec() && final(self).expected_seq_spec() == old(self).expected_seq_spec() && final(self).first_received()
                == old(self).first_received(),
            // Not a duplicate: the sequence tracking always advances.
            !has_ts(old(self).packets(), packet@.timestamp) ==> final(self).expected_seq_spec()
                == seq_after(packet@.seq) && final(self).first_received() && final(self).stats_spec().lost == lost_after(*old(self), packet@.seq),
            // Late: counted, dropped, nothing buffered.
            !has_ts(old(self).packets(), packet@.timestamp) && is_late(
                *old(self),
                packet@,
                arrival_time,
            ) ==> final(self).packets() == old(self).packets() && final(self).stats_spec()
                == (JitterStats {
                late: sat_add64(old(self).stats_spec().late, 1),
                lost: lost_after(*old(self), packet@.seq),
                ..old(self).stats_spec()
            }) && final(self).config_spec() == old(self).config_spec(),
            // Accepted: inserted at its timestamp position, the delay
            // statistics take a sample, and the target depth may adapt.
            !has_ts(old(self).packets(), packet@.timestamp) && !is_late(
                *old(self),
                packet@,
                arrival_time,
            ) ==> {
                let d = cap_delay(delay_of(packet@.timestamp, arrival_time));
                let st1 = stats_with_delay(old(self).stats_spec(), d);
                let w1 = window_push(old(self).delay_window(), d);
                &&& final(self).packets() == sorted_insert(old(self).packets(), packet@)
                &&& final(self).stats_spec() == (JitterStats {
                    received: sat_add64(st1.received, 1),
                    lost: lost_after(*old(self), packet@.seq),
                    buffer_size: (old(self).packets().len() + 1) as usize,
                    ..st1
                })
                &&& final(self).delay_window() == w1
                &&& final(self).config_spec() == (JitterConfig {
                    target_buffer_size: if old(self).adapt_count() + 1
                        >= old(self).config_spec().adapt_interval {
                        adapted_target(old(self).config_spec(), w1, st1.avg_delay)
                    } else {
                        old(self).config_spec().target_buffer_size
                    },
                    ..old(self).config_spec()
                })
            },
    {
        let ghost old_packets = self.packets();
        // Duplicate scan.
        let mut j: usize = 0;
        #[verifier::loop_isolation(false)]
        while j < self.buffer.len()
            invariant
                j <= self.buffer.len(),
                forall|k: int| 0 <= k < j ==> self.packets()[k].timestamp != packet@.timestamp,
                self == old(self),
            decreases self.buffer.len() - j,
        {
            if self.buffer[j].timestamp == packet.timestamp {
                proof {
                    assert(self.packets()[j as int].timestamp == packet@.timestamp);
                    assert(has_ts(self.packets(), packet@.timestamp));
                }
                self.stats.duplicate = if self.stats.duplicate < u64::MAX {
                    self.stats.duplicate + 1
                } else {
                    self.stats.duplicate
                };
                assert(self.packets() =~= old(self).packets());
                return;
            }
            j = j + 1;
        }
        assert(!has_ts(old(self).packets(), packet@.timestamp));
        // Sequence tracking and loss detection.
        if !self.first_packet_received {
            self.first_packet_received = true;
        } else {
            let gap: u32 = if packet.seq >= self.expected_seq {
                packet.seq - self.expected_seq
            } else {
                let wide: u64 = packet.seq as u64 + 0x1_0000_0000u64 - self.expected_seq as u64;
                wide as u32
            };
            if 0 < gap && gap < 1000 {
                self.stats.lost = if self.stats.lost <= u64::MAX - gap as u64 {
                    self.stats.lost + gap as u64
                } else {
                    u64::MAX
                };
            }
        }
        self.expected_seq = if packet.seq == u32::MAX {
            0
        } else {
            packet.seq + 1
        };
        // Late checks.
        let late_played: bool = self.stats.played > 0 && packet.timestamp
            <= self.last_played_timestamp;
        let late_delay: bool = packet.timestamp < arrival_time && arrival_time - packet.timestamp
            > self.config.max_tolerable_delay;
        if late_played || late_delay {
            self.stats.late = if self.stats.late < u64::MAX {
                self.stats.late + 1
            } else {
                self.stats.late
            };
            assert(self.packets() =~= old(self).packets());
            return;
        }
        assert(!is_late(*old(self), packet@, arrival_time));
        // Record the delay sample.
        let delay: u128 = if packet.timestamp >= arrival_time {
            packet.timestamp - arrival_time
        } else {
            0
        };
        self.update_delay_stats(delay);
        // Insert in timestamp order.
        let mut idx: usize = 0;
        #[verifier::loop_isolation(false)]
        while idx < self.buffer.len() && self.buffer[idx].timestamp < packet.timestamp
            invariant
                idx <= self.buffer.len(),
                forall|k: int| 0 <= k < idx ==> self.packets()[k].timestamp < packet@.timestamp,
            decreases self.buffer.len() - idx,
        {
            idx = idx + 1;
        }
        proof {
            assert forall|k: int| idx <= k < self.packets().len() implies self.packets()[
                k
            ].timestamp > packet@.timestamp by {
                if k == idx {
                    assert(self.packets()[k].timestamp >= packet@.timestamp);
                    assert(self.packets()[k].timestamp != packet@.timestamp);
                } else {
                    assert(self.packets()[idx as int].timestamp >= packet@.timestamp);
                    assert(self.packets()[idx as int].timestamp < self.packets()[k].timestamp);
                }
            }
            lemma_sorted_insert_at(self.packets(), packet@, idx as int);
        }
        let ghost pre_insert = *self;
        self.buffer.insert(idx, packet);
        proof {
            assert(self.packets() =~= pre_insert.packets().insert(idx as int, packet@));
        }
        self.stats.received = if self.stats.received < u64::MAX {
            self.stats.received + 1
        } else {
            self.stats.received
        };
        let n: usize = self.buffer.len();
        self.stats.buffer_size = n;
        // Adaptive depth.
        let due: bool = self.adapt_counter + 1 >= self.config.adapt_interval;
        if due {
            self.adapt_counter = 0;
            self.adapt_buffer_size();
        } else {
            self.adapt_counter = self.adapt_counter + 1;
        }
        proof {
            let inserted = sorted_insert(old(self).packets(), packet@);
            assert(self.packets() == inserted);
            assert forall|a: int, b: int|
                0 <= a < b < inserted.len() implies inserted[a].timestamp
                < inserted[b].timestamp by {
                assert(inserted =~= old(self).packets().insert(idx as int, packet@));
            }
            assert(self.wf());
        }
    }

    /// Release the earliest packet once the buffer is deep enough and its
    /// playback time has come.  What comes out is strictly newer than
    /// anything released before.
    pub fn pop(&mut self, current_time: u128) -> (r: Option<AudioPacket>)
        requires
            old(self).wf(),
        ensures
            final(self).wf(),
            r is None ==> *final(self) == *old(self),
            r is Some <==> old(self).packets().len() > 0 && (old(self).packets().len() >= old(self).config_spec().target_buffer_size || old(self).packets().len() >= old(self).config_spec().min_buffer_size) && old(self).packets()[0].timestamp <= current_time,
            r matches Some(p) ==> p@ == old(self).packets()[0] && final(self).packets() == old(self).packets().skip(1) && final(self).last_played() == p@.timestamp && final(self).stats_spec() == (JitterStats {
                played: sat_add64(old(self).stats_spec().played, 1),
                buffer_size: (old(self).packets().len() - 1) as usize,
                ..old(self).stats_spec()
            }) && final(self).config_spec() == old(self).config_spec(),
            // Strictly increasing release order.
            r matches Some(p) ==> (old(self).stats_spec().played > 0 ==> p@.timestamp > old(self).last_played()),
    {
        if self.buffer.len() == 0 {
            return None;
        }
        if self.buffer.len() < self.config.target_buffer_size && !(self.buffer.len()
            >= self.config.min_buffer_size) {
            return None;
        }
        let ts: u128 = self.buffer[0].timestamp;
        if current_time >= ts {
            let p: AudioPacket = self.buffer.remove(0);
            self.last_played_timestamp = ts;
            self.stats.played = if self.stats.played < u64::MAX {
                self.stats.played + 1
            } else {
                self.stats.played
            };
            let n: usize = self.buffer.len();
            self.stats.buffer_size = n;
            proof {
                assert(self.packets() =~= old(self).packets().skip(1));
                assert forall|i: int|
                    0 <= i < self.packets().len() implies self.packets()[i].timestamp
                    > self.last_played_timestamp by {
                    assert(old(self).packets()[i + 1].timestamp > old(
                        self,
                    ).packets()[0].timestamp);
                }
                if old(self).stats_spec().played > 0 {
                    assert(old(self).packets()[0].timestamp > old(self).last_played());
                }
            }
            Some(p)
        } else {
            None
        }
    }

    /// Release the earliest packet regardless of depth or time.
    pub fn pop_next(&mut self) -> (r: Option<AudioPacket>)
        requires
            old(self).wf(),
        ensures
            final(self).wf(),
            r is None ==> *final(self) == *old(self),
            r is Some <==> old(self).packets().len() > 0,
            r matches Some(p) ==> p@ == old(self).packets()[0] && final(self).packets() == old(self).packets().skip(1) && final(self).last_played() == p@.timestamp && final(self).stats_spec() == (JitterStats {
                played: sat_add64(old(self).stats_spec().played, 1),
                buffer_size: (old(self).packets().len() - 1) as usize,
                ..old(self).stats_spec()
            }) && final(self).config_spec() == old(self).config_spec(),
            r matches Some(p) ==> (old(self).stats_spec().played > 0 ==> p@.timestamp > old(self).last_played()),
    {
        if self.buffer.len() == 0 {
            return None;
        }
        let ts: u128 = self.buffer[0].timestamp;
        let p: AudioPacket = self.buffer.remove(0);
        self.last_played_timestamp = ts;
        self.stats.played = if self.stats.played < u64::MAX {
            self.stats.played + 1
        } else {
            self.stats.played
        };
        let n: usize = self.buffer.len();
        self.stats.buffer_size = n;
        proof {
            assert(self.packets() =~= old(self).packets().skip(1));
            assert forall|i: int|
                0 <= i < self.packets().len() implies self.packets()[i].timestamp
                > self.last_played_timestamp by {
                assert(old(self).packets()[i + 1].timestamp > old(self).packets()[0].timestamp);
            }
            if old(self).stats_spec().played > 0 {
                assert(old(self).packets()[0].timestamp > old(self).last_played());
            }
        }
        Some(p)
    }
}

} // verus!
