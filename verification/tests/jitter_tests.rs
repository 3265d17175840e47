//! The jitter buffer: ordering, the lateness boundary, loss counting,
//! duplicates, and the record-to-playback round trip.

use xiao_stream::jitter::{JitterBuffer, JitterConfig};
use xiao_stream::pipeline::{pace_delay_ms, PlaybackPipeline, RecordPipeline};
use xiao_stream::protocol::AudioPacket;

fn pkt(seq: u32, timestamp: u128) -> AudioPacket {
    AudioPacket { seq, timestamp, data: vec![seq as u8] }
}

#[test]
fn pop_returns_strictly_increasing_timestamps() {
    let mut jb = JitterBuffer::default();
    let base: u128 = 1_000_000;
    for seq in 0u32..10 {
        let ts = base + (seq as u128) * 20_000;
        jb.push(pkt(seq, ts), ts);
    }
    let mut last: Option<u128> = None;
    while let Some(p) = jb.pop(u128::MAX) {
        if let Some(prev) = last {
            assert!(p.timestamp > prev);
        }
        last = Some(p.timestamp);
    }
    while let Some(p) = jb.pop_next() {
        if let Some(prev) = last {
            assert!(p.timestamp > prev);
        }
        last = Some(p.timestamp);
    }
    assert!(last.is_some());
}

#[test]
fn late_boundary_100ms() {
    let mut jb = JitterBuffer::default();
    let ts: u128 = 10_000_000;
    // Arriving exactly 100 ms after its playback time: accepted.
    jb.push(pkt(0, ts), ts + 100_000);
    assert_eq!(jb.stats().received, 1);
    assert_eq!(jb.stats().late, 0);
    // One microsecond later: dropped as late.
    jb.push(pkt(1, ts + 20_000), ts + 20_000 + 100_001);
    assert_eq!(jb.stats().received, 1);
    assert_eq!(jb.stats().late, 1);
}

#[test]
fn equal_or_older_than_played_is_late() {
    let mut jb = JitterBuffer::new(JitterConfig {
        min_buffer_size: 1,
        max_buffer_size: 20,
        target_buffer_size: 1,
        adapt_interval: 50,
        max_tolerable_delay: 100_000,
    });
    jb.push(pkt(0, 1_000), 1_000);
    let p = jb.pop(u128::MAX).expect("one packet at depth one must drain");
    assert_eq!(p.timestamp, 1_000);
    // The same timestamp again, and an older one: both late, never replayed.
    jb.push(pkt(1, 1_000), 1_000);
    jb.push(pkt(2, 900), 900);
    assert_eq!(jb.stats().late, 2);
    assert!(jb.is_empty());
}

#[test]
fn duplicate_timestamps_dropped() {
    let mut jb = JitterBuffer::default();
    jb.push(pkt(0, 5_000), 5_000);
    jb.push(pkt(1, 5_000), 5_000);
    assert_eq!(jb.stats().received, 1);
    assert_eq!(jb.stats().duplicate, 1);
    assert_eq!(jb.len(), 1);
}

#[test]
fn loss_detected_from_sequence_gap() {
    // Seqs [0, 1, 3, 4, 5]: one packet missing.
    let mut jb = JitterBuffer::default();
    let base: u128 = 1_000_000;
    for &seq in [0u32, 1, 3, 4, 5].iter() {
        let ts = base + (seq as u128) * 20_000;
        jb.push(pkt(seq, ts), ts);
    }
    assert_eq!(jb.stats().lost, 1);
    assert_eq!(jb.stats().received, 5);
    // Successive pops come out in timestamp order.
    let mut seen: Vec<u128> = Vec::new();
    while let Some(p) = jb.pop(u128::MAX) {
        seen.push(p.timestamp);
    }
    while let Some(p) = jb.pop_next() {
        seen.push(p.timestamp);
    }
    assert_eq!(seen.len(), 5);
    for w in seen.windows(2) {
        assert!(w[0] < w[1]);
    }
}

#[test]
fn buffer_waits_for_target_depth() {
    let mut jb = JitterBuffer::default();
    // Default target is 5, minimum 2: a single packet is held back.
    jb.push(pkt(0, 1_000), 1_000);
    assert!(jb.pop(u128::MAX).is_none());
    // At the minimum depth the buffer may drain.
    jb.push(pkt(1, 2_000), 2_000);
    assert!(jb.pop(u128::MAX).is_some());
}

#[test]
fn pop_waits_for_playback_time() {
    let mut jb = JitterBuffer::default();
    for seq in 0u32..5 {
        let ts = 1_000_000 + (seq as u128) * 20_000;
        jb.push(pkt(seq, ts), ts);
    }
    // Earliest packet is due at 1_000_000; before that, nothing comes out.
    assert!(jb.pop(999_999).is_none());
    let p = jb.pop(1_000_000).expect("due packet must come out");
    assert_eq!(p.seq, 0);
}

#[test]
fn clear_and_reset_stats() {
    let mut jb = JitterBuffer::default();
    jb.push(pkt(0, 1_000), 1_000);
    jb.push(pkt(1, 2_000), 2_000);
    jb.reset_stats();
    assert_eq!(jb.stats().received, 0);
    assert_eq!(jb.stats().buffer_size, 2);
    jb.clear();
    assert!(jb.is_empty());
    assert_eq!(jb.stats().buffer_size, 0);
    assert_eq!(jb.peek_next_timestamp(), None);
}

#[test]
fn record_playback_round_trip() {
    // The record pipeline emits 50 packets of 20 ms frames; playback is
    // fed the same packets in shuffled order with at most 30 ms of
    // per-packet delay, and hands every one of them out in order.
    let t0: u64 = 5_000_000;
    let mut rec = RecordPipeline::new(t0, 20_000);
    let mut packets: Vec<AudioPacket> = Vec::new();
    for seq in 0u32..50 {
        let p = rec.next_packet(vec![seq as u8; 40]);
        assert_eq!(p.seq, seq);
        assert_eq!(p.timestamp, t0 as u128 + (seq as u128) * 20_000);
        packets.push(p);
    }
    // A deterministic shuffle: swap each adjacent pair.
    for i in (0..packets.len() - 1).step_by(2) {
        packets.swap(i, i + 1);
    }
    let mut play = PlaybackPipeline::new(JitterConfig::default());
    for (k, p) in packets.into_iter().enumerate() {
        let delay = (k as u128 * 7) % 30_000;
        let arrival = p.timestamp + delay;
        play.on_packet(p, arrival);
    }
    assert_eq!(play.jitter.stats().received, 50);
    assert_eq!(play.jitter.stats().late, 0);
    assert_eq!(play.jitter.stats().duplicate, 0);
    let mut seqs: Vec<u32> = Vec::new();
    while let Some(p) = play.next_due(u128::MAX) {
        seqs.push(p.seq);
    }
    while let Some(p) = play.jitter.pop_next() {
        seqs.push(p.seq);
    }
    // No packet was lost end to end, and they come out in send order.
    assert_eq!(seqs.len(), 50);
    for (i, s) in seqs.iter().enumerate() {
        assert_eq!(*s, i as u32);
    }
}

#[test]
fn pacing_bounds_burstiness() {
    // Within the lead window nothing sleeps; beyond it, the excess in
    // milliseconds, capped at 100.
    assert_eq!(pace_delay_ms(2_000_000, 1_000_000, 1_000_000), 0);
    assert_eq!(pace_delay_ms(2_000_001, 1_000_000, 1_000_000), 0);
    assert_eq!(pace_delay_ms(2_050_000, 1_000_000, 1_000_000), 50);
    assert_eq!(pace_delay_ms(9_000_000, 1_000_000, 1_000_000), 100);
}
