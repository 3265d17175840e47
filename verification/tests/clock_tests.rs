//! Clock synchronization: offset estimation from round trips and the
//! local/remote conversion round trip.

use xiao_stream::clock::ClockState;

#[test]
fn first_sample_sets_offset() {
    let mut clock = ClockState::new();
    // Ping left at 1000, answered at 5000 on the remote clock, pong
    // back at 2000: offset = ((5000-1000) + (5000-2000)) / 2 = 3500.
    clock.on_pong(1_000, 5_000, 2_000);
    assert_eq!(clock.offset_us, 3_500);
    assert_eq!(clock.min_rtt_us, 1_000);
    assert_eq!(clock.last_sample_ts, 2_000);
}

#[test]
fn lower_rtt_replaces_wholesale() {
    let mut clock = ClockState::new();
    clock.on_pong(1_000, 5_000, 3_000);
    let first = clock.offset_us;
    // A faster round trip replaces the estimate outright.
    clock.on_pong(10_000, 14_000, 11_000);
    assert_eq!(clock.min_rtt_us, 1_000);
    assert_eq!(clock.offset_us, ((14_000 - 10_000) + (14_000 - 11_000)) / 2);
    assert_ne!(clock.offset_us, first);
}

#[test]
fn slower_rtt_blends_one_eighth() {
    let mut clock = ClockState::new();
    clock.on_pong(1_000, 5_000, 2_000);
    assert_eq!(clock.offset_us, 3_500);
    // A slower sample moves the estimate by one eighth of the difference.
    clock.on_pong(10_000, 20_000, 14_000);
    let sample = ((20_000 - 10_000) + (20_000 - 14_000)) / 2;
    assert_eq!(clock.offset_us, (7 * 3_500 + sample) / 8);
    assert_eq!(clock.min_rtt_us, 1_000);
}

#[test]
fn pong_before_ping_ignored() {
    let mut clock = ClockState::new();
    clock.on_pong(2_000, 5_000, 1_000);
    assert_eq!(clock.offset_us, 0);
    assert_eq!(clock.min_rtt_us, u128::MAX);
    assert_eq!(clock.last_sample_ts, 0);
}

#[test]
fn negative_offset_sample() {
    let mut clock = ClockState::new();
    // The remote clock is behind: the offset goes negative.
    clock.on_pong(10_000, 2_000, 11_000);
    assert_eq!(clock.offset_us, ((2_000i128 - 10_000) + (2_000 - 11_000)) / 2);
    assert!(clock.offset_us < 0);
}

#[test]
fn remote_local_round_trip() {
    // With a stable offset, to_remote(to_local(t)) == t.
    let mut clock = ClockState::new();
    clock.on_pong(1_000, 5_000, 2_000);
    let t: u64 = 10_000_000;
    assert_eq!(clock.to_remote(clock.to_local(t)), t);
    // And in the other direction as well.
    assert_eq!(clock.to_local(clock.to_remote(t)), t);
}
