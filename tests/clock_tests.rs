use duck_water::clock::{TickClock, TICK_NANOS};

#[test]
fn tick_is_one_256th_of_a_second() {
    assert_eq!(TICK_NANOS * 256, 1_000_000_000);
}

#[test]
fn new_clock_is_empty() {
    let c = TickClock::new();
    assert_eq!(c.pending_nanos(), 0);
}

#[test]
fn advance_hands_out_whole_ticks() {
    let mut c = TickClock::new();
    assert_eq!(c.advance(0), 0);
    assert_eq!(c.advance(1_000_000), 0);
    assert_eq!(c.pending_nanos(), 1_000_000);
    assert_eq!(c.advance(2_906_250), 1);
    assert_eq!(c.pending_nanos(), 0);
    assert_eq!(c.advance(10_000_000), 2);
    assert_eq!(c.pending_nanos(), 2_187_500);
    assert_eq!(c.advance(2_000_000), 1);
    assert_eq!(c.pending_nanos(), 281_250);
}

#[test]
fn long_frame_catches_up_with_many_ticks() {
    let mut c = TickClock::new();
    assert_eq!(c.advance(1_000_000_000), 256);
    assert_eq!(c.pending_nanos(), 0);
    let mut d = TickClock::new();
    assert_eq!(d.advance(TICK_NANOS - 1), 0);
    let expected = (u64::MAX as u128 + (TICK_NANOS - 1) as u128) / TICK_NANOS as u128;
    assert_eq!(d.advance(u64::MAX) as u128, expected);
    assert!(d.pending_nanos() < TICK_NANOS);
}

#[test]
fn ticks_do_not_depend_on_frame_rate() {
    let mut fast = TickClock::new();
    let mut slow = TickClock::new();
    let mut fast_ticks = 0;
    for _ in 0..600 {
        fast_ticks += fast.advance(1_666_667);
    }
    let slow_ticks = slow.advance(600 * 1_666_667);
    assert_eq!(fast_ticks, slow_ticks);
    assert_eq!(fast.pending_nanos(), slow.pending_nanos());
}
