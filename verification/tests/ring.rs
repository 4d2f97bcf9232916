use packet::board::{
    calibration_due, decide, BoardMode, COMPASS_BLINK_STEPS, COMPASS_MIN_RUN_STEPS,
    FUSED_BLINK_TICKS, FUSED_MIN_RUN_TICKS,
};
use packet::ring::{bsrr_word, led_bit, progress_lights, ring_pattern_at, Button};

#[test]
fn north_is_bit_one_and_the_ring_wraps() {
    assert_eq!(led_bit(0), 0b0000_0010);
    assert_eq!(led_bit(6), 0b1000_0000);
    assert_eq!(led_bit(7), 0b0000_0001);
    assert_eq!(led_bit(8), led_bit(0));
}

#[test]
fn sixteen_directions_on_eight_lights() {
    // Even sectors land on one LED, odd ones light the two either side.
    assert_eq!(ring_pattern_at(0), 0b0000_0010);
    assert_eq!(ring_pattern_at(1), 0b0000_0110);
    assert_eq!(ring_pattern_at(2), 0b0000_0100);
    assert_eq!(ring_pattern_at(15), 0b0000_0011);
    assert_eq!(ring_pattern_at(16), ring_pattern_at(0));
    assert_eq!(ring_pattern_at(-1), ring_pattern_at(15));
    assert_eq!(ring_pattern_at(-16), ring_pattern_at(0));
    let mut seen = std::collections::HashSet::new();
    for s in 0..16 {
        let p = ring_pattern_at(s);
        let lit = p.count_ones();
        assert_eq!(lit, if s % 2 == 0 { 1 } else { 2 });
        seen.insert(p);
    }
    assert_eq!(seen.len(), 16);
}

#[test]
fn the_progress_bar_fills_clockwise_from_north() {
    assert_eq!(progress_lights(0), 0);
    assert_eq!(progress_lights(1), 0b0000_0010);
    assert_eq!(progress_lights(2), 0b0000_0110);
    assert_eq!(progress_lights(7), 0b1111_1110);
    assert_eq!(progress_lights(8), 0xFF);
}

#[test]
fn the_register_word_sets_the_lit_leds_and_resets_the_rest() {
    assert_eq!(bsrr_word(0xFF), 0x0000_FF00);
    assert_eq!(bsrr_word(0x00), 0xFF00_0000);
    assert_eq!(bsrr_word(0b0000_0010), 0xFD00_0200);
}

#[test]
fn a_press_is_reported_once_after_the_bounce_settles() {
    let mut button = Button::new(false);
    // Bouncing: never three in a row.
    for level in [true, false, true, false] {
        assert!(!button.pressed(level));
    }
    assert!(!button.pressed(true));
    assert!(!button.pressed(true));
    assert!(button.pressed(true), "the third steady read is the press");
    for _ in 0..100 {
        assert!(!button.pressed(true), "holding it down is one press");
    }
    // Letting go is not a press either.
    for _ in 0..5 {
        assert!(!button.pressed(false));
    }
    assert!(!button.pressed(true));
    assert!(!button.pressed(true));
    assert!(button.pressed(true));
}

#[test]
fn a_button_held_at_power_on_is_not_a_press() {
    let mut button = Button::new(true);
    for _ in 0..10 {
        assert!(!button.pressed(true));
    }
}

#[test]
fn a_run_waits_for_its_minimum_unless_stopped_by_hand() {
    let mode = BoardMode::Calibrating { started: 100 };
    let early = decide(mode, 100 + FUSED_MIN_RUN_TICKS - 1, false, true, FUSED_MIN_RUN_TICKS, FUSED_BLINK_TICKS);
    assert!(!early.finish);
    assert!(!early.ready);
    assert_eq!(early.next, mode);

    let on_time = decide(mode, 100 + FUSED_MIN_RUN_TICKS, false, true, FUSED_MIN_RUN_TICKS, FUSED_BLINK_TICKS);
    assert!(on_time.finish && on_time.ready && !on_time.blank);
    assert_eq!(on_time.next, BoardMode::Pointing);

    let by_hand = decide(mode, 101, true, false, FUSED_MIN_RUN_TICKS, FUSED_BLINK_TICKS);
    assert!(by_hand.finish && !by_hand.ready);
}

#[test]
fn a_press_starts_a_run_on_that_tick() {
    let d = decide(BoardMode::Pointing, 77, true, false, COMPASS_MIN_RUN_STEPS, COMPASS_BLINK_STEPS);
    assert!(d.start);
    assert_eq!(d.next, BoardMode::Calibrating { started: 77 });
    let d = decide(BoardMode::Pointing, 78, false, true, COMPASS_MIN_RUN_STEPS, COMPASS_BLINK_STEPS);
    assert!(!d.start && !d.finish);
    assert_eq!(d.next, BoardMode::Pointing);
}

#[test]
fn elapsed_time_survives_the_tick_counter_wrapping() {
    let mode = BoardMode::Calibrating { started: u32::MAX - 9 };
    let d = decide(mode, 10, false, false, FUSED_MIN_RUN_TICKS, FUSED_BLINK_TICKS);
    assert_eq!(d.elapsed, 20);
}

#[test]
fn the_ring_blinks_while_work_remains() {
    let mode = BoardMode::Calibrating { started: 0 };
    assert!(decide(mode, 0, false, false, 6000, 32).blank);
    assert!(!decide(mode, 32, false, false, 6000, 32).blank);
    assert!(decide(mode, 64, false, false, 6000, 32).blank);
}

#[test]
fn calibration_packets_go_out_at_fifty_and_two_hertz() {
    let running = BoardMode::Calibrating { started: 0 };
    assert_eq!((0..200).filter(|&t| calibration_due(running, t)).count(), 50);
    assert_eq!((0..200).filter(|&t| calibration_due(BoardMode::Pointing, t)).count(), 2);
}
