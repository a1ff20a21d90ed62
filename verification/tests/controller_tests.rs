use strip_engine::api::handlers::{set_component, set_mode, HSVComponent};
use strip_engine::controller::{flushed, init, ControllerError, Data, Progress};
use strip_engine::pixel::{Pixel, ONE};
use strip_engine::state::{init as init_state, Mode, StateStruct};

const OFF: [u8; 4] = [0, 0, 0, 0];
const RED: [u8; 4] = [0, 0, 255, 0];
const WHITE: [u8; 4] = [255, 255, 255, 0];

fn state_in(mode: Mode, start: u64) -> StateStruct {
    let mut st = init_state(0);
    set_mode(mode, &mut st, start);
    st
}

/// One tick whose frame, where one is due, is written to the strip without fault.
fn tick(data: &mut Data, st: &mut StateStruct, now: u64) -> bool {
    let flush = data.update(st, now);
    assert_eq!(st.render, flush);
    if flush {
        assert!(flushed(st, true).is_ok());
    }
    assert!(!st.render);
    flush
}

fn hsv(h: i64, s: i64, v: i64) -> [u8; 4] {
    (Pixel::HSV { h, s, v }).to_u8()
}

#[test]
fn engine_starts_dark() {
    let data = init(5);
    assert_eq!(data.leds, vec![OFF; 5]);
    assert_eq!((data.progress_old.num, data.progress_old.den), (0, 1));
    assert!(init(0).leds.is_empty());
}

#[test]
fn off_darkens_every_led() {
    let mut data = init(4);
    let mut st = state_in(Mode::Strobe, 0);
    tick(&mut data, &mut st, 49);
    assert_eq!(data.leds, vec![WHITE; 4]);
    data.progress_old = Progress { num: 3, den: 7 };
    data.off();
    assert_eq!(data.leds, vec![OFF; 4]);
    assert_eq!((data.progress_old.num, data.progress_old.den), (3, 7));
}

#[test]
fn progress_is_elapsed_within_the_cycle() {
    let p = Progress::new(1_250, 1_000);
    assert_eq!((p.num, p.den), (250, 1_000));
    let p = Progress::new(999, 1_000);
    assert_eq!((p.num, p.den), (999, 1_000));
    let p = Progress::new(3_000, 1_000);
    assert_eq!((p.num, p.den), (0, 1_000));
    let p = Progress::new(u64::MAX, u64::MAX);
    assert_eq!((p.num, p.den), (0, u64::MAX));
}

#[test]
fn progress_arithmetic() {
    let quarter = Progress { num: 1, den: 4 };
    let third = Progress { num: 1, den: 3 };
    let half = Progress { num: 500, den: 1_000 };
    assert!(quarter.le(&third));
    assert!(!third.le(&quarter));
    assert!(half.le(&half));
    assert!(quarter.le(&Progress { num: 2, den: 8 }));
    assert!(!quarter.past_half());
    assert!(half.past_half());
    assert!(!Progress { num: 499, den: 1_000 }.past_half());
    assert!(Progress { num: 2, den: 3 }.past_half());
    assert_eq!(quarter.scale(360_000), 90_000);
    assert_eq!(third.scale(10), 3);
    assert_eq!(third.rest(10), 6);
    assert_eq!(third.rest_half(10), 8);
    assert_eq!(half.rest(255_000), 127_500);
    assert_eq!(half.rest_half(255_000), 191_250);
    let late = Progress { num: u64::MAX - 1, den: u64::MAX };
    assert_eq!(late.scale(u64::MAX), u64::MAX - 1);
    assert_eq!(late.rest(u64::MAX), 1);
    assert_eq!(late.rest_half(u32::MAX), u32::MAX / 2);
    let big = Progress { num: u64::MAX, den: 1 };
    assert!(Progress { num: u64::MAX, den: u64::MAX }.le(&big));
    assert!(!big.le(&Progress { num: u64::MAX - 1, den: 1 }));
}

#[test]
fn off_mode_is_dark_and_flushes_only_when_dirty() {
    let mut data = init(3);
    let mut st = init_state(0);
    assert!(tick(&mut data, &mut st, 5));
    assert_eq!(data.leds, vec![OFF; 3]);
    assert!(!st.render);
    assert!(!tick(&mut data, &mut st, 15));
    assert!(!st.render);
    set_component(HSVComponent::V, 10, &mut st);
    assert!(tick(&mut data, &mut st, 25));
    assert!(!tick(&mut data, &mut st, 35));
    assert_eq!(data.leds, vec![OFF; 3]);
    assert_eq!(st.mode, Mode::Off);
    assert_eq!(st.start, 0);
}

#[test]
fn static_mode_shows_the_colour() {
    let mut data = init(3);
    let mut st = state_in(Mode::Static, 0);
    assert!(tick(&mut data, &mut st, 1));
    assert_eq!(data.leds, vec![RED; 3]);
    assert!(!tick(&mut data, &mut st, 2));
    set_component(HSVComponent::H, 200_000, &mut st);
    set_component(HSVComponent::S, 127_500, &mut st);
    set_component(HSVComponent::V, 204_000, &mut st);
    assert!(tick(&mut data, &mut st, 3));
    assert_eq!(data.leds, vec![[204, 170, 102, 0]; 3]);
    assert_eq!((st.hue, st.sat, st.val), (200_000, 127_500, 204_000));
}

#[test]
fn rainbow_spreads_the_wheel_over_the_strip() {
    let mut data = init(301);
    let mut st = state_in(Mode::Rainbow, 1_000);
    assert!(tick(&mut data, &mut st, 1_000));
    for i in 0..301usize {
        assert_eq!(data.leds[i], hsv(2_400 * i as i64, ONE, ONE));
    }
    assert_eq!(data.leds[0], RED);
    assert_eq!(data.leds[25], [0, 255, 255, 0]);
    assert_eq!(data.leds[50], [0, 255, 0, 0]);
    assert_eq!(data.leds[100], [255, 0, 0, 0]);
    assert_eq!(data.leds[150], RED);
    assert_eq!(data.leds[300], RED);
    // always redrawn
    assert!(tick(&mut data, &mut st, 1_000));
    assert!(!st.render);
    // 1250 ms of 300 s turn the wheel by 60 degrees
    assert!(tick(&mut data, &mut st, 2_250));
    assert_eq!(data.leds[0], [0, 255, 255, 0]);
    assert_eq!(data.leds[25], [0, 255, 0, 0]);
    // 1 ms turns it by 48 thousandths of a degree
    tick(&mut data, &mut st, 1_001);
    assert_eq!(data.leds[7], hsv(2_400 * 7 + 48, ONE, ONE));
    // one whole cycle later the wheel stands as at the start
    tick(&mut data, &mut st, 301_000);
    assert_eq!(data.leds[25], [0, 255, 255, 0]);
    assert_eq!(st.mode, Mode::Rainbow);
}

#[test]
fn rainbow_uses_saturation_and_value() {
    let mut data = init(2);
    let mut st = state_in(Mode::Rainbow, 0);
    set_component(HSVComponent::S, 127_500, &mut st);
    set_component(HSVComponent::V, 204_000, &mut st);
    tick(&mut data, &mut st, 0);
    assert_eq!(data.leds[0], hsv(0, 127_500, 204_000));
    assert_eq!(data.leds[1], hsv(2_400, 127_500, 204_000));
}

#[test]
fn alarm_flashes_red_in_the_second_half() {
    let mut data = init(2);
    let mut st = state_in(Mode::Alarm, 100);
    for (now, want) in [
        (100u64, OFF),
        (599, OFF),
        (600, RED),
        (1_099, RED),
        (1_100, OFF),
        (1_600, RED),
    ] {
        assert!(tick(&mut data, &mut st, now));
        assert_eq!(data.leds, vec![want; 2]);
        assert!(!st.render);
        assert_eq!(st.mode, Mode::Alarm);
    }
}

#[test]
fn strobe_flashes_white_in_the_second_half() {
    let mut data = init(2);
    let mut st = state_in(Mode::Strobe, 0);
    assert_eq!(st.interval, 50);
    for (now, want) in [(0u64, OFF), (24, OFF), (25, WHITE), (49, WHITE), (50, OFF), (75, WHITE)] {
        assert!(tick(&mut data, &mut st, now));
        assert_eq!(data.leds, vec![want; 2]);
    }
}

#[test]
fn color_chase_runs_through_the_hues() {
    let mut data = init(2);
    let mut st = state_in(Mode::ColorChase, 0);
    assert_eq!(st.interval, 500);
    assert!(tick(&mut data, &mut st, 0));
    assert_eq!(data.leds, vec![RED; 2]);
    assert!(tick(&mut data, &mut st, 125));
    assert_eq!(data.leds, vec![[0, 255, 128, 0]; 2]);
    tick(&mut data, &mut st, 250);
    assert_eq!(data.leds, vec![[255, 255, 0, 0]; 2]);
    tick(&mut data, &mut st, 499);
    assert_eq!(data.leds, vec![hsv(359_280, ONE, ONE); 2]);
    tick(&mut data, &mut st, 500);
    assert_eq!(data.leds, vec![RED; 2]);
    set_component(HSVComponent::S, 0, &mut st);
    set_component(HSVComponent::V, 51_000, &mut st);
    tick(&mut data, &mut st, 300);
    assert_eq!(data.leds, vec![[51, 51, 51, 0]; 2]);
}

#[test]
fn a_time_before_the_start_counts_as_the_start() {
    let mut data = init(1);
    let mut st = state_in(Mode::Alarm, 10_000);
    tick(&mut data, &mut st, 10_700);
    assert_eq!(data.leds[0], RED);
    tick(&mut data, &mut st, 9_300);
    assert_eq!(data.leds[0], OFF);
    tick(&mut data, &mut st, 0);
    assert_eq!(data.leds[0], OFF);
}

#[test]
fn identify_marks_one_led() {
    for len in [1usize, 2, 7, 30] {
        for i in 0..len {
            let mut data = init(len);
            let mut st = state_in(Mode::Identify, 0);
            set_component(HSVComponent::H, 1_000 * i as i64, &mut st);
            assert!(tick(&mut data, &mut st, 5));
            for j in 0..len {
                assert_eq!(data.leds[j], if j == i { RED } else { WHITE });
            }
            assert_eq!(data.leds.iter().filter(|led| **led == RED).count(), 1);
            assert!(!tick(&mut data, &mut st, 6));
        }
    }
}

#[test]
fn identify_beyond_the_strip_marks_none() {
    for len in [0usize, 1, 7, 30] {
        for hue in [len as i64 * 1_000, len as i64 * 1_000 + 999, 200_000, 359_999] {
            let mut data = init(len);
            let mut st = state_in(Mode::Identify, 0);
            set_component(HSVComponent::H, hue, &mut st);
            tick(&mut data, &mut st, 5);
            assert_eq!(data.leds, vec![WHITE; len]);
        }
    }
}

#[test]
fn identify_takes_the_whole_degrees_of_the_hue() {
    let mut data = init(5);
    let mut st = state_in(Mode::Identify, 0);
    set_component(HSVComponent::H, 2_999, &mut st);
    tick(&mut data, &mut st, 5);
    assert_eq!(data.leds, vec![WHITE, WHITE, RED, WHITE, WHITE]);
    set_component(HSVComponent::H, 3_000, &mut st);
    tick(&mut data, &mut st, 5);
    assert_eq!(data.leds, vec![WHITE, WHITE, WHITE, RED, WHITE]);
}

#[test]
fn sleep_fades_saturation_and_value() {
    let mut data = init(3);
    let mut st = state_in(Mode::Sleep, 0);
    assert_eq!(st.interval, 300_000);
    assert!(tick(&mut data, &mut st, 150_000));
    // half way: the wheel has made twenty turns, saturation 0.75, value 0.5
    assert_eq!(data.leds[0], [32, 32, 128, 0]);
    assert_eq!(data.leds[0], hsv(0, 191_250, 127_500));
    assert_eq!(data.leds[1], hsv(2_400, 191_250, 127_500));
    assert_eq!(data.leds[2], hsv(4_800, 191_250, 127_500));
    assert_eq!(st.mode, Mode::Sleep);
    assert!(tick(&mut data, &mut st, 299_999));
    // at the very end: value 1/300000 of full, which is dark
    assert_eq!(data.leds, vec![OFF; 3]);
    assert_eq!(st.mode, Mode::Sleep);
    assert_eq!((st.sat, st.val), (255_000, 255_000));
}

#[test]
fn sleep_ends_once_when_its_cycle_is_complete() {
    let mut data = init(2);
    let mut st = state_in(Mode::Sleep, 1_000);
    // the very first tick, at the start of the cycle, does not end the sleep
    assert!(tick(&mut data, &mut st, 1_000));
    assert_eq!(st.mode, Mode::Sleep);
    let mut transitions = 0;
    let mut now = 1_010;
    while now < 301_000 {
        assert!(tick(&mut data, &mut st, now));
        assert_eq!(st.mode, Mode::Sleep);
        assert_eq!((data.progress_old.num, data.progress_old.den), (now - 1_000, 300_000));
        now += 10;
    }
    // the cycle is over: progress is back at the start
    assert!(tick(&mut data, &mut st, 301_000));
    assert_eq!(st.mode, Mode::Off);
    transitions += 1;
    assert_eq!((data.progress_old.num, data.progress_old.den), (0, 1));
    // the frame of that tick is still the sleep's, at the start of its cycle
    assert_eq!(data.leds, vec![hsv(0, ONE, ONE), hsv(2_400, ONE, ONE)]);
    assert!(!st.render);
    // from then on the strip is off and stays so
    let mut now = 301_010;
    while now < 700_000 {
        let flush = tick(&mut data, &mut st, now);
        if st.mode != Mode::Off {
            transitions += 1;
        }
        assert!(!flush);
        assert_eq!(data.leds, vec![OFF; 2]);
        now += 10_000;
    }
    assert_eq!(transitions, 1);
    assert_eq!(st.mode, Mode::Off);
    assert_eq!(st.start, 1_000);
    assert_eq!(st.interval, 300_000);
}

#[test]
fn sleep_first_tick_never_ends_it() {
    for now in [0u64, 1, 150_000, 299_999, 300_000, 450_000] {
        let mut data = init(1);
        let mut st = state_in(Mode::Sleep, 0);
        tick(&mut data, &mut st, now);
        assert_eq!(st.mode, Mode::Sleep);
        assert_eq!((data.progress_old.num, data.progress_old.den), (now % 300_000, 300_000));
    }
}

#[test]
fn sleep_ends_when_progress_does_not_rise() {
    let mut data = init(1);
    let mut st = state_in(Mode::Sleep, 0);
    tick(&mut data, &mut st, 200_000);
    assert_eq!(st.mode, Mode::Sleep);
    // the same progress again counts as a completed cycle
    tick(&mut data, &mut st, 200_000);
    assert_eq!(st.mode, Mode::Off);
    let mut data = init(1);
    let mut st = state_in(Mode::Sleep, 0);
    tick(&mut data, &mut st, 200_000);
    tick(&mut data, &mut st, 400_000);
    assert_eq!(st.mode, Mode::Off);
}

#[test]
fn other_modes_leave_the_remembered_progress() {
    for m in [
        Mode::Off,
        Mode::Static,
        Mode::Rainbow,
        Mode::Alarm,
        Mode::ColorChase,
        Mode::Strobe,
        Mode::Identify,
    ] {
        let mut data = Data { leds: vec![RED; 2], progress_old: Progress { num: 2, den: 9 } };
        let mut st = state_in(m, 0);
        tick(&mut data, &mut st, 1);
        assert_eq!((data.progress_old.num, data.progress_old.den), (2, 9));
        assert_eq!(st.mode, m);
        assert_eq!(data.leds.len(), 2);
    }
}

#[test]
fn update_flushes_when_dirty_or_animated() {
    for (m, animated) in [
        (Mode::Off, false),
        (Mode::Static, false),
        (Mode::Identify, false),
        (Mode::Rainbow, true),
        (Mode::Sleep, true),
        (Mode::Alarm, true),
        (Mode::ColorChase, true),
        (Mode::Strobe, true),
    ] {
        let mut data = init(1);
        let mut st = state_in(m, 0);
        assert!(st.render);
        assert!(tick(&mut data, &mut st, 1));
        assert!(!st.render);
        assert_eq!(tick(&mut data, &mut st, 2), animated);
        assert!(!st.render);
    }
}

#[test]
fn controller_error_message() {
    assert_eq!(ControllerError.message(), "Controller error: unable to process");
}

#[test]
fn update_leaves_the_redraw_pending_when_a_flush_is_due() {
    for m in [
        Mode::Off,
        Mode::Static,
        Mode::Identify,
        Mode::Rainbow,
        Mode::Sleep,
        Mode::Alarm,
        Mode::ColorChase,
        Mode::Strobe,
    ] {
        let mut data = init(2);
        let mut st = state_in(m, 0);
        let before = st;
        assert!(data.update(&mut st, 1));
        assert!(st.render);
        assert_eq!(
            (st.hue, st.sat, st.val, st.mode, st.interval, st.start),
            (before.hue, before.sat, before.val, before.mode, before.interval, before.start)
        );
    }
}

#[test]
fn flushed_after_a_write_clears_the_redraw() {
    let mut st = state_in(Mode::Static, 7);
    set_component(HSVComponent::H, 120_000, &mut st);
    let before = st;
    assert!(before.render);
    assert!(flushed(&mut st, true).is_ok());
    assert!(!st.render);
    assert_eq!(
        (st.hue, st.sat, st.val, st.mode, st.interval, st.start),
        (before.hue, before.sat, before.val, before.mode, before.interval, before.start)
    );
    // with none pending a write changes nothing
    assert!(flushed(&mut st, true).is_ok());
    assert!(!st.render);
}

#[test]
fn flushed_after_a_failure_keeps_the_redraw() {
    let mut st = state_in(Mode::Static, 7);
    set_component(HSVComponent::H, 120_000, &mut st);
    let before = st;
    let outcome = flushed(&mut st, false);
    assert!(matches!(outcome, Err(ControllerError)));
    assert!(st.render);
    assert_eq!(
        (st.hue, st.sat, st.val, st.mode, st.interval, st.start),
        (before.hue, before.sat, before.val, before.mode, before.interval, before.start)
    );
    // with none pending a failure does not make one
    st.render = false;
    assert!(flushed(&mut st, false).is_err());
    assert!(!st.render);
}

#[test]
fn a_failed_flush_is_retried_at_the_next_tick() {
    for m in [Mode::Off, Mode::Static, Mode::Identify] {
        let mut data = init(3);
        let mut st = state_in(m, 0);
        set_component(HSVComponent::H, 1_000, &mut st);
        // the strip fails twice, then takes the frame
        assert!(data.update(&mut st, 10));
        let first = data.leds.clone();
        assert!(flushed(&mut st, false).is_err());
        assert!(st.render);
        assert!(data.update(&mut st, 20));
        assert_eq!(data.leds, first);
        assert!(flushed(&mut st, false).is_err());
        assert!(data.update(&mut st, 30));
        assert_eq!(data.leds, first);
        assert!(flushed(&mut st, true).is_ok());
        assert!(!st.render);
        // from then on nothing is written until the state changes
        assert!(!data.update(&mut st, 40));
        assert!(!st.render);
        assert_eq!(st.mode, m);
        assert_eq!(st.hue, 1_000);
    }
}

#[test]
fn a_failed_flush_at_the_end_of_a_sleep_still_darkens_the_strip() {
    let mut data = init(2);
    let mut st = state_in(Mode::Sleep, 0);
    assert!(tick(&mut data, &mut st, 200_000));
    // the cycle completes, and the write of that frame fails
    assert!(data.update(&mut st, 300_000));
    assert_eq!(st.mode, Mode::Off);
    assert!(flushed(&mut st, false).is_err());
    assert!(st.render);
    // the next tick, now in `Off`, asks for the dark frame to be written
    assert!(data.update(&mut st, 300_010));
    assert_eq!(data.leds, vec![OFF; 2]);
    assert!(flushed(&mut st, true).is_ok());
    assert!(!data.update(&mut st, 300_020));
}

#[test]
fn an_animated_mode_flushes_again_whatever_the_outcome() {
    for written in [true, false] {
        let mut data = init(1);
        let mut st = state_in(Mode::Alarm, 0);
        assert!(data.update(&mut st, 600));
        assert_eq!(flushed(&mut st, written).is_ok(), written);
        assert_eq!(st.render, !written);
        assert!(data.update(&mut st, 610));
        assert_eq!(data.leds, vec![RED]);
    }
}
