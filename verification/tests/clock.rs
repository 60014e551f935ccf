use purple_capture::clock::{ticks, ClockState, RecordingClock};
use purple_capture::clock::Monotonic;

const SECOND: u64 = 1_000_000_000;

#[test]
fn missing_frames_do_not_shorten_time_and_pause_is_excluded() {
    let start = 0_u64;
    let mut clock = ClockState {
        started: start,
        paused_at: None,
        paused_total: 0,
        stopped_at: None,
    };
    assert_eq!(ticks(clock.elapsed_at(start + 10 * SECOND)), 100_000_000);
    clock.pause_at(start + 10 * SECOND);
    clock.pause_at(start + 11 * SECOND);
    assert_eq!(clock.elapsed_at(start + 20 * SECOND), 10 * SECOND);
    clock.resume_at(start + 20 * SECOND);
    clock.resume_at(start + 21 * SECOND);
    clock.stopped_at = Some(start + 25 * SECOND);
    assert_eq!(clock.elapsed_at(start + 100 * SECOND), 15 * SECOND);
}

#[test]
fn ticks_are_hundreds_of_nanoseconds() {
    assert_eq!(ticks(0), 0);
    assert_eq!(ticks(199), 1);
    assert_eq!(ticks(u64::MAX), (u64::MAX / 100) as i64);
}

#[test]
fn a_stopped_clock_ignores_pause_and_resume() {
    let mut clock = ClockState::starting_at(5 * SECOND);
    clock.stop_at(8 * SECOND);
    clock.stop_at(9 * SECOND);
    clock.pause_at(10 * SECOND);
    clock.resume_at(12 * SECOND);
    assert_eq!(clock.stopped_at, Some(8 * SECOND));
    assert_eq!(clock.paused_at, None);
    assert_eq!(clock.elapsed_at(50 * SECOND), 3 * SECOND);
}

#[test]
fn time_before_the_start_counts_as_zero() {
    let clock = ClockState::starting_at(5 * SECOND);
    assert_eq!(clock.elapsed_at(SECOND), 0);
}

#[test]
fn the_machine_clock_pauses_and_stops() {
    let mut clock = RecordingClock::new();
    assert!(!clock.is_paused());
    clock.pause();
    assert!(clock.is_paused());
    let held = clock.elapsed();
    assert_eq!(clock.elapsed(), held);
    clock.resume();
    assert!(!clock.is_paused());
    clock.stop();
    let end = clock.elapsed();
    assert_eq!(clock.elapsed(), end);
}

#[test]
fn readings_never_go_back() {
    let mut time = Monotonic::new();
    let mut last = 0;
    for _ in 0..1000 {
        let now = time.now();
        assert!(now >= last);
        last = now;
    }
    let mut clock = RecordingClock::new();
    let mut shown = 0;
    for i in 0..300 {
        match i % 3 {
            0 => clock.pause(),
            1 => clock.resume(),
            _ => {}
        }
        let e = clock.elapsed();
        assert!(e >= shown);
        shown = e;
    }
}
