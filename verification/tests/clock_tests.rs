use interval_timer::clock::{Clock, State};

#[test]
fn fresh_clock_shows_no_progress() {
    let c = Clock::new(1000, 0);
    assert_eq!(c.elapsed(0), 0);
    assert_eq!(c.remaining(0), 1000);
    assert_eq!(c.fraction(0), (0, 1000));
    assert_eq!(c.get_state(0), State::Running);
}

#[test]
fn running_clock_advances() {
    let c = Clock::new(1000, 100);
    assert_eq!(c.elapsed(500), 400);
    assert_eq!(c.remaining(500), 600);
    assert_eq!(c.fraction(500), (400, 1000));
    assert_eq!(c.get_state(500), State::Running);
}

#[test]
fn fraction_is_monotone_and_capped() {
    let c = Clock::new(1000, 0);
    let mut prev = 0u64;
    for now in [0u64, 1, 250, 500, 999, 1000, 1001, 5000] {
        let (num, den) = c.fraction(now);
        assert_eq!(den, 1000);
        assert!(num >= prev);
        assert!(num <= den);
        prev = num;
    }
    assert_eq!(c.fraction(1000), (1000, 1000));
    assert_eq!(c.fraction(70_000), (1000, 1000));
}

#[test]
fn clock_finishes_at_duration() {
    let c = Clock::new(1000, 0);
    assert_eq!(c.get_state(999), State::Running);
    assert_eq!(c.get_state(1000), State::Finished);
    assert_eq!(c.get_state(2000), State::Finished);
    assert_eq!(c.remaining(1000), 0);
    assert_eq!(c.remaining(2000), 0);
}

#[test]
fn zero_duration_is_instantly_complete() {
    let c = Clock::new(0, 5);
    assert_eq!(c.fraction(5), (1, 1));
    assert_eq!(c.get_state(5), State::Finished);
    assert_eq!(c.remaining(5), 0);
}

#[test]
fn stop_snaps_back_to_full_duration() {
    let mut c = Clock::new(1000, 0);
    assert_eq!(c.remaining(700), 300);
    c.stop();
    assert_eq!(c.remaining(700), 1000);
    assert_eq!(c.elapsed(700), 0);
    assert_eq!(c.get_state(700), State::Stopped);
    assert_eq!(c.fraction(700), (0, 1000));
}

#[test]
fn start_rebinds_and_runs() {
    let mut c = Clock::new(1000, 0);
    c.stop();
    c.start(50);
    assert_eq!(c.get_state(50), State::Running);
    assert_eq!(c.elapsed(60), 10);
    assert_eq!(c.remaining(60), 990);
}

#[test]
fn reset_keeps_the_running_flag() {
    let mut c = Clock::new(1000, 0);
    c.stop();
    c.reset(100);
    assert_eq!(c.get_state(200), State::Stopped);
    assert_eq!(c.remaining(200), 1000);

    let mut r = Clock::new(1000, 0);
    r.reset(100);
    assert_eq!(r.get_state(150), State::Running);
    assert_eq!(r.elapsed(150), 50);
}

#[test]
fn instants_before_the_start_count_as_zero() {
    let c = Clock::new(100, 50);
    assert_eq!(c.elapsed(10), 0);
    assert_eq!(c.remaining(10), 100);
}

#[test]
fn timestamp_format_is_h_mm_ss_cc() {
    let c = Clock::new(3_661_230, 0);
    assert_eq!(c.to_string(0), "1:01:01.23");
    assert_eq!(c.to_string(3_661_230), "0:00:00.00");

    let d = Clock::new(500, 0);
    assert_eq!(d.to_string(0), "0:00:00.50");

    let long = Clock::new(36_000_000, 0);
    assert_eq!(long.to_string(0), "10:00:00.00");
}

#[test]
fn stopped_clock_formats_its_full_duration() {
    let mut c = Clock::new(90_061_000, 0);
    c.stop();
    assert_eq!(c.to_string(12345), "25:01:01.00");
}
