use interval_timer::clock::State;
use interval_timer::countdown::{Color, CountdownElement, CountdownSignal};

fn red() -> Color {
    Color { r: 255, g: 0, b: 0 }
}

fn blue() -> Color {
    Color { r: 0, g: 0, b: 255 }
}

#[test]
fn no_signal_while_running() {
    let mut cd = CountdownElement::new(&vec![(1000, red())], false, 0);
    assert!(cd.poll(0).is_none());
    assert!(cd.poll(500).is_none());
    assert!(cd.poll(999).is_none());
    assert!(cd.is_running(999));
}

#[test]
fn single_looping_timer_restarts_itself() {
    // One 1000 ms timer, looping: after it elapses, one poll signals,
    // the cursor wraps to the same item, and the clock runs again from zero.
    let mut cd = CountdownElement::new(&vec![(1000, red())], false, 0);
    let sig = cd.poll(1000);
    assert!(matches!(sig, Some(CountdownSignal::Finished)));
    assert_eq!(cd.get_color(), red());
    assert!(cd.is_running(1000));
    assert_eq!(cd.fraction(1000), (0, 1000));
    assert!(cd.poll(1000).is_none());
}

#[test]
fn play_once_two_timers_end_stopped() {
    // Two 500 ms timers, play once: the second runs after the first, and
    // after the second the sequence returns to the first item stopped.
    let mut cd = CountdownElement::new(&vec![(500, red()), (500, blue())], true, 0);
    assert!(cd.poll(250).is_none());

    let sig = cd.poll(500);
    assert!(matches!(sig, Some(CountdownSignal::Finished)));
    assert_eq!(cd.get_color(), blue());
    assert!(cd.is_running(500));
    assert_eq!(cd.fraction(500), (0, 500));

    assert!(cd.poll(999).is_none());
    let sig = cd.poll(1000);
    assert!(matches!(sig, Some(CountdownSignal::Finished)));
    assert_eq!(cd.get_color(), red());
    assert_eq!(cd.get_state(1000), State::Stopped);
    assert_eq!(cd.fraction(1000), (0, 500));
    assert!(cd.poll(5000).is_none());
}

#[test]
fn looping_sequence_keeps_running_past_the_last_item() {
    let mut cd = CountdownElement::new(&vec![(100, red()), (100, blue())], false, 0);
    assert!(cd.poll(100).is_some());
    assert_eq!(cd.get_color(), blue());
    assert!(cd.is_running(100));
    assert!(cd.poll(200).is_some());
    assert_eq!(cd.get_color(), red());
    assert!(cd.is_running(200));
}

#[test]
fn empty_sequence_reports_placeholder_and_never_signals() {
    let mut cd = CountdownElement::new(&Vec::new(), false, 0);
    assert!(cd.is_empty());
    assert!(cd.get_clock().is_none());
    assert_eq!(cd.get_color(), Color { r: 255, g: 255, b: 0 });
    assert_eq!(cd.get_state(0), State::Stopped);
    assert!(cd.remaining_text(0).is_none());
    for now in [0u64, 100, 100_000] {
        assert!(cd.poll(now).is_none());
    }
}

#[test]
fn exactly_one_signal_per_transition() {
    let mut cd = CountdownElement::new(&vec![(100, red())], false, 0);
    assert!(cd.poll(50).is_none());
    assert!(cd.poll(100).is_some());
    assert!(cd.poll(100).is_none());
    assert!(cd.poll(150).is_none());
    assert!(cd.poll(200).is_some());
}

#[test]
fn manual_next_lands_on_a_stopped_timer() {
    let mut cd = CountdownElement::new(&vec![(100, red()), (200, blue())], false, 0);
    cd.advance_next(10);
    assert_eq!(cd.get_color(), blue());
    assert_eq!(cd.get_state(10), State::Stopped);
    assert_eq!(cd.fraction(10), (0, 200));
}

#[test]
fn manual_prev_lands_on_a_stopped_timer() {
    let mut cd = CountdownElement::new(&vec![(100, red()), (200, blue())], false, 0);
    cd.advance_prev(10);
    assert_eq!(cd.get_color(), blue());
    assert_eq!(cd.get_state(10), State::Stopped);
}

#[test]
fn toggle_stops_and_restarts() {
    let mut cd = CountdownElement::new(&vec![(100, red())], false, 0);
    assert!(cd.is_running(40));
    cd.toggle_running(40);
    assert_eq!(cd.get_state(40), State::Stopped);
    cd.toggle_running(60);
    assert!(cd.is_running(60));
    assert_eq!(cd.fraction(60), (0, 100));
    assert_eq!(cd.fraction(90), (30, 100));
}

#[test]
fn toggle_restarts_a_finished_timer() {
    let mut cd = CountdownElement::new(&vec![(100, red())], false, 0);
    assert!(cd.is_finished(100));
    cd.toggle_running(150);
    assert!(cd.is_running(150));
    assert_eq!(cd.fraction(150), (0, 100));
}

#[test]
fn remaining_text_formats_the_active_clock() {
    let cd = CountdownElement::new(&vec![(500, red())], false, 0);
    assert_eq!(cd.remaining_text(0).unwrap(), "0:00:00.50");
    assert_eq!(cd.remaining_text(250).unwrap(), "0:00:00.25");
}

#[test]
fn zero_duration_timer_signals_every_poll() {
    let mut cd = CountdownElement::new(&vec![(0, red())], false, 0);
    assert!(cd.poll(0).is_some());
    assert!(cd.poll(0).is_some());
}
