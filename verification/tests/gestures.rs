use colorpicky::input::{
    ButtonEvent, ButtonInput, DEBOUNCE_MS, DOUBLE_CLICK_MS, LONG_PRESS_MS, SAMPLING_MS,
};

/// Polls every 10 ms from 0 to `until`, with the contact closed inside the
/// given intervals (start included, end excluded), and collects what is emitted
/// together with the time of the tick.
fn run(button: &mut ButtonInput, closed: &[(u64, u64)], until: u64) -> Vec<(u64, ButtonEvent)> {
    let mut events = Vec::new();
    let mut now = 0;
    while now <= until {
        let level = closed.iter().any(|&(from, to)| from <= now && now < to);
        assert!(button.accepts(now));
        if let Some(event) = button.poll(level, now) {
            events.push((now, event));
        }
        now += 10;
    }
    events
}

fn count(events: &[(u64, ButtonEvent)], wanted: ButtonEvent) -> usize {
    events.iter().filter(|(_, e)| *e == wanted).count()
}

#[test]
fn timing_constants() {
    assert_eq!(DEBOUNCE_MS, 50);
    assert_eq!(LONG_PRESS_MS, 1000);
    assert_eq!(SAMPLING_MS, 200);
    assert_eq!(DOUBLE_CLICK_MS, 350);
}

#[test]
fn new_button_is_idle() {
    let mut button = ButtonInput::new();
    assert!(!button.is_held());
    assert!(button.accepts(0));
    assert_eq!(button.poll(false, 0), None);
    assert_eq!(button.poll(false, 5000), None);
    assert!(!button.is_held());
}

#[test]
fn press_shorter_than_debounce_emits_nothing() {
    let mut button = ButtonInput::new();
    let events = run(&mut button, &[(100, 140)], 2000);
    assert_eq!(events, vec![]);
}

#[test]
fn bounce_of_exactly_debounce_is_ignored() {
    let mut button = ButtonInput::new();
    assert_eq!(button.poll(true, 1000), None);
    assert_eq!(button.poll(true, 1025), None);
    assert_eq!(button.poll(false, 1050), None);
    assert_eq!(button.poll(false, 1401), None);
    assert_eq!(button.poll(false, 9000), None);
}

#[test]
fn bounce_keeps_pending_click() {
    let mut button = ButtonInput::new();
    assert_eq!(button.poll(true, 0), None);
    assert_eq!(button.poll(false, 100), None);
    // a bounce inside the double-click window is no second click
    assert_eq!(button.poll(true, 200), None);
    assert_eq!(button.poll(false, 250), None);
    assert_eq!(button.poll(false, 450), None);
    assert_eq!(button.poll(false, 451), Some(ButtonEvent::SingleClick));
    assert_eq!(button.poll(false, 460), None);
}

#[test]
fn press_just_over_debounce_is_a_click() {
    let mut button = ButtonInput::new();
    assert_eq!(button.poll(true, 0), None);
    assert_eq!(button.poll(false, 51), None);
    assert_eq!(button.poll(false, 401), None);
    assert_eq!(button.poll(false, 402), Some(ButtonEvent::SingleClick));
}

#[test]
fn two_presses_give_one_double_click() {
    let mut button = ButtonInput::new();
    // two presses of 100 ms, released 200 ms apart
    let events = run(&mut button, &[(0, 100), (200, 300)], 2000);
    assert_eq!(count(&events, ButtonEvent::DoubleClick), 1);
    assert_eq!(count(&events, ButtonEvent::SingleClick), 0);
    assert_eq!(events, vec![(310, ButtonEvent::DoubleClick)]);
}

#[test]
fn one_press_gives_one_single_click() {
    let mut button = ButtonInput::new();
    let events = run(&mut button, &[(0, 100)], 2000);
    assert_eq!(count(&events, ButtonEvent::SingleClick), 1);
    // released at 100: the first tick more than 350 ms later is at 460
    assert_eq!(events, vec![(460, ButtonEvent::SingleClick)]);
}

#[test]
fn single_click_waits_for_the_window() {
    let mut button = ButtonInput::new();
    assert_eq!(button.poll(true, 0), None);
    assert_eq!(button.poll(false, 100), None);
    assert_eq!(button.poll(false, 450), None);
    assert_eq!(button.poll(false, 451), Some(ButtonEvent::SingleClick));
    assert_eq!(button.poll(false, 461), None);
}

#[test]
fn double_click_comes_on_the_tick_after_the_second_release() {
    let mut button = ButtonInput::new();
    assert_eq!(button.poll(true, 0), None);
    assert_eq!(button.poll(false, 100), None);
    assert_eq!(button.poll(true, 200), None);
    // the falling edge counts the click and emits nothing in its own tick
    assert_eq!(button.poll(false, 300), None);
    assert_eq!(button.poll(false, 300), Some(ButtonEvent::DoubleClick));
    assert_eq!(button.poll(false, 1000), None);
}

#[test]
fn pending_clicks_are_capped_at_two() {
    let mut button = ButtonInput::new();
    assert_eq!(button.poll(true, 0), None);
    assert_eq!(button.poll(false, 60), None);
    assert_eq!(button.poll(true, 70), None);
    assert_eq!(button.poll(false, 130), None);
    assert_eq!(button.poll(true, 140), None);
    assert_eq!(button.poll(false, 200), None);
    assert_eq!(button.poll(false, 210), Some(ButtonEvent::DoubleClick));
    assert_eq!(button.poll(false, 220), None);
    assert_eq!(button.poll(false, 2000), None);
}

#[test]
fn long_hold_is_released_never_long_press() {
    let mut button = ButtonInput::new();
    let events = run(&mut button, &[(0, 1500)], 3000);
    assert_eq!(count(&events, ButtonEvent::LongPress), 0);
    assert_eq!(count(&events, ButtonEvent::HeldBegin), 1);
    assert_eq!(count(&events, ButtonEvent::Released), 1);
    assert_eq!(events[0], (210, ButtonEvent::HeldBegin));
    assert_eq!(events[1], (220, ButtonEvent::HeldTick));
    assert_eq!(*events.last().unwrap(), (1500, ButtonEvent::Released));
    // one tick each from 220 to 1490
    assert_eq!(count(&events, ButtonEvent::HeldTick), 128);
    assert_eq!(events.len(), 130);
}

#[test]
fn sampling_begins_past_the_threshold() {
    let mut button = ButtonInput::new();
    assert_eq!(button.poll(true, 0), None);
    assert_eq!(button.poll(true, 200), None);
    assert_eq!(button.poll(true, 201), Some(ButtonEvent::HeldBegin));
    assert_eq!(button.poll(true, 202), Some(ButtonEvent::HeldTick));
    assert_eq!(button.poll(true, 203), Some(ButtonEvent::HeldTick));
    assert_eq!(button.poll(false, 204), Some(ButtonEvent::Released));
    assert_eq!(button.poll(false, 205), None);
    assert_eq!(button.poll(false, 1000), None);
}

#[test]
fn unsampled_long_press() {
    // no sample between the edges: the press never enters sampling mode
    let mut button = ButtonInput::new();
    assert_eq!(button.poll(true, 0), None);
    assert_eq!(button.poll(false, 1001), Some(ButtonEvent::LongPress));
    assert_eq!(button.poll(false, 1002), None);
    assert_eq!(button.poll(false, 5000), None);
}

#[test]
fn unsampled_press_of_exactly_a_second_is_a_click() {
    let mut button = ButtonInput::new();
    assert_eq!(button.poll(true, 0), None);
    assert_eq!(button.poll(false, 1000), None);
    assert_eq!(button.poll(false, 1350), None);
    assert_eq!(button.poll(false, 1351), Some(ButtonEvent::SingleClick));
}

#[test]
fn released_forgets_pending_click() {
    let mut button = ButtonInput::new();
    assert_eq!(button.poll(true, 0), None);
    assert_eq!(button.poll(false, 100), None);
    assert_eq!(button.poll(true, 150), None);
    assert_eq!(button.poll(true, 400), Some(ButtonEvent::HeldBegin));
    assert_eq!(button.poll(false, 410), Some(ButtonEvent::Released));
    assert_eq!(button.poll(false, 420), None);
    assert_eq!(button.poll(false, 3000), None);
}

#[test]
fn long_press_forgets_pending_click() {
    let mut button = ButtonInput::new();
    assert_eq!(button.poll(true, 0), None);
    assert_eq!(button.poll(false, 100), None);
    assert_eq!(button.poll(true, 150), None);
    assert_eq!(button.poll(false, 1200), Some(ButtonEvent::LongPress));
    assert_eq!(button.poll(false, 1210), None);
    assert_eq!(button.poll(false, 3000), None);
}

#[test]
fn is_held_follows_the_contact() {
    let mut button = ButtonInput::new();
    button.poll(true, 10);
    assert!(button.is_held());
    button.poll(true, 20);
    assert!(button.is_held());
    button.poll(false, 30);
    assert!(!button.is_held());
}

#[test]
fn accepts_only_time_that_moves_on() {
    let mut button = ButtonInput::new();
    button.poll(true, 100);
    assert!(!button.accepts(99));
    assert!(button.accepts(100));
    button.poll(false, 200);
    assert!(!button.accepts(199));
    assert!(button.accepts(200));
    // a bounce leaves no time behind
    let mut other = ButtonInput::new();
    other.poll(true, 100);
    other.poll(false, 120);
    assert!(other.accepts(0));
}

#[test]
fn never_more_events_than_ticks() {
    let mut button = ButtonInput::new();
    let events = run(&mut button, &[(0, 30), (100, 200), (300, 400), (1000, 2500), (2600, 2700)], 4000);
    let mut times: Vec<u64> = events.iter().map(|(t, _)| *t).collect();
    let before = times.len();
    times.dedup();
    assert_eq!(times.len(), before);
    assert!(before <= 401);
    assert_eq!(events[0], (410, ButtonEvent::DoubleClick));
    assert_eq!(events[1], (1210, ButtonEvent::HeldBegin));
    assert_eq!(*events.last().unwrap(), (3060, ButtonEvent::SingleClick));
}
