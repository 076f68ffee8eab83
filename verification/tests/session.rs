use colorpicky::colors::{palette_entry, NamedColor, Rgb};
use colorpicky::input::ButtonEvent;
use colorpicky::session::{normalize, AppMode, AppState, Redraw, HISTORY_LEN};
use colorpicky::tcs34725::Rgbc;

fn sample(r: u16, g: u16, b: u16, c: u16) -> Result<Rgbc, ()> {
    Ok(Rgbc { r, g, b, c })
}

/// Asks which redraw is due and does it.
fn redraw(state: &mut AppState) -> Redraw {
    let due = state.redraw_due();
    state.redraw_done();
    due
}

/// A measuring session whose history holds palette entries `0..n`, entry
/// `n - 1` the newest.
fn with_captures(n: usize) -> AppState {
    let mut state = AppState::new();
    for i in 0..n {
        state.current_reading = Some(palette_entry(i));
        state.push_history();
    }
    state
}

#[test]
fn starts_measuring_with_nothing_captured() {
    let state = AppState::new();
    assert_eq!(state.mode, AppMode::Measuring);
    assert_eq!(HISTORY_LEN, 10);
    assert_eq!(state.history, [None; 10]);
    assert_eq!(state.current_reading, None);
    assert_eq!(state.current_rgbc, Rgbc { r: 0, g: 0, b: 0, c: 0 });
    assert_eq!(state.current_rgbc, Rgbc::default());
    assert!(state.needs_redraw);
    assert_eq!(state.rendered_name, None);
}

#[test]
fn normalize_scales_to_the_clear_channel() {
    assert_eq!(
        normalize(Rgbc { r: 100, g: 50, b: 25, c: 200 }),
        Some(Rgb { r: 127, g: 63, b: 31 })
    );
    assert_eq!(
        normalize(Rgbc { r: 1000, g: 1000, b: 1000, c: 1000 }),
        Some(Rgb { r: 255, g: 255, b: 255 })
    );
    assert_eq!(normalize(Rgbc { r: 0, g: 0, b: 0, c: 5 }), Some(Rgb { r: 0, g: 0, b: 0 }));
    assert_eq!(
        normalize(Rgbc { r: 65535, g: 0, b: 1, c: 65535 }),
        Some(Rgb { r: 255, g: 0, b: 0 })
    );
}

#[test]
fn normalize_discards_a_sample_without_clear_count() {
    assert_eq!(normalize(Rgbc { r: 100, g: 50, b: 25, c: 0 }), None);
    assert_eq!(normalize(Rgbc { r: 0, g: 0, b: 0, c: 0 }), None);
}

#[test]
fn normalize_keeps_the_low_byte_of_a_channel_above_clear() {
    // 300 * 255 / 100 = 765 = 2 * 256 + 253
    assert_eq!(
        normalize(Rgbc { r: 300, g: 100, b: 50, c: 100 }),
        Some(Rgb { r: 253, g: 255, b: 127 })
    );
    // 65535 * 255 = 65279 * 256 + 1
    assert_eq!(
        normalize(Rgbc { r: 65535, g: 65535, b: 65535, c: 1 }),
        Some(Rgb { r: 1, g: 1, b: 1 })
    );
}

#[test]
fn reading_is_matched_and_kept() {
    let mut state = AppState::new();
    state.integrate_reading(sample(100, 50, 25, 200));
    assert_eq!(
        state.current_reading,
        Some(NamedColor { name: "Brown", color: Rgb { r: 127, g: 63, b: 31 } })
    );
    assert_eq!(state.current_rgbc, Rgbc { r: 100, g: 50, b: 25, c: 200 });
    state.integrate_reading(sample(10, 200, 30, 250));
    assert_eq!(
        state.current_reading,
        Some(NamedColor { name: "Lime", color: Rgb { r: 10, g: 204, b: 30 } })
    );
    state.integrate_reading(sample(300, 100, 50, 100));
    assert_eq!(
        state.current_reading,
        Some(NamedColor { name: "Khaki", color: Rgb { r: 253, g: 255, b: 127 } })
    );
    assert_eq!(state.current_rgbc, Rgbc { r: 300, g: 100, b: 50, c: 100 });
    assert_eq!(state.mode, AppMode::Measuring);
    assert_eq!(state.history, [None; 10]);
}

#[test]
fn failed_read_changes_nothing() {
    let mut state = AppState::new();
    state.integrate_reading(sample(100, 50, 25, 200));
    let before = state;
    state.integrate_reading(Err::<Rgbc, &str>("bus fault"));
    assert_eq!(state.current_reading, before.current_reading);
    assert_eq!(state.current_rgbc, before.current_rgbc);
    assert_eq!(state.history, before.history);
    assert_eq!(state.mode, before.mode);
    assert_eq!(state.needs_redraw, before.needs_redraw);
}

#[test]
fn sample_without_clear_count_changes_nothing() {
    let mut state = AppState::new();
    state.integrate_reading(sample(100, 50, 25, 200));
    state.integrate_reading(sample(7, 8, 9, 0));
    assert_eq!(
        state.current_reading,
        Some(NamedColor { name: "Brown", color: Rgb { r: 127, g: 63, b: 31 } })
    );
    assert_eq!(state.current_rgbc, Rgbc { r: 100, g: 50, b: 25, c: 200 });
}

#[test]
fn history_mode_takes_no_reading() {
    let mut state = AppState::new();
    state.integrate_reading(sample(100, 50, 25, 200));
    state.toggle_mode();
    state.integrate_reading(sample(10, 200, 30, 250));
    assert_eq!(
        state.current_reading,
        Some(NamedColor { name: "Brown", color: Rgb { r: 127, g: 63, b: 31 } })
    );
    assert_eq!(state.current_rgbc, Rgbc { r: 100, g: 50, b: 25, c: 200 });
}

#[test]
fn push_without_reading_changes_nothing() {
    let mut state = AppState::new();
    state.push_history();
    assert_eq!(state.history, [None; 10]);
    let mut filled = with_captures(3);
    filled.current_reading = None;
    let before = filled.history;
    filled.push_history();
    assert_eq!(filled.history, before);
}

#[test]
fn push_puts_the_reading_in_front() {
    let state = with_captures(3);
    assert_eq!(state.history[0], Some(palette_entry(2)));
    assert_eq!(state.history[1], Some(palette_entry(1)));
    assert_eq!(state.history[2], Some(palette_entry(0)));
    for i in 3..10 {
        assert_eq!(state.history[i], None);
    }
    assert_eq!(state.current_reading, Some(palette_entry(2)));
}

#[test]
fn eleven_pushes_leave_the_ten_most_recent() {
    let state = with_captures(11);
    for i in 0..10 {
        assert_eq!(state.history[i], Some(palette_entry(10 - i)));
    }
    assert_eq!(state.history[0].unwrap().name, "Peach");
    assert_eq!(state.history[9].unwrap().name, "Dark Red");
    assert!(state.history.iter().all(|slot| *slot != Some(palette_entry(0))));
}

#[test]
fn exactly_ten_pushes_fill_the_history() {
    let state = with_captures(10);
    for i in 0..10 {
        assert_eq!(state.history[i], Some(palette_entry(9 - i)));
    }
}

#[test]
fn toggle_twice_returns_to_the_mode() {
    let mut state = with_captures(4);
    state.integrate_reading(sample(100, 50, 25, 200));
    let before = state;
    state.toggle_mode();
    assert_eq!(state.mode, AppMode::History);
    assert!(state.needs_redraw);
    state.toggle_mode();
    assert_eq!(state.mode, AppMode::Measuring);
    assert_eq!(state.history, before.history);
    assert_eq!(state.current_reading, before.current_reading);
    assert_eq!(state.current_rgbc, before.current_rgbc);
    assert!(state.needs_redraw);
}

#[test]
fn toggle_asks_for_a_full_redraw() {
    let mut state = AppState::new();
    assert_eq!(redraw(&mut state), Redraw::Full);
    assert!(!state.needs_redraw);
    state.toggle_mode();
    assert!(state.needs_redraw);
    assert_eq!(redraw(&mut state), Redraw::Full);
    assert_eq!(redraw(&mut state), Redraw::Nothing);
}

#[test]
fn clear_does_nothing_while_measuring() {
    let mut state = with_captures(5);
    assert_eq!(redraw(&mut state), Redraw::Full);
    let before = state;
    state.clear_history();
    assert_eq!(state.history, before.history);
    assert_eq!(state.mode, AppMode::Measuring);
    assert_eq!(state.current_reading, before.current_reading);
    assert!(!state.needs_redraw);
    assert_eq!(state.rendered_name, before.rendered_name);
}

#[test]
fn clear_empties_the_history_in_history_mode() {
    let mut state = with_captures(10);
    state.toggle_mode();
    assert_eq!(redraw(&mut state), Redraw::Full);
    assert!(!state.needs_redraw);
    let reading = state.current_reading;
    state.clear_history();
    assert_eq!(state.history, [None; 10]);
    assert!(state.needs_redraw);
    assert_eq!(state.mode, AppMode::History);
    assert_eq!(state.current_reading, reading);
    assert_eq!(redraw(&mut state), Redraw::Full);
}

#[test]
fn double_click_changes_the_mode() {
    let mut state = AppState::new();
    state.handle_event(ButtonEvent::DoubleClick);
    assert_eq!(state.mode, AppMode::History);
    state.handle_event(ButtonEvent::DoubleClick);
    assert_eq!(state.mode, AppMode::Measuring);
}

#[test]
fn single_click_captures_while_measuring() {
    let mut state = AppState::new();
    state.handle_event(ButtonEvent::SingleClick);
    assert_eq!(state.history, [None; 10]);
    state.integrate_reading(sample(100, 50, 25, 200));
    state.handle_event(ButtonEvent::SingleClick);
    assert_eq!(
        state.history[0],
        Some(NamedColor { name: "Brown", color: Rgb { r: 127, g: 63, b: 31 } })
    );
    assert_eq!(state.history[1], None);
    state.handle_event(ButtonEvent::SingleClick);
    assert_eq!(state.history[1], state.history[0]);
    assert_eq!(state.history[2], None);
}

#[test]
fn single_click_does_nothing_in_history_mode() {
    let mut state = with_captures(2);
    state.toggle_mode();
    let before = state.history;
    state.handle_event(ButtonEvent::SingleClick);
    assert_eq!(state.history, before);
    assert_eq!(state.mode, AppMode::History);
}

#[test]
fn long_press_clears_in_history_mode_only() {
    let mut state = with_captures(2);
    let before = state.history;
    state.handle_event(ButtonEvent::LongPress);
    assert_eq!(state.history, before);
    state.handle_event(ButtonEvent::DoubleClick);
    state.handle_event(ButtonEvent::LongPress);
    assert_eq!(state.history, [None; 10]);
    assert_eq!(state.mode, AppMode::History);
}

#[test]
fn held_events_change_nothing() {
    for event in [ButtonEvent::HeldBegin, ButtonEvent::HeldTick, ButtonEvent::Released] {
        for history_mode in [false, true] {
            let mut state = with_captures(3);
            if history_mode {
                state.toggle_mode();
            }
            redraw(&mut state);
            let before = state;
            state.handle_event(event);
            assert_eq!(state.mode, before.mode);
            assert_eq!(state.history, before.history);
            assert_eq!(state.current_reading, before.current_reading);
            assert_eq!(state.needs_redraw, before.needs_redraw);
        }
    }
}

#[test]
fn partial_redraw_only_when_the_name_changes() {
    let mut state = AppState::new();
    assert_eq!(redraw(&mut state), Redraw::Full);
    assert_eq!(redraw(&mut state), Redraw::Nothing);
    state.integrate_reading(sample(100, 50, 25, 200));
    assert_eq!(redraw(&mut state), Redraw::Partial);
    assert_eq!(state.rendered_name, Some("Brown"));
    assert_eq!(redraw(&mut state), Redraw::Nothing);
    // another colour under the same name
    state.integrate_reading(sample(139, 69, 19, 255));
    assert_eq!(state.current_reading.unwrap().name, "Brown");
    assert_eq!(state.current_reading.unwrap().color, Rgb { r: 139, g: 69, b: 19 });
    assert_eq!(redraw(&mut state), Redraw::Nothing);
    state.integrate_reading(sample(10, 200, 30, 250));
    assert_eq!(redraw(&mut state), Redraw::Partial);
    assert_eq!(state.rendered_name, Some("Lime"));
    assert_eq!(redraw(&mut state), Redraw::Nothing);
}

#[test]
fn history_mode_is_static() {
    let mut state = AppState::new();
    state.integrate_reading(sample(100, 50, 25, 200));
    state.toggle_mode();
    assert_eq!(redraw(&mut state), Redraw::Full);
    state.current_reading = Some(palette_entry(0));
    assert_eq!(redraw(&mut state), Redraw::Nothing);
    assert_eq!(state.rendered_name, Some("Brown"));
}

#[test]
fn full_redraw_takes_the_name_on_the_screen() {
    let mut state = AppState::new();
    state.integrate_reading(sample(100, 50, 25, 200));
    assert_eq!(redraw(&mut state), Redraw::Full);
    assert_eq!(state.rendered_name, Some("Brown"));
    assert_eq!(redraw(&mut state), Redraw::Nothing);
}

#[test]
fn redraw_stays_due_until_done() {
    let mut state = AppState::new();
    assert_eq!(state.redraw_due(), Redraw::Full);
    assert_eq!(state.redraw_due(), Redraw::Full);
    assert!(state.needs_redraw);
    state.redraw_done();
    assert_eq!(state.redraw_due(), Redraw::Nothing);
    state.integrate_reading(sample(100, 50, 25, 200));
    assert_eq!(state.redraw_due(), Redraw::Partial);
    assert_eq!(state.redraw_due(), Redraw::Partial);
    assert_eq!(state.rendered_name, None);
    state.redraw_done();
    assert_eq!(state.rendered_name, Some("Brown"));
    assert_eq!(state.redraw_due(), Redraw::Nothing);
    // with nothing due, done changes nothing
    state.redraw_done();
    assert_eq!(state.rendered_name, Some("Brown"));
    assert!(!state.needs_redraw);
}
