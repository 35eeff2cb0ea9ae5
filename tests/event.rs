use tcrab_console::event::{loop_flow, run_events, ButtonState, KeyCode, LoopRun};
use tcrab_console::{ControlFlow, Event};

fn key(k: KeyCode) -> Option<Event> {
    Some(Event::KeyboardInput { key_code: Some(k), key_state: ButtonState::Pressed })
}

#[test]
fn quit_stops_the_loop_even_when_handler_continues() {
    let events = vec![None, key(KeyCode::Up), None, key(KeyCode::Left), Some(Event::Quit)];
    let replies = vec![ControlFlow::Continue; 5];
    let r = run_events(&events, &replies);
    assert_eq!(r, LoopRun { consumed: 5, handler_calls: 3, stopped: true });
}

#[test]
fn nothing_after_quit_is_taken() {
    let events = vec![key(KeyCode::Down), Some(Event::Quit), key(KeyCode::Up), Some(Event::Quit)];
    let replies = vec![ControlFlow::Continue; 4];
    let r = run_events(&events, &replies);
    assert_eq!(r, LoopRun { consumed: 2, handler_calls: 2, stopped: true });
}

#[test]
fn handler_break_stops_the_loop() {
    let events = vec![key(KeyCode::Right), None, key(KeyCode::Escape), key(KeyCode::Up)];
    let replies = vec![ControlFlow::Continue, ControlFlow::Break, ControlFlow::Break, ControlFlow::Continue];
    let r = run_events(&events, &replies);
    assert_eq!(r, LoopRun { consumed: 3, handler_calls: 2, stopped: true });
}

#[test]
fn unmapped_events_are_skipped_silently() {
    let events = vec![None, None, None];
    let replies = vec![ControlFlow::Break; 3];
    let r = run_events(&events, &replies);
    assert_eq!(r, LoopRun { consumed: 3, handler_calls: 0, stopped: false });
}

#[test]
fn loop_flow_decides_on_quit_and_break() {
    let released = Event::KeyboardInput { key_code: None, key_state: ButtonState::Released };
    assert_eq!(loop_flow(&Event::Quit, ControlFlow::Continue), ControlFlow::Break);
    assert_eq!(loop_flow(&released, ControlFlow::Continue), ControlFlow::Continue);
    assert_eq!(loop_flow(&released, ControlFlow::Break), ControlFlow::Break);
}
