use imui::context::{handle_ui_event, Context};
use imui::geometry::Point;
use imui::input::{InputState, MouseButton, UiEvent};

fn button(button: MouseButton, pressed: bool) -> UiEvent {
    UiEvent::MouseInput { button, pressed }
}

#[test]
fn buttons_map_to_their_flags() {
    assert_eq!(MouseButton::Left.slot(), Some(0));
    assert_eq!(MouseButton::Middle.slot(), Some(2));
    assert_eq!(MouseButton::Right.slot(), Some(3));
    assert_eq!(MouseButton::Back.slot(), None);
    assert_eq!(MouseButton::Forward.slot(), None);
    assert_eq!(MouseButton::Other(1).slot(), None);
    assert_eq!(MouseButton::Other(0).slot(), None);
}

#[test]
fn cursor_moves_overwrite_the_position() {
    let mut input = InputState::new();
    input.apply(&UiEvent::CursorMoved { x: 3, y: 4 });
    input.apply(&UiEvent::CursorMoved { x: -7, y: 900 });
    assert_eq!(input.cursor_pos, Point { x: -7, y: 900 });
    assert_eq!(input.mouse_buttons, [false; 4]);
}

#[test]
fn button_events_set_and_clear_flags() {
    let mut input = InputState::new();
    input.apply(&button(MouseButton::Left, true));
    assert_eq!(input.mouse_buttons, [true, false, false, false]);
    assert!(input.primary());
    input.apply(&button(MouseButton::Middle, true));
    assert_eq!(input.mouse_buttons, [true, false, true, false]);
    input.apply(&button(MouseButton::Right, true));
    assert_eq!(input.mouse_buttons, [true, false, true, true]);
    input.apply(&button(MouseButton::Left, false));
    assert_eq!(input.mouse_buttons, [false, false, true, true]);
    assert!(!input.primary());
    input.apply(&button(MouseButton::Right, false));
    input.apply(&button(MouseButton::Middle, false));
    assert_eq!(input.mouse_buttons, [false; 4]);
}

#[test]
fn other_buttons_and_events_are_ignored() {
    let mut input = InputState::new();
    input.apply(&UiEvent::CursorMoved { x: 1, y: 2 });
    input.apply(&button(MouseButton::Back, true));
    input.apply(&button(MouseButton::Forward, true));
    input.apply(&button(MouseButton::Other(1), true));
    input.apply(&button(MouseButton::Other(7), true));
    input.apply(&UiEvent::Other);
    assert_eq!(input.mouse_buttons, [false; 4]);
    assert_eq!(input.cursor_pos, Point { x: 1, y: 2 });
}

#[test]
fn the_last_event_wins() {
    let mut input = InputState::new();
    input.apply(&button(MouseButton::Left, true));
    input.apply(&button(MouseButton::Left, false));
    input.apply(&button(MouseButton::Left, true));
    assert!(input.primary());
    input.apply(&button(MouseButton::Left, true));
    assert!(input.primary());
}

#[test]
fn handle_ui_event_updates_the_context_input() {
    let mut ctx = Context::new();
    handle_ui_event(&mut ctx, &UiEvent::CursorMoved { x: 55, y: 56 });
    handle_ui_event(&mut ctx, &button(MouseButton::Right, true));
    handle_ui_event(&mut ctx, &button(MouseButton::Other(9), true));
    handle_ui_event(&mut ctx, &UiEvent::Other);
    assert_eq!(ctx.input().cursor_pos, Point { x: 55, y: 56 });
    assert_eq!(ctx.input().mouse_buttons, [false, false, false, true]);
}

#[test]
fn input_handle_writes_through() {
    let mut ctx = Context::new();
    ctx.input().cursor_pos = Point { x: 9, y: 9 };
    ctx.input().mouse_buttons[0] = true;
    assert_eq!(ctx.input().cursor_pos, Point { x: 9, y: 9 });
    assert_eq!(ctx.input().mouse_buttons, [true, false, false, false]);
}
