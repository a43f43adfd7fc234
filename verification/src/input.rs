//! The input state: where the pointer is and which buttons are held, as of
//! the last event that arrived.

use vstd::prelude::*;
use crate::geometry::Point;

verus! {

/// Number of button flags.
pub const BUTTON_SLOTS: usize = 4;

/// Flag index of the primary button.
pub const PRIMARY_SLOT: usize = 0;

/// Flag index of the middle button.
pub const MIDDLE_SLOT: usize = 2;

/// Flag index of the secondary button.
pub const SECONDARY_SLOT: usize = 3;

/// A button of the pointing device.
#[derive(Clone, Copy, Debug, PartialEq, Eq, Structural)]
pub enum MouseButton {
    Left,
    Right,
    Middle,
    Back,
    Forward,
    Other(u16),
}

/// An event of the window, reduced to what the interface reads.
#[derive(Clone, Copy, Debug, PartialEq, Eq, Structural)]
pub enum UiEvent {
    /// The pointer moved to this position.
    CursorMoved { x: i32, y: i32 },
    /// A button went down (`pressed`) or up.
    MouseInput { button: MouseButton, pressed: bool },
    /// Anything else.
    Other,
}

/// The latest pointer position and one pressed flag per button slot. Events
/// overwrite it in place; there is no history.
#[derive(Clone, Copy, Debug)]
pub struct InputState {
    pub cursor_pos: Point,
    pub mouse_buttons: [bool; 4],
}

impl MouseButton {
    /// The flag that a button sets: the primary button the first, the middle
    /// button the third, the secondary button the fourth. The second flag is
    /// reserved, and the other buttons have none.
    pub open spec fn spec_slot(self) -> Option<usize> {
        match self {
            MouseButton::Left => Some(PRIMARY_SLOT),
            MouseButton::Middle => Some(MIDDLE_SLOT),
            MouseButton::Right => Some(SECONDARY_SLOT),
            _ => None,
        }
    }

    #[verifier::when_used_as_spec(spec_slot)]
    pub fn slot(self) -> (slot: Option<usize>)
        ensures
            slot == self.spec_slot(),
            slot matches Some(i) ==> i < BUTTON_SLOTS,
    {
        match self {
            MouseButton::Left => Some(PRIMARY_SLOT),
            MouseButton::Middle => Some(MIDDLE_SLOT),
            MouseButton::Right => Some(SECONDARY_SLOT),
            _ => None,
        }
    }
}

impl InputState {
    /// Whether the primary button is held.
    pub open spec fn spec_primary(self) -> bool {
        self.mouse_buttons@[PRIMARY_SLOT as int]
    }

    /// The state after an event: a move overwrites the pointer position, a
    /// button event sets the button's flag to the event's state, and every
    /// other event, as well as a button without a flag, changes nothing.
    pub open spec fn after(self, event: UiEvent) -> InputState {
        match event {
            UiEvent::CursorMoved { x, y } => InputState { cursor_pos: Point { x, y }, ..self },
            UiEvent::MouseInput { button, pressed } => match button.spec_slot() {
                Some(i) => InputState {
                    mouse_buttons: vstd::array::spec_array_update(
                        self.mouse_buttons,
                        i as int,
                        pressed,
                    ),
                    ..self
                },
                None => self,
            },
            UiEvent::Other => self,
        }
    }

    /// The pointer at the origin and no button held.
    pub fn new() -> (input: InputState)
        ensures
            input.cursor_pos == (Point { x: 0, y: 0 }),
            forall|i: int| 0 <= i < BUTTON_SLOTS ==> !input.mouse_buttons@[i],
    {
        InputState { cursor_pos: Point { x: 0, y: 0 }, mouse_buttons: [false; 4] }
    }

    #[verifier::when_used_as_spec(spec_primary)]
    pub fn primary(self) -> (down: bool)
        ensures
            down == self.spec_primary(),
    {
        self.mouse_buttons[PRIMARY_SLOT]
    }

    /// Applies one event.
    pub fn apply(&mut self, event: &UiEvent)
        ensures
            *final(self) == old(self).after(*event),
    {
        match *event {
            UiEvent::CursorMoved { x, y } => {
                self.cursor_pos = Point { x, y };
            },
            UiEvent::MouseInput { button, pressed } => {
                match button.slot() {
                    Some(i) => {
                        self.mouse_buttons[i] = pressed;
                    },
                    None => {},
                }
            },
            UiEvent::Other => {},
        }
    }
}

/// What an event does to each flag and to the pointer position.
pub proof fn law_event_effect(input: InputState, event: UiEvent)
    ensures
        event matches UiEvent::CursorMoved { x, y } ==> input.after(event).cursor_pos == (Point {
            x,
            y,
        }) && input.after(event).mouse_buttons == input.mouse_buttons,
        event matches UiEvent::MouseInput { button, pressed } ==> {
            &&& input.after(event).cursor_pos == input.cursor_pos
            &&& forall|i: int|
                0 <= i < BUTTON_SLOTS ==> input.after(event).mouse_buttons@[i] == if button.spec_slot()
                    == Some(i as usize) {
                    pressed
                } else {
                    input.mouse_buttons@[i]
                }
        },
        event is Other ==> input.after(event) == input,
{
    broadcast use vstd::array::group_array_axioms;

}

} // verus!
