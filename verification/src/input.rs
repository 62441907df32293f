//! Keys and what they mean to the graphics program.
//!
//! The window system reports keys in its own type; the program names the
//! few it tells apart and hands them over as [`Key`].

use vstd::prelude::*;

verus! {

/// A key of the keyboard, as far as the program tells keys apart.
#[derive(Clone, Copy, Debug, PartialEq, Eq, Structural)]
pub enum Key {
    Escape,
    Space,
    KeyV,
    KeyW,
    KeyA,
    KeyS,
    KeyD,
    ArrowUp,
    ArrowDown,
    ArrowLeft,
    ArrowRight,
    /// Any key the program has no use for.
    Other,
}

/// What a key press asks of the program.
#[derive(Clone, Copy, Debug, PartialEq, Eq, Structural)]
pub enum InputAction {
    /// Nothing.
    Nothing,
    /// Leave the program.
    Exit,
    /// Draw the other shape.
    ToggleShape,
    /// Switch the picture of the depth buffer on or off.
    ToggleDepthVisualization,
}

/// Reads the keyboard for the program.
pub struct InputHandler;

impl InputHandler {
    /// What `code` asks for when it goes down (`is_pressed`) or up: escape
    /// leaves, space toggles the shape, V toggles the depth picture, each
    /// on the way down only.
    pub open spec fn action_for(code: Key, is_pressed: bool) -> InputAction {
        if !is_pressed {
            InputAction::Nothing
        } else {
            match code {
                Key::Escape => InputAction::Exit,
                Key::Space => InputAction::ToggleShape,
                Key::KeyV => InputAction::ToggleDepthVisualization,
                _ => InputAction::Nothing,
            }
        }
    }

    /// What a key event asks of the program.
    pub fn handle_key(code: Key, is_pressed: bool) -> (action: InputAction)
        ensures
            action == Self::action_for(code, is_pressed),
    {
        if !is_pressed {
            return InputAction::Nothing;
        }
        match code {
            Key::Escape => InputAction::Exit,
            Key::Space => InputAction::ToggleShape,
            Key::KeyV => InputAction::ToggleDepthVisualization,
            _ => InputAction::Nothing,
        }
    }
}

/// The direction a key moves the camera in.
#[derive(Clone, Copy, Debug, PartialEq, Eq, Structural)]
pub enum Direction {
    Forward,
    Backward,
    Left,
    Right,
}

/// The direction `code` stands for, if it is a movement key: W, A, S, D or
/// the arrow that points the same way.
pub open spec fn direction_of(code: Key) -> Option<Direction> {
    match code {
        Key::KeyW | Key::ArrowUp => Some(Direction::Forward),
        Key::KeyA | Key::ArrowLeft => Some(Direction::Left),
        Key::KeyS | Key::ArrowDown => Some(Direction::Backward),
        Key::KeyD | Key::ArrowRight => Some(Direction::Right),
        _ => None,
    }
}

/// Which movement keys are held down.
#[derive(Clone, Copy, Debug, PartialEq, Eq, Structural)]
pub struct MovementKeys {
    pub is_forward_pressed: bool,
    pub is_backward_pressed: bool,
    pub is_left_pressed: bool,
    pub is_right_pressed: bool,
}

impl MovementKeys {
    /// These keys with the one for `direction` set to `is_pressed`.
    pub open spec fn with(self, direction: Direction, is_pressed: bool) -> MovementKeys {
        match direction {
            Direction::Forward => MovementKeys { is_forward_pressed: is_pressed, ..self },
            Direction::Backward => MovementKeys { is_backward_pressed: is_pressed, ..self },
            Direction::Left => MovementKeys { is_left_pressed: is_pressed, ..self },
            Direction::Right => MovementKeys { is_right_pressed: is_pressed, ..self },
        }
    }

    /// No key held down.
    pub fn new() -> (keys: MovementKeys)
        ensures
            keys == (MovementKeys {
                is_forward_pressed: false,
                is_backward_pressed: false,
                is_left_pressed: false,
                is_right_pressed: false,
            }),
    {
        MovementKeys {
            is_forward_pressed: false,
            is_backward_pressed: false,
            is_left_pressed: false,
            is_right_pressed: false,
        }
    }

    /// Records that `code` went down or up. Returns whether it is a
    /// movement key; any other key changes nothing.
    pub fn handle_key(&mut self, code: Key, is_pressed: bool) -> (handled: bool)
        ensures
            handled == direction_of(code) is Some,
            *final(self) == match direction_of(code) {
                Some(direction) => old(self).with(direction, is_pressed),
                None => *old(self),
            },
    {
        match code {
            Key::KeyW | Key::ArrowUp => {
                self.is_forward_pressed = is_pressed;
                true
            },
            Key::KeyA | Key::ArrowLeft => {
                self.is_left_pressed = is_pressed;
                true
            },
            Key::KeyS | Key::ArrowDown => {
                self.is_backward_pressed = is_pressed;
                true
            },
            Key::KeyD | Key::ArrowRight => {
                self.is_right_pressed = is_pressed;
                true
            },
            _ => false,
        }
    }
}

} // verus!
