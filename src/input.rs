use vstd::prelude::*;

verus! {

/// The keys the game reacts to.
#[derive(Debug, Clone, Copy, PartialEq, Eq, Structural)]
pub enum Key {
    Escape,
    W,
    S,
    D,
    A,
    Other,
}

/// What happened to a key.
#[derive(Debug, Clone, Copy, PartialEq, Eq, Structural)]
pub enum KeyAction {
    Press,
    Release,
    Repeat,
}

/// A direction of movement of the viewer.
#[derive(Debug, Clone, Copy, PartialEq, Eq, Structural)]
pub enum Direction {
    Forwards,
    Backwards,
    Right,
    Left,
}

/// What a key event asks of the window or the viewer.
#[derive(Debug, Clone, Copy, PartialEq, Eq, Structural)]
pub enum Command {
    ReleaseCursor,
    StartMovement(Direction),
    EndMovement(Direction),
}

/// The direction a movement key stands for.
pub open spec fn key_direction(key: Key) -> Option<Direction> {
    match key {
        Key::W => Some(Direction::Forwards),
        Key::S => Some(Direction::Backwards),
        Key::D => Some(Direction::Right),
        Key::A => Some(Direction::Left),
        _ => None,
    }
}

/// The command for a key event: Escape pressed releases the cursor; a
/// movement key starts its movement when pressed and ends it when released.
pub open spec fn command_spec(key: Key, action: KeyAction) -> Option<Command> {
    if key == Key::Escape {
        if action == KeyAction::Press {
            Some(Command::ReleaseCursor)
        } else {
            None
        }
    } else {
        match key_direction(key) {
            Some(d) => match action {
                KeyAction::Press => Some(Command::StartMovement(d)),
                KeyAction::Release => Some(Command::EndMovement(d)),
                KeyAction::Repeat => None,
            },
            None => None,
        }
    }
}

/// Decides what a key event does.
pub fn handle_window_event(key: Key, action: KeyAction) -> (r: Option<Command>)
    ensures
        r == command_spec(key, action),
{
    let dir = match key {
        Key::Escape => {
            return match action {
                KeyAction::Press => Some(Command::ReleaseCursor),
                _ => None,
            };
        },
        Key::W => Direction::Forwards,
        Key::S => Direction::Backwards,
        Key::D => Direction::Right,
        Key::A => Direction::Left,
        Key::Other => {
            return None;
        },
    };
    match action {
        KeyAction::Press => Some(Command::StartMovement(dir)),
        KeyAction::Release => Some(Command::EndMovement(dir)),
        KeyAction::Repeat => None,
    }
}

} // verus!
