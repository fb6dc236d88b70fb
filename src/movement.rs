use vstd::prelude::*;

verus! {

/// What a moving character is doing, as far as its animation is concerned.
#[derive(Clone, Copy, Debug, PartialEq, Eq, Structural)]
pub enum MovementState {
    Idle,
    Up,
    Down,
    Left,
    Right,
}

/// The state for a heading given as an octant index: the angle from the
/// rightward axis, in eighths of a turn, offset by 4 (0 and 8 face left,
/// 4 faces right). Octants 1 to 3 move up, 5 to 7 move down, and any other
/// index means no movement.
pub open spec fn octant_state(value: usize) -> MovementState {
    if value == 0 {
        MovementState::Left
    } else if 1 <= value <= 3 {
        MovementState::Up
    } else if value == 4 {
        MovementState::Right
    } else if 5 <= value <= 7 {
        MovementState::Down
    } else {
        MovementState::Idle
    }
}

impl From<usize> for MovementState {
    fn from(value: usize) -> (state: MovementState) {
        match value {
            0 => MovementState::Left,
            1 => MovementState::Up,
            2 => MovementState::Up,
            3 => MovementState::Up,
            4 => MovementState::Right,
            5 => MovementState::Down,
            6 => MovementState::Down,
            7 => MovementState::Down,
            _ => MovementState::Idle,
        }
    }
}

impl vstd::std_specs::convert::FromSpecImpl<usize> for MovementState {
    open spec fn obeys_from_spec() -> bool {
        true
    }

    open spec fn from_spec(v: usize) -> MovementState {
        octant_state(v)
    }
}

impl MovementState {
    /// Whether a sprite in this state is drawn mirrored: moving left shows
    /// the rightward frames flipped.
    pub fn faces_left(self) -> (flip: bool)
        ensures
            flip == (self == MovementState::Left),
    {
        match self {
            MovementState::Left => true,
            _ => false,
        }
    }
}

} // verus!
