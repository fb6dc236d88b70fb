use vstd::prelude::*;

use crate::movement::MovementState;

verus! {

/// An inclusive range of frame indices in a sprite sheet.
#[derive(Clone, Copy, Debug, PartialEq, Eq, Structural)]
pub struct AnimationIndices {
    pub from_i: usize,
    pub to_i: usize,
}

/// The frame ranges a character plays for each movement state.
#[derive(Clone, Copy, Debug, PartialEq, Eq, Structural)]
pub struct MovementAnimation {
    pub up: AnimationIndices,
    pub down: AnimationIndices,
    pub right: AnimationIndices,
    pub idle: AnimationIndices,
}

impl AnimationIndices {
    /// A range that a tick can step through without leaving `usize`: only a
    /// range that starts at `usize::MAX` and ends below it cannot.
    pub open spec fn can_step(self) -> bool {
        self.from_i < usize::MAX || self.from_i <= self.to_i
    }

    /// The frame to show after one tick: an index outside the range restarts
    /// at its first frame; when the timer has just finished, the animation
    /// advances one frame, wrapping from the last back to the first.
    pub open spec fn spec_next_frame(self, index: usize, finished: bool) -> int {
        let i = if index < self.from_i || index > self.to_i {
            self.from_i as int
        } else {
            index as int
        };
        if !finished {
            i
        } else if i == self.to_i {
            self.from_i as int
        } else {
            i + 1
        }
    }

    /// Advances the animation by one tick; see `spec_next_frame`.
    pub fn next_frame(&self, index: usize, finished: bool) -> (next: usize)
        requires
            self.can_step(),
        ensures
            next == self.spec_next_frame(index, finished),
    {
        let mut i = index;
        if i < self.from_i || i > self.to_i {
            i = self.from_i;
        }
        if finished {
            if i == self.to_i {
                self.from_i
            } else {
                i + 1
            }
        } else {
            i
        }
    }
}

impl MovementAnimation {
    /// The frames played in `state`: moving left plays the rightward frames.
    pub open spec fn spec_for_state(self, state: MovementState) -> AnimationIndices {
        match state {
            MovementState::Idle => self.idle,
            MovementState::Up => self.up,
            MovementState::Down => self.down,
            MovementState::Right => self.right,
            MovementState::Left => self.right,
        }
    }

    /// The frames played in `state`.
    pub fn for_state(&self, state: MovementState) -> (frames: &AnimationIndices)
        ensures
            *frames == self.spec_for_state(state),
    {
        match state {
            MovementState::Idle => &self.idle,
            MovementState::Up => &self.up,
            MovementState::Down => &self.down,
            MovementState::Right => &self.right,
            MovementState::Left => &self.right,
        }
    }

    /// One tick of a character's animation in `state`, showing frame
    /// `index`: the frame to show next, and whether the sprite is mirrored.
    pub fn advance(&self, state: MovementState, index: usize, finished: bool) -> (next: (usize, bool))
        requires
            self.spec_for_state(state).can_step(),
        ensures
            next.0 == self.spec_for_state(state).spec_next_frame(index, finished),
            next.1 == (state == MovementState::Left),
    {
        let frames = self.for_state(state);
        (frames.next_frame(index, finished), state.faces_left())
    }
}

} // verus!
