//! The cursor with which the player points at a cell: where each key
//! takes it, and when the pointing ends.

use vstd::prelude::*;

verus! {

/// A key that the player has pressed, as far as the cursor cares.
#[derive(Copy, Clone, Debug, PartialEq, Eq, Structural)]
pub enum Key {
    Left,
    Right,
    Up,
    Down,
    Enter,
    Esc,
    Other,
}

/// What is to happen after a key.
#[derive(Copy, Clone, Debug, PartialEq, Eq, Structural)]
pub enum Verdict {
    /// Wait for the next key.
    Continue,
    /// Act on the cell under the cursor and end.
    Commit,
    /// End without acting.
    Cancel,
}

/// The cell that the cursor stands on.
#[derive(Copy, Clone, Debug, PartialEq, Eq, Structural)]
pub struct Cursor {
    pub x: usize,
    pub y: usize,
}

/// Where a key takes the cursor: one cell in the direction of an arrow,
/// unless it stands at that edge of the grid; nowhere for any other key.
pub open spec fn moved(width: int, height: int, at: Cursor, key: Key) -> Cursor {
    match key {
        Key::Left => if at.x > 0 {
            Cursor { x: (at.x - 1) as usize, y: at.y }
        } else {
            at
        },
        Key::Right => if at.x + 1 < width {
            Cursor { x: (at.x + 1) as usize, y: at.y }
        } else {
            at
        },
        Key::Up => if at.y > 0 {
            Cursor { x: at.x, y: (at.y - 1) as usize }
        } else {
            at
        },
        Key::Down => if at.y + 1 < height {
            Cursor { x: at.x, y: (at.y + 1) as usize }
        } else {
            at
        },
        _ => at,
    }
}

/// What is to happen after a key: enter commits, escape cancels, every
/// other key leaves the pointing going.
pub open spec fn verdict(key: Key) -> Verdict {
    match key {
        Key::Enter => Verdict::Commit,
        Key::Esc => Verdict::Cancel,
        _ => Verdict::Continue,
    }
}

/// Takes one key: tells where the cursor stands after it and what is to
/// happen next. A cursor on a grid of the given extent stays on it.
pub fn step(width: usize, height: usize, at: Cursor, key: Key) -> (next: (Cursor, Verdict))
    ensures
        next.0 == moved(width as int, height as int, at, key),
        next.1 == verdict(key),
        at.x < width && at.y < height ==> next.0.x < width && next.0.y < height,
{
    match key {
        Key::Left => {
            if at.x > 0 {
                (Cursor { x: at.x - 1, y: at.y }, Verdict::Continue)
            } else {
                (at, Verdict::Continue)
            }
        },
        Key::Right => {
            if at.x < width && at.x + 1 < width {
                (Cursor { x: at.x + 1, y: at.y }, Verdict::Continue)
            } else {
                (at, Verdict::Continue)
            }
        },
        Key::Up => {
            if at.y > 0 {
                (Cursor { x: at.x, y: at.y - 1 }, Verdict::Continue)
            } else {
                (at, Verdict::Continue)
            }
        },
        Key::Down => {
            if at.y < height && at.y + 1 < height {
                (Cursor { x: at.x, y: at.y + 1 }, Verdict::Continue)
            } else {
                (at, Verdict::Continue)
            }
        },
        Key::Enter => (at, Verdict::Commit),
        Key::Esc => (at, Verdict::Cancel),
        Key::Other => (at, Verdict::Continue),
    }
}

} // verus!
