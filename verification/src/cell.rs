//! The vocabulary of the grid: cell contents, headings, and control modes.

use vstd::prelude::*;

verus! {

/// The content of one grid position.
///
/// The invariant maintained by the tick rules is that the `Alive` cells are
/// exactly the positions covered by the snake's body (direct grid editing
/// and resizing can break this on purpose; a restart re-establishes it).
#[derive(Clone, Copy, Debug, PartialEq, Eq, Structural)]
pub enum Cell {
    Dead,
    Alive,
    Apple,
}

impl Cell {
    /// The numeric encoding a renderer reads: 0 = Dead, 1 = Alive, 2 = Apple.
    pub open spec fn code_spec(self) -> u8 {
        match self {
            Cell::Dead => 0,
            Cell::Alive => 1,
            Cell::Apple => 2,
        }
    }

    /// Encode this cell as the byte a renderer expects.
    pub fn code(self) -> (r: u8)
        ensures
            r == self.code_spec(),
    {
        match self {
            Cell::Dead => 0,
            Cell::Alive => 1,
            Cell::Apple => 2,
        }
    }

    /// The result of toggling: Dead and Alive swap, Apple is left alone.
    pub open spec fn toggled(self) -> Cell {
        match self {
            Cell::Dead => Cell::Alive,
            Cell::Alive => Cell::Dead,
            Cell::Apple => Cell::Apple,
        }
    }

    /// Cycle this cell between Dead and Alive; an Apple is left unchanged.
    pub fn toggle(&mut self)
        ensures
            *final(self) == old(self).toggled(),
    {
        *self = match *self {
            Cell::Dead => Cell::Alive,
            Cell::Alive => Cell::Dead,
            Cell::Apple => Cell::Apple,
        };
    }
}

/// The heading the snake's head will move on the next tick.
#[derive(Clone, Copy, Debug, PartialEq, Eq, Structural)]
pub enum Direction {
    Up,
    Down,
    Left,
    Right,
}

impl Direction {
    /// The exact reverse of a heading (Up and Down swap, Left and Right swap).
    pub open spec fn reverse_spec(self) -> Direction {
        match self {
            Direction::Up => Direction::Down,
            Direction::Down => Direction::Up,
            Direction::Left => Direction::Right,
            Direction::Right => Direction::Left,
        }
    }

}

/// Who is steering the snake. Declared as part of the domain vocabulary for
/// an external controller to branch on; the tick rules never read it.
#[derive(Clone, Copy, Debug, PartialEq, Eq, Structural)]
pub enum ControlState {
    Player,
    Computer,
}

} // verus!
