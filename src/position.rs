use vstd::prelude::*;

use crate::direction::Direction;

verus! {

/// Width of the arena, in cells.
pub const ARENA_WIDTH: i32 = 32;

/// Height of the arena, in cells.
pub const ARENA_HEIGHT: i32 = 18;

/// A cell of the grid. Valid cells satisfy `in_arena`; the head may leave
/// the arena for one tick, which ends the round.
#[derive(Clone, Copy, Debug, PartialEq, Eq, Structural)]
pub struct Position {
    pub x: i32,
    pub y: i32,
}

/// The cell lies inside `[0, ARENA_WIDTH) x [0, ARENA_HEIGHT)`.
pub open spec fn in_arena(p: Position) -> bool {
    0 <= p.x < ARENA_WIDTH && 0 <= p.y < ARENA_HEIGHT
}

/// One step from `p` in any direction stays within `i32`.
pub open spec fn can_step(p: Position) -> bool {
    i32::MIN < p.x < i32::MAX && i32::MIN < p.y < i32::MAX
}

/// The cell one unit step from `p` in direction `d`.
pub open spec fn stepped(p: Position, d: Direction) -> Position {
    Position { x: (p.x + d.dx()) as i32, y: (p.y + d.dy()) as i32 }
}

impl Position {
    pub fn new(x: i32, y: i32) -> (r: Position)
        ensures
            r.x == x,
            r.y == y,
    {
        Position { x, y }
    }

    /// Whether this cell lies inside the arena.
    pub fn is_in_arena(&self) -> (r: bool)
        ensures
            r == in_arena(*self),
    {
        0 <= self.x && self.x < ARENA_WIDTH && 0 <= self.y && self.y < ARENA_HEIGHT
    }

    /// The neighbouring cell in direction `d`.
    pub fn step(&self, d: Direction) -> (r: Position)
        requires
            can_step(*self),
        ensures
            r == stepped(*self, d),
            r.x == self.x + d.dx(),
            r.y == self.y + d.dy(),
    {
        match d {
            Direction::Left => Position { x: self.x - 1, y: self.y },
            Direction::Right => Position { x: self.x + 1, y: self.y },
            Direction::Up => Position { x: self.x, y: self.y + 1 },
            Direction::Down => Position { x: self.x, y: self.y - 1 },
        }
    }
}

/// Whether `p` equals one of the cells of `cells`.
pub fn contains_position(cells: &Vec<Position>, p: Position) -> (r: bool)
    ensures
        r == cells@.contains(p),
{
    let mut i: usize = 0;
    while i < cells.len()
        invariant
            i <= cells@.len(),
            forall|j: int| 0 <= j < i ==> cells@[j] != p,
        decreases cells@.len() - i,
    {
        if cells[i] == p {
            return true;
        }
        i = i + 1;
    }
    false
}

} // verus!
