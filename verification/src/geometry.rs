//! The discrete playing field: cell coordinates, directions of travel,
//! and the single-step movement rule.

use vstd::prelude::*;

verus! {

/// Width of the playing field, in cells.
pub const WIDTH: u16 = 20;

/// Height of the playing field, in cells.
pub const HEIGHT: u16 = 10;

/// A cell of the grid.
#[derive(Clone, Copy, PartialEq, Eq, Structural, Debug)]
pub struct Pos {
    pub x: u16,
    pub y: u16,
}

/// A direction of travel.
#[derive(Clone, Copy, PartialEq, Eq, Structural, Debug)]
pub enum Direction {
    Up,
    Down,
    Left,
    Right,
}

/// A cell lies on the playing field.
pub open spec fn in_bounds(p: Pos) -> bool {
    p.x < WIDTH && p.y < HEIGHT
}

/// The direction exactly opposite to `d`.
pub open spec fn opposite(d: Direction) -> Direction {
    match d {
        Direction::Up => Direction::Down,
        Direction::Down => Direction::Up,
        Direction::Left => Direction::Right,
        Direction::Right => Direction::Left,
    }
}

/// Whether `b` is the 180-degree reversal of `a`.
pub fn is_opposite(a: Direction, b: Direction) -> (r: bool)
    ensures
        r == (b == opposite(a)),
{
    match (a, b) {
        (Direction::Up, Direction::Down) => true,
        (Direction::Down, Direction::Up) => true,
        (Direction::Left, Direction::Right) => true,
        (Direction::Right, Direction::Left) => true,
        _ => false,
    }
}

/// Horizontal coordinate of the candidate head one step from `p` in
/// direction `d`: moving left clamps at zero, moving right adds one.
pub open spec fn step_x(p: Pos, d: Direction) -> int {
    match d {
        Direction::Left => if p.x == 0 { 0int } else { p.x - 1 },
        Direction::Right => p.x + 1,
        Direction::Up => p.x as int,
        Direction::Down => p.x as int,
    }
}

/// Vertical coordinate of the candidate head one step from `p` in
/// direction `d`: moving up clamps at zero, moving down adds one.
pub open spec fn step_y(p: Pos, d: Direction) -> int {
    match d {
        Direction::Up => if p.y == 0 { 0int } else { p.y - 1 },
        Direction::Down => p.y + 1,
        Direction::Left => p.y as int,
        Direction::Right => p.y as int,
    }
}

/// The candidate head one step from `p` in direction `d`, as a cell.
/// Keeping `p` on the field keeps the sums below the integer limit.
pub fn step_cell(p: Pos, d: Direction) -> (q: Pos)
    requires
        p.x < WIDTH,
        p.y < HEIGHT,
    ensures
        q.x == step_x(p, d),
        q.y == step_y(p, d),
{
    match d {
        Direction::Up => Pos { x: p.x, y: if p.y == 0 { 0 } else { p.y - 1 } },
        Direction::Down => Pos { x: p.x, y: p.y + 1 },
        Direction::Left => Pos { x: if p.x == 0 { 0 } else { p.x - 1 }, y: p.y },
        Direction::Right => Pos { x: p.x + 1, y: p.y },
    }
}

} // verus!
