//! Directions and steps from cell to cell, with the tunnels that wrap
//! around the edges of the maze.

use vstd::prelude::*;

use crate::eadk::{key, Point, State};
use crate::eadk::key_bit;
use crate::pacman::game::{Grid, Space, GRID_HEIGHT, GRID_WIDTH, GRID_SIZE, spec_grid_index};

verus! {

/// A direction of movement in the maze.
#[derive(Clone, Copy, Debug, PartialEq, Eq, Structural)]
pub enum Direction {
    Up,
    Down,
    Right,
    Left,
}

/// The opposite direction.
pub open spec fn spec_opposite(d: Direction) -> Direction {
    match d {
        Direction::Up => Direction::Down,
        Direction::Down => Direction::Up,
        Direction::Right => Direction::Left,
        Direction::Left => Direction::Right,
    }
}

/// The unit step of a direction, `y` growing downwards.
pub open spec fn spec_vector(d: Direction) -> (int, int) {
    match d {
        Direction::Up => (0, -1),
        Direction::Down => (0, 1),
        Direction::Right => (1, 0),
        Direction::Left => (-1, 0),
    }
}

impl Direction {
    pub fn opposite(&self) -> (d: Direction)
        ensures
            d == spec_opposite(*self),
    {
        match self {
            Direction::Up => Direction::Down,
            Direction::Down => Direction::Up,
            Direction::Right => Direction::Left,
            Direction::Left => Direction::Right,
        }
    }

    pub fn to_vector(self) -> (v: (i16, i16))
        ensures
            v.0 == spec_vector(self).0,
            v.1 == spec_vector(self).1,
    {
        match self {
            Direction::Up => (0, -1),
            Direction::Down => (0, 1),
            Direction::Right => (1, 0),
            Direction::Left => (-1, 0),
        }
    }
}

/// Taking the opposite twice gives the direction back.
pub proof fn lemma_opposite_involutive(d: Direction)
    ensures
        spec_opposite(spec_opposite(d)) == d,
        spec_opposite(d) != d,
{
}

/// A direction and its opposite are steps that cancel out.
pub proof fn lemma_opposite_vector(d: Direction)
    ensures
        spec_vector(spec_opposite(d)).0 == -spec_vector(d).0,
        spec_vector(spec_opposite(d)).1 == -spec_vector(d).1,
{
}

/// The coordinates of a position fit the signed arithmetic of a step.
pub open spec fn step_ok(from: Point) -> bool {
    from.x + GRID_WIDTH < i16::MAX && from.y + GRID_HEIGHT < i16::MAX
}

/// The cell reached from `from` by one step in `dir`, wrapping around the
/// maze when the step leaves it, and whether it wrapped.
pub open spec fn spec_next_pos(from: Point, dir: Direction) -> (Point, bool) {
    let nx = from.x + spec_vector(dir).0;
    let ny = from.y + spec_vector(dir).1;
    let wrapped = nx < 0 || ny < 0 || nx >= GRID_WIDTH || ny >= GRID_HEIGHT;
    if wrapped {
        (Point { x: ((GRID_WIDTH + nx) % (GRID_WIDTH as int)) as u16, y: ((GRID_HEIGHT + ny) % (GRID_HEIGHT as int)) as u16 }, true)
    } else {
        (Point { x: nx as u16, y: ny as u16 }, false)
    }
}

/// Gives the next cell in a direction, and whether the move wrapped around the maze.
pub fn next_pos(from: Point, dir: &Direction) -> (r: (Point, bool))
    requires
        step_ok(from),
    ensures
        r == spec_next_pos(from, *dir),
        r.0.x < GRID_WIDTH && r.0.y < GRID_HEIGHT,
{
    let v = dir.to_vector();
    let nx: i16 = from.x as i16 + v.0;
    let ny: i16 = from.y as i16 + v.1;
    let gw: i16 = GRID_WIDTH as i16;
    let gh: i16 = GRID_HEIGHT as i16;
    if nx < 0 || ny < 0 || nx >= gw || ny >= gh {
        (Point { x: ((gw + nx) % gw) as u16, y: ((gh + ny) % gh) as u16 }, true)
    } else {
        (Point { x: nx as u16, y: ny as u16 }, false)
    }
}

/// Inside the maze, a step and the step back return to the start.
pub proof fn lemma_step_back(from: Point, dir: Direction)
    requires
        from.x < GRID_WIDTH,
        from.y < GRID_HEIGHT,
    ensures
        spec_next_pos(spec_next_pos(from, dir).0, spec_opposite(dir)).0 == from,
{
}

/// Whether the cell next to `from` in direction `dir` can be entered (it is not a wall).
pub open spec fn spec_can_go_to(from: Point, dir: Direction, grid: Seq<Space>) -> bool {
    grid[spec_grid_index(spec_next_pos(from, dir).0)] != Space::Wall
}

/// Whether one can move from `from` in direction `dir`: the next cell is not a wall.
pub fn can_go_to(from: Point, dir: &Direction, grid: &Grid) -> (b: bool)
    requires
        step_ok(from),
    ensures
        b == spec_can_go_to(from, *dir, grid@),
{
    let (next, _) = next_pos(from, dir);
    let idx: usize = (next.x + next.y * GRID_WIDTH) as usize;
    assert(idx < GRID_SIZE);
    match grid[idx] {
        Space::Wall => false,
        _ => true,
    }
}

/// The direction Pac-Man takes from the keys held: the first of Up, Down,
/// Right, Left whose key is held and whose next cell is free, else the
/// current direction.
pub open spec fn spec_input_direction(keys: u64, pos: Point, current: Direction, grid: Seq<Space>) -> Direction {
    if key_bit(keys, key::UP) && spec_can_go_to(pos, Direction::Up, grid) {
        Direction::Up
    } else if key_bit(keys, key::DOWN) && spec_can_go_to(pos, Direction::Down, grid) {
        Direction::Down
    } else if key_bit(keys, key::RIGHT) && spec_can_go_to(pos, Direction::Right, grid) {
        Direction::Right
    } else if key_bit(keys, key::LEFT) && spec_can_go_to(pos, Direction::Left, grid) {
        Direction::Left
    } else {
        current
    }
}

/// Reads the direction asked by the player from a keyboard scan.
pub fn input_direction(scan: &State, pos: Point, current: Direction, grid: &Grid) -> (d: Direction)
    requires
        step_ok(pos),
    ensures
        d == spec_input_direction(scan@, pos, current, grid@),
{
    if scan.key_down(key::UP) && can_go_to(pos, &Direction::Up, grid) {
        Direction::Up
    } else if scan.key_down(key::DOWN) && can_go_to(pos, &Direction::Down, grid) {
        Direction::Down
    } else if scan.key_down(key::RIGHT) && can_go_to(pos, &Direction::Right, grid) {
        Direction::Right
    } else if scan.key_down(key::LEFT) && can_go_to(pos, &Direction::Left, grid) {
        Direction::Left
    } else {
        current
    }
}

} // verus!
