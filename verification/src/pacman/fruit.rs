//! The fruit bonus: which fruit a level shows, what it is worth, when it
//! appears on the maze and when it leaves.

use vstd::prelude::*;

use crate::eadk::Point;
use crate::pacman::game::{Grid, Space, GRID_SIZE, GRID_WIDTH, spec_grid_index};
use crate::pacman::ghost::clamp_to;
use crate::utils::{randint, spec_randint};

verus! {

/// Minimum time a fruit stays, in ms; up to one more second is drawn at random.
pub const FRUIT_BASE_STAY_MS: u64 = 9000;

/// Index of the fruit of each level, levels 1 to 13 and more.
pub open spec fn spec_fruit_spawn(i: int) -> usize {
    if i == 0 {
        0
    } else if i == 1 {
        1
    } else if i <= 11 {
        ((i + 2) / 2) as usize
    } else {
        7
    }
}

/// Value of each fruit.
pub open spec fn spec_fruit_value(i: int) -> u32 {
    if i == 0 {
        100
    } else if i == 1 {
        300
    } else if i == 2 {
        500
    } else if i == 3 {
        700
    } else if i == 4 {
        1000
    } else if i == 5 {
        2000
    } else if i == 6 {
        3000
    } else {
        5000
    }
}

fn fruit_spawn(i: usize) -> (f: usize)
    requires
        i < 13,
    ensures
        f == spec_fruit_spawn(i as int),
        f < 8,
{
    match i {
        0 => 0,
        1 => 1,
        2 | 3 => 2,
        4 | 5 => 3,
        6 | 7 => 4,
        8 | 9 => 5,
        10 | 11 => 6,
        _ => 7,
    }
}

fn fruit_value(i: usize) -> (v: u32)
    requires
        i < 8,
    ensures
        v == spec_fruit_value(i as int),
{
    match i {
        0 => 100,
        1 => 300,
        2 => 500,
        3 => 700,
        4 => 1000,
        5 => 2000,
        6 => 3000,
        _ => 5000,
    }
}

/// The fruit bonus of a game: where it appears, whether it is on the maze,
/// until when it stays, and how many appeared.
pub struct FruitManager {
    pub spawn_pos: Point,
    pub fruit_active: bool,
    pub despawn_until: u64,
    pub spawn_count: u8,
}

impl FruitManager {
    /// The fruit cell lies in the maze, and at most two fruits appear.
    pub open spec fn wf(&self) -> bool {
        &&& spec_grid_index(self.spawn_pos) < GRID_SIZE
        &&& self.spawn_count <= 2
    }

    pub fn new() -> (m: Self)
        ensures
            m.wf(),
            m.spawn_pos == (Point { x: 13, y: 16 }),
            !m.fruit_active,
            m.despawn_until == 0,
            m.spawn_count == 0,
    {
        Self { spawn_pos: Point { x: 13, y: 16 }, fruit_active: false, despawn_until: 0, spawn_count: 0 }
    }

    /// The fruit index of a level: level `l` (taken as a 16-bit signed number) gives entry `l - 1` of the table, clamped to it.
    pub open spec fn spec_current_fruit_type(level: u32) -> usize {
        spec_fruit_spawn(clamp_to((level as i16) - 1, 12))
    }

    /// The fruit shown at a level.
    pub fn get_current_fruit_type(&self, level: u32) -> (t: usize)
        requires
            (level as i16) > i16::MIN,
        ensures
            t == Self::spec_current_fruit_type(level),
            t < 8,
    {
        let l: i16 = level as i16;
        let v: i16 = l - 1;
        let c: i16 = if v < 0 { 0 } else if v > 12 { 12 } else { v };
        fruit_spawn(c as usize)
    }

    /// The value of the fruit of a level, as the table is read: the fruit
    /// index is itself looked up as a level entry first.
    pub fn get_fruit_value(&self, level: u32) -> (v: u32)
        requires
            (level as i16) > i16::MIN,
        ensures
            v == spec_fruit_value(spec_fruit_spawn(Self::spec_current_fruit_type(level) as int) as int),
    {
        let t = self.get_current_fruit_type(level);
        fruit_value(fruit_spawn(t))
    }

    /// Puts a fruit on the maze when the 70th, then the 170th dot is eaten:
    /// it stays from `now` for 9 s plus a random part of up to 1 s drawn from `random`.
    pub fn check_dot_spawn(&mut self, dots_eaten: u16, grid: &mut Grid, now: u64, random: u32)
        requires
            old(self).wf(),
            now + FRUIT_BASE_STAY_MS + 1000 <= u64::MAX,
        ensures
            final(self).wf(),
            final(self).spawn_pos == old(self).spawn_pos,
            if (dots_eaten == 70 && old(self).spawn_count == 0) || (dots_eaten == 170 && old(self).spawn_count == 1) {
                &&& final(self).spawn_count == old(self).spawn_count + 1
                &&& final(self).fruit_active
                &&& final(self).despawn_until == now + FRUIT_BASE_STAY_MS + spec_randint(0, 1000, random)
                &&& final(grid)@ == old(grid)@.update(spec_grid_index(old(self).spawn_pos), Space::Fruit)
            } else {
                &&& *final(self) == *old(self)
                &&& final(grid)@ == old(grid)@
            },
    {
        if (dots_eaten == 70 && self.spawn_count == 0) || (dots_eaten == 170 && self.spawn_count == 1) {
            self.spawn_count = self.spawn_count + 1;
            self.fruit_active = true;
            self.despawn_until = now + FRUIT_BASE_STAY_MS + randint(0, 1000, random) as u64;
            let idx: usize = (self.spawn_pos.x + self.spawn_pos.y * GRID_WIDTH) as usize;
            grid[idx] = Space::Fruit;
        }
    }

    /// Removes the fruit at time `now` once its time is over, unless it was eaten.
    pub fn update(&mut self, grid: &mut Grid, now: u64)
        requires
            old(self).wf(),
        ensures
            final(self).wf(),
            final(self).spawn_pos == old(self).spawn_pos,
            final(self).spawn_count == old(self).spawn_count,
            if old(self).fruit_active && now >= old(self).despawn_until {
                &&& !final(self).fruit_active
                &&& final(self).despawn_until == 0
                &&& final(grid)@ == (if old(grid)@[spec_grid_index(old(self).spawn_pos)] == Space::Fruit {
                    old(grid)@.update(spec_grid_index(old(self).spawn_pos), Space::Empty)
                } else {
                    old(grid)@
                })
            } else {
                &&& *final(self) == *old(self)
                &&& final(grid)@ == old(grid)@
            },
    {
        if self.fruit_active && now >= self.despawn_until {
            self.fruit_active = false;
            self.despawn_until = 0;
            let idx: usize = (self.spawn_pos.x + self.spawn_pos.y * GRID_WIDTH) as usize;
            if grid[idx] == Space::Fruit {
                grid[idx] = Space::Empty;
            }
        }
    }
}

} // verus!
