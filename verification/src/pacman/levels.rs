//! Level progression: which fruit a level offers, the scatter and chase
//! waves, the frightened time and house release delays, and the fruit
//! that appears after enough dots are eaten.

use vstd::prelude::*;

use crate::eadk::Point;
use crate::pacman::game::{Grid, Space, GRID_SIZE, GRID_WIDTH, spec_grid_index};

verus! {

/// Number of dots in the maze.
pub const TOTAL_DOTS: u16 = 238;

/// Dots eaten when the first fruit of a level appears.
pub const FRUIT_SPAWN_DOT_COUNT_1: u16 = 70;

/// Dots eaten when the second fruit of a level appears.
pub const FRUIT_SPAWN_DOT_COUNT_2: u16 = 170;

/// How long a fruit stays, in ms.
pub const FRUIT_DESPAWN_TIME_MS: u64 = 9500;

/// Warning window before the frightened time ends, in ms.
pub const DEFAULT_BLINK_WINDOW_MS: u64 = 2000;

/// Points for each fruit: cherry, strawberry, peach, apple, grapes, galaxian, bell, key.
pub open spec fn spec_fruit_score(fruit_id: u8) -> u32 {
    if fruit_id == 0 {
        100
    } else if fruit_id == 1 {
        300
    } else if fruit_id == 2 {
        500
    } else if fruit_id == 3 {
        700
    } else if fruit_id == 4 {
        1000
    } else if fruit_id == 5 {
        2000
    } else if fruit_id == 6 {
        3000
    } else {
        5000
    }
}

/// Points for a fruit (ids from 0 to 7).
pub fn fruit_score(fruit_id: u8) -> (p: u32)
    requires
        fruit_id < 8,
    ensures
        p == spec_fruit_score(fruit_id),
{
    match fruit_id {
        0 => 100,
        1 => 300,
        2 => 500,
        3 => 700,
        4 => 1000,
        5 => 2000,
        6 => 3000,
        _ => 5000,
    }
}

/// The fruit of a level: one new fruit every two levels after the first
/// two, the key from level 13 on.
pub open spec fn spec_fruit_for_level(level: u16) -> u8 {
    if level <= 1 {
        if level == 1 { 0 } else { 7 }
    } else if level == 2 {
        1
    } else if level <= 12 {
        ((level + 1) / 2) as u8
    } else {
        7
    }
}

/// The fruit offered at a level.
pub fn fruit_for_level(level: u16) -> (f: u8)
    ensures
        f == spec_fruit_for_level(level),
        f < 8,
{
    match level {
        1 => 0,
        2 => 1,
        3 | 4 => 2,
        5 | 6 => 3,
        7 | 8 => 4,
        9 | 10 => 5,
        11 | 12 => 6,
        _ => 7,
    }
}

/// Later levels never offer a cheaper fruit.
pub proof fn lemma_fruit_for_level_monotonic(a: u16, b: u16)
    requires
        1 <= a <= b,
    ensures
        spec_fruit_for_level(a) <= spec_fruit_for_level(b),
{
}

/// Lengths of the alternating scatter and chase phases of a level, in ms.
#[derive(Clone, Copy, Debug, PartialEq, Eq, Structural)]
pub struct WaveTimings {
    pub scatter_1: u64,
    pub chase_1: u64,
    pub scatter_2: u64,
    pub chase_2: u64,
    pub scatter_3: u64,
    pub chase_3: u64,
    pub scatter_4: u64,
}

impl WaveTimings {
    /// The waves of a level: level 1, levels 2 to 4, and level 5 on.
    pub open spec fn spec_for_level(level: u16) -> WaveTimings {
        if level == 1 {
            WaveTimings { scatter_1: 7000, chase_1: 20000, scatter_2: 7000, chase_2: 20000, scatter_3: 5000, chase_3: 20000, scatter_4: 5000 }
        } else if 2 <= level <= 4 {
            WaveTimings { scatter_1: 7000, chase_1: 20000, scatter_2: 7000, chase_2: 20000, scatter_3: 5000, chase_3: 1033000, scatter_4: 1 }
        } else {
            WaveTimings { scatter_1: 5000, chase_1: 20000, scatter_2: 5000, chase_2: 20000, scatter_3: 5000, chase_3: 1037000, scatter_4: 1 }
        }
    }

    pub fn for_level(level: u16) -> (w: WaveTimings)
        ensures
            w == Self::spec_for_level(level),
    {
        match level {
            1 => WaveTimings { scatter_1: 7000, chase_1: 20000, scatter_2: 7000, chase_2: 20000, scatter_3: 5000, chase_3: 20000, scatter_4: 5000 },
            2..=4 => WaveTimings { scatter_1: 7000, chase_1: 20000, scatter_2: 7000, chase_2: 20000, scatter_3: 5000, chase_3: 1033000, scatter_4: 1 },
            _ => WaveTimings { scatter_1: 5000, chase_1: 20000, scatter_2: 5000, chase_2: 20000, scatter_3: 5000, chase_3: 1037000, scatter_4: 1 },
        }
    }
}

/// The settings of a level that do not depend on the frame rate: speeds as
/// percentages of the arcade speed, frightened time and warning blinks,
/// house release delays, fruit and waves.
#[derive(Clone, Copy, Debug, PartialEq, Eq, Structural)]
pub struct LevelRules {
    pub level: u16,
    pub pac_pct: u8,
    pub ghost_pct: u8,
    pub frightened_ghost_pct: u8,
    pub tunnel_ghost_pct: u8,
    pub eaten_ghost_pct: u8,
    pub frightened_duration_ms: u64,
    pub blink_window_ms: u64,
    pub flash_count: u8,
    pub inky_release_ms: u64,
    pub clyde_release_ms: u64,
    pub fruit_id: u8,
    pub wave_timings: WaveTimings,
}

/// Speeds of a level in percent: Pac-Man, ghosts, frightened ghosts, ghosts in the tunnel.
pub open spec fn spec_speed_pcts(level: u16) -> (u8, u8, u8, u8) {
    if level == 1 {
        (80, 75, 50, 40)
    } else if 2 <= level <= 4 {
        (90, 85, 55, 45)
    } else if 5 <= level <= 20 {
        (100, 95, 60, 50)
    } else {
        (90, 95, 60, 50)
    }
}

/// Frightened time (ms) and number of warning blinks of a level.
pub open spec fn spec_frightened(level: u16) -> (u64, u8) {
    if level == 1 {
        (6000, 5)
    } else if level == 2 {
        (5000, 5)
    } else if level == 3 {
        (4000, 5)
    } else if level == 4 {
        (3000, 5)
    } else if level == 5 || level == 7 || level == 8 || level == 11 {
        (2000, 5)
    } else if level == 6 || level == 10 {
        (5000, 5)
    } else if level == 9 || level == 14 {
        (1000, 3)
    } else if level == 12 || level == 13 || level == 15 || level == 16 || level == 18 {
        (1000, 0)
    } else {
        (0, 0)
    }
}

/// Release delays of Inky and Clyde (ms) at a level.
pub open spec fn spec_release(level: u16) -> (u64, u64) {
    if level == 1 {
        (4000, 8000)
    } else if level == 2 {
        (3000, 6000)
    } else {
        (2000, 4000)
    }
}

/// The warning window: the default one, at most half the frightened time, none without it.
pub open spec fn spec_blink_window(fright_ms: u64) -> u64 {
    if fright_ms == 0 {
        0
    } else if DEFAULT_BLINK_WINDOW_MS <= fright_ms / 2 {
        DEFAULT_BLINK_WINDOW_MS
    } else {
        fright_ms / 2
    }
}

impl LevelRules {
    pub open spec fn spec_for_level(level: u16) -> LevelRules {
        let p = spec_speed_pcts(level);
        let f = spec_frightened(level);
        let r = spec_release(level);
        LevelRules {
            level,
            pac_pct: p.0,
            ghost_pct: p.1,
            frightened_ghost_pct: p.2,
            tunnel_ghost_pct: p.3,
            eaten_ghost_pct: 160,
            frightened_duration_ms: f.0,
            blink_window_ms: spec_blink_window(f.0),
            flash_count: f.1,
            inky_release_ms: r.0,
            clyde_release_ms: r.1,
            fruit_id: spec_fruit_for_level(level),
            wave_timings: WaveTimings::spec_for_level(level),
        }
    }

    /// The rules of a level.
    pub fn for_level(level: u16) -> (r: LevelRules)
        ensures
            r == Self::spec_for_level(level),
    {
        let (pac_pct, ghost_pct, frightened_ghost_pct, tunnel_ghost_pct): (u8, u8, u8, u8) = match level {
            1 => (80, 75, 50, 40),
            2..=4 => (90, 85, 55, 45),
            5..=20 => (100, 95, 60, 50),
            _ => (90, 95, 60, 50),
        };
        let (fright_ms, flashes): (u64, u8) = match level {
            1 => (6000, 5),
            2 => (5000, 5),
            3 => (4000, 5),
            4 => (3000, 5),
            5 | 7 | 8 | 11 => (2000, 5),
            6 | 10 => (5000, 5),
            9 | 14 => (1000, 3),
            12 | 13 | 15 | 16 | 18 => (1000, 0),
            _ => (0, 0),
        };
        let blink_window: u64 = if fright_ms == 0 {
            0
        } else if DEFAULT_BLINK_WINDOW_MS <= fright_ms / 2 {
            DEFAULT_BLINK_WINDOW_MS
        } else {
            fright_ms / 2
        };
        let (inky_release, clyde_release): (u64, u64) = match level {
            1 => (4000, 8000),
            2 => (3000, 6000),
            _ => (2000, 4000),
        };
        LevelRules {
            level,
            pac_pct,
            ghost_pct,
            frightened_ghost_pct,
            tunnel_ghost_pct,
            eaten_ghost_pct: 160,
            frightened_duration_ms: fright_ms,
            blink_window_ms: blink_window,
            flash_count: flashes,
            inky_release_ms: inky_release,
            clyde_release_ms: clyde_release,
            fruit_id: fruit_for_level(level),
            wave_timings: WaveTimings::for_level(level),
        }
    }
}

/// The warning window never exceeds the frightened time.
pub proof fn lemma_blink_within_frightened(level: u16)
    ensures
        LevelRules::spec_for_level(level).blink_window_ms <= LevelRules::spec_for_level(level).frightened_duration_ms,
        LevelRules::spec_for_level(level).frightened_duration_ms == 0 ==> LevelRules::spec_for_level(level).blink_window_ms == 0,
{
}

/// The current level and its fruit: where it appears, whether it is on the
/// maze, whether it was eaten, until when it stays, and how many appeared.
pub struct LevelManager {
    pub current_level: u16,
    pub rules: LevelRules,
    pub fruit_spawn_pos: Point,
    pub fruit_active: bool,
    pub fruit_eaten: bool,
    pub despawn_until: u64,
    pub fruits_spawned_this_level: u8,
}

impl LevelManager {
    /// At most two fruits appear in a level, and the fruit cell lies in the maze.
    pub open spec fn wf(&self) -> bool {
        &&& self.fruits_spawned_this_level <= 2
        &&& spec_grid_index(self.fruit_spawn_pos) < GRID_SIZE
        &&& self.rules == LevelRules::spec_for_level(self.current_level)
    }

    /// Starts at level `start_level`, with no fruit.
    pub fn new(start_level: u16) -> (m: Self)
        ensures
            m.wf(),
            m.current_level == start_level,
            m.fruit_spawn_pos == (Point { x: 13, y: 16 }),
            !m.fruit_active,
            !m.fruit_eaten,
            m.despawn_until == 0,
            m.fruits_spawned_this_level == 0,
    {
        Self {
            current_level: start_level,
            rules: LevelRules::for_level(start_level),
            fruit_spawn_pos: Point { x: 13, y: 16 },
            fruit_active: false,
            fruit_eaten: false,
            despawn_until: 0,
            fruits_spawned_this_level: 0,
        }
    }

    /// Moves to the next level, with its rules and no fruit yet.
    pub fn advance_level(&mut self)
        requires
            old(self).wf(),
            old(self).current_level < u16::MAX,
        ensures
            final(self).wf(),
            final(self).current_level == old(self).current_level + 1,
            final(self).fruit_spawn_pos == old(self).fruit_spawn_pos,
            !final(self).fruit_active,
            !final(self).fruit_eaten,
            final(self).despawn_until == 0,
            final(self).fruits_spawned_this_level == 0,
    {
        self.current_level = self.current_level + 1;
        self.rules = LevelRules::for_level(self.current_level);
        self.reset_level_state();
    }

    /// Forgets the fruits of the level.
    pub fn reset_level_state(&mut self)
        ensures
            final(self).current_level == old(self).current_level,
            final(self).rules == old(self).rules,
            final(self).fruit_spawn_pos == old(self).fruit_spawn_pos,
            !final(self).fruit_active,
            !final(self).fruit_eaten,
            final(self).despawn_until == 0,
            final(self).fruits_spawned_this_level == 0,
    {
        self.fruit_active = false;
        self.fruit_eaten = false;
        self.despawn_until = 0;
        self.fruits_spawned_this_level = 0;
    }

    /// Whether a fruit is due after `dots_eaten` dots: the first from 70
    /// dots, the second from 170.
    pub open spec fn spec_should_spawn(&self, dots_eaten: u16) -> bool {
        (dots_eaten >= FRUIT_SPAWN_DOT_COUNT_1 && self.fruits_spawned_this_level == 0) || (dots_eaten >= FRUIT_SPAWN_DOT_COUNT_2
            && self.fruits_spawned_this_level == 1)
    }

    /// Puts a fruit on the maze at time `now` when one is due.
    pub fn check_fruit_spawn(&mut self, dots_eaten: u16, now: u64, grid: &mut Grid)
        requires
            old(self).wf(),
            now + FRUIT_DESPAWN_TIME_MS <= u64::MAX,
        ensures
            final(self).wf(),
            final(self).current_level == old(self).current_level,
            final(self).fruit_spawn_pos == old(self).fruit_spawn_pos,
            final(self).fruit_eaten == old(self).fruit_eaten,
            if old(self).spec_should_spawn(dots_eaten) {
                &&& final(self).fruits_spawned_this_level == old(self).fruits_spawned_this_level + 1
                &&& final(self).fruit_active
                &&& final(self).despawn_until == now + FRUIT_DESPAWN_TIME_MS
                &&& final(grid)@ == old(grid)@.update(spec_grid_index(old(self).fruit_spawn_pos), Space::Fruit)
            } else {
                &&& final(self).fruits_spawned_this_level == old(self).fruits_spawned_this_level
                &&& final(self).fruit_active == old(self).fruit_active
                &&& final(self).despawn_until == old(self).despawn_until
                &&& final(grid)@ == old(grid)@
            },
    {
        let should_spawn = (dots_eaten >= FRUIT_SPAWN_DOT_COUNT_1 && self.fruits_spawned_this_level == 0) || (
        dots_eaten >= FRUIT_SPAWN_DOT_COUNT_2 && self.fruits_spawned_this_level == 1);
        if should_spawn {
            self.fruits_spawned_this_level = self.fruits_spawned_this_level + 1;
            self.fruit_active = true;
            self.despawn_until = now + FRUIT_DESPAWN_TIME_MS;
            let idx: usize = (self.fruit_spawn_pos.x + self.fruit_spawn_pos.y * GRID_WIDTH) as usize;
            grid[idx] = Space::Fruit;
        }
    }

    /// Removes the fruit at time `now` once its time is over, unless it was eaten.
    pub fn update(&mut self, now: u64, grid: &mut Grid)
        requires
            old(self).wf(),
        ensures
            final(self).wf(),
            final(self).current_level == old(self).current_level,
            final(self).fruit_spawn_pos == old(self).fruit_spawn_pos,
            final(self).fruit_eaten == old(self).fruit_eaten,
            final(self).fruits_spawned_this_level == old(self).fruits_spawned_this_level,
            if old(self).fruit_active && now >= old(self).despawn_until {
                &&& !final(self).fruit_active
                &&& final(self).despawn_until == 0
                &&& final(grid)@ == (if old(grid)@[spec_grid_index(old(self).fruit_spawn_pos)] == Space::Fruit {
                    old(grid)@.update(spec_grid_index(old(self).fruit_spawn_pos), Space::Empty)
                } else {
                    old(grid)@
                })
            } else {
                &&& final(self).fruit_active == old(self).fruit_active
                &&& final(self).despawn_until == old(self).despawn_until
                &&& final(grid)@ == old(grid)@
            },
    {
        if self.fruit_active && now >= self.despawn_until {
            self.fruit_active = false;
            self.despawn_until = 0;
            let idx: usize = (self.fruit_spawn_pos.x + self.fruit_spawn_pos.y * GRID_WIDTH) as usize;
            if grid[idx] == Space::Fruit {
                grid[idx] = Space::Empty;
            }
        }
    }

    /// Pac-Man eats the fruit: it leaves the maze and its points are given.
    pub fn collect_fruit(&mut self, grid: &mut Grid) -> (points: u32)
        requires
            old(self).wf(),
        ensures
            final(self).wf(),
            final(self).current_level == old(self).current_level,
            final(self).fruit_spawn_pos == old(self).fruit_spawn_pos,
            final(self).fruits_spawned_this_level == old(self).fruits_spawned_this_level,
            !final(self).fruit_active,
            final(self).fruit_eaten,
            final(self).despawn_until == 0,
            final(grid)@ == old(grid)@.update(spec_grid_index(old(self).fruit_spawn_pos), Space::Empty),
            points == spec_fruit_score(old(self).rules.fruit_id),
    {
        self.fruit_active = false;
        self.fruit_eaten = true;
        self.despawn_until = 0;
        let idx: usize = (self.fruit_spawn_pos.x + self.fruit_spawn_pos.y * GRID_WIDTH) as usize;
        grid[idx] = Space::Empty;
        fruit_score(self.rules.fruit_id)
    }
}

} // verus!
