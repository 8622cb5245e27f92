//! The ghosts' decisions: where each one aims, which way it turns at a
//! crossing, how it leaves and re-enters its house, and how its movement
//! mode changes with time and superballs.

use vstd::prelude::*;

use crate::eadk::Point;
use crate::pacman::game::{Grid, Space, GRID_HEIGHT, GRID_WIDTH};
use crate::pacman::moveable::{
    can_go_to, next_pos, spec_can_go_to, spec_next_pos, spec_opposite, step_ok, Direction,
};

verus! {

/// The four ghosts, each with its own way of chasing.
#[derive(Clone, Copy, Debug, PartialEq, Eq, Structural)]
pub enum GhostType {
    Blinky,
    Pinky,
    Inky,
    Clyde,
}

/// What a ghost is doing.
#[derive(Clone, Copy, Debug, PartialEq, Eq, Structural)]
pub enum MovementMode {
    Chase,
    Scatter,
    Frightened,
    FrightenedBlinking,
    Eaten,
}

/// Where a ghost is with respect to its house.
#[derive(Clone, Copy, Debug, PartialEq, Eq, Structural)]
pub enum HouseState {
    /// Shuffling side to side inside the house.
    Inside,
    /// Moving to the door, then up onto the maze.
    Leaving,
    /// Active on the maze.
    Outside,
    /// Eyes moving down through the door into the house.
    Entering,
}

/// Length of the scatter phase that follows a chase phase, in ms.
pub const SCATTER_MS: u64 = 7000;

/// Length of a chase phase, in ms.
pub const CHASE_MS: u64 = 20000;

/// Manhattan distance between two cells.
pub open spec fn spec_distance(p1: Point, p2: Point) -> int {
    (if p1.x >= p2.x { p1.x - p2.x } else { p2.x - p1.x }) + (if p1.y >= p2.y { p1.y - p2.y } else { p2.y - p1.y })
}

/// Manhattan distance between two cells.
pub fn distance(p1: Point, p2: Point) -> (d: u16)
    requires
        spec_distance(p1, p2) <= u16::MAX,
    ensures
        d == spec_distance(p1, p2),
{
    let dx: u16 = if p1.x >= p2.x { p1.x - p2.x } else { p2.x - p1.x };
    let dy: u16 = if p1.y >= p2.y { p1.y - p2.y } else { p2.y - p1.y };
    dx + dy
}

/// The corner a ghost retreats to when scattering.
pub open spec fn spec_scatter_point(g: GhostType) -> Point {
    match g {
        GhostType::Blinky => Point { x: (GRID_WIDTH - 1) as u16, y: 0 },
        GhostType::Pinky => Point { x: 0, y: 0 },
        GhostType::Inky => Point { x: (GRID_WIDTH - 1) as u16, y: (GRID_HEIGHT - 1) as u16 },
        GhostType::Clyde => Point { x: 0, y: (GRID_HEIGHT - 1) as u16 },
    }
}

/// The corner a ghost retreats to when scattering.
pub fn scatter_point(g: &GhostType) -> (p: Point)
    ensures
        p == spec_scatter_point(*g),
{
    match g {
        GhostType::Blinky => Point { x: GRID_WIDTH - 1, y: 0 },
        GhostType::Pinky => Point { x: 0, y: 0 },
        GhostType::Inky => Point { x: GRID_WIDTH - 1, y: GRID_HEIGHT - 1 },
        GhostType::Clyde => Point { x: 0, y: GRID_HEIGHT - 1 },
    }
}

/// `a - b`, or 0 when it would be negative.
pub open spec fn sat_sub16(a: u16, b: u16) -> u16 {
    if a >= b { (a - b) as u16 } else { 0 }
}

/// `a + b`, capped at `max`.
pub open spec fn capped_add(a: u16, b: u16, max: u16) -> u16 {
    if a + b <= max { (a + b) as u16 } else { max }
}

/// The cell `n` cells ahead of `p` in direction `dir`, stopped at the edges of the maze.
pub open spec fn spec_ahead(p: Point, dir: Direction, n: u16) -> Point {
    match dir {
        Direction::Up => Point { x: p.x, y: sat_sub16(p.y, n) },
        Direction::Down => Point { x: p.x, y: capped_add(p.y, n, (GRID_HEIGHT - 1) as u16) },
        Direction::Right => Point { x: capped_add(p.x, n, (GRID_WIDTH - 1) as u16), y: p.y },
        Direction::Left => Point { x: sat_sub16(p.x, n), y: p.y },
    }
}

/// The cell ahead of a position lies on its line of sight: `k` cells from
/// `p` in direction `dir` (`y` growing downwards), where `k` is `n` unless
/// the edge of the maze comes first, and there it stops.
pub proof fn lemma_ahead_in_direction(p: Point, dir: Direction, n: u16)
    requires
        p.x < GRID_WIDTH,
        p.y < GRID_HEIGHT,
    ensures
        ({
            let q = spec_ahead(p, dir, n);
            let dx: int = match dir {
                Direction::Right => 1,
                Direction::Left => -1,
                _ => 0,
            };
            let dy: int = match dir {
                Direction::Down => 1,
                Direction::Up => -1,
                _ => 0,
            };
            let k = (q.x - p.x) * dx + (q.y - p.y) * dy;
            &&& 0 <= k <= n
            &&& q.x == p.x + k * dx
            &&& q.y == p.y + k * dy
            &&& k < n ==> !(0 <= q.x + dx < GRID_WIDTH && 0 <= q.y + dy < GRID_HEIGHT)
        }),
{
    let q = spec_ahead(p, dir, n);
    match dir {
        Direction::Up => {
            assert((q.x - p.x) * 0 + (q.y - p.y) * -1 == p.y - q.y) by (nonlinear_arith);
            assert((p.y - q.y) * -1 == q.y - p.y) by (nonlinear_arith);
        },
        Direction::Down => {
            assert((q.x - p.x) * 0 + (q.y - p.y) * 1 == q.y - p.y) by (nonlinear_arith);
            assert((q.y - p.y) * 0 == 0) by (nonlinear_arith);
        },
        Direction::Right => {
            assert((q.x - p.x) * 1 + (q.y - p.y) * 0 == q.x - p.x) by (nonlinear_arith);
            assert((q.x - p.x) * 0 == 0) by (nonlinear_arith);
        },
        Direction::Left => {
            assert((q.x - p.x) * -1 + (q.y - p.y) * 0 == p.x - q.x) by (nonlinear_arith);
            assert((p.x - q.x) * -1 == q.x - p.x) by (nonlinear_arith);
        },
    }
}

fn ahead(p: Point, dir: &Direction, n: u16) -> (q: Point)
    requires
        n <= 4,
        p.x <= 0x3fff,
        p.y <= 0x3fff,
    ensures
        q == spec_ahead(p, *dir, n),
{
    match dir {
        Direction::Up => Point { x: p.x, y: p.y.saturating_sub(n) },
        Direction::Down => Point { x: p.x, y: if p.y + n <= GRID_HEIGHT - 1 { p.y + n } else { GRID_HEIGHT - 1 } },
        Direction::Right => Point { x: if p.x + n <= GRID_WIDTH - 1 { p.x + n } else { GRID_WIDTH - 1 }, y: p.y },
        Direction::Left => Point { x: p.x.saturating_sub(n), y: p.y },
    }
}

/// `v` clamped into `[0, max]`.
pub open spec fn clamp_to(v: int, max: int) -> int {
    if v < 0 { 0 } else if v > max { max } else { v }
}

/// The position of a ghost, and what its decisions read.
#[derive(Clone, Copy, Debug, PartialEq, Eq, Structural)]
pub struct GhostNav {
    pub gtype: GhostType,
    pub position: Point,
    pub direction: Direction,
    pub movement_mode: MovementMode,
    pub door_position: Point,
}

/// The coordinates stay small enough for the signed arithmetic of the targeting.
pub open spec fn nav_ok(p: Point) -> bool {
    p.x <= 0x3fff && p.y <= 0x3fff
}

/// Whether a mode is one of the two frightened ones.
pub open spec fn is_frightened(mode: MovementMode) -> bool {
    mode == MovementMode::Frightened || mode == MovementMode::FrightenedBlinking
}

impl GhostNav {
    /// The cell the ghost aims at, given Pac-Man's cell and direction and Blinky's cell.
    pub open spec fn spec_target(self, pac: Point, pac_dir: Direction, blinky: Point) -> Point {
        match self.movement_mode {
            MovementMode::Scatter => spec_scatter_point(self.gtype),
            MovementMode::Frightened | MovementMode::FrightenedBlinking => Point {
                x: capped_add(pac.x, 2, (GRID_WIDTH - 1) as u16),
                y: capped_add(pac.y, 2, (GRID_HEIGHT - 1) as u16),
            },
            MovementMode::Eaten => self.door_position,
            MovementMode::Chase => match self.gtype {
                GhostType::Blinky => pac,
                GhostType::Pinky => spec_ahead(pac, pac_dir, 4),
                GhostType::Inky => {
                    let t = spec_ahead(pac, pac_dir, 2);
                    Point {
                        x: clamp_to(2 * t.x - blinky.x, (GRID_WIDTH - 1) as int) as u16,
                        y: clamp_to(2 * t.y - blinky.y, (GRID_HEIGHT - 1) as int) as u16,
                    }
                },
                GhostType::Clyde => if spec_distance(self.position, pac) > 8 {
                    pac
                } else {
                    spec_scatter_point(self.gtype)
                },
            },
        }
    }

    /// Chasing, Blinky aims at Pac-Man's cell and Pinky at the cell four
    /// ahead of Pac-Man in his direction (fewer at the edge of the maze,
    /// where it stops); a frightened ghost aims two cells right of and
    /// below Pac-Man, capped at the edges; eyes aim at the door.
    pub proof fn lemma_targets(self, pac: Point, pac_dir: Direction, blinky: Point)
        requires
            pac.x < GRID_WIDTH,
            pac.y < GRID_HEIGHT,
        ensures
            ({
                let t = self.spec_target(pac, pac_dir, blinky);
                let dx: int = match pac_dir {
                    Direction::Right => 1,
                    Direction::Left => -1,
                    _ => 0,
                };
                let dy: int = match pac_dir {
                    Direction::Down => 1,
                    Direction::Up => -1,
                    _ => 0,
                };
                let k = (t.x - pac.x) * dx + (t.y - pac.y) * dy;
                &&& self.movement_mode == MovementMode::Chase && self.gtype == GhostType::Blinky ==> t == pac
                &&& self.movement_mode == MovementMode::Chase && self.gtype == GhostType::Pinky ==> {
                    &&& 0 <= k <= 4
                    &&& t.x == pac.x + k * dx
                    &&& t.y == pac.y + k * dy
                    &&& k < 4 ==> !(0 <= t.x + dx < GRID_WIDTH && 0 <= t.y + dy < GRID_HEIGHT)
                }
                &&& is_frightened(self.movement_mode) ==> t.x == (if pac.x + 2 < GRID_WIDTH { pac.x + 2 } else { GRID_WIDTH - 1 })
                    && t.y == (if pac.y + 2 < GRID_HEIGHT { pac.y + 2 } else { GRID_HEIGHT - 1 })
                &&& self.movement_mode == MovementMode::Eaten ==> t == self.door_position
            }),
    {
        lemma_ahead_in_direction(pac, pac_dir, 4);
    }

    /// Computes the cell the ghost aims at.
    pub fn target(&self, pac: Point, pac_dir: &Direction, blinky: Point) -> (t: Point)
        requires
            nav_ok(self.position),
            nav_ok(pac),
            nav_ok(blinky),
            nav_ok(self.door_position),
        ensures
            t == self.spec_target(pac, *pac_dir, blinky),
            nav_ok(t),
    {
        match self.movement_mode {
            MovementMode::Scatter => scatter_point(&self.gtype),
            MovementMode::Frightened | MovementMode::FrightenedBlinking => Point {
                x: if pac.x + 2 <= GRID_WIDTH - 1 { pac.x + 2 } else { GRID_WIDTH - 1 },
                y: if pac.y + 2 <= GRID_HEIGHT - 1 { pac.y + 2 } else { GRID_HEIGHT - 1 },
            },
            MovementMode::Eaten => self.door_position,
            MovementMode::Chase => match self.gtype {
                GhostType::Blinky => pac,
                GhostType::Pinky => ahead(pac, pac_dir, 4),
                GhostType::Inky => {
                    let t = ahead(pac, pac_dir, 2);
                    let vx: i16 = 2 * (t.x as i16) - blinky.x as i16;
                    let vy: i16 = 2 * (t.y as i16) - blinky.y as i16;
                    let mx: i16 = (GRID_WIDTH - 1) as i16;
                    let my: i16 = (GRID_HEIGHT - 1) as i16;
                    let cx: i16 = if vx < 0 { 0 } else if vx > mx { mx } else { vx };
                    let cy: i16 = if vy < 0 { 0 } else if vy > my { my } else { vy };
                    Point { x: cx as u16, y: cy as u16 }
                },
                GhostType::Clyde => if distance(self.position, pac) > 8 {
                    pac
                } else {
                    scatter_point(&self.gtype)
                },
            },
        }
    }

    /// Whether the ghost may take direction `d`: not back, not into a wall,
    /// and not down through the door unless it is only eyes.
    pub open spec fn spec_allowed(self, d: Direction, grid: Seq<Space>) -> bool {
        &&& d != spec_opposite(self.direction)
        &&& spec_can_go_to(self.position, d, grid)
        &&& !(self.position == self.door_position && d == Direction::Down && self.movement_mode != MovementMode::Eaten)
    }

    /// Distance to the target from the next cell in direction `d`.
    pub open spec fn spec_dist_after(self, d: Direction, target: Point) -> int {
        spec_distance(spec_next_pos(self.position, d).0, target)
    }

    /// One candidate of the choice: `d` replaces the best so far when it is
    /// allowed and strictly closer (strictly farther when frightened).
    pub open spec fn spec_consider(self, best: (Direction, int), d: Direction, target: Point, grid: Seq<Space>) -> (Direction, int) {
        let nd = self.spec_dist_after(d, target);
        if self.spec_allowed(d, grid) && (if is_frightened(self.movement_mode) { nd > best.1 } else { nd < best.1 }) {
            (d, nd)
        } else {
            best
        }
    }

    /// The direction chosen at a crossing: candidates in the order Up, Left,
    /// Down, Right; the first strictly best one wins; turning back is the
    /// default when no candidate improves on the starting bound.
    pub open spec fn spec_best(self, target: Point, grid: Seq<Space>) -> (Direction, int) {
        let b0 = (spec_opposite(self.direction), if is_frightened(self.movement_mode) { 0int } else { 0xffffint });
        let b1 = self.spec_consider(b0, Direction::Up, target, grid);
        let b2 = self.spec_consider(b1, Direction::Left, target, grid);
        let b3 = self.spec_consider(b2, Direction::Down, target, grid);
        self.spec_consider(b3, Direction::Right, target, grid)
    }

    fn consider(&self, best: (Direction, u16), d: Direction, target: Point, grid: &Grid) -> (r: (Direction, u16))
        requires
            nav_ok(self.position),
            nav_ok(target),
        ensures
            r.0 == self.spec_consider((best.0, best.1 as int), d, target, grid@).0,
            r.1 == self.spec_consider((best.0, best.1 as int), d, target, grid@).1,
    {
        if d == self.direction.opposite() {
            return best;
        }
        if !can_go_to(self.position, &d, grid) {
            return best;
        }
        if self.position.x == self.door_position.x && self.position.y == self.door_position.y && d == Direction::Down
            && self.movement_mode != MovementMode::Eaten {
            return best;
        }
        let (next, _) = next_pos(self.position, &d);
        let nd = distance(next, target);
        let frightened = self.movement_mode == MovementMode::Frightened || self.movement_mode
            == MovementMode::FrightenedBlinking;
        if frightened {
            if nd > best.1 {
                (d, nd)
            } else {
                best
            }
        } else if nd < best.1 {
            (d, nd)
        } else {
            best
        }
    }

    /// Chooses the direction to take at a crossing, towards `target`.
    pub fn best_direction(&self, target: Point, grid: &Grid) -> (d: Direction)
        requires
            nav_ok(self.position),
            nav_ok(target),
        ensures
            d == self.spec_best(target, grid@).0,
    {
        let frightened = self.movement_mode == MovementMode::Frightened || self.movement_mode
            == MovementMode::FrightenedBlinking;
        let b0: (Direction, u16) = (self.direction.opposite(), if frightened { 0 } else { u16::MAX });
        let b1 = self.consider(b0, Direction::Up, target, grid);
        let b2 = self.consider(b1, Direction::Left, target, grid);
        let b3 = self.consider(b2, Direction::Down, target, grid);
        let b4 = self.consider(b3, Direction::Right, target, grid);
        b4.0
    }

    /// One step of the choice keeps the best so far, or takes an allowed
    /// candidate at its own distance; it never does worse than the candidate.
    proof fn lemma_consider_step(self, b: (Direction, int), d: Direction, target: Point, grid: Seq<Space>)
        ensures
            ({
                let r = self.spec_consider(b, d, target, grid);
                &&& r == b || (self.spec_allowed(r.0, grid) && r.1 == self.spec_dist_after(r.0, target))
                &&& !is_frightened(self.movement_mode) ==> r.1 <= b.1
                &&& is_frightened(self.movement_mode) ==> r.1 >= b.1
                &&& self.spec_allowed(d, grid) && !is_frightened(self.movement_mode) ==> r.1 <= self.spec_dist_after(d, target)
                &&& self.spec_allowed(d, grid) && is_frightened(self.movement_mode) ==> r.1 >= self.spec_dist_after(d, target)
            }),
    {
    }

    /// A chasing (or scattering, or returning) ghost turns, among the
    /// directions open to it, to one whose next cell is closest to its target.
    pub proof fn lemma_best_is_closest(self, target: Point, grid: Seq<Space>)
        requires
            !is_frightened(self.movement_mode),
            nav_ok(target),
            exists|d: Direction| self.spec_allowed(d, grid),
        ensures
            self.spec_allowed(self.spec_best(target, grid).0, grid),
            self.spec_best(target, grid).1 == self.spec_dist_after(self.spec_best(target, grid).0, target),
            forall|d: Direction| self.spec_allowed(d, grid) ==> self.spec_best(target, grid).1 <= self.spec_dist_after(d, target),
    {
        let b0 = (spec_opposite(self.direction), 0xffffint);
        let b1 = self.spec_consider(b0, Direction::Up, target, grid);
        let b2 = self.spec_consider(b1, Direction::Left, target, grid);
        let b3 = self.spec_consider(b2, Direction::Down, target, grid);
        let b4 = self.spec_consider(b3, Direction::Right, target, grid);
        self.lemma_consider_step(b0, Direction::Up, target, grid);
        self.lemma_consider_step(b1, Direction::Left, target, grid);
        self.lemma_consider_step(b2, Direction::Down, target, grid);
        self.lemma_consider_step(b3, Direction::Right, target, grid);
        assert(b4 == self.spec_best(target, grid));
        let w = choose|d: Direction| self.spec_allowed(d, grid);
        assert(self.spec_dist_after(w, target) < 0xffff);
        assert(!self.spec_allowed(b0.0, grid));
        assert(b4.1 <= self.spec_dist_after(w, target)) by {
            match w {
                Direction::Up => {},
                Direction::Down => {},
                Direction::Left => {},
                Direction::Right => {},
            }
        }
        assert forall|d: Direction| self.spec_allowed(d, grid) implies b4.1 <= self.spec_dist_after(d, target) by {
            match d {
                Direction::Up => {},
                Direction::Down => {},
                Direction::Left => {},
                Direction::Right => {},
            }
        }
    }

    /// A frightened ghost turns, among the directions open to it, to one whose
    /// next cell is farthest from its target, as soon as one of them does not
    /// lead onto the target itself.
    pub proof fn lemma_best_is_farthest(self, target: Point, grid: Seq<Space>)
        requires
            is_frightened(self.movement_mode),
            exists|d: Direction| self.spec_allowed(d, grid) && self.spec_dist_after(d, target) > 0,
        ensures
            self.spec_allowed(self.spec_best(target, grid).0, grid),
            self.spec_best(target, grid).1 == self.spec_dist_after(self.spec_best(target, grid).0, target),
            forall|d: Direction| self.spec_allowed(d, grid) ==> self.spec_best(target, grid).1 >= self.spec_dist_after(d, target),
    {
        let b0 = (spec_opposite(self.direction), 0int);
        let b1 = self.spec_consider(b0, Direction::Up, target, grid);
        let b2 = self.spec_consider(b1, Direction::Left, target, grid);
        let b3 = self.spec_consider(b2, Direction::Down, target, grid);
        let b4 = self.spec_consider(b3, Direction::Right, target, grid);
        self.lemma_consider_step(b0, Direction::Up, target, grid);
        self.lemma_consider_step(b1, Direction::Left, target, grid);
        self.lemma_consider_step(b2, Direction::Down, target, grid);
        self.lemma_consider_step(b3, Direction::Right, target, grid);
        assert(b4 == self.spec_best(target, grid));
        let w = choose|d: Direction| self.spec_allowed(d, grid) && self.spec_dist_after(d, target) > 0;
        assert(!self.spec_allowed(b0.0, grid));
        assert(b4.1 >= self.spec_dist_after(w, target)) by {
            match w {
                Direction::Up => {},
                Direction::Down => {},
                Direction::Left => {},
                Direction::Right => {},
            }
        }
        assert forall|d: Direction| self.spec_allowed(d, grid) implies b4.1 >= self.spec_dist_after(d, target) by {
            match d {
                Direction::Up => {},
                Direction::Down => {},
                Direction::Left => {},
                Direction::Right => {},
            }
        }
    }

    /// Whether the ghost stands where it could turn: some direction other
    /// than back is free.
    pub open spec fn spec_at_crossing(self, grid: Seq<Space>) -> bool {
        ||| spec_can_go_to(self.position, Direction::Up, grid) && self.direction != Direction::Down
        ||| spec_can_go_to(self.position, Direction::Down, grid) && self.direction != Direction::Up
        ||| spec_can_go_to(self.position, Direction::Left, grid) && self.direction != Direction::Right
        ||| spec_can_go_to(self.position, Direction::Right, grid) && self.direction != Direction::Left
    }

    /// Recomputes the ghost's path: unless it is not at a crossing (and
    /// crossings are not ignored), gives its new target and the direction to
    /// take towards it.
    pub fn update_path(&self, pac_position: Point, pac_direction: &Direction, blinky_pos: Point, grid: &Grid, ignore_intersections: bool) -> (r: Option<(Point, Direction)>)
        requires
            nav_ok(self.position),
            nav_ok(pac_position),
            nav_ok(blinky_pos),
            nav_ok(self.door_position),
        ensures
            r == (if !ignore_intersections && !self.spec_at_crossing(grid@) {
                None
            } else {
                let t = self.spec_target(pac_position, *pac_direction, blinky_pos);
                Some((t, self.spec_best(t, grid@).0))
            }),
    {
        if !ignore_intersections && !(can_go_to(self.position, &Direction::Up, grid) && self.direction
            != Direction::Down || can_go_to(self.position, &Direction::Down, grid) && self.direction
            != Direction::Up || can_go_to(self.position, &Direction::Left, grid) && self.direction
            != Direction::Right || can_go_to(self.position, &Direction::Right, grid) && self.direction
            != Direction::Left) {
            return None;
        }
        let t = self.target(pac_position, pac_direction, blinky_pos);
        let d = self.best_direction(t, grid);
        Some((t, d))
    }
}

/// The scatter and chase timers of a ghost: while scattering, the mode
/// turns to chase at `scatter_until`; while chasing, back to scatter at
/// `chase_until` (0 disarms a timer).
#[derive(Clone, Copy, Debug, PartialEq, Eq, Structural)]
pub struct WaveClock {
    pub movement_mode: MovementMode,
    pub scatter_until: u64,
    pub chase_until: u64,
}

impl WaveClock {
    /// The timers after one check at time `now`.
    pub open spec fn spec_handle_events(self, now: u64) -> WaveClock {
        let s1 = if self.movement_mode == MovementMode::Scatter && self.scatter_until != 0 && now >= self.scatter_until {
            WaveClock { movement_mode: MovementMode::Chase, scatter_until: 0, chase_until: (now + CHASE_MS) as u64 }
        } else {
            self
        };
        if s1.movement_mode == MovementMode::Chase && s1.chase_until != 0 && now >= s1.chase_until {
            WaveClock { movement_mode: MovementMode::Scatter, chase_until: 0, scatter_until: (now + SCATTER_MS) as u64 }
        } else {
            s1
        }
    }

    /// Switches between scatter and chase when the running timer expires.
    pub fn handle_events(&mut self, now: u64)
        requires
            now + CHASE_MS <= u64::MAX,
        ensures
            *final(self) == old(self).spec_handle_events(now),
    {
        if self.movement_mode == MovementMode::Scatter && self.scatter_until != 0 && now >= self.scatter_until {
            self.movement_mode = MovementMode::Chase;
            self.scatter_until = 0;
            self.chase_until = now + CHASE_MS;
        }
        if self.movement_mode == MovementMode::Chase && self.chase_until != 0 && now >= self.chase_until {
            self.movement_mode = MovementMode::Scatter;
            self.chase_until = 0;
            self.scatter_until = now + SCATTER_MS;
        }
    }
}

/// A scatter phase that ends turns into a full chase phase, not straight back.
pub proof fn lemma_scatter_ends_in_chase(c: WaveClock, now: u64)
    requires
        c.movement_mode == MovementMode::Scatter,
        c.scatter_until != 0,
        now >= c.scatter_until,
        now + CHASE_MS <= u64::MAX,
    ensures
        c.spec_handle_events(now).movement_mode == MovementMode::Chase,
        c.spec_handle_events(now).chase_until == now + CHASE_MS,
        c.spec_handle_events(now).scatter_until == 0,
{
}

/// Before either timer expires, nothing changes.
pub proof fn lemma_no_event_before_deadline(c: WaveClock, now: u64)
    requires
        c.scatter_until == 0 || now < c.scatter_until,
        c.chase_until == 0 || now < c.chase_until,
    ensures
        c.spec_handle_events(now) == c,
{
}

/// The direction of a ghost shuffling in its house: it swings between one
/// cell left and one cell right of its home.
pub open spec fn spec_shuffle_direction(cur: Point, home: Point, dir: Direction) -> Direction {
    let d = if dir != Direction::Left && dir != Direction::Right { Direction::Left } else { dir };
    if cur.x <= sat_sub16(home.x, 1) && d == Direction::Left {
        Direction::Right
    } else if cur.x >= (if home.x == u16::MAX { u16::MAX } else { (home.x + 1) as u16 }) && d == Direction::Right {
        Direction::Left
    } else {
        d
    }
}

/// Chooses the direction of a ghost shuffling in its house.
pub fn shuffle_direction(cur: Point, home: Point, dir: Direction) -> (d: Direction)
    ensures
        d == spec_shuffle_direction(cur, home, dir),
        d == Direction::Left || d == Direction::Right,
{
    let d = if dir != Direction::Left && dir != Direction::Right { Direction::Left } else { dir };
    if cur.x <= home.x.saturating_sub(1) && d == Direction::Left {
        Direction::Right
    } else if cur.x >= home.x.saturating_add(1) && d == Direction::Right {
        Direction::Left
    } else {
        d
    }
}

/// The step of a ghost leaving its house: across to the door's column,
/// then up to the door; `None` once at the door, where it goes out.
pub open spec fn spec_house_exit_step(cur: Point, door: Point) -> Option<Direction> {
    if cur.x < door.x {
        Some(Direction::Right)
    } else if cur.x > door.x {
        Some(Direction::Left)
    } else if cur.y > door.y {
        Some(Direction::Up)
    } else {
        None
    }
}

/// Chooses the step of a ghost leaving its house.
pub fn house_exit_step(cur: Point, door: Point) -> (d: Option<Direction>)
    ensures
        d == spec_house_exit_step(cur, door),
        d is None <==> (cur.x == door.x && cur.y <= door.y),
{
    if cur.x < door.x {
        Some(Direction::Right)
    } else if cur.x > door.x {
        Some(Direction::Left)
    } else if cur.y > door.y {
        Some(Direction::Up)
    } else {
        None
    }
}

/// The step of eyes entering the house: down to the home row, then across
/// to the home cell; `None` once home, where the ghost revives.
pub open spec fn spec_house_entry_step(cur: Point, home: Point) -> Option<Direction> {
    if cur.y < home.y {
        Some(Direction::Down)
    } else if cur.x < home.x {
        Some(Direction::Right)
    } else if cur.x > home.x {
        Some(Direction::Left)
    } else {
        None
    }
}

/// Chooses the step of eyes entering the house.
pub fn house_entry_step(cur: Point, home: Point) -> (d: Option<Direction>)
    ensures
        d == spec_house_entry_step(cur, home),
        d is None <==> (cur.x == home.x && cur.y >= home.y),
{
    if cur.y < home.y {
        Some(Direction::Down)
    } else if cur.x < home.x {
        Some(Direction::Right)
    } else if cur.x > home.x {
        Some(Direction::Left)
    } else {
        None
    }
}

/// The mode when the frightened time ends.
pub open spec fn spec_calmed(m: MovementMode) -> MovementMode {
    if is_frightened(m) { MovementMode::Chase } else { m }
}

impl MovementMode {
    /// The mode after Pac-Man eats a superball: ghosts out on the maze
    /// that are not eyes become frightened.
    pub fn frightened(self, house_state: HouseState) -> (m: MovementMode)
        ensures
            m == (if self != MovementMode::Eaten && house_state == HouseState::Outside {
                MovementMode::Frightened
            } else {
                self
            }),
    {
        if self != MovementMode::Eaten && house_state == HouseState::Outside {
            MovementMode::Frightened
        } else {
            self
        }
    }

    /// The mode when the frightened time is about to end: frightened ghosts blink.
    pub fn blinking(self) -> (m: MovementMode)
        ensures
            m == (if self == MovementMode::Frightened { MovementMode::FrightenedBlinking } else { self }),
    {
        if self == MovementMode::Frightened {
            MovementMode::FrightenedBlinking
        } else {
            self
        }
    }

    /// The mode when the frightened time ends: frightened ghosts chase again.
    pub fn calmed(self) -> (m: MovementMode)
        ensures
            m == spec_calmed(self),
    {
        if self == MovementMode::Frightened || self == MovementMode::FrightenedBlinking {
            MovementMode::Chase
        } else {
            self
        }
    }
}

/// Once calmed, a ghost is not frightened, whatever it was doing, and a
/// ghost that was not frightened keeps its mode.
pub proof fn lemma_calmed_not_frightened(m: MovementMode)
    ensures
        !is_frightened(spec_calmed(m)),
        !is_frightened(m) ==> spec_calmed(m) == m,
{
}

/// How a ghost starts a level: its house state, the time it is released
/// (0 for none) and its first direction.
pub open spec fn spec_initial_state(gtype: GhostType, now: u64) -> (HouseState, u64, Direction) {
    match gtype {
        GhostType::Blinky => (HouseState::Outside, 0, Direction::Left),
        GhostType::Pinky => (HouseState::Leaving, 0, Direction::Up),
        GhostType::Inky => (HouseState::Inside, (now + 4000) as u64, Direction::Left),
        GhostType::Clyde => (HouseState::Inside, (now + 8000) as u64, Direction::Right),
    }
}

/// Decides how a ghost starts a level at time `now`.
pub fn initial_state(gtype: GhostType, now: u64) -> (r: (HouseState, u64, Direction))
    requires
        now + 8000 <= u64::MAX,
    ensures
        r == spec_initial_state(gtype, now),
{
    match gtype {
        GhostType::Blinky => (HouseState::Outside, 0, Direction::Left),
        GhostType::Pinky => (HouseState::Leaving, 0, Direction::Up),
        GhostType::Inky => (HouseState::Inside, now + 4000, Direction::Left),
        GhostType::Clyde => (HouseState::Inside, now + 8000, Direction::Right),
    }
}

/// The door of a house whose ghosts start on row `start_y`: column 14, two rows up.
pub fn door_position(start: Point) -> (p: Point)
    ensures
        p == (Point { x: 14, y: sat_sub16(start.y, 2) }),
{
    Point { x: 14, y: start.y.saturating_sub(2) }
}

} // verus!
