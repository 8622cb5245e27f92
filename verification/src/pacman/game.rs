//! The maze grid and the scoring rules of a frame.

use vstd::prelude::*;

use crate::eadk::Point;
use crate::pacman::ghost::MovementMode;
use crate::pacman::player::SuperballEvent;

verus! {

/// Side of a maze cell, in pixels.
pub const TILE_SIZE: u16 = 8;

/// Width of the maze, in cells.
pub const GRID_WIDTH: u16 = 28;

/// Height of the maze, in cells.
pub const GRID_HEIGHT: u16 = 30;

/// Number of cells of the maze.
pub const GRID_SIZE: usize = 840;

/// Left margin of the maze on the screen: it is centered, `(320 - 28 * 8) / 2`.
pub const X_GRID_OFFSET: u16 = 48;

/// Points for a dot.
pub const DOT_POINTS: u32 = 10;

/// Points for a superball.
pub const SUPERBALL_POINTS: u32 = 50;

/// Points for eating a frightened ghost.
pub const GHOST_POINTS: u32 = 200;

/// Score from which one extra life is awarded, once.
pub const EXTRA_LIFE_SCORE: u32 = 10000;

/// What a maze cell holds.
#[derive(Clone, Copy, Debug, PartialEq, Eq, Structural)]
pub enum Space {
    Wall,
    Empty,
    Point,
    Superball,
    Fruit,
}

/// The maze, row by row.
pub type Grid = [Space; 840];

/// Whether a position is a cell of the maze.
pub open spec fn in_grid(p: Point) -> bool {
    p.x < GRID_WIDTH && p.y < GRID_HEIGHT
}

/// Index of a cell in the grid array.
pub open spec fn spec_grid_index(p: Point) -> int {
    p.x + p.y * GRID_WIDTH
}

/// Index of the cell at `pos` in the grid array.
pub fn grid_index(pos: Point) -> (i: usize)
    requires
        spec_grid_index(pos) <= u16::MAX,
    ensures
        i == spec_grid_index(pos),
{
    (pos.x + pos.y * GRID_WIDTH) as usize
}

/// Every cell of the maze has an index in the grid array.
pub proof fn lemma_grid_index_in_range(p: Point)
    requires
        in_grid(p),
    ensures
        0 <= spec_grid_index(p) < GRID_SIZE,
{
}

/// What happens when Pac-Man and a ghost meet.
#[derive(Clone, Copy, Debug, PartialEq, Eq, Structural)]
pub enum Collision {
    /// They are not on a common cell.
    Miss,
    /// The ghost is frightened: it is eaten.
    EatGhost,
    /// They meet, but Pac-Man survives (the ghost is only eyes, or collisions are off).
    Harmless,
    /// Pac-Man dies.
    Fatal,
}

/// Two moving things touch when one's cell or destination is the other's cell or destination.
pub open spec fn spec_touching(pac_pos: Point, pac_dest: Point, ghost_pos: Point, ghost_dest: Point) -> bool {
    pac_pos == ghost_pos || pac_pos == ghost_dest || pac_dest == ghost_pos || pac_dest == ghost_dest
}

/// The outcome of Pac-Man (at `pac_pos`, heading to `pac_dest`) meeting a
/// ghost (at `ghost_pos`, heading to `ghost_dest`) in movement mode `mode`.
pub open spec fn spec_collision(pac_pos: Point, pac_dest: Point, ghost_pos: Point, ghost_dest: Point, mode: MovementMode, god_mode: bool) -> Collision {
    if !spec_touching(pac_pos, pac_dest, ghost_pos, ghost_dest) {
        Collision::Miss
    } else if mode == MovementMode::Frightened || mode == MovementMode::FrightenedBlinking {
        Collision::EatGhost
    } else if god_mode || mode == MovementMode::Eaten {
        Collision::Harmless
    } else {
        Collision::Fatal
    }
}

/// Meeting a ghost, by the cells and destinations of both: not sharing
/// any, nothing happens; otherwise a frightened ghost (blinking or not) is
/// eaten, a ghost that is only eyes passes harmlessly, and a chasing or
/// scattering ghost kills Pac-Man unless collisions are off.
pub proof fn lemma_collision_outcome(pac_pos: Point, pac_dest: Point, ghost_pos: Point, ghost_dest: Point, mode: MovementMode, god_mode: bool)
    ensures
        ({
            let touch = pac_pos == ghost_pos || pac_pos == ghost_dest || pac_dest == ghost_pos || pac_dest == ghost_dest;
            let c = spec_collision(pac_pos, pac_dest, ghost_pos, ghost_dest, mode, god_mode);
            &&& !touch ==> c == Collision::Miss
            &&& touch && (mode == MovementMode::Frightened || mode == MovementMode::FrightenedBlinking) ==> c == Collision::EatGhost
            &&& touch && mode == MovementMode::Eaten ==> c == Collision::Harmless
            &&& touch && (mode == MovementMode::Chase || mode == MovementMode::Scatter) ==> c == (if god_mode {
                Collision::Harmless
            } else {
                Collision::Fatal
            })
        }),
{
}

/// Decides what happens between Pac-Man and one ghost this frame.
pub fn handle_ghost_collision(pac_pos: Point, pac_dest: Point, ghost_pos: Point, ghost_dest: Point, mode: MovementMode, god_mode: bool) -> (c: Collision)
    ensures
        c == spec_collision(pac_pos, pac_dest, ghost_pos, ghost_dest, mode, god_mode),
{
    let collision = (pac_pos.x == ghost_pos.x && pac_pos.y == ghost_pos.y) || (pac_pos.x == ghost_dest.x
        && pac_pos.y == ghost_dest.y) || (pac_dest.x == ghost_pos.x && pac_dest.y == ghost_pos.y) || (
    pac_dest.x == ghost_dest.x && pac_dest.y == ghost_dest.y);
    if !collision {
        return Collision::Miss;
    }
    match mode {
        MovementMode::Frightened | MovementMode::FrightenedBlinking => Collision::EatGhost,
        MovementMode::Eaten => Collision::Harmless,
        _ => if god_mode {
            Collision::Harmless
        } else {
            Collision::Fatal
        },
    }
}

/// Points won by eating what lay on a cell (`fruit_points` for a fruit).
pub open spec fn spec_points_for(eaten: Space, fruit_points: u32) -> int {
    match eaten {
        Space::Point => DOT_POINTS as int,
        Space::Superball => SUPERBALL_POINTS as int,
        Space::Fruit => fruit_points as int,
        _ => 0,
    }
}

/// Points won by eating what lay on a cell.
pub fn points_for(eaten: Space, fruit_points: u32) -> (p: u32)
    ensures
        p == spec_points_for(eaten, fruit_points),
{
    match eaten {
        Space::Point => DOT_POINTS,
        Space::Superball => SUPERBALL_POINTS,
        Space::Fruit => fruit_points,
        _ => 0,
    }
}

/// What the ghosts are told after Pac-Man's move.
#[derive(Clone, Copy, Debug, PartialEq, Eq, Structural)]
pub enum GhostOrder {
    /// Nothing changes.
    Keep,
    /// Frightened ghosts start blinking: the power ends soon.
    Blink,
    /// The power is over: frightened ghosts calm down.
    Calm,
    /// A superball was eaten: the ghosts are frightened.
    Frighten,
}

/// The bookkeeping of Pac-Man's move: the order of the superball timer to
/// the ghosts, what eating `eaten` adds to the score (saturating), the
/// dots eaten, whether the fruit may appear now (after a dot), and a
/// superball's order to the ghosts.
#[derive(Clone, Copy, Debug, PartialEq, Eq, Structural)]
pub struct MoveOutcome {
    pub timer_order: GhostOrder,
    pub score: u32,
    pub dots_eaten: u16,
    pub check_fruit: bool,
    pub eat_order: GhostOrder,
}

/// The effects of one move of Pac-Man, from the superball timer's event,
/// what was eaten (with the fruit's points when it was the fruit), the
/// score and the dots eaten so far.
pub fn move_outcome(event: SuperballEvent, eaten: Option<Space>, fruit_points: u32, score: u32, dots_eaten: u16) -> (o: MoveOutcome)
    requires
        eaten == Some(Space::Point) ==> dots_eaten < u16::MAX,
    ensures
        o.timer_order == (match event {
            SuperballEvent::BlinkingStarted => GhostOrder::Blink,
            SuperballEvent::Expired => GhostOrder::Calm,
            SuperballEvent::Quiet => GhostOrder::Keep,
        }),
        o.score == (match eaten {
            Some(sp) => if score + spec_points_for(sp, fruit_points) > u32::MAX { u32::MAX as int } else { score + spec_points_for(sp, fruit_points) },
            None => score as int,
        }),
        o.dots_eaten == (if eaten == Some(Space::Point) { dots_eaten + 1 } else { dots_eaten as int }),
        o.check_fruit == (eaten == Some(Space::Point)),
        o.eat_order == (if eaten == Some(Space::Superball) { GhostOrder::Frighten } else { GhostOrder::Keep }),
{
    let timer_order = match event {
        SuperballEvent::BlinkingStarted => GhostOrder::Blink,
        SuperballEvent::Expired => GhostOrder::Calm,
        SuperballEvent::Quiet => GhostOrder::Keep,
    };
    match eaten {
        None => MoveOutcome { timer_order, score, dots_eaten, check_fruit: false, eat_order: GhostOrder::Keep },
        Some(space) => {
            let score = score.saturating_add(points_for(space, fruit_points));
            match space {
                Space::Point => MoveOutcome { timer_order, score, dots_eaten: dots_eaten + 1, check_fruit: true, eat_order: GhostOrder::Keep },
                Space::Superball => MoveOutcome { timer_order, score, dots_eaten, check_fruit: false, eat_order: GhostOrder::Frighten },
                _ => MoveOutcome { timer_order, score, dots_eaten, check_fruit: false, eat_order: GhostOrder::Keep },
            }
        },
    }
}

/// Whether the extra life is due: the score reached the threshold and it was not given yet.
pub fn extra_life_due(score: u32, already_awarded: bool) -> (due: bool)
    ensures
        due == (!already_awarded && score >= EXTRA_LIFE_SCORE),
{
    !already_awarded && score >= EXTRA_LIFE_SCORE
}

/// The high score after a game that ended with `score`.
pub fn updated_high_score(score: u32, high_score: u32) -> (h: u32)
    ensures
        h == (if score > high_score { score } else { high_score }),
        h >= score,
        h >= high_score,
{
    if score > high_score {
        score
    } else {
        high_score
    }
}

} // verus!
