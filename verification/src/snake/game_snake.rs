//! The rules of Snake: turning, the next cell of the head, collisions with
//! walls and with the body, fruits and walls placed on free cells.

use vstd::prelude::*;

use crate::eadk::{key, key_bit, Point, State};
use crate::snake::body::{
    snake_get, snake_len, snake_new, snake_pop_back, snake_push_front, snake_view, walls_get, walls_len, walls_push, walls_view,
};
use crate::utils::{randint, spec_randint};

verus! {

/// A direction of the snake's head.
#[derive(Clone, Copy, Debug, PartialEq, Eq, Structural)]
pub enum Direction {
    Up,
    Down,
    Left,
    Right,
}

/// Room for every cell of the largest terrain.
pub const MAX_ARRAY_SIZE: usize = 735;

/// The opposite direction.
pub open spec fn spec_opposite(d: Direction) -> Direction {
    match d {
        Direction::Up => Direction::Down,
        Direction::Down => Direction::Up,
        Direction::Left => Direction::Right,
        Direction::Right => Direction::Left,
    }
}

/// Keeps the previous direction when the new one would turn the snake back on itself.
pub fn check_direction(direction: Direction, last_direction: Direction) -> (d: Direction)
    ensures
        d == (if direction == spec_opposite(last_direction) { last_direction } else { direction }),
        d != spec_opposite(last_direction),
{
    match direction {
        Direction::Up => if last_direction == Direction::Down {
            return last_direction;
        },
        Direction::Down => if last_direction == Direction::Up {
            return last_direction;
        },
        Direction::Left => if last_direction == Direction::Right {
            return last_direction;
        },
        Direction::Right => if last_direction == Direction::Left {
            return last_direction;
        },
    }
    direction
}

/// Whether a cell is part of the snake.
pub fn is_in_snake(p: &Point, snake: &heapless::Deque<Point, 735>) -> (b: bool)
    ensures
        b == snake_view(*snake).contains(*p),
{
    let n = snake_len(snake);
    let mut i: usize = 0;
    while i < n
        invariant
            n == snake_view(*snake).len(),
            i <= n,
            forall|k: int| 0 <= k < i ==> snake_view(*snake)[k] != *p,
        decreases n - i,
    {
        let q = snake_get(snake, i);
        if q.x == p.x && q.y == p.y {
            assert(snake_view(*snake)[i as int] == *p);
            return true;
        }
        i += 1;
    }
    false
}

/// Whether a cell holds a wall.
pub fn is_in_walls(p: &Point, walls: &heapless::Vec<Point, 735>) -> (b: bool)
    ensures
        b == walls_view(*walls).contains(*p),
{
    let n = walls_len(walls);
    let mut i: usize = 0;
    while i < n
        invariant
            n == walls_view(*walls).len(),
            i <= n,
            forall|k: int| 0 <= k < i ==> walls_view(*walls)[k] != *p,
        decreases n - i,
    {
        let q = walls_get(walls, i);
        if q.x == p.x && q.y == p.y {
            assert(walls_view(*walls)[i as int] == *p);
            return true;
        }
        i += 1;
    }
    false
}

/// A cell of the terrain chosen by two random numbers.
pub fn get_random_point(width: u16, height: u16, random_x: u32, random_y: u32) -> (p: Point)
    requires
        width >= 1,
        height >= 1,
    ensures
        p.x == spec_randint(0, (width - 1) as u32, random_x),
        p.y == spec_randint(0, (height - 1) as u32, random_y),
        p.x < width,
        p.y < height,
{
    let x = randint(0, (width - 1) as u32, random_x) as u16;
    let y = randint(0, (height - 1) as u32, random_y) as u16;
    Point { x, y }
}

/// The terrain sizes used by a move from `p` in direction `d` are at least one cell.
pub open spec fn step_dims_ok(p: Point, d: Direction, wrapping: bool, height: u16, width: u16) -> bool {
    &&& d == Direction::Down ==> height >= 1
    &&& (d == Direction::Up && p.y == 0 && wrapping) ==> height >= 1
    &&& d == Direction::Right ==> width >= 1
    &&& (d == Direction::Left && p.x == 0 && wrapping) ==> width >= 1
}

/// The cell next to `p` in direction `d` on a `width` x `height` terrain,
/// across the border when it wraps, `None` when it does not.
pub open spec fn spec_step(p: Point, d: Direction, wrapping: bool, height: u16, width: u16) -> Option<Point> {
    match d {
        Direction::Up => if p.y >= 1 {
            Some(Point { x: p.x, y: (p.y - 1) as u16 })
        } else if wrapping {
            Some(Point { x: p.x, y: (height - 1) as u16 })
        } else {
            None
        },
        Direction::Down => if p.y < height - 1 {
            Some(Point { x: p.x, y: (p.y + 1) as u16 })
        } else if wrapping {
            Some(Point { x: p.x, y: 0 })
        } else {
            None
        },
        Direction::Left => if p.x >= 1 {
            Some(Point { x: (p.x - 1) as u16, y: p.y })
        } else if wrapping {
            Some(Point { x: (width - 1) as u16, y: p.y })
        } else {
            None
        },
        Direction::Right => if p.x < width - 1 {
            Some(Point { x: (p.x + 1) as u16, y: p.y })
        } else if wrapping {
            Some(Point { x: 0, y: p.y })
        } else {
            None
        },
    }
}

/// Where the head goes from `p` in direction `d`: the next cell, unless
/// there is none (a border without wrapping), it is a wall, or it is part of
/// the snake other than its last cell (which moves away).
pub open spec fn spec_point_from_dir(p: Point, d: Direction, snake: Seq<Point>, walls: Seq<Point>, wrapping: bool, height: u16, width: u16) -> Option<Point> {
    match spec_step(p, d, wrapping, height, width) {
        None => None,
        Some(q) => if walls.contains(q) {
            None
        } else if snake.contains(q) && q != snake.last() {
            None
        } else {
            Some(q)
        },
    }
}

/// The next cell of the head is the neighbouring cell in its direction:
/// with wrapping it always exists, one step taken modulo the size of the
/// terrain; without wrapping there is none exactly when the head is on the
/// border it faces. The head then crashes exactly when that cell is a wall
/// or a cell of the snake other than its last one.
pub proof fn lemma_next_head(p: Point, d: Direction, snake: Seq<Point>, walls: Seq<Point>, wrapping: bool, height: u16, width: u16)
    requires
        1 <= width,
        1 <= height,
        p.x < width,
        p.y < height,
    ensures
        ({
            let dx: int = match d {
                Direction::Right => 1,
                Direction::Left => -1,
                _ => 0,
            };
            let dy: int = match d {
                Direction::Down => 1,
                Direction::Up => -1,
                _ => 0,
            };
            let on_border = !(0 <= p.x + dx < width && 0 <= p.y + dy < height);
            let q = Point { x: ((p.x + dx + width) % (width as int)) as u16, y: ((p.y + dy + height) % (height as int)) as u16 };
            let r = spec_point_from_dir(p, d, snake, walls, wrapping, height, width);
            &&& (wrapping || !on_border) ==> r == (if walls.contains(q) || (snake.contains(q) && q != snake.last()) {
                None
            } else {
                Some(q)
            })
            &&& !wrapping && on_border ==> r is None
            &&& !on_border ==> q == Point { x: (p.x + dx) as u16, y: (p.y + dy) as u16 }
        }),
{
    let w = width as int;
    let h = height as int;
    match d {
        Direction::Up => {
            if p.y >= 1 {
                assert((p.y - 1 + h) % h == p.y - 1) by (nonlinear_arith)
                    requires
                        1 <= p.y < h,
                ;
            } else {
                assert((p.y - 1 + h) % h == h - 1) by (nonlinear_arith)
                    requires
                        p.y == 0,
                        h >= 1,
                ;
            }
            assert((p.x + 0 + w) % w == p.x) by (nonlinear_arith)
                requires
                    0 <= p.x < w,
            ;
        },
        Direction::Down => {
            if p.y < h - 1 {
                assert((p.y + 1 + h) % h == p.y + 1) by (nonlinear_arith)
                    requires
                        0 <= p.y < h - 1,
                ;
            } else {
                assert((p.y + 1 + h) % h == 0) by (nonlinear_arith)
                    requires
                        p.y == h - 1,
                        h >= 1,
                ;
            }
            assert((p.x + 0 + w) % w == p.x) by (nonlinear_arith)
                requires
                    0 <= p.x < w,
            ;
        },
        Direction::Left => {
            if p.x >= 1 {
                assert((p.x - 1 + w) % w == p.x - 1) by (nonlinear_arith)
                    requires
                        1 <= p.x < w,
                ;
            } else {
                assert((p.x - 1 + w) % w == w - 1) by (nonlinear_arith)
                    requires
                        p.x == 0,
                        w >= 1,
                ;
            }
            assert((p.y + 0 + h) % h == p.y) by (nonlinear_arith)
                requires
                    0 <= p.y < h,
            ;
        },
        Direction::Right => {
            if p.x < w - 1 {
                assert((p.x + 1 + w) % w == p.x + 1) by (nonlinear_arith)
                    requires
                        0 <= p.x < w - 1,
                ;
            } else {
                assert((p.x + 1 + w) % w == 0) by (nonlinear_arith)
                    requires
                        p.x == w - 1,
                        w >= 1,
                ;
            }
            assert((p.y + 0 + h) % h == p.y) by (nonlinear_arith)
                requires
                    0 <= p.y < h,
            ;
        },
    }
}

/// Gives the next cell of the head, `None` when the snake would crash.
pub fn get_point_from_dir(p: &Point, d: &Direction, snake: &heapless::Deque<Point, 735>, walls: &heapless::Vec<Point, 735>, wrapping: bool, height: u16, width: u16) -> (r: Option<Point>)
    requires
        step_dims_ok(*p, *d, wrapping, height, width),
    ensures
        r == spec_point_from_dir(*p, *d, snake_view(*snake), walls_view(*walls), wrapping, height, width),
{
    let mut new_point = Point { x: p.x, y: p.y };
    match d {
        Direction::Up => {
            if new_point.y >= 1 {
                new_point.y = new_point.y - 1;
            } else if wrapping {
                new_point.y = height - 1;
            } else {
                return None;
            }
        },
        Direction::Down => {
            if new_point.y < height - 1 {
                new_point.y = new_point.y + 1;
            } else if wrapping {
                new_point.y = 0;
            } else {
                return None;
            }
        },
        Direction::Left => {
            if new_point.x >= 1 {
                new_point.x = new_point.x - 1;
            } else if wrapping {
                new_point.x = width - 1;
            } else {
                return None;
            }
        },
        Direction::Right => {
            if new_point.x < width - 1 {
                new_point.x = new_point.x + 1;
            } else if wrapping {
                new_point.x = 0;
            } else {
                return None;
            }
        },
    }
    if is_in_walls(&new_point, walls) {
        return None;
    }
    if is_in_snake(&new_point, snake) {
        let n = snake_len(snake);
        let back = snake_get(snake, n - 1);
        if new_point.x != back.x || new_point.y != back.y {
            return None;
        }
    }
    Some(new_point)
}

/// The snake of a new game: three cells on the second row, heading right.
pub fn new_snake() -> (s: heapless::Deque<Point, 735>)
    ensures
        snake_view(s) == seq![Point { x: 3, y: 1 }, Point { x: 2, y: 1 }, Point { x: 1, y: 1 }],
{
    let mut snake = snake_new();
    let _ = snake_push_front(&mut snake, Point { x: 1, y: 1 });
    let _ = snake_push_front(&mut snake, Point { x: 2, y: 1 });
    let _ = snake_push_front(&mut snake, Point { x: 3, y: 1 });
    assert(snake_view(snake) =~= seq![Point { x: 3, y: 1 }, Point { x: 2, y: 1 }, Point { x: 1, y: 1 }]);
    snake
}

/// What one move of the snake did.
#[derive(Clone, Copy, Debug, PartialEq, Eq, Structural)]
pub enum Step {
    /// The head would crash: the game is over.
    Crashed,
    /// The head reached the fruit: the snake grew. `ahead` is the cell in
    /// front of the new head (or `(width, height)` when there is none), kept
    /// free of the next fruit and wall.
    Ate { head: Point, ahead: Point },
    /// The head moved on and the last cell `tail` was freed.
    Moved { head: Point, tail: Point },
}

/// Moves the snake one cell in `direction`: it crashes, grows onto the
/// fruit, or moves on and frees its last cell.
pub fn move_snake(snake: &mut heapless::Deque<Point, 735>, walls: &heapless::Vec<Point, 735>, direction: Direction, fruit_pos: Point, wrapping: bool, height: u16, width: u16) -> (s: Step)
    requires
        snake_view(*old(snake)).len() > 0,
        snake_view(*old(snake)).len() < MAX_ARRAY_SIZE,
        height >= 1,
        width >= 1,
    ensures
        ({
            let old_body = snake_view(*old(snake));
            let next = spec_point_from_dir(old_body[0], direction, old_body, walls_view(*walls), wrapping, height, width);
            match next {
                None => s == Step::Crashed && snake_view(*final(snake)) == old_body,
                Some(head) => if head == fruit_pos {
                    &&& snake_view(*final(snake)) == seq![head] + old_body
                    &&& s == (Step::Ate {
                        head,
                        ahead: match spec_point_from_dir(head, direction, seq![head] + old_body, walls_view(*walls), wrapping, height, width) {
                            Some(a) => a,
                            None => Point { x: width, y: height },
                        },
                    })
                } else {
                    &&& snake_view(*final(snake)) == (seq![head] + old_body).drop_last()
                    &&& s == (Step::Moved { head, tail: old_body.last() })
                },
            }
        }),
{
    let front_point = snake_get(snake, 0);
    let new_point = match get_point_from_dir(&front_point, &direction, snake, walls, wrapping, height, width) {
        Some(p) => p,
        None => {
            return Step::Crashed;
        },
    };
    let ghost old_body = snake_view(*snake);
    let _ = snake_push_front(snake, new_point);
    if new_point.x == fruit_pos.x && new_point.y == fruit_pos.y {
        let ahead = match get_point_from_dir(&new_point, &direction, snake, walls, wrapping, height, width) {
            Some(a) => a,
            None => Point { x: width, y: height },
        };
        Step::Ate { head: new_point, ahead }
    } else {
        let tail = snake_pop_back(snake);
        assert((seq![new_point] + old_body).last() == old_body.last());
        Step::Moved { head: new_point, tail: tail.unwrap() }
    }
}

/// Whether a new fruit or wall may go on `candidate`: not on the snake,
/// not on a wall, not right in front of the head.
pub fn placement_ok(candidate: &Point, snake: &heapless::Deque<Point, 735>, walls: &heapless::Vec<Point, 735>, ahead: &Point) -> (b: bool)
    ensures
        b == (!snake_view(*snake).contains(*candidate) && !walls_view(*walls).contains(*candidate) && *candidate != *ahead),
{
    !is_in_snake(candidate, snake) && !is_in_walls(candidate, walls) && !(candidate.x == ahead.x && candidate.y == ahead.y)
}

/// Whether a wall appears after a fruit: with walls on, every second fruit.
pub fn wall_due(has_walls: bool, score: u16) -> (b: bool)
    ensures
        b == (has_walls && score % 2 == 0),
{
    has_walls && score % 2 == 0
}

/// A fruit eaten: the score grows by one; answers whether a wall is then
/// due.
pub fn fruit_eaten(score: &mut u16, has_walls: bool) -> (wall: bool)
    requires
        *old(score) < u16::MAX,
    ensures
        *final(score) == *old(score) + 1,
        wall == (has_walls && *final(score) % 2 == 0),
{
    *score = *score + 1;
    wall_due(has_walls, *score)
}

/// Adds the wall `cell` when it may stand there (off the snake, off the
/// walls, not just ahead of the head) and the walls have room; answers
/// whether it was added.
pub fn add_wall(walls: &mut heapless::Vec<Point, 735>, cell: Point, snake: &heapless::Deque<Point, 735>, ahead: &Point) -> (added: bool)
    ensures
        added <==> (!snake_view(*snake).contains(cell) && !walls_view(*old(walls)).contains(cell) && cell != *ahead
            && walls_view(*old(walls)).len() < 735),
        added ==> walls_view(*final(walls)) == walls_view(*old(walls)).push(cell),
        !added ==> walls_view(*final(walls)) == walls_view(*old(walls)),
{
    if !placement_ok(&cell, snake, walls, ahead) {
        return false;
    }
    walls_push(walls, cell).is_ok()
}

/// What the keys held ask for: a new direction (Up, Down, Right, Left in
/// that order of priority), or a pause with OK.
#[derive(Clone, Copy, Debug, PartialEq, Eq, Structural)]
pub enum KeyInput {
    Turn(Direction),
    Pause,
    Nothing,
}

/// Reads the keys held.
pub fn read_keys(keys: &State) -> (k: KeyInput)
    ensures
        k == (if key_bit(keys@, key::UP) {
            KeyInput::Turn(Direction::Up)
        } else if key_bit(keys@, key::DOWN) {
            KeyInput::Turn(Direction::Down)
        } else if key_bit(keys@, key::RIGHT) {
            KeyInput::Turn(Direction::Right)
        } else if key_bit(keys@, key::LEFT) {
            KeyInput::Turn(Direction::Left)
        } else if key_bit(keys@, key::OK) {
            KeyInput::Pause
        } else {
            KeyInput::Nothing
        }),
{
    if keys.key_down(key::UP) {
        KeyInput::Turn(Direction::Up)
    } else if keys.key_down(key::DOWN) {
        KeyInput::Turn(Direction::Down)
    } else if keys.key_down(key::RIGHT) {
        KeyInput::Turn(Direction::Right)
    } else if keys.key_down(key::LEFT) {
        KeyInput::Turn(Direction::Left)
    } else if keys.key_down(key::OK) {
        KeyInput::Pause
    } else {
        KeyInput::Nothing
    }
}

/// Whether the next move is due: `speed` ms after the last one.
pub fn move_due(last_move: u64, speed: u16, now: u64) -> (b: bool)
    requires
        last_move + speed <= u64::MAX,
    ensures
        b == (last_move + speed <= now),
{
    last_move + speed as u64 <= now
}

/// The terrain of a size setting: small, medium, or the whole screen, as (height, width).
pub fn terrain_size(setting: u32) -> (hw: (u16, u16))
    ensures
        hw == (if setting == 1 { (11u16, 16u16) } else if setting == 2 { (15u16, 24u16) } else { (23u16, 31u16) }),
{
    match setting {
        1 => (11, 16),
        2 => (15, 24),
        _ => (23, 31),
    }
}

/// The move period of a speed setting: 250, 175 or 100 ms for settings 1 to 3.
pub fn speed_of_setting(setting: u32) -> (ms: u16)
    requires
        setting <= 4,
    ensures
        ms == 325 - setting * 75,
{
    325 - setting as u16 * 75
}

/// The high score to keep after a game: the score when it beats the
/// previous one (compared on 16 bits).
pub fn new_high_score(score: u16, high_score: u32) -> (r: Option<u32>)
    ensures
        r == (if score > (high_score as u16) { Some(score as u32) } else { None::<u32> }),
{
    if score > high_score as u16 {
        Some(score as u32)
    } else {
        None
    }
}

/// The head never lands on a wall, nor on the body except on the last
/// cell, which the tail leaves in the same move.
pub proof fn lemma_head_lands_free(p: Point, d: Direction, snake: Seq<Point>, walls: Seq<Point>, wrapping: bool, height: u16, width: u16)
    ensures
        spec_point_from_dir(p, d, snake, walls, wrapping, height, width) matches Some(q) ==> !walls.contains(q) && (snake.contains(q) ==> q == snake.last()),
{
}

/// Eating a fruit makes the snake one cell longer; any other move keeps its length.
pub proof fn lemma_move_length(body: Seq<Point>, head: Point)
    requires
        body.len() > 0,
    ensures
        (seq![head] + body).len() == body.len() + 1,
        (seq![head] + body).drop_last().len() == body.len(),
        (seq![head] + body).drop_last()[0] == head,
{
}

/// Without wrapping, the head stays on the terrain.
pub proof fn lemma_head_on_terrain(p: Point, d: Direction, snake: Seq<Point>, walls: Seq<Point>, height: u16, width: u16)
    requires
        p.x < width,
        p.y < height,
    ensures
        spec_point_from_dir(p, d, snake, walls, false, height, width) matches Some(q) ==> q.x < width && q.y < height,
{
}

/// One move of the snake, checked: `None`, with nothing changed, when the
/// snake is empty or fills its whole capacity, or the terrain is empty.
pub fn advance(snake: &mut heapless::Deque<Point, 735>, walls: &heapless::Vec<Point, 735>, direction: Direction, fruit_pos: Point, wrapping: bool, height: u16, width: u16) -> (s: Option<Step>)
    ensures
        s is None <==> !(snake_view(*old(snake)).len() > 0 && snake_view(*old(snake)).len() < MAX_ARRAY_SIZE && height >= 1 && width >= 1),
        s is None ==> snake_view(*final(snake)) == snake_view(*old(snake)),
        s matches Some(st) ==> ({
            let old_body = snake_view(*old(snake));
            match spec_point_from_dir(old_body[0], direction, old_body, walls_view(*walls), wrapping, height, width) {
                None => st == Step::Crashed && snake_view(*final(snake)) == old_body,
                Some(head) => if head == fruit_pos {
                    &&& snake_view(*final(snake)) == seq![head] + old_body
                    &&& st == (Step::Ate {
                        head,
                        ahead: match spec_point_from_dir(head, direction, seq![head] + old_body, walls_view(*walls), wrapping, height, width) {
                            Some(a) => a,
                            None => Point { x: width, y: height },
                        },
                    })
                } else {
                    snake_view(*final(snake)) == (seq![head] + old_body).drop_last() && st == (Step::Moved { head, tail: old_body.last() })
                },
            }
        }),
{
    let n = snake_len(snake);
    if n == 0 || n >= MAX_ARRAY_SIZE || height == 0 || width == 0 {
        return None;
    }
    Some(move_snake(snake, walls, direction, fruit_pos, wrapping, height, width))
}

} // verus!
