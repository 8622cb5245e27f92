use numworks_games::eadk::{Point, State};
use numworks_games::snake::game_snake::{
    check_direction, get_point_from_dir, get_random_point, is_in_snake, is_in_walls, move_due, move_snake,
    new_high_score, new_snake, placement_ok, read_keys, speed_of_setting, terrain_size, wall_due, Direction, KeyInput,
    Step,
};
use numworks_games::snake::snake_ui::{draw_box, draw_terrain_box, gray, light_gray};
use numworks_games::graphical::DrawOp;

fn p(x: u16, y: u16) -> Point {
    Point { x, y }
}

fn body(s: &heapless::Deque<Point, 735>) -> Vec<Point> {
    s.iter().copied().collect()
}

#[test]
fn no_turning_back() {
    assert_eq!(check_direction(Direction::Up, Direction::Down), Direction::Down);
    assert_eq!(check_direction(Direction::Left, Direction::Right), Direction::Right);
    assert_eq!(check_direction(Direction::Left, Direction::Up), Direction::Left);
    assert_eq!(check_direction(Direction::Right, Direction::Right), Direction::Right);
}

#[test]
fn starting_snake() {
    let s = new_snake();
    assert_eq!(body(&s), vec![p(3, 1), p(2, 1), p(1, 1)]);
    assert!(is_in_snake(&p(2, 1), &s));
    assert!(!is_in_snake(&p(4, 1), &s));
}

#[test]
fn next_cell() {
    let s = new_snake();
    let mut walls: heapless::Vec<Point, 735> = heapless::Vec::new();
    assert_eq!(get_point_from_dir(&p(3, 1), &Direction::Right, &s, &walls, false, 11, 16), Some(p(4, 1)));
    assert_eq!(get_point_from_dir(&p(3, 0), &Direction::Up, &s, &walls, false, 11, 16), None);
    assert_eq!(get_point_from_dir(&p(3, 0), &Direction::Up, &s, &walls, true, 11, 16), Some(p(3, 10)));
    assert_eq!(get_point_from_dir(&p(15, 4), &Direction::Right, &s, &walls, true, 11, 16), Some(p(0, 4)));
    // Into the body: refused, except into the last cell, which moves away.
    assert_eq!(get_point_from_dir(&p(3, 1), &Direction::Left, &s, &walls, false, 11, 16), None);
    assert_eq!(get_point_from_dir(&p(1, 2), &Direction::Up, &s, &walls, false, 11, 16), Some(p(1, 1)));
    walls.push(p(4, 1)).unwrap();
    assert!(is_in_walls(&p(4, 1), &walls));
    assert_eq!(get_point_from_dir(&p(3, 1), &Direction::Right, &s, &walls, false, 11, 16), None);
}

#[test]
fn moves_eat_and_crash() {
    let mut s = new_snake();
    let walls: heapless::Vec<Point, 735> = heapless::Vec::new();
    assert_eq!(move_snake(&mut s, &walls, Direction::Right, p(9, 9), false, 11, 16), Step::Moved { head: p(4, 1), tail: p(1, 1) });
    assert_eq!(body(&s), vec![p(4, 1), p(3, 1), p(2, 1)]);
    assert_eq!(move_snake(&mut s, &walls, Direction::Right, p(5, 1), false, 11, 16), Step::Ate { head: p(5, 1), ahead: p(6, 1) });
    assert_eq!(body(&s).len(), 4);
    assert_eq!(move_snake(&mut s, &walls, Direction::Up, p(9, 9), false, 11, 16), Step::Moved { head: p(5, 0), tail: p(2, 1) });
    assert_eq!(move_snake(&mut s, &walls, Direction::Up, p(9, 9), false, 11, 16), Step::Crashed);
    assert_eq!(body(&s), vec![p(5, 0), p(5, 1), p(4, 1), p(3, 1)]);
}

#[test]
fn placement() {
    let s = new_snake();
    let walls: heapless::Vec<Point, 735> = heapless::Vec::new();
    assert!(!placement_ok(&p(2, 1), &s, &walls, &p(4, 1)));
    assert!(!placement_ok(&p(4, 1), &s, &walls, &p(4, 1)));
    assert!(placement_ok(&p(5, 5), &s, &walls, &p(4, 1)));
    assert!(wall_due(true, 2));
    assert!(!wall_due(true, 3));
    assert!(!wall_due(false, 2));
}

#[test]
fn random_cells_and_settings() {
    assert_eq!(get_random_point(16, 11, 20, 5), p(4, 5));
    assert_eq!(terrain_size(1), (11, 16));
    assert_eq!(terrain_size(2), (15, 24));
    assert_eq!(terrain_size(3), (23, 31));
    assert_eq!(speed_of_setting(1), 250);
    assert_eq!(speed_of_setting(3), 100);
    assert!(move_due(1000, 250, 1250));
    assert!(!move_due(1000, 250, 1249));
    assert_eq!(new_high_score(5, 3), Some(5));
    assert_eq!(new_high_score(3, 5), None);
    assert_eq!(new_high_score(5, 70000), None);
}

#[test]
fn keys() {
    assert_eq!(read_keys(&State::new(1 << 1)), KeyInput::Turn(Direction::Up));
    assert_eq!(read_keys(&State::new((1 << 0) | (1 << 3))), KeyInput::Turn(Direction::Right));
    assert_eq!(read_keys(&State::new(1 << 4)), KeyInput::Pause);
    assert_eq!(read_keys(&State::new(0)), KeyInput::Nothing);
}

#[test]
fn terrain_boxes() {
    match draw_terrain_box(1, 0, (5, 5)) {
        DrawOp::FillRect { rect, color } => {
            assert_eq!((rect.x, rect.y, rect.width, rect.height), (15, 5, 10, 10));
            assert_eq!(color, gray());
        },
        _ => panic!("expected a rectangle"),
    }
    match draw_terrain_box(1, 1, (5, 5)) {
        DrawOp::FillRect { color, .. } => assert_eq!(color, light_gray()),
        _ => panic!("expected a rectangle"),
    }
    match draw_box(2, 3, gray(), (0, 0)) {
        DrawOp::FillRect { rect, .. } => assert_eq!((rect.x, rect.y), (20, 30)),
        _ => panic!("expected a rectangle"),
    }
    assert_eq!(gray().rgb565, 44405);
}
