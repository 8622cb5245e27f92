use numworks_games::eadk::{Color, Point, State};
use numworks_games::graphical::tiling::Tileset;
use numworks_games::graphical::DrawOp;
use numworks_games::pacman::fruit::FruitManager;
use numworks_games::pacman::game::{
    extra_life_due, grid_index, handle_ghost_collision, move_outcome, points_for, updated_high_score, Collision, GhostOrder, Grid, Space,
};
use numworks_games::pacman::ghost::{
    distance, door_position, house_entry_step, house_exit_step, initial_state, scatter_point, shuffle_direction,
    GhostNav, GhostType, HouseState, MovementMode, WaveClock,
};
use numworks_games::pacman::levels::{fruit_for_level, fruit_score, LevelManager, LevelRules, WaveTimings};
use numworks_games::pacman::moveable::{can_go_to, input_direction, next_pos, Direction};
use numworks_games::pacman::pac_ui::{
    abs_from_pos, clear_potential_wrapping_stuff, draw_fruit, draw_pac_tile, draw_player, draw_score, get_tile_position,
};
use numworks_games::pacman::player::{SuperballEvent, SuperballTimer};

fn open_grid() -> Grid {
    [Space::Empty; 840]
}

fn p(x: u16, y: u16) -> Point {
    Point { x, y }
}

#[test]
fn next_pos_steps_and_wraps() {
    assert_eq!(next_pos(p(5, 5), &Direction::Up), (p(5, 4), false));
    assert_eq!(next_pos(p(0, 5), &Direction::Left), (p(27, 5), true));
    assert_eq!(next_pos(p(27, 14), &Direction::Right), (p(0, 14), true));
    assert_eq!(next_pos(p(3, 29), &Direction::Down), (p(3, 0), true));
}

#[test]
fn directions() {
    assert_eq!(Direction::Up.opposite(), Direction::Down);
    assert_eq!(Direction::Left.opposite(), Direction::Right);
    assert_eq!(Direction::Right.to_vector(), (1, 0));
    assert_eq!(Direction::Up.to_vector(), (0, -1));
}

#[test]
fn walls_block_moves() {
    let mut grid = open_grid();
    grid[grid_index(p(6, 5))] = Space::Wall;
    assert!(!can_go_to(p(5, 5), &Direction::Right, &grid));
    assert!(can_go_to(p(5, 5), &Direction::Left, &grid));
    assert_eq!(grid_index(p(6, 5)), 146);
}

#[test]
fn keys_choose_a_free_direction() {
    let mut grid = open_grid();
    grid[grid_index(p(5, 4))] = Space::Wall;
    // Up is held but blocked, Right is held too.
    let keys = State::new((1 << 1) | (1 << 3));
    assert_eq!(input_direction(&keys, p(5, 5), Direction::Left, &grid), Direction::Right);
    assert_eq!(input_direction(&State::new(0), p(5, 5), Direction::Left, &grid), Direction::Left);
}

#[test]
fn fruit_of_each_level() {
    assert_eq!(fruit_for_level(1), 0);
    assert_eq!(fruit_for_level(2), 1);
    assert_eq!(fruit_for_level(4), 2);
    assert_eq!(fruit_for_level(12), 6);
    assert_eq!(fruit_for_level(13), 7);
    assert_eq!(fruit_for_level(0), 7);
    assert_eq!(fruit_score(0), 100);
    assert_eq!(fruit_score(7), 5000);
}

#[test]
fn wave_timings_by_level() {
    assert_eq!(WaveTimings::for_level(1).scatter_4, 5000);
    assert_eq!(WaveTimings::for_level(3).chase_3, 1033000);
    assert_eq!(WaveTimings::for_level(7).scatter_1, 5000);
    assert_eq!(WaveTimings::for_level(7).chase_3, 1037000);
}

#[test]
fn level_rules() {
    let r1 = LevelRules::for_level(1);
    assert_eq!(r1.pac_pct, 80);
    assert_eq!(r1.frightened_duration_ms, 6000);
    assert_eq!(r1.blink_window_ms, 2000);
    assert_eq!((r1.inky_release_ms, r1.clyde_release_ms), (4000, 8000));
    let r9 = LevelRules::for_level(9);
    assert_eq!((r9.frightened_duration_ms, r9.flash_count, r9.blink_window_ms), (1000, 3, 500));
    let r17 = LevelRules::for_level(17);
    assert_eq!((r17.frightened_duration_ms, r17.blink_window_ms), (0, 0));
    assert_eq!(LevelRules::for_level(25).pac_pct, 90);
}

#[test]
fn level_fruit_appears_and_leaves() {
    let mut grid = open_grid();
    let mut m = LevelManager::new(1);
    m.check_fruit_spawn(69, 1000, &mut grid);
    assert!(!m.fruit_active);
    m.check_fruit_spawn(70, 1000, &mut grid);
    assert!(m.fruit_active);
    assert_eq!(grid[461], Space::Fruit);
    assert_eq!(m.despawn_until, 10500);
    m.update(10499, &mut grid);
    assert_eq!(grid[461], Space::Fruit);
    m.update(10500, &mut grid);
    assert!(!m.fruit_active);
    assert_eq!(grid[461], Space::Empty);
    m.check_fruit_spawn(170, 20000, &mut grid);
    assert_eq!(m.fruits_spawned_this_level, 2);
    assert_eq!(m.collect_fruit(&mut grid), 100);
    assert!(m.fruit_eaten);
    // No third fruit.
    m.check_fruit_spawn(200, 30000, &mut grid);
    assert_eq!(m.fruits_spawned_this_level, 2);
    m.advance_level();
    assert_eq!(m.current_level, 2);
    assert_eq!(m.rules.fruit_id, 1);
    assert_eq!(m.fruits_spawned_this_level, 0);
}

#[test]
fn fruit_manager_tables() {
    let f = FruitManager::new();
    assert_eq!(f.get_current_fruit_type(1), 0);
    assert_eq!(f.get_current_fruit_type(5), 3);
    assert_eq!(f.get_current_fruit_type(0), 0);
    assert_eq!(f.get_current_fruit_type(20), 7);
    assert_eq!(f.get_fruit_value(5), 500);
}

#[test]
fn fruit_manager_spawn_time() {
    let mut grid = open_grid();
    let mut f = FruitManager::new();
    f.check_dot_spawn(70, &mut grid, 1000, 2500);
    assert_eq!(f.despawn_until, 1000 + 9000 + 498);
    assert_eq!(grid[461], Space::Fruit);
    f.update(&mut grid, 10498);
    assert!(!f.fruit_active);
    assert_eq!(grid[461], Space::Empty);
}

fn nav(gtype: GhostType, pos: Point, dir: Direction, mode: MovementMode) -> GhostNav {
    GhostNav { gtype, position: pos, direction: dir, movement_mode: mode, door_position: p(14, 11) }
}

#[test]
fn ghost_targets() {
    assert_eq!(distance(p(1, 2), p(4, 6)), 7);
    assert_eq!(scatter_point(&GhostType::Blinky), p(27, 0));
    assert_eq!(scatter_point(&GhostType::Clyde), p(0, 29));
    let pinky = nav(GhostType::Pinky, p(1, 1), Direction::Left, MovementMode::Chase);
    assert_eq!(pinky.target(p(10, 10), &Direction::Up, p(5, 5)), p(10, 6));
    let inky = nav(GhostType::Inky, p(1, 1), Direction::Left, MovementMode::Chase);
    assert_eq!(inky.target(p(10, 10), &Direction::Right, p(5, 5)), p(19, 15));
    let clyde_far = nav(GhostType::Clyde, p(0, 0), Direction::Left, MovementMode::Chase);
    assert_eq!(clyde_far.target(p(10, 10), &Direction::Up, p(5, 5)), p(10, 10));
    let clyde_near = nav(GhostType::Clyde, p(9, 10), Direction::Left, MovementMode::Chase);
    assert_eq!(clyde_near.target(p(10, 10), &Direction::Up, p(5, 5)), p(0, 29));
    let scared = nav(GhostType::Blinky, p(1, 1), Direction::Left, MovementMode::Frightened);
    assert_eq!(scared.target(p(26, 28), &Direction::Up, p(5, 5)), p(27, 29));
    let eyes = nav(GhostType::Blinky, p(1, 1), Direction::Left, MovementMode::Eaten);
    assert_eq!(eyes.target(p(26, 28), &Direction::Up, p(5, 5)), p(14, 11));
}

#[test]
fn ghost_turns_towards_target() {
    let grid = open_grid();
    let g = nav(GhostType::Blinky, p(5, 5), Direction::Right, MovementMode::Chase);
    assert_eq!(g.best_direction(p(5, 0), &grid), Direction::Up);
    assert_eq!(g.update_path(p(5, 0), &Direction::Up, p(5, 5), &grid, false), Some((p(5, 0), Direction::Up)));
    // A frightened ghost runs away from its target.
    let f = nav(GhostType::Blinky, p(5, 5), Direction::Right, MovementMode::Frightened);
    assert_eq!(f.best_direction(p(5, 0), &grid), Direction::Down);
}

#[test]
fn ghost_in_a_corridor_keeps_going() {
    let mut grid = [Space::Wall; 840];
    grid[grid_index(p(5, 5))] = Space::Empty;
    grid[grid_index(p(4, 5))] = Space::Empty;
    let g = nav(GhostType::Blinky, p(5, 5), Direction::Right, MovementMode::Chase);
    // Only the way back is open: no decision.
    assert_eq!(g.update_path(p(5, 0), &Direction::Up, p(5, 5), &grid, false), None);
}

#[test]
fn wave_clock() {
    let mut c = WaveClock { movement_mode: MovementMode::Scatter, scatter_until: 7000, chase_until: 0 };
    c.handle_events(6999);
    assert_eq!(c.movement_mode, MovementMode::Scatter);
    c.handle_events(7000);
    assert_eq!(c, WaveClock { movement_mode: MovementMode::Chase, scatter_until: 0, chase_until: 27000 });
    c.handle_events(27000);
    assert_eq!(c, WaveClock { movement_mode: MovementMode::Scatter, scatter_until: 34000, chase_until: 0 });
}

#[test]
fn ghost_house_moves() {
    assert_eq!(house_exit_step(p(12, 13), p(14, 11)), Some(Direction::Right));
    assert_eq!(house_exit_step(p(15, 13), p(14, 11)), Some(Direction::Left));
    assert_eq!(house_exit_step(p(14, 13), p(14, 11)), Some(Direction::Up));
    assert_eq!(house_exit_step(p(14, 11), p(14, 11)), None);
    assert_eq!(house_entry_step(p(14, 11), p(12, 13)), Some(Direction::Down));
    assert_eq!(house_entry_step(p(14, 13), p(12, 13)), Some(Direction::Left));
    assert_eq!(house_entry_step(p(12, 13), p(12, 13)), None);
    assert_eq!(shuffle_direction(p(11, 13), p(12, 13), Direction::Left), Direction::Right);
    assert_eq!(shuffle_direction(p(13, 13), p(12, 13), Direction::Right), Direction::Left);
    assert_eq!(shuffle_direction(p(12, 13), p(12, 13), Direction::Up), Direction::Left);
    assert_eq!(initial_state(GhostType::Inky, 100), (HouseState::Inside, 4100, Direction::Left));
    assert_eq!(initial_state(GhostType::Blinky, 100), (HouseState::Outside, 0, Direction::Left));
    assert_eq!(door_position(p(13, 13)), p(14, 11));
    assert_eq!(door_position(p(13, 1)), p(14, 0));
}

#[test]
fn movement_modes() {
    assert_eq!(MovementMode::Chase.frightened(HouseState::Outside), MovementMode::Frightened);
    assert_eq!(MovementMode::Chase.frightened(HouseState::Inside), MovementMode::Chase);
    assert_eq!(MovementMode::Eaten.frightened(HouseState::Outside), MovementMode::Eaten);
    assert_eq!(MovementMode::Frightened.blinking(), MovementMode::FrightenedBlinking);
    assert_eq!(MovementMode::FrightenedBlinking.calmed(), MovementMode::Chase);
    assert_eq!(MovementMode::Scatter.calmed(), MovementMode::Scatter);
}

#[test]
fn superball_timer() {
    let rules = LevelRules::for_level(1);
    let mut t = SuperballTimer::new();
    assert_eq!(t.handle_events(10), SuperballEvent::Quiet);
    assert!(t.activate_superball(&rules, 1000));
    assert_eq!((t.superball_until, t.blink_at), (7000, 5000));
    assert_eq!(t.handle_events(4000), SuperballEvent::Quiet);
    assert_eq!(t.handle_events(5000), SuperballEvent::BlinkingStarted);
    assert_eq!(t.handle_events(6000), SuperballEvent::Quiet);
    assert_eq!(t.handle_events(7000), SuperballEvent::Expired);
    assert!(!t.superball_active);
    let none = LevelRules::for_level(17);
    assert!(!t.activate_superball(&none, 8000));
}

#[test]
fn collisions_and_score() {
    let a = p(3, 3);
    let b = p(4, 3);
    let far = p(10, 10);
    assert_eq!(handle_ghost_collision(a, b, far, far, MovementMode::Chase, false), Collision::Miss);
    assert_eq!(handle_ghost_collision(a, b, b, far, MovementMode::Frightened, false), Collision::EatGhost);
    assert_eq!(handle_ghost_collision(a, b, far, b, MovementMode::Chase, false), Collision::Fatal);
    assert_eq!(handle_ghost_collision(a, b, far, b, MovementMode::Chase, true), Collision::Harmless);
    assert_eq!(handle_ghost_collision(a, b, a, a, MovementMode::Eaten, false), Collision::Harmless);
    assert_eq!(points_for(Space::Point, 700), 10);
    assert_eq!(points_for(Space::Superball, 700), 50);
    assert_eq!(points_for(Space::Fruit, 700), 700);
    assert_eq!(points_for(Space::Wall, 700), 0);
    assert!(extra_life_due(10000, false));
    assert!(!extra_life_due(10000, true));
    assert!(!extra_life_due(9999, false));
    assert_eq!(updated_high_score(500, 300), 500);
    assert_eq!(updated_high_score(200, 300), 300);
}

#[test]
fn maze_tiles() {
    assert_eq!(get_tile_position('.'), Some(p(13, 2)));
    assert_eq!(get_tile_position('°'), Some(p(15, 2)));
    assert_eq!(get_tile_position(' '), Some(p(12, 2)));
    assert_eq!(get_tile_position('7'), Some(p(7, 0)));
    assert_eq!(get_tile_position('a'), Some(p(10, 0)));
    assert_eq!(get_tile_position('g'), Some(p(0, 1)));
    assert_eq!(get_tile_position('w'), Some(p(0, 2)));
    assert_eq!(get_tile_position('A'), Some(p(4, 2)));
    assert_eq!(get_tile_position('#'), None);
    assert_eq!(abs_from_pos(p(1, 2)), p(56, 16));
}

fn sprite_sheet() -> &'static Tileset {
    let image: &'static [Color] = Box::leak(vec![Color::new(0); 16 * 128 * 9 * 2].into_boxed_slice());
    Box::leak(Box::new(Tileset::new(16, 8, image)))
}

#[test]
fn player_and_fruit_sprites() {
    let sprites = sprite_sheet();
    // frames 2: (2 / 2) % 4 == 1, looking right: tile (1, 0), shifted 3 pixels right.
    match draw_player(sprites, p(13, 22), 3, &Direction::Right, 2, false) {
        DrawOp::Image { pos, size, scaling, transparency, .. } => {
            assert_eq!(pos, p(13 * 8 + 48 - 4 + 3, 22 * 8 - 4 + 1));
            assert_eq!(size, (16, 16));
            assert_eq!(scaling, 1);
            assert!(transparency);
        },
        _ => panic!("expected an image"),
    }
    match draw_fruit(sprites, p(13, 16), 2) {
        DrawOp::Image { pos, pixels, .. } => {
            assert_eq!(pos, p(13 * 8 + 48, 16 * 8 - 4));
            assert_eq!(pixels.len(), sprites.image.len() - 16 * (8 * 128 + 2 * 16));
        },
        _ => panic!("expected an image"),
    }
    let masks = clear_potential_wrapping_stuff();
    match masks[0] {
        DrawOp::FillRect { rect, .. } => assert_eq!((rect.x, rect.y, rect.width, rect.height), (32, 88, 16, 32)),
        _ => panic!("expected a rectangle"),
    }
}

#[test]
fn score_label() {
    let l = draw_score(120);
    assert_eq!(l.text.as_str(), "120\0");
    assert_eq!(l.pos, p(0, 0));
    assert!(!l.large);
}

#[test]
fn death_frames_are_drawn_where_pac_man_stands() {
    let sprites = sprite_sheet();
    // tile (5, 1) of a sheet 128 pixels wide, whose tiles are stored one
    // after the other: it starts 16 * (128 + 5 * 16) pixels in; the sprite
    // is moved 2 pixels up from the cell
    match draw_pac_tile(sprites, p(13, 22), 2, &Direction::Up, p(5, 1)) {
        DrawOp::Image { pos, size, pixels, transparency, .. } => {
            assert_eq!(pos, p(13 * 8 + 48 - 4, 22 * 8 - 4 - 2));
            assert_eq!(size, (16, 16));
            assert_eq!(pixels.len(), sprites.image.len() - 16 * (128 + 5 * 16));
            assert!(transparency);
        },
        _ => panic!("expected an image"),
    }
}

#[test]
fn move_outcome_orders_the_ghosts_and_counts() {
    let o = move_outcome(SuperballEvent::Expired, Some(Space::Superball), 0, 100, 7);
    assert_eq!(o.timer_order, GhostOrder::Calm);
    assert_eq!(o.eat_order, GhostOrder::Frighten);
    assert_eq!(o.score, 150);
    assert_eq!(o.dots_eaten, 7);
    let o = move_outcome(SuperballEvent::Quiet, Some(Space::Point), 0, u32::MAX - 3, 7);
    assert_eq!(o.score, u32::MAX);
    assert_eq!(o.dots_eaten, 8);
    assert!(o.check_fruit);
    let o = move_outcome(SuperballEvent::BlinkingStarted, Some(Space::Fruit), 700, 0, 0);
    assert_eq!((o.timer_order, o.score, o.check_fruit), (GhostOrder::Blink, 700, false));
}
