use numworks_games::num_engine::tilemap::{IntoWrapMode, WrapMode};
use numworks_games::num_engine::particles::ParticleKind;
use numworks_games::eadk::{Color, Rect};
use numworks_games::num_engine::dirty_grid::DirtyGrid;
use numworks_games::num_engine::euclid::{div_euclid_i32, rem_euclid_i32};
use numworks_games::num_engine::hitbox::Hitbox;
use numworks_games::num_engine::tilemap::Parallax;
use numworks_games::num_engine::viewport::Viewport;
use numworks_games::numbers::abs;

#[test]
fn viewport_moves_and_maps() {
    let mut v = Viewport::new(100, 50);
    assert!(!v.moved());
    v.move_by(10, -5);
    assert!(v.moved());
    assert_eq!(v.world_to_screen(110, 45), (0, 0));
    v.move_by(-10, 5);
    assert_eq!((v.x, v.y), (100, 50));
    v.look_at(500, 500);
    assert_eq!((v.x, v.y), (500 - 160, 500 - 120));
    v.clamp(0, 400, 0, 300);
    assert_eq!((v.x, v.y), (80, 60));
    assert!(v.is_visible(80, 60, 1, 1));
    assert!(!v.is_visible(0, 0, 10, 10));
}

#[test]
fn hitboxes() {
    let a = Hitbox::new(0, 0, 10, 10);
    let b = Hitbox::new(0, 0, 10, 10);
    assert!(a.intersects([0, 0], &b, [5, 5]));
    assert!(!a.intersects([0, 0], &b, [10, 0]));
    assert_eq!(a.overlap_rect([0, 0], &b, [5, 5]), Some([5, 5, 10, 10]));
    assert!(a.contains_point([0, 0], 9, 9));
    assert!(!a.contains_point([0, 0], 10, 9));
    let c = Hitbox::new_centered(8, 4);
    assert_eq!(c.world_bounds([10, 10]), [6, 8, 14, 12]);
}

#[test]
fn dirty_cells() {
    let mut g: DirtyGrid<10, 32, 24> = DirtyGrid::new();
    g.mark_rect(Rect { x: 15, y: 0, width: 10, height: 5 });
    assert_eq!(g.curr[0], 0b110);
    g.swap_and_clear();
    assert_eq!(g.prev[0], 0b110);
    assert_eq!(g.curr[0], 0);
}

#[test]
fn euclid_and_parallax() {
    assert_eq!(div_euclid_i32(-7, 2), -4);
    assert_eq!(rem_euclid_i32(-7, 2), 1);
    assert_eq!(abs(-5), 5);
    assert_eq!(Parallax::fixed().apply(1000), 0);
    assert_eq!(Parallax::ratio(1, 2).apply(101), 50);
    assert_eq!(Parallax::ratio(1, 2).apply(-101), -50);
    assert_eq!(Color::from_rgb888(255, 255, 255).rgb565, 0xFFFF);
}

#[test]
fn wrap_mode_from_flags() {
    assert_eq!(true.into_wrap_mode(), WrapMode::Both);
    assert_eq!(false.into_wrap_mode(), WrapMode::NoWrap);
    assert_eq!(WrapMode::Vertical.into_wrap_mode(), WrapMode::Vertical);
}

#[test]
fn particles_default_to_streaks() {
    assert_eq!(ParticleKind::default(), ParticleKind::HorizontalStreak);
}
