use numworks_games::eadk::Color;
use numworks_games::graphical::tiling::Tileset;
use numworks_games::num_engine::hitbox::Hitbox;
use numworks_games::num_engine::tilemap::{Parallax, Tilemap, WrapMode};
use numworks_games::num_engine::world::{box_fits, hitboxes_collide, hitboxes_hit, SlotPool};

static IMG: [Color; 16] = [Color { rgb565: 1 }; 16];
static TILES: Tileset = Tileset { image: &IMG, tile_size: 2, width: 4 };

#[test]
fn spawn_takes_the_first_free_slot() {
    let mut pool: SlotPool<3> = SlotPool::new();
    assert_eq!(pool.spawn(), Some(0));
    assert_eq!(pool.spawn(), Some(1));
    assert_eq!(pool.active_ent_count, 2);
    pool.despawn(0);
    assert!(!pool.is_taken(0));
    assert!(pool.is_taken(1));
    assert_eq!(pool.active_ent_count, 2);
    assert_eq!(pool.spawn(), Some(0));
    assert_eq!(pool.spawn(), Some(2));
    assert_eq!(pool.spawn(), None);
    assert_eq!(pool.active_ent_count, 3);
}

#[test]
fn despawning_the_last_slot_shrinks_the_count() {
    let mut pool: SlotPool<4> = SlotPool::new();
    pool.spawn();
    pool.spawn();
    pool.spawn();
    pool.despawn(1);
    pool.despawn(2);
    assert_eq!(pool.active_ent_count, 1);
    pool.despawn(0);
    assert_eq!(pool.active_ent_count, 0);
    // a slot past the count is left alone
    pool.despawn(3);
    assert_eq!(pool.active_ent_count, 0);
}

#[test]
fn spawn_then_despawn_gives_the_slot_back() {
    let mut pool: SlotPool<2> = SlotPool::new();
    pool.spawn();
    let before = pool.allocated;
    let id = pool.spawn().unwrap();
    pool.despawn(id);
    assert_eq!(pool.allocated, before);
}

#[test]
fn boxes_that_leave_i16_are_reported() {
    let h = Hitbox::new(10, 0, 4, 4);
    assert!(box_fits(&h, [0, 0]));
    assert!(!box_fits(&h, [32760, 0]));
    assert_eq!(hitboxes_collide(&[h], [32760, 0], &[h], [0, 0]), None);
    assert_eq!(hitboxes_hit(&[h], [0, 0], &h, [32760, 0]), None);
}

#[test]
fn overlapping_hitboxes_collide() {
    let a = [Hitbox::new(0, 0, 4, 4), Hitbox::new(10, 10, 2, 2)];
    let b = [Hitbox::new(0, 0, 3, 3)];
    // b at (11, 11) meets the second box of a only
    assert_eq!(hitboxes_collide(&a, [0, 0], &b, [11, 11]), Some(true));
    // boxes that only touch do not meet
    assert_eq!(hitboxes_collide(&a, [0, 0], &b, [4, 0]), Some(false));
    assert_eq!(hitboxes_hit(&a, [0, 0], &b[0], [3, 3]), Some(true));
    assert_eq!(hitboxes_hit(&a, [0, 0], &b[0], [5, 5]), Some(false));
}

#[test]
fn inactive_hitboxes_never_collide() {
    let mut h = Hitbox::new(0, 0, 4, 4);
    h.active = false;
    assert_eq!(hitboxes_collide(&[h], [0, 0], &[h], [0, 0]), Some(false));
}

#[test]
fn hitbox_meets_the_tiles_of_a_layer() {
    // tiles at grid cells (0, 0) and (1, 1) of 2 x 2 pixels
    let data = vec![Some([0u8, 0u8]), None, None, Some([0, 0])];
    let tm: Tilemap<'static, 2, 4> = Tilemap::new(&TILES, data, 2, 2, &[], 0, false, Parallax::fixed(), WrapMode::NoWrap);
    let h = Hitbox::new(0, 0, 1, 1);
    assert!(h.collides_tilemap([0, 0], &tm));
    assert!(!h.collides_tilemap([2, 0], &tm));
    assert!(h.collides_tilemap([3, 3], &tm));
    assert!(!h.collides_tilemap([0, 3], &tm));
    let mut off = h;
    off.active = false;
    assert!(!off.collides_tilemap([0, 0], &tm));
}
