//! A tile-based 2D engine: dirty-cell tracking, camera viewports,
//! hitboxes, tilemaps, animations and the frame scheduler.

pub mod bits;
pub mod cellbuf;
pub mod dirty_grid;
pub mod viewport;
pub mod hitbox;
pub mod compositor;
pub mod debug;
pub mod euclid;
pub mod engine;
pub mod texture;
pub mod tilemap;
pub mod tile_blit;
pub mod sprite;
pub mod engine_items;
pub mod layers;
pub mod particles;
pub mod world;
