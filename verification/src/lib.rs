//! Layout generation for a tile-based dungeon level: rectangle geometry, a
//! flat grid of tiles, room and corridor carving, and the sampling loop that
//! places rooms and joins them.

pub mod carve;
pub mod generator;
pub mod grid;
pub mod level;
pub mod maps;
pub mod random;
pub mod rect;
pub mod render;

pub use carve::{apply_floor_tile, apply_horizontal_tunnel, apply_room_to_map, apply_vertical_tunnel};
pub use generator::{generate, origin_span, sample_room};
pub use grid::{cells_of, xy_idx, GridView, TileGrid, TileType, MAX_HEIGHT, MAX_WIDTH};
pub use level::{Attempt, Level, LevelView};
pub use maps::{new_map_rooms_and_corridors, new_map_test, scatter_wall};
pub use rect::Rect;
pub use render::tile_glyph;
