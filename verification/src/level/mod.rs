//! Rooms, their tiles and the level that joins them.

pub mod builder;
pub mod level;
pub mod random;
pub mod room;
pub mod tile;

pub use self::builder::RoomBuilder;
pub use self::level::{
    Level, LevelBuilder, MapInfo, RoomPicture, MAP_GRID_SIZE, MAP_GRID_SIZE_MINUS_ONE,
};
pub use self::room::{LoadInfo, Neighbour, Room, RoomType, TileSet, Tiles, MAX_NEIGHBOUR};
pub use self::tile::Tile;
