//! The tile map of the game and the rules by which a terrain gives way
//! when one of its tiles is consumed.

pub mod grid;
pub mod source;
pub mod terrain;
pub mod tiledata;
pub mod tileset;

pub use source::TileSource;
pub use terrain::{Terrain, TerrainData};
pub use tiledata::TileData;
pub use tileset::{TerrainType, TileSet};
pub use grid::{TerrainGrid, TileGrid};
