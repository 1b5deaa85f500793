//! Rendering of static images of tile based maps.
//!
//! The library holds the integer and text logic of map rendering: tile
//! addressing with world wraparound, tile URL templates, compositing of
//! decoded tiles onto a canvas with fail-fast error handling, polyline
//! thinning on pixel coordinates, and the choice of a zoom level from the
//! pixel spans of the map's features.
pub mod error;
pub mod fetchers;
pub mod map;
pub mod raster;
pub mod simplify;
pub mod template;
pub mod tiles;
pub mod utils;
pub mod zoom;

pub use error::Error;
pub use fetchers::{NoopTileFetcher, TileFetcher};
pub use map::{composite_tiles, draw_base_layer};
pub use raster::{replace, Raster};
pub use simplify::simplify;
pub use tiles::{tile_requests, wrap_tile_index, TileRange, TileRequest};
pub use utils::{into_rgba, rgba_from_argb};
pub use zoom::calculate_zoom;
