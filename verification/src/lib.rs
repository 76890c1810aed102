//! A tile-map engine: a sparse grid of tiles organised in named layers,
//! a tile catalog over a shared atlas, timed tile animations, and the
//! movement state machines of the actors that walk the maps.

pub mod entity;
pub mod scene;
pub mod tilemap;
pub mod utils;
