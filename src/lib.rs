//! Integer core of a quadtree tile projection: map sizes per zoom level and
//! the clamping of pixel coordinates into the map.
pub mod tile_system;
