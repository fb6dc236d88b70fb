//! Hexagonal-grid coordinates for a flat-top tile layout: axial and cube
//! addresses, exact conversions to and from pixel space, and the cube rounding
//! that snaps a fractional position to a single cell. Around them sit the small
//! pieces of game state that use no rendering: a grid of tiles, movement
//! states, sprite animation steps and a debug message slot.

pub mod animation;
pub mod debug_text;
pub mod hex_coords;
pub mod hex_grid;
pub mod movement;
