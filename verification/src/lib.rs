//! A small tile-and-sprite scene: animated sprites cut from a sprite sheet,
//! a tiled ground, a frames-per-second counter, and a unit that is turned
//! with the arrow keys on a grid of cells.
//!
//! Nothing here touches a window. Rendering appends draw commands to a
//! [`canvas::Canvas`], and window events come in as [`events::Event`]
//! values, so that every rule of the scene is stated and proved.

pub mod canvas;
pub mod events;
pub mod grid;
pub mod sprite;
pub mod stats;
pub mod terrain;
pub mod unit;
pub mod world;
