//! Terrain autotiling: picks tile artwork for a grid so that the terrain
//! colors on the edges and corners of adjacent tiles match.
//!
//! Beside the autotiler: identifier case conversion and source formatting
//! for generated code (`naming`), and small types of the map editor around
//! it (`editor`, `project`).

pub mod position;
pub mod terrain;
pub mod select;
pub mod filler;
pub mod paint;
pub mod target;
pub mod naming;
pub mod editor;
pub mod project;
pub mod laws;
