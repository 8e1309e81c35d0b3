//! Core engine of a terminal falling-block puzzle game: the fixed-size
//! playfield, piece spawning, collision-aware movement and rotation,
//! gravity, line clearing with compaction, and game-over detection.
//! Rendering and input handling live outside the library; the engine
//! exposes a grid snapshot for a presentation layer to draw.

pub mod canvas;
pub mod canvas_piece;
pub mod canvas_pixel;
pub mod color;
pub mod engine;
