use vstd::prelude::*;
use crate::color::Color;

verus! {

/// Anything that carries a color tag for the presentation layer.
pub trait Colorable {
    /// The color the presentation layer should draw this value with.
    fn color(&self) -> &Color;
}

/// One cell of the playfield: an occupancy flag, a color tag, and the
/// cell's own coordinates (the canvas keeps them in step with its indices).
#[derive(Clone, Copy, Debug, PartialEq, Eq, Structural)]
pub struct CanvasPixel {
    pub color: Color,
    pub occupied: bool,
    pub x: i32,
    pub y: i32,
}

impl Colorable for CanvasPixel {
    fn color(&self) -> &Color {
        &self.color
    }
}

impl Default for CanvasPixel {
    fn default() -> (r: Self)
        ensures
            r == (CanvasPixel { color: Color::Red, occupied: false, x: 0, y: 0 }),
    {
        CanvasPixel { color: Color::Red, occupied: false, x: 0, y: 0 }
    }
}

} // verus!
