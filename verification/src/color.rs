use vstd::prelude::*;

verus! {

/// Color tag carried by every cell; the presentation layer maps it to a
/// terminal color. Borders are drawn red, locked and falling blocks green.
#[derive(Clone, Copy, Debug, PartialEq, Eq, Structural)]
pub enum Color {
    Red,
    White,
    Green,
}

impl Default for Color {
    fn default() -> (r: Self)
        ensures
            r == Color::Red,
    {
        Color::Red
    }
}

} // verus!
