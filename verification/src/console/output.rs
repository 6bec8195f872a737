//! Positions and areas on the terminal screen.

use vstd::prelude::*;

verus! {

/// A starting point to write (x, y).
#[derive(Clone, Copy, Debug, PartialEq, Eq, Structural)]
pub struct Origin(pub u16, pub u16);

impl Origin {
    /// Get x
    pub fn get_x(self) -> (x: u16)
        ensures
            x == self.0,
    {
        let Origin(x, _) = self;
        x
    }

    /// Replace x in origin
    pub fn with_x(self, x: u16) -> (o: Origin)
        ensures
            o == Origin(x, self.1),
    {
        let Origin(_, y) = self;
        Origin(x, y)
    }
}

/// Rectangle area size (width, height)
#[derive(Clone, Copy, Debug, PartialEq, Eq, Structural)]
pub struct Size(pub u16, pub u16);

/// Rectangle area position and size (x, y, width, height)
#[derive(Clone, Copy, Debug, PartialEq, Eq, Structural)]
pub struct Clip(pub u16, pub u16, pub u16, pub u16);

/// Ways of painting a piece of text.
#[derive(Clone, Copy, Debug, PartialEq, Eq, Structural)]
pub enum PaintMode {
    Highlight,
    NoHighlight,
    Shade,
    NoShade,
}

} // verus!
