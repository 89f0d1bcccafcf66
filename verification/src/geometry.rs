use vstd::prelude::*;

verus! {

/// Position and size of a window or monitor, in physical pixels.
#[derive(Clone, Copy, Debug, PartialEq, Eq, Structural)]
pub struct Geometry {
    pub x: i32,
    pub y: i32,
    pub width: u32,
    pub height: u32,
}

impl Geometry {
    /// Builds a geometry from its four components.
    pub fn new(x: i32, y: i32, width: u32, height: u32) -> (g: Geometry)
        ensures
            g == (Geometry { x, y, width, height }),
    {
        Geometry { x, y, width, height }
    }
}

} // verus!
