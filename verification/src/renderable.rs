//! What can be drawn.

use vstd::prelude::*;

verus! {

/// The point of a shape that its position refers to.
#[derive(Clone, Copy, Debug, PartialEq, Eq, Structural)]
pub enum OriginType {
    TopLeft,
    TopRight,
    BottomLeft,
    BottomRight,
    Center,
}

/// A triangle to try the renderer with. It has no state of its own.
#[derive(Clone, Copy, Debug, PartialEq, Eq, Structural)]
pub struct TestTriangle {}

impl TestTriangle {
    /// The triangle.
    pub fn new() -> (triangle: Self)
        ensures
            triangle == (TestTriangle {  }),
    {
        TestTriangle {  }
    }
}

} // verus!
