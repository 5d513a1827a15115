//! The size of the surface that the window draws on.

use vstd::prelude::*;

verus! {

/// Why the surface was not resized.
#[derive(Clone, Copy, Debug, PartialEq, Eq, Structural)]
pub enum WindowError {
    /// A surface cannot be zero pixels wide or high.
    ZeroSize,
}

/// The width and height of the surface, in pixels.
#[derive(Clone, Copy, Debug, PartialEq, Eq, Structural)]
pub struct SurfaceSize {
    pub width: u32,
    pub height: u32,
}

impl SurfaceSize {
    /// Takes the new size, unless one of its sides is zero: then the size stays
    /// as it is.
    pub fn resize(&mut self, width: u32, height: u32) -> (resized: Result<(), WindowError>)
        ensures
            resized == (if width > 0 && height > 0 {
                Ok::<(), WindowError>(())
            } else {
                Err::<(), WindowError>(WindowError::ZeroSize)
            }),
            *final(self) == (if width > 0 && height > 0 {
                SurfaceSize { width, height }
            } else {
                *old(self)
            }),
    {
        if width > 0 && height > 0 {
            self.width = width;
            self.height = height;
            Ok(())
        } else {
            Err(WindowError::ZeroSize)
        }
    }
}

} // verus!
