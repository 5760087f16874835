//! The interface through which frames are presented.

use vstd::prelude::*;

verus! {

use crate::frame::AhoyFrame;

/// Something that shows frames to a user: a terminal, a window, a test
/// recorder. The machine never depends on how a frame is shown.
pub trait AhoyDisplay {
    /// Why presenting a frame can fail.
    type Error;

    /// Shows one frame. The frame is only read.
    fn draw(&mut self, frame: &AhoyFrame) -> Result<(), Self::Error>;
}

} // verus!
