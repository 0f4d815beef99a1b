use vstd::prelude::*;

use crate::emulator::display::{PIXEL_HEIGHT, PIXEL_WIDTH};

verus! {

/// A request from the user interface to the emulation.
pub enum EmulationCommand {
    Load { bytes: Vec<u8> },
    Play,
    Pause,
    Step,
    Exit,
}

/// A picture of the screen as the emulation last published it.
#[derive(Clone, Copy)]
pub struct EmulationFrame {
    pub pixels: [[bool; PIXEL_WIDTH]; PIXEL_HEIGHT],
}

} // verus!
