use vstd::prelude::*;

verus! {

/// An 8-bit countdown register (the delay or the sound timer).
pub struct Timer {
    counter: u8,
}

impl View for Timer {
    type V = u8;

    closed spec fn view(&self) -> u8 {
        self.counter
    }
}

impl Timer {
    /// A timer whose counter starts at `u8::MAX`.
    pub fn new() -> (timer: Self)
        ensures
            timer@ == u8::MAX,
    {
        Self { counter: u8::MAX }
    }

    /// Back to the starting counter, `u8::MAX`.
    pub fn reset(&mut self)
        ensures
            final(self)@ == u8::MAX,
    {
        *self = Self::new();
    }

    pub fn counter(&self) -> (counter: u8)
        ensures
            counter == self@,
    {
        self.counter
    }

    pub fn set_counter(&mut self, value: u8)
        ensures
            final(self)@ == value,
    {
        self.counter = value;
    }
}

} // verus!
