use vstd::prelude::*;

verus! {

/// The hexadecimal keypad; it tracks at most one pressed key.
pub struct Keypad {
    current_key: Option<u8>,
}

impl View for Keypad {
    type V = Option<u8>;

    closed spec fn view(&self) -> Option<u8> {
        self.current_key
    }
}

impl Keypad {
    /// A keypad with no key pressed.
    pub fn new() -> (keypad: Self)
        ensures
            keypad@ == None::<u8>,
    {
        Self { current_key: None }
    }

    /// The key that is pressed, if any.
    pub fn current_key(&self) -> (key: Option<u8>)
        ensures
            key == self@,
    {
        self.current_key
    }
}

} // verus!
