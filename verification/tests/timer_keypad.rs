use chip8::emulator::keypad::Keypad;
use chip8::emulator::timer::Timer;

#[test]
fn timer_starts_at_max_and_resets() {
    let mut timer = Timer::new();
    assert_eq!(timer.counter(), u8::MAX);
    timer.set_counter(12);
    assert_eq!(timer.counter(), 12);
    timer.reset();
    assert_eq!(timer.counter(), 255);
}

#[test]
fn keypad_starts_released() {
    assert_eq!(Keypad::new().current_key(), None);
}
