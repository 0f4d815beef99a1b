use chip8::emulator::chip::Chip;
use chip8::emulator::display::{PIXEL_HEIGHT, PIXEL_WIDTH};
use chip8::emulator::memory::MemoryError;

fn loaded(program: &[u8]) -> Chip {
    let mut chip = Chip::new();
    chip.load(program).unwrap();
    chip
}

fn run(program: &[u8], steps: usize) -> Chip {
    let mut chip = loaded(program);
    for _ in 0..steps {
        assert!(!chip.step_faults());
        chip.step().unwrap();
    }
    chip
}

fn lit(pixels: &[[bool; PIXEL_WIDTH]; PIXEL_HEIGHT]) -> usize {
    pixels.iter().map(|row| row.iter().filter(|&&p| p).count()).sum()
}

#[test]
fn new_chip_has_font_and_blank_frame() {
    let chip = Chip::new();
    assert_eq!(chip.memory().read_slice(0x50, 5).unwrap(), &[0xF0, 0x90, 0x90, 0x90, 0xF0]);
    assert_eq!(*chip.memory().read(0x200).unwrap(), 0);
    assert_eq!(chip.cpu().program_counter(), 0x200);
    assert_eq!(chip.delay_timer().counter(), 255);
    assert_eq!(chip.sound_timer().counter(), 255);
    assert_eq!(lit(&chip.current_frame().pixels), 0);
}

#[test]
fn load_places_program_and_clears_the_rest() {
    let chip = loaded(&[0xAB, 0xCD, 0xEF]);
    assert_eq!(chip.memory().read_slice(0x200, 3).unwrap(), &[0xAB, 0xCD, 0xEF]);
    assert_eq!(chip.memory().read_slice(0x50, 5).unwrap(), &[0, 0, 0, 0, 0]);
    assert_eq!(*chip.memory().read(0x203).unwrap(), 0);
}

#[test]
fn load_resets_the_machine() {
    let mut chip = run(&[0x61, 0x07, 0xA3, 0x00, 0xF1, 0x15], 3);
    assert_eq!(chip.cpu().at_register(1), 7);
    assert_eq!(chip.delay_timer().counter(), 7);
    chip.load(&[0x00, 0xE0]).unwrap();
    assert_eq!(chip.cpu().at_register(1), 0);
    assert_eq!(chip.cpu().index_register(), 0);
    assert_eq!(chip.cpu().program_counter(), 0x200);
    assert_eq!(chip.delay_timer().counter(), 255);
    assert_eq!(chip.memory().read_slice(0x200, 6).unwrap(), &[0x00, 0xE0, 0, 0, 0, 0]);
}

#[test]
fn load_too_large_is_refused() {
    let mut chip = run(&[0x61, 0x07], 1);
    let program = vec![0x11u8; 4096 - 0x200 + 1];
    assert_eq!(
        chip.load(&program),
        Err(MemoryError::RangeOutOfBounds { address: 0x200, size: 4096 - 0x200 + 1 })
    );
    // registers are kept, memory is cleared down to the font
    assert_eq!(chip.cpu().at_register(1), 7);
    assert_eq!(*chip.memory().read(0x200).unwrap(), 0);
    assert_eq!(*chip.memory().read(0x50).unwrap(), 0);
    let program = vec![0x11u8; 4096 - 0x200];
    assert_eq!(chip.load(&program), Ok(()));
}

#[test]
fn step_outside_memory_is_an_error() {
    let mut chip = run(&[0x1F, 0xFF], 1);
    assert_eq!(chip.cpu().program_counter(), 0xFFF);
    assert_eq!(chip.step(), Err(MemoryError::RangeOutOfBounds { address: 0xFFF, size: 2 }));
    assert_eq!(chip.cpu().program_counter(), 0xFFF);
}

#[test]
fn jump_call_return() {
    // 0x200: call 0x206; 0x202: jump 0x202; 0x206: V1 = 5; 0x208: return
    let chip = run(&[0x22, 0x06, 0x12, 0x02, 0x00, 0x00, 0x61, 0x05, 0x00, 0xEE], 3);
    assert_eq!(chip.cpu().program_counter(), 0x202);
    assert_eq!(chip.cpu().at_register(1), 5);
    assert_eq!(chip.cpu().stack_depth(), 0);
    let chip = run(&[0x22, 0x06, 0x12, 0x02, 0x00, 0x00, 0x61, 0x05, 0x00, 0xEE], 5);
    assert_eq!(chip.cpu().program_counter(), 0x202);
}

#[test]
fn return_with_empty_stack_faults() {
    let chip = loaded(&[0x00, 0xEE]);
    assert!(chip.step_faults());
}

#[test]
fn index_overflow_faults() {
    // V1 = 0xFF; loop: I += V1; jump back
    let mut chip = loaded(&[0x61, 0xFF, 0xF1, 0x1E, 0x12, 0x02]);
    let mut steps = 0;
    while !chip.step_faults() {
        chip.step().unwrap();
        steps += 1;
        assert!(steps < 2000);
    }
    assert_eq!(chip.cpu().program_counter(), 0x202);
    assert_eq!(chip.cpu().index_register(), 0xFFFF);
}

#[test]
fn skip_instructions() {
    // V1 = 3; skip if V1 == 3; (skipped) V2 = 1; skip if V1 != 3; V3 = 1
    let chip = run(&[0x61, 0x03, 0x31, 0x03, 0x62, 0x01, 0x41, 0x03, 0x63, 0x01], 4);
    assert_eq!(chip.cpu().at_register(2), 0);
    assert_eq!(chip.cpu().at_register(3), 1);
    assert_eq!(chip.cpu().program_counter(), 0x20A);
    // 5XY0 / 9XY0
    let chip = run(&[0x61, 0x03, 0x62, 0x03, 0x51, 0x20, 0x00, 0x00, 0x91, 0x20], 4);
    assert_eq!(chip.cpu().program_counter(), 0x20A);
}

#[test]
fn arithmetic_instructions() {
    // V1 = 0xF0, V2 = 0x20, V1 += V2 (8124): 0x10 carry 1
    let chip = run(&[0x61, 0xF0, 0x62, 0x20, 0x81, 0x24], 3);
    assert_eq!(chip.cpu().at_register(1), 0x10);
    assert_eq!(chip.cpu().at_register(0xF), 1);
    // 7XNN wraps and leaves VF
    let chip = run(&[0x61, 0xF0, 0x71, 0x20], 2);
    assert_eq!(chip.cpu().at_register(1), 0x10);
    assert_eq!(chip.cpu().at_register(0xF), 0);
    // 8XY5, 8XY7, 8XY6, 8XYE, 8XY0..3
    let chip = run(&[0x61, 0x05, 0x62, 0x07, 0x81, 0x25], 3);
    assert_eq!(chip.cpu().at_register(1), 0xFE);
    assert_eq!(chip.cpu().at_register(0xF), 0);
    let chip = run(&[0x61, 0x05, 0x62, 0x07, 0x81, 0x27], 3);
    assert_eq!(chip.cpu().at_register(1), 2);
    assert_eq!(chip.cpu().at_register(0xF), 1);
    let chip = run(&[0x62, 0x81, 0x81, 0x26], 2);
    assert_eq!(chip.cpu().at_register(1), 0x40);
    assert_eq!(chip.cpu().at_register(0xF), 1);
    let chip = run(&[0x62, 0x81, 0x81, 0x2E], 2);
    assert_eq!(chip.cpu().at_register(1), 0x02);
    assert_eq!(chip.cpu().at_register(0xF), 1);
    let chip = run(&[0x61, 0x0C, 0x62, 0x0A, 0x81, 0x21, 0x83, 0x20], 4);
    assert_eq!(chip.cpu().at_register(1), 0x0E);
    assert_eq!(chip.cpu().at_register(3), 0x0A);
    let chip = run(&[0x61, 0x0C, 0x62, 0x0A, 0x81, 0x22], 3);
    assert_eq!(chip.cpu().at_register(1), 0x08);
    let chip = run(&[0x61, 0x0C, 0x62, 0x0A, 0x81, 0x23], 3);
    assert_eq!(chip.cpu().at_register(1), 0x06);
}

#[test]
fn index_and_jump_with_offset() {
    let chip = run(&[0xA1, 0x23], 1);
    assert_eq!(chip.cpu().index_register(), 0x123);
    let chip = run(&[0x60, 0x04, 0xB3, 0x00], 2);
    assert_eq!(chip.cpu().program_counter(), 0x304);
}

#[test]
fn step_with_given_random_byte() {
    let mut chip = loaded(&[0xC1, 0x0F, 0xC2, 0xF0, 0x63, 0x05]);
    chip.step_with_random(0xAB).unwrap();
    assert_eq!(chip.cpu().at_register(1), 0x0B);
    chip.step_with_random(0xAB).unwrap();
    assert_eq!(chip.cpu().at_register(2), 0xA0);
    chip.step_with_random(0xAB).unwrap();
    assert_eq!(chip.cpu().at_register(3), 0x05);
    assert_eq!(chip.cpu().program_counter(), 0x206);
}

#[test]
fn random_instruction_respects_mask() {
    let chip = run(&[0xC1, 0x0F], 1);
    assert_eq!(chip.cpu().at_register(1) & 0xF0, 0);
    let chip = run(&[0xC1, 0x00], 1);
    assert_eq!(chip.cpu().at_register(1), 0);
}

// I = 0x20A; draw 5 rows at (V2, V3) = (0, 0); draw again; loop; sprite "0" at 0x20A
const DRAW_TWICE: [u8; 15] = [
    0xA2, 0x0A, 0xD2, 0x35, 0xD2, 0x35, 0x12, 0x06, 0x00, 0x00, 0xF0, 0x90, 0x90, 0x90, 0xF0,
];

#[test]
fn draw_sets_flag_and_publishes_frame() {
    let chip = run(&DRAW_TWICE, 2);
    assert_eq!(chip.cpu().at_register(0xF), 1);
    let frame = chip.current_frame().pixels;
    assert_eq!(lit(&frame), 14);
    assert_eq!(frame, chip.display().pixels());
    assert!(frame[0][0] && frame[0][3] && !frame[1][1]);
    // drawing it again erases it: VF = 1 again, the frame is published blank
    let chip = run(&DRAW_TWICE, 3);
    assert_eq!(chip.cpu().at_register(0xF), 1);
    assert_eq!(lit(&chip.current_frame().pixels), 0);
}

#[test]
fn font_address_instruction() {
    let chip = run(&[0x61, 0x0B, 0xF1, 0x29], 2);
    assert_eq!(chip.cpu().index_register(), 0x50 + 0xB * 5);
}

#[test]
fn draw_nothing_clears_flag_and_keeps_frame() {
    // I = 0x300 (zero bytes), draw 1 row: no pixel flips
    let chip = run(&[0x6F, 0x09, 0xA3, 0x00, 0xD0, 0x01], 3);
    assert_eq!(chip.cpu().at_register(0xF), 0);
}

#[test]
fn draw_sprite_outside_memory_does_nothing() {
    let chip = run(&[0x6F, 0x09, 0xAF, 0xFF, 0xD0, 0x05], 3);
    assert_eq!(chip.cpu().at_register(0xF), 9);
    assert_eq!(lit(&chip.display().pixels()), 0);
}

#[test]
fn clear_screen_publishes_blank_frame() {
    let program = [0xA2, 0x06, 0xD0, 0x05, 0x00, 0xE0, 0xF0, 0x90, 0x90, 0x90, 0xF0];
    let chip = run(&program, 2);
    assert_eq!(lit(&chip.current_frame().pixels), 14);
    let chip = run(&program, 3);
    assert_eq!(lit(&chip.display().pixels()), 0);
    assert_eq!(lit(&chip.current_frame().pixels), 0);
}

#[test]
fn keypad_instructions_without_key() {
    // EX9E does not skip, EXA1 skips
    let chip = run(&[0xE1, 0x9E], 1);
    assert_eq!(chip.cpu().program_counter(), 0x202);
    let chip = run(&[0xE1, 0xA1], 1);
    assert_eq!(chip.cpu().program_counter(), 0x204);
    // FX0A waits: the program counter stays on the instruction
    let chip = run(&[0xF1, 0x0A], 3);
    assert_eq!(chip.cpu().program_counter(), 0x200);
}

#[test]
fn timer_instructions() {
    let chip = run(&[0x61, 0x2A, 0xF1, 0x15, 0xF1, 0x18, 0xF2, 0x07], 4);
    assert_eq!(chip.delay_timer().counter(), 0x2A);
    assert_eq!(chip.sound_timer().counter(), 0x2A);
    assert_eq!(chip.cpu().at_register(2), 0x2A);
}

#[test]
fn add_to_index_adds_vx() {
    let chip = run(&[0xA1, 0x00, 0x65, 0x40, 0xF5, 0x1E], 3);
    assert_eq!(chip.cpu().index_register(), 0x140);
    // V5 is zero after power-on: I stays
    let chip = run(&[0xF5, 0x1E], 1);
    assert_eq!(chip.cpu().index_register(), 0);
}

#[test]
fn store_decimal_digits() {
    let chip = run(&[0x61, 0xFE, 0xA3, 0x00, 0xF1, 0x33], 3);
    assert_eq!(chip.memory().read_slice(0x300, 3).unwrap(), &[2, 5, 4]);
    let chip = run(&[0x61, 0x07, 0xAF, 0xFE, 0xF1, 0x33], 3);
    assert_eq!(chip.memory().read_slice(0xFFE, 2).unwrap(), &[0, 0]);
}

#[test]
fn store_and_load_registers() {
    // V0 = 1, V1 = 2, V2 = 3, I = 0x300, store V0..V2, clear V0..V2, load V0..V1
    let chip = run(
        &[
            0x60, 0x01, 0x61, 0x02, 0x62, 0x03, 0xA3, 0x00, 0xF2, 0x55, 0x60, 0x00, 0x61,
            0x00, 0x62, 0x00, 0xF1, 0x65,
        ],
        9,
    );
    assert_eq!(chip.memory().read_slice(0x300, 4).unwrap(), &[1, 2, 3, 0]);
    assert_eq!(chip.cpu().at_register(0), 1);
    assert_eq!(chip.cpu().at_register(1), 2);
    assert_eq!(chip.cpu().at_register(2), 0);
    assert_eq!(chip.cpu().index_register(), 0x300);
}

#[test]
fn unknown_instruction_only_advances() {
    let chip = run(&[0x61, 0x01, 0x81, 0x28, 0x01, 0x23], 3);
    assert_eq!(chip.cpu().at_register(1), 1);
    assert_eq!(chip.cpu().program_counter(), 0x206);
}
