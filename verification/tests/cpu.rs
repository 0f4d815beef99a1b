use chip8::emulator::cpu::{CPU, PROGRAM_START_ADDRESS};

#[test]
fn new_cpu_starts_at_program() {
    let cpu = CPU::new();
    assert_eq!(cpu.program_counter(), PROGRAM_START_ADDRESS);
    assert_eq!(cpu.index_register(), 0);
    assert_eq!(cpu.stack_depth(), 0);
    for register in 0..16 {
        assert_eq!(cpu.at_register(register), 0);
    }
}

#[test]
fn registers_use_low_nibble() {
    let mut cpu = CPU::new();
    cpu.set_register(0x13, 7);
    assert_eq!(cpu.at_register(3), 7);
    assert_eq!(cpu.at_register(0xF3), 7);
}

#[test]
fn reset_restores_power_on_state() {
    let mut cpu = CPU::new();
    cpu.set_register(2, 9);
    cpu.set_index_register(0x300);
    cpu.jump_to_subroutine(0x400);
    cpu.reset();
    assert_eq!(cpu.program_counter(), 0x200);
    assert_eq!(cpu.index_register(), 0);
    assert_eq!(cpu.at_register(2), 0);
    assert_eq!(cpu.stack_depth(), 0);
}

#[test]
fn next_and_previous_instruction() {
    let mut cpu = CPU::new();
    cpu.next_instruction();
    assert_eq!(cpu.program_counter(), 0x202);
    cpu.previous_instruction();
    assert_eq!(cpu.program_counter(), 0x200);
}

#[test]
fn call_then_return_restores_program_counter() {
    let mut cpu = CPU::new();
    cpu.jump_to(0x234);
    cpu.jump_to_subroutine(0x500);
    assert_eq!(cpu.program_counter(), 0x500);
    assert_eq!(cpu.stack_depth(), 1);
    cpu.return_from_subroutine();
    assert_eq!(cpu.program_counter(), 0x234);
    assert_eq!(cpu.stack_depth(), 0);
}

#[test]
fn jump_with_offset_adds_v0() {
    let mut cpu = CPU::new();
    cpu.set_register(0, 0x10);
    cpu.jump_with_offset(0x300);
    assert_eq!(cpu.program_counter(), 0x310);
}

#[test]
fn skips_are_complementary() {
    let mut cpu = CPU::new();
    cpu.set_register(1, 5);
    cpu.skip_if_register_equals_value(1, 5);
    assert_eq!(cpu.program_counter(), 0x202);
    cpu.skip_if_register_not_equals_value(1, 5);
    assert_eq!(cpu.program_counter(), 0x202);
    cpu.skip_if_register_not_equals_value(1, 6);
    assert_eq!(cpu.program_counter(), 0x204);
    cpu.skip_if_register_equals_value(1, 6);
    assert_eq!(cpu.program_counter(), 0x204);
    cpu.set_register(2, 5);
    cpu.skip_if_register_equals_register(1, 2);
    assert_eq!(cpu.program_counter(), 0x206);
    cpu.skip_if_register_not_equals_register(1, 2);
    assert_eq!(cpu.program_counter(), 0x206);
    cpu.set_register(2, 4);
    cpu.skip_if_register_not_equals_register(1, 2);
    assert_eq!(cpu.program_counter(), 0x208);
}

#[test]
fn bitwise_operations() {
    let mut cpu = CPU::new();
    cpu.set_register(1, 0b1100);
    cpu.set_register(2, 0b1010);
    cpu.or(1, 2);
    assert_eq!(cpu.at_register(1), 0b1110);
    cpu.set_register(1, 0b1100);
    cpu.and(1, 2);
    assert_eq!(cpu.at_register(1), 0b1000);
    cpu.set_register(1, 0b1100);
    cpu.xor(1, 2);
    assert_eq!(cpu.at_register(1), 0b0110);
    cpu.set_register_to_register(3, 2);
    assert_eq!(cpu.at_register(3), 0b1010);
}

#[test]
fn add_sets_carry() {
    let mut cpu = CPU::new();
    cpu.set_register(1, 200);
    cpu.set_register(2, 100);
    cpu.add(1, 2);
    assert_eq!(cpu.at_register(1), 44);
    assert_eq!(cpu.at_register(0xF), 1);
    assert_eq!(cpu.at_register(1) as u16 + 256 * cpu.at_register(0xF) as u16, 300);
    cpu.set_register(1, 1);
    cpu.add(1, 2);
    assert_eq!(cpu.at_register(1), 101);
    assert_eq!(cpu.at_register(0xF), 0);
}

#[test]
fn add_into_flag_register_keeps_the_carry() {
    let mut cpu = CPU::new();
    cpu.set_register(0xF, 200);
    cpu.set_register(1, 100);
    cpu.add(0xF, 1);
    assert_eq!(cpu.at_register(0xF), 1);
}

#[test]
fn subtract_sets_no_borrow_flag() {
    let mut cpu = CPU::new();
    cpu.set_register(1, 10);
    cpu.set_register(2, 3);
    cpu.subtract(1, 2);
    assert_eq!(cpu.at_register(1), 7);
    assert_eq!(cpu.at_register(0xF), 1);
    cpu.set_register(1, 3);
    cpu.set_register(2, 10);
    cpu.subtract(1, 2);
    assert_eq!(cpu.at_register(1), 249);
    assert_eq!(cpu.at_register(0xF), 0);
    cpu.set_register(1, 4);
    cpu.set_register(2, 4);
    cpu.subtract(1, 2);
    assert_eq!(cpu.at_register(1), 0);
    assert_eq!(cpu.at_register(0xF), 1);
}

#[test]
fn subtract_then_add_restores() {
    let mut cpu = CPU::new();
    cpu.set_register(1, 3);
    cpu.set_register(2, 10);
    cpu.subtract(1, 2);
    cpu.add(1, 2);
    assert_eq!(cpu.at_register(1), 3);
}

#[test]
fn subtract_reversed() {
    let mut cpu = CPU::new();
    cpu.set_register(1, 3);
    cpu.set_register(2, 10);
    cpu.subtract_reversed(1, 2);
    assert_eq!(cpu.at_register(1), 7);
    assert_eq!(cpu.at_register(0xF), 1);
    cpu.set_register(1, 10);
    cpu.set_register(2, 3);
    cpu.subtract_reversed(1, 2);
    assert_eq!(cpu.at_register(1), 249);
    assert_eq!(cpu.at_register(0xF), 0);
}

#[test]
fn shifts_set_the_shifted_out_bit() {
    let mut cpu = CPU::new();
    cpu.set_register(2, 0b1000_0101);
    cpu.shift_right(1, 2);
    assert_eq!(cpu.at_register(1), 0b0100_0010);
    assert_eq!(cpu.at_register(0xF), 1);
    cpu.shift_left(3, 2);
    assert_eq!(cpu.at_register(3), 0b0000_1010);
    assert_eq!(cpu.at_register(0xF), 1);
    cpu.set_register(2, 0b0100_0010);
    cpu.shift_right(1, 2);
    assert_eq!(cpu.at_register(0xF), 0);
    cpu.shift_left(1, 2);
    assert_eq!(cpu.at_register(1), 0b1000_0100);
    assert_eq!(cpu.at_register(0xF), 0);
}

#[test]
fn set_random_masks_the_given_byte() {
    let mut cpu = CPU::new();
    cpu.set_random(4, 0x3C, 0xFF);
    assert_eq!(cpu.at_register(4), 0x3C);
    cpu.set_random(0x14, 0xF0, 0x5A);
    assert_eq!(cpu.at_register(4), 0x50);
}

#[test]
fn random_respects_mask() {
    let mut cpu = CPU::new();
    for _ in 0..64 {
        cpu.random(4, 0x0F);
        assert_eq!(cpu.at_register(4) & 0xF0, 0);
    }
    cpu.random(5, 0);
    assert_eq!(cpu.at_register(5), 0);
}

#[test]
fn random_draws_vary() {
    let mut cpu = CPU::new();
    let mut seen = [false; 256];
    for _ in 0..2000 {
        cpu.random(4, 0xFF);
        seen[cpu.at_register(4) as usize] = true;
    }
    assert!(seen.iter().filter(|&&s| s).count() > 1);
}

#[test]
fn font_address_of_digit() {
    let mut cpu = CPU::new();
    cpu.set_register(3, 0xA);
    cpu.load_font_address_to_index_register(3);
    assert_eq!(cpu.index_register(), 0x50 + 0xA * 5);
}

#[test]
fn index_register_arithmetic() {
    let mut cpu = CPU::new();
    cpu.set_index_register(0x100);
    cpu.add_to_index_register(0x20);
    assert_eq!(cpu.index_register(), 0x120);
}

#[test]
fn add_to_register_wraps_without_flag() {
    let mut cpu = CPU::new();
    cpu.set_register(0xF, 7);
    cpu.set_register(1, 250);
    cpu.add_to_register(1, 10);
    assert_eq!(cpu.at_register(1), 4);
    assert_eq!(cpu.at_register(0xF), 7);
}
