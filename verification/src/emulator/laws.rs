use vstd::prelude::*;

use crate::emulator::chip::{ChipView, execute, n_of, nn_of, nnn_of, op, x_of, y_of};
use crate::emulator::cpu::CpuView;

verus! {

/// `after` differs from `before` at most in the program counter, which is `pc`.
pub open spec fn only_pc_moves(before: ChipView, after: ChipView, pc: int) -> bool {
    &&& after.cpu.pc == pc
    &&& after.cpu.index == before.cpu.index
    &&& after.cpu.registers == before.cpu.registers
    &&& after.cpu.stack == before.cpu.stack
    &&& after.memory == before.memory
    &&& after.display == before.display
    &&& after.frame == before.frame
    &&& after.delay == before.delay
    &&& after.sound == before.sound
    &&& after.key == before.key
}

/// `after` differs from `before` at most in the registers, which are `registers`.
pub open spec fn only_registers_change(
    before: ChipView,
    after: ChipView,
    registers: Seq<u8>,
) -> bool {
    &&& after.cpu.pc == before.cpu.pc
    &&& after.cpu.index == before.cpu.index
    &&& after.cpu.registers == registers
    &&& after.cpu.stack == before.cpu.stack
    &&& after.memory == before.memory
    &&& after.display == before.display
    &&& after.frame == before.frame
    &&& after.delay == before.delay
    &&& after.sound == before.sound
    &&& after.key == before.key
}

/// The conditional skips: `3XNN` skips when VX == NN, `4XNN` when VX != NN,
/// `5XY0` when VX == VY, `9XY0` when VX != VY, `EX9E` when the pressed key is
/// VX mod 16, `EXA1` when it is not. Skipping moves the program counter on by
/// two; nothing else changes.
pub proof fn law_skips(state: ChipView, instruction: u16, random: u8)
    requires
        state.cpu.valid(),
        state.cpu.pc + 2 <= u16::MAX,
    ensures
        ({
            let after = execute(state, instruction, random);
            let pc = state.cpu.pc as int;
            let vx = state.cpu.registers[x_of(instruction) as int];
            let vy = state.cpu.registers[y_of(instruction) as int];
            let nn = nn_of(instruction);
            let key = state.key;
            &&& op(instruction) == 0x3 ==> only_pc_moves(
                state,
                after,
                if vx == nn {
                    pc + 2
                } else {
                    pc
                },
            )
            &&& op(instruction) == 0x4 ==> only_pc_moves(
                state,
                after,
                if vx != nn {
                    pc + 2
                } else {
                    pc
                },
            )
            &&& op(instruction) == 0x5 && n_of(instruction) == 0 ==> only_pc_moves(
                state,
                after,
                if vx == vy {
                    pc + 2
                } else {
                    pc
                },
            )
            &&& op(instruction) == 0x9 && n_of(instruction) == 0 ==> only_pc_moves(
                state,
                after,
                if vx != vy {
                    pc + 2
                } else {
                    pc
                },
            )
            &&& op(instruction) == 0xE && nn == 0x9E ==> only_pc_moves(
                state,
                after,
                if key == Some((vx % 16) as u8) {
                    pc + 2
                } else {
                    pc
                },
            )
            &&& op(instruction) == 0xE && nn == 0xA1 ==> only_pc_moves(
                state,
                after,
                if key != Some((vx % 16) as u8) {
                    pc + 2
                } else {
                    pc
                },
            )
        }),
{
    let vx = state.cpu.registers[x_of(instruction) as int];
    assert(vx & 0x0F == vx % 16) by (bit_vector);
}

/// `5XY0` and `9XY0` with the same X and Y are complementary: exactly one of
/// the two moves the program counter on.
pub proof fn law_register_skips_are_complementary(
    state: ChipView,
    equal: u16,
    not_equal: u16,
    random: u8,
)
    requires
        state.cpu.valid(),
        state.cpu.pc + 2 <= u16::MAX,
        op(equal) == 0x5 && n_of(equal) == 0,
        op(not_equal) == 0x9 && n_of(not_equal) == 0,
        x_of(equal) == x_of(not_equal),
        y_of(equal) == y_of(not_equal),
    ensures
        (execute(state, equal, random).cpu.pc == state.cpu.pc) != (execute(
            state,
            not_equal,
            random,
        ).cpu.pc == state.cpu.pc),
{
    law_skips(state, equal, random);
    law_skips(state, not_equal, random);
}

/// The register arithmetic `8XYN`. With VX and VY the old values: `0` copies,
/// `1`, `2`, `3` are or, and, xor; `4` adds with VF = carry; `5` is VX - VY
/// and `7` is VY - VX modulo 256 with VF = 1 when no borrow occurs; `6`
/// shifts VY right and `E` shifts it left, VF receiving the bit shifted out.
/// VF is written last, so it wins when X is F. Only registers change.
pub proof fn law_register_arithmetic(state: ChipView, instruction: u16, random: u8)
    requires
        state.cpu.valid(),
        op(instruction) == 0x8,
    ensures
        ({
            let after = execute(state, instruction, random);
            let registers = state.cpu.registers;
            let x = x_of(instruction) as int;
            let vx = registers[x];
            let vy = registers[y_of(instruction) as int];
            let n = n_of(instruction);
            &&& n == 0x0 ==> only_registers_change(state, after, registers.update(x, vy))
            &&& n == 0x1 ==> only_registers_change(state, after, registers.update(x, vx | vy))
            &&& n == 0x2 ==> only_registers_change(state, after, registers.update(x, vx & vy))
            &&& n == 0x3 ==> only_registers_change(state, after, registers.update(x, vx ^ vy))
            &&& n == 0x4 ==> only_registers_change(
                state,
                after,
                registers.update(x, ((vx + vy) % 256) as u8).update(
                    15,
                    if vx + vy >= 256 {
                        1u8
                    } else {
                        0u8
                    },
                ),
            )
            &&& n == 0x5 ==> only_registers_change(
                state,
                after,
                registers.update(x, ((vx - vy + 256) % 256) as u8).update(
                    15,
                    if vx >= vy {
                        1u8
                    } else {
                        0u8
                    },
                ),
            )
            &&& n == 0x6 ==> only_registers_change(
                state,
                after,
                registers.update(x, vy / 2).update(15, vy % 2),
            )
            &&& n == 0x7 ==> only_registers_change(
                state,
                after,
                registers.update(x, ((vy - vx + 256) % 256) as u8).update(
                    15,
                    if vy >= vx {
                        1u8
                    } else {
                        0u8
                    },
                ),
            )
            &&& n == 0xE ==> only_registers_change(
                state,
                after,
                registers.update(x, ((2 * vy) % 256) as u8).update(
                    15,
                    if vy >= 128 {
                        1u8
                    } else {
                        0u8
                    },
                ),
            )
            &&& (n == 0x8 || n == 0x9 || n == 0xA || n == 0xB || n == 0xC || n == 0xD || n == 0xF)
                ==> after == state
        }),
{
}

/// `6XNN` sets VX to NN, `7XNN` adds NN to VX modulo 256 (VF untouched), and
/// `CXNN` sets VX to the drawn byte masked with NN. Only registers change.
pub proof fn law_register_immediates(state: ChipView, instruction: u16, random: u8)
    requires
        state.cpu.valid(),
    ensures
        ({
            let after = execute(state, instruction, random);
            let registers = state.cpu.registers;
            let x = x_of(instruction) as int;
            let nn = nn_of(instruction);
            &&& op(instruction) == 0x6 ==> only_registers_change(
                state,
                after,
                registers.update(x, nn),
            )
            &&& op(instruction) == 0x7 ==> only_registers_change(
                state,
                after,
                registers.update(x, ((registers[x] + nn) % 256) as u8),
            )
            &&& op(instruction) == 0xC ==> only_registers_change(
                state,
                after,
                registers.update(x, random & nn),
            )
        }),
{
}

/// `FX07` copies the delay timer into VX; `FX15` sets the delay timer and
/// `FX18` the sound timer to VX, each leaving the other timer alone.
pub proof fn law_timer_instructions(state: ChipView, instruction: u16, random: u8)
    requires
        state.cpu.valid(),
        op(instruction) == 0xF,
    ensures
        ({
            let after = execute(state, instruction, random);
            let x = x_of(instruction) as int;
            let vx = state.cpu.registers[x];
            let nn = nn_of(instruction);
            &&& nn == 0x07 ==> only_registers_change(
                state,
                after,
                state.cpu.registers.update(x, state.delay),
            )
            &&& nn == 0x15 ==> after == ChipView { delay: vx, ..state }
            &&& nn == 0x18 ==> after == ChipView { sound: vx, ..state }
        }),
{
}

/// `FX15` followed by `FY07` (Y the second nibble of the second
/// instruction) puts the old VX into VY, whatever the sound timer holds.
pub proof fn law_delay_round_trip(
    state: ChipView,
    set: u16,
    get: u16,
    first_random: u8,
    second_random: u8,
)
    requires
        state.cpu.valid(),
        op(set) == 0xF && nn_of(set) == 0x15,
        op(get) == 0xF && nn_of(get) == 0x07,
    ensures
        execute(execute(state, set, first_random), get, second_random).cpu.registers[x_of(
            get,
        ) as int] == state.cpu.registers[x_of(set) as int],
{
    law_timer_instructions(state, set, first_random);
    law_timer_instructions(execute(state, set, first_random), get, second_random);
}

/// `DXYN` with its N-byte sprite at I inside memory: every on-screen pixel
/// `(px, py)` flips exactly when `py - VY mod 32` is a sprite row `r`,
/// `px - VX mod 64` is a column `c` below 8, and bit `c` (from the left) of
/// the byte at `I + r` is set. VF becomes 1 when some pixel changed, else 0;
/// the frame is published only in the first case. When the sprite does not
/// lie in memory nothing changes.
pub proof fn law_draw_instruction(state: ChipView, instruction: u16, random: u8)
    requires
        state.cpu.valid(),
        op(instruction) == 0xD,
    ensures
        ({
            let after = execute(state, instruction, random);
            let index = state.cpu.index as int;
            let size = n_of(instruction) as int;
            let vx = state.cpu.registers[x_of(instruction) as int];
            let vy = state.cpu.registers[y_of(instruction) as int];
            let changed = exists|px: int, py: int|
                0 <= px < 64 && 0 <= py < 32 && #[trigger] after.display[py][px]
                    != state.display[py][px];
            if index + size <= state.memory.len() {
                &&& forall|px: int, py: int|
                    0 <= px < 64 && 0 <= py < 32 ==> #[trigger] after.display[py][px] == (
                    state.display[py][px] != ({
                        let row = py - (vy % 32) as int;
                        let column = px - (vx % 64) as int;
                        0 <= row < size && 0 <= column < 8 && state.memory[index + row] & (0x80u8
                            >> (column as usize)) != 0u8
                    }))
                &&& after.cpu.registers == state.cpu.registers.update(
                    15,
                    if changed {
                        1u8
                    } else {
                        0u8
                    },
                )
                &&& after.frame == (if changed {
                    after.display
                } else {
                    state.frame
                })
                &&& after.cpu.pc == state.cpu.pc && after.cpu.index == state.cpu.index
                &&& after.cpu.stack == state.cpu.stack && after.memory == state.memory
            } else {
                after == state
            }
        }),
{
    let index = state.cpu.index as int;
    let size = n_of(instruction) as int;
    if index + size <= state.memory.len() {
        let sprite = state.memory.subrange(index, index + size);
        let x = state.cpu.reg(x_of(instruction)) as usize;
        let y = state.cpu.reg(y_of(instruction)) as usize;
        crate::emulator::display::law_drawn_pixels(state.display, x, y, sprite);
        crate::emulator::display::law_touches_iff_changed(state.display, x, y, sprite);
        let after = execute(state, instruction, random);
        assert(after.display == crate::emulator::display::drawn(state.display, x, y, sprite));
    }
}

/// Jumps, calls and returns: `1NNN` jumps to NNN, `BNNN` to NNN + V0; `2NNN`
/// pushes the program counter and jumps to NNN; `00EE` pops the top of the
/// stack into the program counter. Nothing else changes.
pub proof fn law_control_flow(state: ChipView, instruction: u16, random: u8)
    requires
        state.cpu.valid(),
    ensures
        ({
            let after = execute(state, instruction, random);
            let nnn = nnn_of(instruction) as int;
            let stack = state.cpu.stack;
            &&& op(instruction) == 0x1 ==> only_pc_moves(state, after, nnn)
            &&& op(instruction) == 0xB ==> only_pc_moves(
                state,
                after,
                nnn + state.cpu.registers[0],
            )
            &&& op(instruction) == 0x2 ==> after.cpu.pc == nnn && after.cpu.stack == stack.push(
                state.cpu.pc,
            ) && after.cpu.registers == state.cpu.registers && after.memory == state.memory
                && after.display == state.display
            &&& instruction == 0x00EE && stack.len() > 0 ==> after.cpu.pc == stack[stack.len() - 1]
                && after.cpu.stack == stack.subrange(0, stack.len() - 1) && after.cpu.registers
                == state.cpu.registers && after.memory == state.memory
        }),
{
}

/// The index register: `ANNN` sets I to NNN, `FX1E` adds VX to it, `FX29`
/// points it at the 5-byte font sprite of the digit VX (`0x50 + 5 * VX`).
/// Nothing else changes.
pub proof fn law_index_instructions(state: ChipView, instruction: u16, random: u8)
    requires
        state.cpu.valid(),
    ensures
        ({
            let after = execute(state, instruction, random);
            let vx = state.cpu.registers[x_of(instruction) as int];
            let index = state.cpu.index as int;
            let nn = nn_of(instruction);
            let unchanged_but_index = after.cpu.pc == state.cpu.pc && after.cpu.registers
                == state.cpu.registers && after.cpu.stack == state.cpu.stack && after.memory
                == state.memory && after.display == state.display;
            &&& op(instruction) == 0xA ==> after.cpu.index == nnn_of(instruction)
                && unchanged_but_index
            &&& op(instruction) == 0xF && nn == 0x1E && index + vx <= u16::MAX ==> after.cpu.index
                == index + vx && unchanged_but_index
            &&& op(instruction) == 0xF && nn == 0x29 ==> after.cpu.index == 0x50 + 5 * vx
                && unchanged_but_index
        }),
{
}

/// `FX33` stores the hundreds, tens and ones digits of VX at I, I+1, I+2;
/// `FX55` stores V0..VX at I..I+X; `FX65` loads V0..VX from I..I+X. Each does
/// so only when the range lies in memory, and then touches nothing outside
/// it; otherwise nothing changes.
pub proof fn law_memory_instructions(state: ChipView, instruction: u16, random: u8)
    requires
        state.cpu.valid(),
        op(instruction) == 0xF,
    ensures
        ({
            let after = execute(state, instruction, random);
            let x = x_of(instruction) as int;
            let vx = state.cpu.registers[x];
            let index = state.cpu.index as int;
            let memory = state.memory;
            let nn = nn_of(instruction);
            &&& nn == 0x33 && index + 3 <= memory.len() ==> {
                &&& after.memory.len() == memory.len()
                &&& after.memory[index] == vx / 100
                &&& after.memory[index + 1] == vx / 10 % 10
                &&& after.memory[index + 2] == vx % 10
                &&& forall|i: int|
                    0 <= i < memory.len() && !(index <= i < index + 3) ==> #[trigger] after.memory[i]
                        == memory[i]
                &&& after.cpu == state.cpu
            }
            &&& nn == 0x55 && index + x + 1 <= memory.len() ==> {
                &&& after.memory.len() == memory.len()
                &&& forall|i: int| 0 <= i <= x ==> #[trigger] after.memory[index + i] == state.cpu.registers[i]
                &&& forall|i: int|
                    0 <= i < memory.len() && !(index <= i <= index + x) ==> #[trigger] after.memory[i]
                        == memory[i]
                &&& after.cpu == state.cpu
            }
            &&& nn == 0x65 && index + x + 1 <= memory.len() ==> {
                &&& forall|i: int| 0 <= i <= x ==> #[trigger] after.cpu.registers[i] == memory[index + i]
                &&& forall|i: int| x < i < 16 ==> #[trigger] after.cpu.registers[i] == state.cpu.registers[i]
                &&& after.cpu.registers.len() == 16
                &&& after.memory == memory && after.cpu.pc == state.cpu.pc
                &&& after.cpu.index == state.cpu.index
            }
            &&& (nn == 0x33 && index + 3 > memory.len() || (nn == 0x55 || nn == 0x65) && index + x + 1
                > memory.len()) ==> after == state
        }),
{
}

/// `00E0` turns every pixel off and publishes the blank screen; `FX0A` waits
/// for a key (moving the program counter back onto itself) and, once one is
/// pressed, stores it (mod 16) in VX.
pub proof fn law_clear_and_wait(state: ChipView, instruction: u16, random: u8)
    requires
        state.cpu.valid(),
        state.cpu.pc >= 2,
    ensures
        ({
            let after = execute(state, instruction, random);
            &&& instruction == 0x00E0 ==> after.cpu == state.cpu && after.memory == state.memory && (
            forall|px: int, py: int|
                0 <= px < 64 && 0 <= py < 32 ==> !#[trigger] after.display[py][px]
                    && !after.frame[py][px]) && after.display.len() == 32 && after.frame.len() == 32
            &&& op(instruction) == 0xF && nn_of(instruction) == 0x0A ==> match state.key {
                None => only_pc_moves(state, after, state.cpu.pc - 2),
                Some(key) => only_registers_change(
                    state,
                    after,
                    state.cpu.registers.update(x_of(instruction) as int, key % 16),
                ),
            }
        }),
{
    if op(instruction) == 0xF && nn_of(instruction) == 0x0A {
        if let Some(key) = state.key {
            assert(key & 0x0F == key % 16) by (bit_vector);
        }
    }
}

/// One step fetches the big-endian word at the program counter (high byte
/// first), moves the program counter on by two, and executes the word; when
/// the word does not lie in memory the machine stays as it is.
pub proof fn law_step_fetches_big_endian(state: ChipView, random: u8)
    ensures
        ({
            let pc = state.cpu.pc as int;
            if pc + 2 <= state.memory.len() {
                state.stepped(random) == execute(
                    ChipView { cpu: CpuView { pc: (pc + 2) as u16, ..state.cpu }, ..state },
                    (state.memory[pc] * 256 + state.memory[pc + 1]) as u16,
                    random,
                )
            } else {
                state.stepped(random) == state
            }
        }),
{
}

/// A step cannot be carried out exactly when the fetched word is `00EE` with
/// an empty call stack, or an `FX1E` whose I + VX exceeds `0xFFFF`.
pub proof fn law_faults(state: ChipView)
    requires
        state.cpu.valid(),
    ensures
        ({
            let pc = state.cpu.pc as int;
            let word = (state.memory[pc] * 256 + state.memory[pc + 1]) as u16;
            state.faults() == (pc + 2 <= state.memory.len() && (word == 0x00EE
                && state.cpu.stack.len() == 0 || word / 0x1000 == 0xF && word % 0x100 == 0x1E
                && state.cpu.index + state.cpu.registers[(word / 0x100 % 0x10) as int] > 0xFFFF))
        }),
{
}

/// After loading a program that fits, the CPU is in its power-on state
/// (program counter 0x200, I = 0, all registers zero, empty stack), the screen
/// is blank and both timers hold 255; the pressed key and the published frame
/// are kept.
pub proof fn law_loaded_state(state: ChipView, bytes: Seq<u8>)
    requires
        0x200 + bytes.len() <= 4096,
    ensures
        ({
            let after = state.loaded(bytes);
            &&& after.cpu.pc == 0x200 && after.cpu.index == 0 && after.cpu.stack.len() == 0
            &&& after.cpu.registers.len() == 16
            &&& forall|i: int| 0 <= i < 16 ==> #[trigger] after.cpu.registers[i] == 0
            &&& after.display.len() == 32
            &&& forall|px: int, py: int|
                0 <= px < 64 && 0 <= py < 32 ==> !#[trigger] after.display[py][px]
            &&& after.delay == 255 && after.sound == 255
            &&& after.key == state.key && after.frame == state.frame
        }),
{
}

} // verus!
