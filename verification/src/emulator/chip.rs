use vstd::prelude::*;

use crate::emulator::cpu::{
    CpuView,
    CPU,
    FLAG_REGISTER,
    PROGRAM_START_ADDRESS,
    font_address,
    random_byte,
};
use crate::emulator::display::{
    Display,
    FONT_START_ADDRESS,
    blank_screen,
    drawn,
    font,
    font_sprites,
    screen_of,
    touches,
};
use crate::emulator::keypad::Keypad;
use crate::emulator::memory::{
    DEFAULT_SIZE,
    Memory,
    MemoryError,
    overwrite,
    word,
    zeros,
};
use crate::emulator::protocol::EmulationFrame;
use crate::emulator::timer::Timer;

verus! {

/// Mathematical model of the whole machine.
pub struct ChipView {
    pub cpu: CpuView,
    pub memory: Seq<u8>,
    pub display: Seq<Seq<bool>>,
    pub delay: u8,
    pub sound: u8,
    pub key: Option<u8>,
    /// The picture of the screen as last published to the user interface.
    pub frame: Seq<Seq<bool>>,
}

/// The first nibble of an instruction: its broad category.
pub open spec fn op(instruction: u16) -> u16 {
    instruction / 0x1000
}

/// X: the second nibble, a register number.
pub open spec fn x_of(instruction: u16) -> u8 {
    (instruction / 0x100 % 0x10) as u8
}

/// Y: the third nibble, a register number.
pub open spec fn y_of(instruction: u16) -> u8 {
    (instruction / 0x10 % 0x10) as u8
}

/// N: the fourth nibble, a 4-bit number.
pub open spec fn n_of(instruction: u16) -> u8 {
    (instruction % 0x10) as u8
}

/// NN: the second byte, an 8-bit immediate number.
pub open spec fn nn_of(instruction: u16) -> u8 {
    (instruction % 0x100) as u8
}

/// NNN: the last three nibbles, a 12-bit address.
pub open spec fn nnn_of(instruction: u16) -> u16 {
    instruction % 0x1000
}

/// An instruction is its four nibbles: NNN is X, Y, N and NN is Y, N, each
/// field read from its own bits.
pub proof fn law_instruction_fields(instruction: u16)
    ensures
        op(instruction) < 16 && x_of(instruction) < 16 && y_of(instruction) < 16 && n_of(
            instruction,
        ) < 16,
        nn_of(instruction) == y_of(instruction) * 16 + n_of(instruction),
        nnn_of(instruction) == x_of(instruction) * 256 + nn_of(instruction),
        instruction == op(instruction) * 4096 + nnn_of(instruction),
{
}

/// The memory of a machine just switched on: zero except for the font.
pub open spec fn initial_memory() -> Seq<u8> {
    overwrite(zeros(DEFAULT_SIZE as nat), FONT_START_ADDRESS as int, font_sprites())
}

/// The decimal digits of `value`: hundreds, tens, ones.
pub open spec fn bcd(value: u8) -> Seq<u8> {
    seq![value / 100, value / 10 % 10, value % 10]
}

impl ChipView {
    /// The machine just switched on.
    pub open spec fn initial() -> ChipView {
        ChipView {
            cpu: CpuView::initial(),
            memory: initial_memory(),
            display: blank_screen(),
            delay: u8::MAX,
            sound: u8::MAX,
            key: None,
            frame: blank_screen(),
        }
    }

    pub open spec fn with_cpu(self, cpu: CpuView) -> ChipView {
        ChipView { cpu, ..self }
    }

    /// This machine with `bytes` stored at `address` when they fit; unchanged
    /// otherwise.
    pub open spec fn store(self, address: u16, bytes: Seq<u8>) -> ChipView {
        if address + bytes.len() <= self.memory.len() {
            ChipView { memory: overwrite(self.memory, address as int, bytes), ..self }
        } else {
            self
        }
    }

    /// Whether the instruction at the program counter lies inside memory.
    pub open spec fn can_fetch(self) -> bool {
        self.cpu.pc + 2 <= self.memory.len()
    }

    /// The instruction at the program counter.
    pub open spec fn fetched(self) -> u16 {
        word(self.memory[self.cpu.pc as int], self.memory[self.cpu.pc + 1])
    }

    /// Whether `instruction` cannot be carried out in this state: a return
    /// with an empty call stack, or an `FX1E` whose `I + VX` exceeds
    /// `u16::MAX`.
    pub open spec fn cannot_execute(self, instruction: u16) -> bool {
        ||| instruction == 0x00EE && self.cpu.stack.len() == 0
        ||| op(instruction) == 0xF && nn_of(instruction) == 0x1E && self.cpu.index + self.cpu.reg(
            x_of(instruction),
        ) > u16::MAX
    }

    /// Whether the program counter leaves room for `instruction` when it is
    /// executed in this state (the program counter already past it): a skip
    /// that is taken needs `pc + 2` to fit in 16 bits, and `FX0A` with no key
    /// pressed moves back by two.
    pub open spec fn pc_allows(self, instruction: u16) -> bool {
        let op = op(instruction);
        let nn = nn_of(instruction);
        &&& (op == 0x3 || op == 0x4 || op == 0x5 || op == 0x9 || (op == 0xE && (nn == 0x9E || nn
            == 0xA1))) ==> self.cpu.pc + 2 <= u16::MAX
        &&& (op == 0xF && nn == 0x0A && self.key is None) ==> self.cpu.pc >= 2
    }

    /// Whether the next step cannot be carried out.
    pub open spec fn faults(self) -> bool {
        self.can_fetch() && self.cannot_execute(self.fetched())
    }

    /// `DXYN`: draws the N-byte sprite at I at `(VX, VY)`; VF = 1 when a pixel
    /// flipped (and the frame is published), else VF = 0. Nothing happens when
    /// the sprite does not lie inside memory.
    pub open spec fn draw(self, instruction: u16) -> ChipView {
        let index = self.cpu.index as int;
        let size = n_of(instruction) as int;
        if index + size <= self.memory.len() {
            let sprite = self.memory.subrange(index, index + size);
            let x = self.cpu.reg(x_of(instruction)) as usize;
            let y = self.cpu.reg(y_of(instruction)) as usize;
            let screen = drawn(self.display, x, y, sprite);
            if touches(x, y, sprite) {
                ChipView {
                    cpu: self.cpu.set_reg(FLAG_REGISTER, 1),
                    display: screen,
                    frame: screen,
                    ..self
                }
            } else {
                ChipView { cpu: self.cpu.set_reg(FLAG_REGISTER, 0), display: screen, ..self }
            }
        } else {
            self
        }
    }

    /// `FX65`: V0..VX = the bytes at I..I+X, when they lie inside memory.
    pub open spec fn load_registers(self, last: u8) -> ChipView {
        let index = self.cpu.index as int;
        if index + last + 1 <= self.memory.len() {
            self.with_cpu(
                CpuView {
                    registers: Seq::new(
                        16,
                        |i: int|
                            if i <= last {
                                self.memory[index + i]
                            } else {
                                self.cpu.registers[i]
                            },
                    ),
                    ..self.cpu
                },
            )
        } else {
            self
        }
    }
}

impl ChipView {
    /// The machine after loading the program `bytes`. Memory is cleared to
    /// zero first (the font included). When the program fits below the end of
    /// memory, it is stored at `PROGRAM_START_ADDRESS` and the CPU, the screen
    /// and both timers are reset (the pressed key and the published frame
    /// stay); otherwise everything else stays as it was.
    pub open spec fn loaded(self, bytes: Seq<u8>) -> ChipView {
        if PROGRAM_START_ADDRESS + bytes.len() <= DEFAULT_SIZE {
            ChipView {
                memory: overwrite(zeros(DEFAULT_SIZE as nat), PROGRAM_START_ADDRESS as int, bytes),
                key: self.key,
                frame: self.frame,
                ..ChipView::initial()
            }
        } else {
            ChipView { memory: zeros(DEFAULT_SIZE as nat), ..self }
        }
    }

    /// The machine after one step in which `CXNN`, if that is the instruction,
    /// draws `random`: the fetched instruction carried out, or no change when
    /// the program counter lies outside memory.
    pub open spec fn stepped(self, random: u8) -> ChipView {
        if self.can_fetch() {
            execute(self.with_cpu(self.cpu.advance()), self.fetched(), random)
        } else {
            self
        }
    }

    /// Whether `next` is a state that one step can lead to from this one, for
    /// some random byte.
    #[verifier::opaque]
    pub open spec fn steps_to(self, next: ChipView) -> bool {
        exists|random: u8| next == #[trigger] self.stepped(random)
    }
}

/// The effect of `instruction` on `c`, a machine whose program counter has
/// already moved past it. `random` is the byte that `CXNN` draws.
pub open spec fn execute(c: ChipView, instruction: u16, random: u8) -> ChipView {
    let cpu = c.cpu;
    let x = x_of(instruction);
    let y = y_of(instruction);
    let n = n_of(instruction);
    let nn = nn_of(instruction);
    let nnn = nnn_of(instruction);
    let op = op(instruction);
    if instruction == 0x00E0 {
        ChipView { display: blank_screen(), frame: blank_screen(), ..c }
    } else if op == 0x1 {
        c.with_cpu(cpu.jump(nnn))
    } else if op == 0x2 {
        c.with_cpu(cpu.call(nnn))
    } else if instruction == 0x00EE {
        c.with_cpu(cpu.ret())
    } else if op == 0x3 {
        c.with_cpu(cpu.skip_if(cpu.reg(x) == nn))
    } else if op == 0x4 {
        c.with_cpu(cpu.skip_if(cpu.reg(x) != nn))
    } else if op == 0x5 && n == 0x0 {
        c.with_cpu(cpu.skip_if(cpu.reg(x) == cpu.reg(y)))
    } else if op == 0x9 && n == 0x0 {
        c.with_cpu(cpu.skip_if(cpu.reg(x) != cpu.reg(y)))
    } else if op == 0x6 {
        c.with_cpu(cpu.set_reg(x, nn))
    } else if op == 0x7 {
        c.with_cpu(cpu.set_reg(x, ((cpu.reg(x) + nn) % 256) as u8))
    } else if op == 0x8 && n == 0x0 {
        c.with_cpu(cpu.set_reg(x, cpu.reg(y)))
    } else if op == 0x8 && n == 0x1 {
        c.with_cpu(cpu.set_reg(x, cpu.reg(x) | cpu.reg(y)))
    } else if op == 0x8 && n == 0x2 {
        c.with_cpu(cpu.set_reg(x, cpu.reg(x) & cpu.reg(y)))
    } else if op == 0x8 && n == 0x3 {
        c.with_cpu(cpu.set_reg(x, cpu.reg(x) ^ cpu.reg(y)))
    } else if op == 0x8 && n == 0x4 {
        c.with_cpu(cpu.add(x, y))
    } else if op == 0x8 && n == 0x5 {
        c.with_cpu(cpu.sub_into(x, cpu.reg(x), cpu.reg(y)))
    } else if op == 0x8 && n == 0x6 {
        c.with_cpu(cpu.shift_right(x, y))
    } else if op == 0x8 && n == 0x7 {
        c.with_cpu(cpu.sub_into(x, cpu.reg(y), cpu.reg(x)))
    } else if op == 0x8 && n == 0xE {
        c.with_cpu(cpu.shift_left(x, y))
    } else if op == 0xA {
        c.with_cpu(cpu.set_index(nnn))
    } else if op == 0xB {
        c.with_cpu(cpu.jump((nnn + cpu.reg(0)) as u16))
    } else if op == 0xC {
        c.with_cpu(cpu.set_reg(x, random & nn))
    } else if op == 0xD {
        c.draw(instruction)
    } else if op == 0xE && nn == 0x9E {
        c.with_cpu(cpu.skip_if(c.key == Some(cpu.reg(x) & 0x0F)))
    } else if op == 0xE && nn == 0xA1 {
        c.with_cpu(cpu.skip_if(c.key != Some(cpu.reg(x) & 0x0F)))
    } else if op == 0xF && nn == 0x07 {
        c.with_cpu(cpu.set_reg(x, c.delay))
    } else if op == 0xF && nn == 0x15 {
        ChipView { delay: cpu.reg(x), ..c }
    } else if op == 0xF && nn == 0x18 {
        ChipView { sound: cpu.reg(x), ..c }
    } else if op == 0xF && nn == 0x1E {
        c.with_cpu(cpu.set_index((cpu.index + cpu.reg(x)) as u16))
    } else if op == 0xF && nn == 0x0A {
        match c.key {
            None => c.with_cpu(cpu.retreat()),
            Some(key) => c.with_cpu(cpu.set_reg(x, key & 0x0F)),
        }
    } else if op == 0xF && nn == 0x29 {
        c.with_cpu(cpu.set_index(font_address(cpu.reg(x))))
    } else if op == 0xF && nn == 0x33 {
        c.store(cpu.index, bcd(cpu.reg(x)))
    } else if op == 0xF && nn == 0x55 {
        c.store(cpu.index, cpu.registers.subrange(0, x + 1))
    } else if op == 0xF && nn == 0x65 {
        c.load_registers(x)
    } else {
        c
    }
}

/// Loading a program that fits forgets everything but the pressed key and
/// the published frame: two machines that agree on those end up equal.
pub proof fn law_load_forgets_the_past(first: ChipView, second: ChipView, bytes: Seq<u8>)
    requires
        first.key == second.key,
        first.frame == second.frame,
        PROGRAM_START_ADDRESS + bytes.len() <= DEFAULT_SIZE,
    ensures
        first.loaded(bytes) == second.loaded(bytes),
{
}

/// After loading a program that fits, memory holds the program at
/// `PROGRAM_START_ADDRESS` and zero everywhere else, and execution starts at
/// the program.
pub proof fn law_loaded_memory(state: ChipView, bytes: Seq<u8>)
    requires
        PROGRAM_START_ADDRESS + bytes.len() <= DEFAULT_SIZE,
    ensures
        state.loaded(bytes).memory.len() == DEFAULT_SIZE,
        state.loaded(bytes).memory.subrange(
            PROGRAM_START_ADDRESS as int,
            PROGRAM_START_ADDRESS + bytes.len(),
        ) == bytes,
        forall|i: int|
            0 <= i < DEFAULT_SIZE && !(PROGRAM_START_ADDRESS <= i < PROGRAM_START_ADDRESS
                + bytes.len()) ==> #[trigger] state.loaded(bytes).memory[i] == 0,
        state.loaded(bytes).cpu.pc == PROGRAM_START_ADDRESS,
{
    let loaded = state.loaded(bytes).memory;
    assert(loaded.subrange(PROGRAM_START_ADDRESS as int, PROGRAM_START_ADDRESS + bytes.len())
        =~= bytes);
}

/// The digits that `FX33` stores are decimal digits of VX, most significant
/// first.
pub proof fn law_bcd_digits(value: u8)
    ensures
        bcd(value).len() == 3,
        bcd(value)[0] < 10 && bcd(value)[1] < 10 && bcd(value)[2] < 10,
        100 * bcd(value)[0] + 10 * bcd(value)[1] + bcd(value)[2] == value,
{
}

/// `FX55` followed by `FX65` with the same X (I unchanged in between) leaves
/// the CPU as it was: the registers read back are those that were stored.
pub proof fn law_store_then_load_registers(
    state: ChipView,
    store: u16,
    load: u16,
    first_random: u8,
    second_random: u8,
)
    requires
        state.cpu.valid(),
        op(store) == 0xF && nn_of(store) == 0x55,
        op(load) == 0xF && nn_of(load) == 0x65,
        x_of(store) == x_of(load),
        state.cpu.index + x_of(store) + 1 <= state.memory.len(),
    ensures
        execute(execute(state, store, first_random), load, second_random).cpu == state.cpu,
{
    let last = x_of(store);
    assert(last < 16);
    let bytes = state.cpu.registers.subrange(0, last + 1);
    let stored = execute(state, store, first_random);
    assert(stored == state.store(state.cpu.index, bytes));
    assert(stored.cpu == state.cpu);
    let reloaded = execute(stored, load, second_random);
    assert(reloaded == stored.load_registers(last));
    assert(reloaded.cpu.registers =~= state.cpu.registers);
}

/// Every instruction other than the jumps, calls, returns, skips and `FX0A`
/// leaves the program counter where fetching put it.
pub proof fn law_straight_line_keeps_pc(state: ChipView, instruction: u16, random: u8)
    requires
        ({
            let op = op(instruction);
            ||| instruction == 0x00E0
            ||| op == 0x6 || op == 0x7 || op == 0x8 || op == 0xA || op == 0xC || op == 0xD
            ||| op == 0xF && nn_of(instruction) != 0x0A
        }),
    ensures
        execute(state, instruction, random).cpu.pc == state.cpu.pc,
{
}

/// `3XNN` and `4XNN` with the same XNN are complementary: exactly one of
/// the two skips the next instruction.
pub proof fn law_skips_are_complementary(
    state: ChipView,
    equal: u16,
    not_equal: u16,
    random: u8,
)
    requires
        op(equal) == 0x3,
        op(not_equal) == 0x4,
        nnn_of(equal) == nnn_of(not_equal),
        state.cpu.pc + 2 <= u16::MAX,
    ensures
        ({
            let skip_equal = execute(state, equal, random).cpu.pc;
            let skip_not_equal = execute(state, not_equal, random).cpu.pc;
            ||| skip_equal == state.cpu.pc + 2 && skip_not_equal == state.cpu.pc
            ||| skip_equal == state.cpu.pc && skip_not_equal == state.cpu.pc + 2
        }),
{
    lemma_same_low_nibbles(equal, not_equal);
    let condition = state.cpu.reg(x_of(equal)) == nn_of(equal);
    assert(execute(state, equal, random) == state.with_cpu(state.cpu.skip_if(condition)));
    assert(execute(state, not_equal, random) == state.with_cpu(state.cpu.skip_if(!condition)));
}

/// Two instructions with the same last three nibbles have the same X and NN.
proof fn lemma_same_low_nibbles(a: u16, b: u16)
    by (bit_vector)
    requires
        a % 0x1000 == b % 0x1000,
    ensures
        a / 0x100 % 0x10 == b / 0x100 % 0x10,
        a % 0x100 == b % 0x100,
{
}

/// How the masks in the decoder read as nibbles and bytes.
proof fn lemma_decode(instruction: u16)
    by (bit_vector)
    ensures
        ((instruction & 0x0F00) >> 8) == instruction / 0x100 % 0x10,
        ((instruction & 0x00F0) >> 4) == instruction / 0x10 % 0x10,
        (instruction & 0x000F) == instruction % 0x10,
        (instruction & 0x00FF) == instruction % 0x100,
        (instruction & 0x0FFF) == instruction % 0x1000,
        (instruction & 0xF00F == 0x5000) == (instruction / 0x1000 == 5 && instruction % 0x10 == 0),
        (instruction & 0xF00F == 0x9000) == (instruction / 0x1000 == 9 && instruction % 0x10 == 0),
        (instruction & 0xF00F == 0x8000) == (instruction / 0x1000 == 8 && instruction % 0x10 == 0),
        (instruction & 0xF00F == 0x8001) == (instruction / 0x1000 == 8 && instruction % 0x10 == 1),
        (instruction & 0xF00F == 0x8002) == (instruction / 0x1000 == 8 && instruction % 0x10 == 2),
        (instruction & 0xF00F == 0x8003) == (instruction / 0x1000 == 8 && instruction % 0x10 == 3),
        (instruction & 0xF00F == 0x8004) == (instruction / 0x1000 == 8 && instruction % 0x10 == 4),
        (instruction & 0xF00F == 0x8005) == (instruction / 0x1000 == 8 && instruction % 0x10 == 5),
        (instruction & 0xF00F == 0x8006) == (instruction / 0x1000 == 8 && instruction % 0x10 == 6),
        (instruction & 0xF00F == 0x8007) == (instruction / 0x1000 == 8 && instruction % 0x10 == 7),
        (instruction & 0xF00F == 0x800E) == (instruction / 0x1000 == 8 && instruction % 0x10 == 0xE),
        (instruction & 0xF0FF == 0xE09E) == (instruction / 0x1000 == 0xE && instruction % 0x100
            == 0x9E),
        (instruction & 0xF0FF == 0xE0A1) == (instruction / 0x1000 == 0xE && instruction % 0x100
            == 0xA1),
        (instruction & 0xF0FF == 0xF007) == (instruction / 0x1000 == 0xF && instruction % 0x100
            == 0x07),
        (instruction & 0xF0FF == 0xF015) == (instruction / 0x1000 == 0xF && instruction % 0x100
            == 0x15),
        (instruction & 0xF0FF == 0xF018) == (instruction / 0x1000 == 0xF && instruction % 0x100
            == 0x18),
        (instruction & 0xF0FF == 0xF01E) == (instruction / 0x1000 == 0xF && instruction % 0x100
            == 0x1E),
        (instruction & 0xF0FF == 0xF00A) == (instruction / 0x1000 == 0xF && instruction % 0x100
            == 0x0A),
        (instruction & 0xF0FF == 0xF029) == (instruction / 0x1000 == 0xF && instruction % 0x100
            == 0x29),
        (instruction & 0xF0FF == 0xF033) == (instruction / 0x1000 == 0xF && instruction % 0x100
            == 0x33),
        (instruction & 0xF0FF == 0xF055) == (instruction / 0x1000 == 0xF && instruction % 0x100
            == 0x55),
        (instruction & 0xF0FF == 0xF065) == (instruction / 0x1000 == 0xF && instruction % 0x100
            == 0x65),
{
}

/// A whole CHIP-8 machine: CPU, memory, display, the two timers, the keypad,
/// and the frame last published to the user interface.
pub struct Chip {
    cpu: CPU,
    memory: Memory,
    display: Display,
    delay_timer: Timer,
    sound_timer: Timer,
    keypad: Keypad,
    current_frame: EmulationFrame,
}

impl View for Chip {
    type V = ChipView;

    closed spec fn view(&self) -> ChipView {
        ChipView {
            cpu: self.cpu@,
            memory: self.memory@,
            display: self.display@,
            delay: self.delay_timer@,
            sound: self.sound_timer@,
            key: self.keypad@,
            frame: screen_of(self.current_frame.pixels),
        }
    }
}

impl Chip {
    /// The machine's memory always has the standard size.
    pub open spec fn wf(&self) -> bool {
        self@.memory.len() == DEFAULT_SIZE
    }

    /// A machine just switched on: the font at `FONT_START_ADDRESS`, the rest
    /// of memory zero, a blank screen, and a blank published frame.
    pub fn new() -> (chip: Self)
        ensures
            chip.wf(),
            chip@ == ChipView::initial(),
    {
        let mut chip = Self {
            cpu: CPU::new(),
            memory: Memory::new(),
            display: Display::new(),
            delay_timer: Timer::new(),
            sound_timer: Timer::new(),
            keypad: Keypad::new(),
            current_frame: EmulationFrame { pixels: Display::new().pixels() },
        };
        chip.install_font();
        chip
    }

    /// Writes the font at `FONT_START_ADDRESS`.
    fn install_font(&mut self)
        requires
            old(self)@.memory.len() == DEFAULT_SIZE,
        ensures
            final(self)@ == (ChipView {
                memory: overwrite(old(self)@.memory, FONT_START_ADDRESS as int, font_sprites()),
                ..old(self)@
            }),
    {
        let font = font();
        let _ = self.memory.write_slice(FONT_START_ADDRESS, font.as_slice());
    }

    /// The processor, for inspection.
    pub fn cpu(&self) -> (cpu: &CPU)
        ensures
            cpu@ == self@.cpu,
    {
        &self.cpu
    }

    /// The memory, for inspection.
    pub fn memory(&self) -> (memory: &Memory)
        ensures
            memory@ == self@.memory,
    {
        &self.memory
    }

    /// The screen, for inspection.
    pub fn display(&self) -> (display: &Display)
        ensures
            display@ == self@.display,
    {
        &self.display
    }

    /// The delay timer, for inspection.
    pub fn delay_timer(&self) -> (timer: &Timer)
        ensures
            timer@ == self@.delay,
    {
        &self.delay_timer
    }

    /// The sound timer, for inspection.
    pub fn sound_timer(&self) -> (timer: &Timer)
        ensures
            timer@ == self@.sound,
    {
        &self.sound_timer
    }

    /// The frame last published to the user interface.
    pub fn current_frame(&self) -> (frame: EmulationFrame)
        ensures
            screen_of(frame.pixels) == self@.frame,
    {
        self.current_frame
    }

    /// Publishes the current screen as the frame.
    fn send_display(&mut self)
        ensures
            final(self)@ == (ChipView { frame: old(self)@.display, ..old(self)@ }),
    {
        self.current_frame = EmulationFrame { pixels: self.display.pixels() };
    }

    /// Loads a program at `PROGRAM_START_ADDRESS`. Memory is cleared to zero
    /// first; when the program fits, the CPU, the display and both timers are
    /// reset as well, else they are left as they were.
    pub fn load(&mut self, bytes: &[u8]) -> (result: Result<(), MemoryError>)
        requires
            old(self).wf(),
        ensures
            final(self).wf(),
            final(self)@ == old(self)@.loaded(bytes@),
            match result {
                Ok(()) => PROGRAM_START_ADDRESS + bytes@.len() <= DEFAULT_SIZE,
                Err(error) => PROGRAM_START_ADDRESS + bytes@.len() > DEFAULT_SIZE && error == (
                MemoryError::RangeOutOfBounds {
                    address: PROGRAM_START_ADDRESS,
                    size: bytes@.len() as usize,
                }),
            },
    {
        self.memory.reset();
        match self.memory.write_slice(PROGRAM_START_ADDRESS, bytes) {
            Ok(()) => {
                self.cpu.reset();
                self.display.reset();
                self.delay_timer.reset();
                self.sound_timer.reset();
                Ok(())
            },
            Err(error) => Err(error),
        }
    }

    /// Whether the next `step` cannot be carried out (see `ChipView::faults`).
    pub fn step_faults(&self) -> (faults: bool)
        ensures
            faults == self@.faults(),
    {
        match self.memory.fetch_instruction(self.cpu.program_counter()) {
            Ok(instruction) => {
                proof {
                    lemma_decode(instruction);
                }
                if instruction == 0x00EE {
                    self.cpu.stack_depth() == 0
                } else if instruction & 0xF0FF == 0xF01E {
                    let vx = self.cpu.at_register(Self::extract_x(instruction)) as u32;
                    self.cpu.index_register() as u32 + vx > 0xFFFF
                } else {
                    false
                }
            },
            Err(_) => false,
        }
    }

    /// Fetches the instruction at the program counter, moves the program
    /// counter past it, and executes it; a `CXNN` draws its byte at random.
    /// Returns `RangeOutOfBounds` (and changes nothing) when the instruction
    /// does not lie inside memory.
    pub fn step(&mut self) -> (result: Result<(), MemoryError>)
        requires
            old(self).wf(),
            !old(self)@.faults(),
        ensures
            final(self).wf(),
            old(self)@.steps_to(final(self)@),
            match result {
                Ok(()) => old(self)@.can_fetch(),
                Err(error) => !old(self)@.can_fetch() && error == (MemoryError::RangeOutOfBounds {
                    address: old(self)@.cpu.pc,
                    size: 2,
                }),
            },
    {
        let draws = match self.memory.fetch_instruction(self.cpu.program_counter()) {
            Ok(instruction) => 0xC000 <= instruction && instruction <= 0xCFFF,
            Err(_) => false,
        };
        let random = if draws {
            random_byte()
        } else {
            0
        };
        let result = self.step_with_random(random);
        proof {
            reveal(ChipView::steps_to);
            assert(final(self)@ == old(self)@.stepped(random));
        }
        result
    }

    /// One step in which a `CXNN` instruction uses `random` as its drawn byte:
    /// fetches the instruction at the program counter, moves the program
    /// counter past it, and executes it. Returns `RangeOutOfBounds` (and
    /// changes nothing) when the instruction does not lie inside memory.
    pub fn step_with_random(&mut self, random: u8) -> (result: Result<(), MemoryError>)
        requires
            old(self).wf(),
            !old(self)@.faults(),
        ensures
            final(self).wf(),
            final(self)@ == old(self)@.stepped(random),
            match result {
                Ok(()) => old(self)@.can_fetch(),
                Err(error) => !old(self)@.can_fetch() && error == (MemoryError::RangeOutOfBounds {
                    address: old(self)@.cpu.pc,
                    size: 2,
                }),
            },
    {
        let instruction = match self.memory.fetch_instruction(self.cpu.program_counter()) {
            Ok(instruction) => instruction,
            Err(error) => return Err(error),
        };
        self.cpu.next_instruction();
        self.execute(instruction, random);
        Ok(())
    }

    /// Carries out one instruction; the program counter has already moved
    /// past it.
    fn execute(&mut self, instruction: u16, random: u8)
        requires
            old(self).wf(),
            old(self)@.pc_allows(instruction),
            !old(self)@.cannot_execute(instruction),
        ensures
            final(self).wf(),
            final(self)@ == execute(old(self)@, instruction, random),
    {
        proof {
            lemma_decode(instruction);
            self.cpu.lemma_valid();
        }
        match instruction {
            0x00E0 => {
                self.display.clear();
                self.send_display();
            },
            0x1000..=0x1FFF => self.cpu.jump_to(Self::extract_nnn(instruction)),
            0x2000..=0x2FFF => self.cpu.jump_to_subroutine(Self::extract_nnn(instruction)),
            0x00EE => self.cpu.return_from_subroutine(),
            0x3000..=0x3FFF => self.cpu.skip_if_register_equals_value(
                Self::extract_x(instruction),
                Self::extract_nn(instruction),
            ),
            0x4000..=0x4FFF => self.cpu.skip_if_register_not_equals_value(
                Self::extract_x(instruction),
                Self::extract_nn(instruction),
            ),
            instruction if instruction & 0xF00F == 0x5000 => self.cpu.skip_if_register_equals_register(
                Self::extract_x(instruction),
                Self::extract_y(instruction),
            ),
            instruction if instruction & 0xF00F == 0x9000 => self.cpu.skip_if_register_not_equals_register(
                Self::extract_x(instruction),
                Self::extract_y(instruction),
            ),
            0x6000..=0x6FFF => self.cpu.set_register(
                Self::extract_x(instruction),
                Self::extract_nn(instruction),
            ),
            0x7000..=0x7FFF => self.cpu.add_to_register(
                Self::extract_x(instruction),
                Self::extract_nn(instruction),
            ),
            instruction if instruction & 0xF00F == 0x8000 => self.cpu.set_register_to_register(
                Self::extract_x(instruction),
                Self::extract_y(instruction),
            ),
            instruction if instruction & 0xF00F == 0x8001 => self.cpu.or(
                Self::extract_x(instruction),
                Self::extract_y(instruction),
            ),
            instruction if instruction & 0xF00F == 0x8002 => self.cpu.and(
                Self::extract_x(instruction),
                Self::extract_y(instruction),
            ),
            instruction if instruction & 0xF00F == 0x8003 => self.cpu.xor(
                Self::extract_x(instruction),
                Self::extract_y(instruction),
            ),
            instruction if instruction & 0xF00F == 0x8004 => self.cpu.add(
                Self::extract_x(instruction),
                Self::extract_y(instruction),
            ),
            instruction if instruction & 0xF00F == 0x8005 => self.cpu.subtract(
                Self::extract_x(instruction),
                Self::extract_y(instruction),
            ),
            instruction if instruction & 0xF00F == 0x8006 => self.cpu.shift_right(
                Self::extract_x(instruction),
                Self::extract_y(instruction),
            ),
            instruction if instruction & 0xF00F == 0x8007 => self.cpu.subtract_reversed(
                Self::extract_x(instruction),
                Self::extract_y(instruction),
            ),
            instruction if instruction & 0xF00F == 0x800E => self.cpu.shift_left(
                Self::extract_x(instruction),
                Self::extract_y(instruction),
            ),
            0xA000..=0xAFFF => self.cpu.set_index_register(Self::extract_nnn(instruction)),
            0xB000..=0xBFFF => self.cpu.jump_with_offset(Self::extract_nnn(instruction)),
            0xC000..=0xCFFF => self.cpu.set_random(
                Self::extract_x(instruction),
                Self::extract_nn(instruction),
                random,
            ),
            0xD000..=0xDFFF => self.execute_draw(instruction),
            instruction if instruction & 0xF0FF == 0xE09E => {
                let target_key = self.cpu.at_register(Self::extract_x(instruction)) & 0x0F;
                let pressed = match self.keypad.current_key() {
                    Some(key) => key == target_key,
                    None => false,
                };
                if pressed {
                    self.cpu.next_instruction();
                }
            },
            instruction if instruction & 0xF0FF == 0xE0A1 => {
                let target_key = self.cpu.at_register(Self::extract_x(instruction)) & 0x0F;
                let pressed = match self.keypad.current_key() {
                    Some(key) => key == target_key,
                    None => false,
                };
                if !pressed {
                    self.cpu.next_instruction();
                }
            },
            instruction if instruction & 0xF0FF == 0xF007 => self.cpu.set_register(
                Self::extract_x(instruction),
                self.delay_timer.counter(),
            ),
            instruction if instruction & 0xF0FF == 0xF015 => self.delay_timer.set_counter(
                self.cpu.at_register(Self::extract_x(instruction)),
            ),
            instruction if instruction & 0xF0FF == 0xF018 => self.sound_timer.set_counter(
                self.cpu.at_register(Self::extract_x(instruction)),
            ),
            instruction if instruction & 0xF0FF == 0xF01E => self.cpu.add_to_index_register(
                self.cpu.at_register(Self::extract_x(instruction)) as u16,
            ),
            instruction if instruction & 0xF0FF == 0xF00A => {
                match self.keypad.current_key() {
                    None => {
                        self.cpu.previous_instruction();
                    },
                    Some(key) => {
                        self.cpu.set_register(Self::extract_x(instruction), key & 0x0F);
                    },
                }
            },
            instruction if instruction & 0xF0FF == 0xF029 => self.cpu.load_font_address_to_index_register(
                Self::extract_x(instruction),
            ),
            instruction if instruction & 0xF0FF == 0xF033 => self.execute_store_bcd(instruction),
            instruction if instruction & 0xF0FF == 0xF055 => self.execute_store_registers(instruction),
            instruction if instruction & 0xF0FF == 0xF065 => self.execute_load_registers(instruction),
            _ => {},
        }
    }

    /// `DXYN`.
    fn execute_draw(&mut self, instruction: u16)
        ensures
            final(self)@ == old(self)@.draw(instruction),
    {
        let x = self.cpu.at_register(Self::extract_x(instruction));
        let y = self.cpu.at_register(Self::extract_y(instruction));
        let sprite = self.memory.read_slice(
            self.cpu.index_register(),
            Self::extract_n(instruction) as usize,
        );
        if let Ok(sprite) = sprite {
            let updated = self.display.draw_sprite(x as usize, y as usize, sprite);
            if updated {
                self.cpu.set_register(0xF, 0x1);
                self.send_display();
            } else {
                self.cpu.set_register(0xF, 0x0);
            }
        }
    }

    /// `FX33`: the decimal digits of VX at I, I+1, I+2.
    fn execute_store_bcd(&mut self, instruction: u16)
        ensures
            final(self)@ == old(self)@.store(
                old(self)@.cpu.index,
                bcd(old(self)@.cpu.reg(x_of(instruction))),
            ),
    {
        let source = self.cpu.at_register(Self::extract_x(instruction));
        let target_address = self.cpu.index_register();
        let digits: [u8; 3] = [source / 100, source / 10 % 10, source % 10];
        assert(digits@ =~= bcd(source));
        let _ = self.memory.write_slice(target_address, digits.as_slice());
    }

    /// `FX55`: V0..VX at I..I+X.
    fn execute_store_registers(&mut self, instruction: u16)
        ensures
            final(self)@ == old(self)@.store(
                old(self)@.cpu.index,
                old(self)@.cpu.registers.subrange(0, x_of(instruction) + 1),
            ),
    {
        let address = self.cpu.index_register();
        let to_register = Self::extract_x(instruction) & 0x0F;
        assert(x_of(instruction) & 0x0F == x_of(instruction)) by (bit_vector)
            requires
                x_of(instruction) < 16,
        ;
        proof {
            self.cpu.lemma_valid();
        }
        let mut registers: Vec<u8> = Vec::new();
        let mut register: u8 = 0;
        while register <= to_register
            invariant
                to_register == x_of(instruction),
                to_register < 16,
                register <= to_register + 1,
                self@ == old(self)@,
                self@.cpu.valid(),
                registers@ == self@.cpu.registers.subrange(0, register as int),
            decreases to_register + 1 - register,
        {
            registers.push(self.cpu.at_register(register));
            assert(registers@ =~= self@.cpu.registers.subrange(0, register + 1));
            register = register + 1;
        }
        let _ = self.memory.write_slice(address, registers.as_slice());
    }

    /// `FX65`: V0..VX from I..I+X.
    fn execute_load_registers(&mut self, instruction: u16)
        ensures
            final(self)@ == old(self)@.load_registers(x_of(instruction)),
    {
        let address = self.cpu.index_register();
        let end = (Self::extract_x(instruction) & 0x0F) as usize;
        assert(x_of(instruction) & 0x0F == x_of(instruction)) by (bit_vector)
            requires
                x_of(instruction) < 16,
        ;
        proof {
            self.cpu.lemma_valid();
        }
        if let Ok(bytes) = self.memory.read_slice(address, end + 1) {
            let mut register: usize = 0;
            assert(self@.cpu.registers =~= Seq::new(
                16,
                |i: int|
                    if i < 0 {
                        old(self)@.memory[address + i]
                    } else {
                        old(self)@.cpu.registers[i]
                    },
            ));
            while register < bytes.len()
                invariant
                    bytes@.len() == end + 1,
                    end == x_of(instruction),
                    end < 16,
                    register <= end + 1,
                    old(self)@.cpu.valid(),
                    address + end + 1 <= old(self)@.memory.len(),
                    bytes@ == old(self)@.memory.subrange(address as int, address + end + 1),
                    self@ == old(self)@.with_cpu(
                        CpuView {
                            registers: Seq::new(
                                16,
                                |i: int|
                                    if i < register {
                                        old(self)@.memory[address + i]
                                    } else {
                                        old(self)@.cpu.registers[i]
                                    },
                            ),
                            ..old(self)@.cpu
                        },
                    ),
                decreases end + 1 - register,
            {
                self.cpu.set_register(register as u8, bytes[register]);
                assert(self@.cpu.registers =~= Seq::new(
                    16,
                    |i: int|
                        if i < register + 1 {
                            old(self)@.memory[address + i]
                        } else {
                            old(self)@.cpu.registers[i]
                        },
                ));
                register = register + 1;
            }
            assert(self@.cpu.registers =~= old(self)@.load_registers(x_of(instruction)).cpu.registers);
        }
    }

    /// Extracts X, the second nibble.
    fn extract_x(instruction: u16) -> (x: u8)
        ensures
            x == x_of(instruction),
            x < 16,
    {
        proof {
            lemma_decode(instruction);
        }
        ((instruction & 0x0F00) >> 8) as u8
    }

    /// Extracts Y, the third nibble.
    fn extract_y(instruction: u16) -> (y: u8)
        ensures
            y == y_of(instruction),
            y < 16,
    {
        proof {
            lemma_decode(instruction);
        }
        ((instruction & 0x00F0) >> 4) as u8
    }

    /// Extracts N, the fourth nibble.
    fn extract_n(instruction: u16) -> (n: u8)
        ensures
            n == n_of(instruction),
            n < 16,
    {
        proof {
            lemma_decode(instruction);
        }
        (instruction & 0x000F) as u8
    }

    /// Extracts NN, the second byte.
    fn extract_nn(instruction: u16) -> (nn: u8)
        ensures
            nn == nn_of(instruction),
    {
        proof {
            lemma_decode(instruction);
        }
        (instruction & 0x00FF) as u8
    }

    /// Extracts NNN, the last three nibbles.
    fn extract_nnn(instruction: u16) -> (nnn: u16)
        ensures
            nnn == nnn_of(instruction),
            nnn < 0x1000,
    {
        proof {
            lemma_decode(instruction);
        }
        instruction & 0x0FFF
    }
}

} // verus!
