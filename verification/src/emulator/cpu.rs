use vstd::prelude::*;

use crate::emulator::display::{FONT_BYTES_PER_CHARACTER, FONT_START_ADDRESS};

verus! {

/// Address at which programs are loaded and execution starts.
pub const PROGRAM_START_ADDRESS: u16 = 0x200;

/// Index of the flag register VF.
pub const FLAG_REGISTER: u8 = 0xF;

/// The register slot that a register number selects: only its low nibble counts.
pub open spec fn slot(register: u8) -> int {
    register as int % 16
}

/// Mathematical model of the CPU state.
pub struct CpuView {
    pub pc: u16,
    pub index: u16,
    pub registers: Seq<u8>,
    pub stack: Seq<u16>,
}

impl CpuView {
    /// The state after power-on or reset.
    pub open spec fn initial() -> CpuView {
        CpuView {
            pc: PROGRAM_START_ADDRESS,
            index: 0,
            registers: Seq::new(16, |i: int| 0u8),
            stack: Seq::empty(),
        }
    }

    /// Every state that a CPU value can have: sixteen registers.
    pub open spec fn valid(self) -> bool {
        self.registers.len() == 16
    }

    /// The value of register `register` (low nibble).
    pub open spec fn reg(self, register: u8) -> u8 {
        self.registers[slot(register)]
    }

    /// This state with register `register` (low nibble) set to `value`.
    pub open spec fn set_reg(self, register: u8, value: u8) -> CpuView {
        CpuView { registers: self.registers.update(slot(register), value), ..self }
    }

    /// This state with the program counter at `address`.
    pub open spec fn jump(self, address: u16) -> CpuView {
        CpuView { pc: address, ..self }
    }

    /// This state with the program counter moved to the next instruction.
    pub open spec fn advance(self) -> CpuView {
        self.jump((self.pc + 2) as u16)
    }

    /// This state with the program counter moved back one instruction.
    pub open spec fn retreat(self) -> CpuView {
        self.jump((self.pc - 2) as u16)
    }

    /// This state advanced when `condition` holds, else unchanged.
    pub open spec fn skip_if(self, condition: bool) -> CpuView {
        if condition {
            self.advance()
        } else {
            self
        }
    }

    /// A subroutine call: the current program counter is pushed, then the jump.
    pub open spec fn call(self, address: u16) -> CpuView {
        CpuView { pc: address, stack: self.stack.push(self.pc), ..self }
    }

    /// A return: the program counter is popped from the stack.
    pub open spec fn ret(self) -> CpuView {
        CpuView { pc: self.stack.last(), stack: self.stack.drop_last(), ..self }
    }

    /// This state with the index register set to `value`.
    pub open spec fn set_index(self, value: u16) -> CpuView {
        CpuView { index: value, ..self }
    }

    /// `VX += VY` with VF set to the carry.
    pub open spec fn add(self, lhs: u8, rhs: u8) -> CpuView {
        let sum = self.reg(lhs) + self.reg(rhs);
        self.set_reg(lhs, (sum % 256) as u8).set_reg(
            FLAG_REGISTER,
            if sum > 255 {
                1u8
            } else {
                0u8
            },
        )
    }

    /// `VX = minuend - subtrahend` (wrapping) with VF set to 1 when no borrow occurs.
    pub open spec fn sub_into(self, target: u8, minuend: u8, subtrahend: u8) -> CpuView {
        let difference = minuend - subtrahend;
        self.set_reg(target, ((difference + 256) % 256) as u8).set_reg(
            FLAG_REGISTER,
            if minuend >= subtrahend {
                1u8
            } else {
                0u8
            },
        )
    }

    /// `VX = VY >> 1` with VF set to the bit shifted out.
    pub open spec fn shift_right(self, target: u8, source: u8) -> CpuView {
        let value = self.reg(source);
        self.set_reg(target, value / 2).set_reg(FLAG_REGISTER, value % 2)
    }

    /// `VX = VY << 1` (truncated to 8 bits) with VF set to the bit shifted out.
    pub open spec fn shift_left(self, target: u8, source: u8) -> CpuView {
        let value = self.reg(source);
        self.set_reg(target, ((value * 2) % 256) as u8).set_reg(FLAG_REGISTER, value / 128)
    }
}

/// Returning from a subroutine undoes the call: the program counter and the
/// stack are back where they were, and nothing else changed.
pub proof fn law_return_undoes_call(state: CpuView, address: u16)
    ensures
        state.call(address).ret() == state,
{
    assert(state.call(address).stack.drop_last() =~= state.stack);
}

/// `8XY4` loses nothing: the new VX plus 256 times the carry in VF is the sum
/// of the old VX and VY (for X other than F).
pub proof fn law_add_keeps_the_sum(state: CpuView, lhs: u8, rhs: u8)
    requires
        state.valid(),
        slot(lhs) != slot(FLAG_REGISTER),
    ensures
        state.add(lhs, rhs).reg(lhs) + 256 * state.add(lhs, rhs).reg(FLAG_REGISTER) == state.reg(
            lhs,
        ) + state.reg(rhs),
{
}

/// `8XY5` followed by `8XY4` gives VX back (for X, Y and F all different).
pub proof fn law_subtract_then_add(state: CpuView, lhs: u8, rhs: u8)
    requires
        state.valid(),
        slot(lhs) != slot(FLAG_REGISTER),
        slot(rhs) != slot(FLAG_REGISTER),
        slot(lhs) != slot(rhs),
    ensures
        state.sub_into(lhs, state.reg(lhs), state.reg(rhs)).add(lhs, rhs).reg(lhs) == state.reg(
            lhs,
        ),
{
}

/// `8XY5` sets VF to 1 exactly when no borrow occurs, and the new VX is the
/// difference modulo 256.
pub proof fn law_subtract_flag(state: CpuView, lhs: u8, rhs: u8)
    requires
        state.valid(),
        slot(lhs) != slot(FLAG_REGISTER),
    ensures
        (state.sub_into(lhs, state.reg(lhs), state.reg(rhs)).reg(FLAG_REGISTER) == 1)
            == (state.reg(lhs) >= state.reg(rhs)),
        (state.sub_into(lhs, state.reg(lhs), state.reg(rhs)).reg(lhs) + state.reg(rhs)) % 256
            == state.reg(lhs) as int,
{
}

/// The register file: register `r` is slot `r mod 16` of the sixteen
/// registers, and setting it replaces exactly that slot.
pub proof fn law_register_file(state: CpuView, register: u8, value: u8)
    ensures
        state.reg(register) == state.registers[register as int % 16],
        state.set_reg(register, value).registers == state.registers.update(
            register as int % 16,
            value,
        ),
        state.set_reg(register, value).pc == state.pc,
        state.set_reg(register, value).index == state.index,
        state.set_reg(register, value).stack == state.stack,
{
}

/// `8XY6` shifts VY right by one: VF receives the bit shifted out (VY mod 2),
/// and (for X other than F) twice the new VX plus VF is the old VY.
pub proof fn law_shift_right_bits(state: CpuView, target: u8, source: u8)
    requires
        state.valid(),
    ensures
        state.shift_right(target, source).registers[15] == state.registers[source as int % 16] % 2,
        target as int % 16 != 15 ==> 2 * state.shift_right(target, source).registers[target as int
            % 16] + state.shift_right(target, source).registers[15] == state.registers[source as int
            % 16],
        forall|i: int|
            0 <= i < 16 && i != 15 && i != target as int % 16 ==> #[trigger] state.shift_right(
                target,
                source,
            ).registers[i] == state.registers[i],
        state.shift_right(target, source).pc == state.pc,
{
}

/// `8XYE` shifts VY left by one: VF receives the bit shifted out (the top bit
/// of VY), and (for X other than F) the new VX plus 256 times VF is twice the
/// old VY.
pub proof fn law_shift_left_bits(state: CpuView, target: u8, source: u8)
    requires
        state.valid(),
    ensures
        state.shift_left(target, source).registers[15] == (if state.registers[source as int % 16]
            >= 128 {
            1u8
        } else {
            0u8
        }),
        target as int % 16 != 15 ==> state.shift_left(target, source).registers[target as int % 16]
            + 256 * state.shift_left(target, source).registers[15] == 2 * state.registers[source as int
            % 16],
        forall|i: int|
            0 <= i < 16 && i != 15 && i != target as int % 16 ==> #[trigger] state.shift_left(
                target,
                source,
            ).registers[i] == state.registers[i],
        state.shift_left(target, source).pc == state.pc,
{
}

/// Address of the font sprite for the hexadecimal digit `character`.
pub open spec fn font_address(character: u8) -> u16 {
    (FONT_START_ADDRESS + character * FONT_BYTES_PER_CHARACTER) as u16
}

/// Draws a uniformly distributed byte from the thread-local generator of the
/// `rand` crate (`rand::random::<u8>()`). Nothing is claimed of the value.
#[verifier::external_body]
pub(crate) fn random_byte() -> u8 {
    rand::random::<u8>()
}

/// The CHIP-8 processor: program counter, index register, sixteen 8-bit
/// registers V0..VF and a call stack.
pub struct CPU {
    program_counter: u16,
    index_register: u16,
    registers: [u8; 16],
    stack: Vec<u16>,
}

impl View for CPU {
    type V = CpuView;

    closed spec fn view(&self) -> CpuView {
        CpuView {
            pc: self.program_counter,
            index: self.index_register,
            registers: self.registers@,
            stack: self.stack@,
        }
    }
}

/// The array index of a register number: its low nibble.
fn slot_index(register: u8) -> (index: usize)
    ensures
        index == slot(register),
        index < 16,
{
    assert(register & 0x0F == register % 16) by (bit_vector);
    (register & 0x0F) as usize
}

impl CPU {
    /// Every CPU value has sixteen registers.
    pub proof fn lemma_valid(&self)
        ensures
            self@.valid(),
    {
    }

    /// A CPU in its power-on state.
    pub fn new() -> (cpu: Self)
        ensures
            cpu@ == CpuView::initial(),
    {
        let cpu = Self {
            program_counter: PROGRAM_START_ADDRESS,
            index_register: 0,
            registers: [0; 16],
            stack: Vec::new(),
        };
        assert(cpu@.registers =~= CpuView::initial().registers);
        cpu
    }

    /// Back to the power-on state.
    pub fn reset(&mut self)
        ensures
            final(self)@ == CpuView::initial(),
    {
        *self = Self::new();
    }

    pub fn program_counter(&self) -> (pc: u16)
        ensures
            pc == self@.pc,
    {
        self.program_counter
    }

    /// Number of return addresses on the call stack.
    pub fn stack_depth(&self) -> (depth: usize)
        ensures
            depth == self@.stack.len(),
    {
        self.stack.len()
    }

    pub fn index_register(&self) -> (index: u16)
        ensures
            index == self@.index,
    {
        self.index_register
    }

    /// The value of register `register & 0x0F`.
    pub fn at_register(&self, register: u8) -> (value: u8)
        ensures
            value == self@.reg(register),
    {
        self.registers[slot_index(register)]
    }

    /// Moves to the next instruction (two bytes on).
    pub fn next_instruction(&mut self)
        requires
            old(self)@.pc + 2 <= u16::MAX,
        ensures
            final(self)@ == old(self)@.advance(),
    {
        self.program_counter = self.program_counter + 2;
    }

    /// Moves back to the previous instruction (two bytes back).
    pub fn previous_instruction(&mut self)
        requires
            old(self)@.pc >= 2,
        ensures
            final(self)@ == old(self)@.retreat(),
    {
        self.program_counter = self.program_counter - 2;
    }

    pub fn jump_to(&mut self, address: u16)
        ensures
            final(self)@ == old(self)@.jump(address),
    {
        self.program_counter = address;
    }

    /// Pushes the program counter and jumps to `address`.
    pub fn jump_to_subroutine(&mut self, address: u16)
        ensures
            final(self)@ == old(self)@.call(address),
    {
        self.stack.push(self.program_counter);
        self.jump_to(address);
    }

    /// Jumps to `address + V0`.
    pub fn jump_with_offset(&mut self, address: u16)
        requires
            address + old(self)@.reg(0) <= u16::MAX,
        ensures
            final(self)@ == old(self)@.jump((address + old(self)@.reg(0)) as u16),
    {
        let offset = self.registers[0] as u16;
        self.jump_to(address + offset)
    }

    /// Pops the return address pushed by the matching subroutine call and
    /// jumps there.
    pub fn return_from_subroutine(&mut self)
        requires
            old(self)@.stack.len() > 0,
        ensures
            final(self)@ == old(self)@.ret(),
    {
        let instruction_pre_subroutine = self.stack.pop().unwrap();
        self.jump_to(instruction_pre_subroutine);
    }

    /// Skips the next instruction when `VX == value`.
    pub fn skip_if_register_equals_value(&mut self, register: u8, value: u8)
        requires
            old(self)@.reg(register) == value ==> old(self)@.pc + 2 <= u16::MAX,
        ensures
            final(self)@ == old(self)@.skip_if(old(self)@.reg(register) == value),
    {
        if self.registers[slot_index(register)] == value {
            self.next_instruction();
        }
    }

    /// Skips the next instruction when `VX != value`.
    pub fn skip_if_register_not_equals_value(&mut self, register: u8, value: u8)
        requires
            old(self)@.reg(register) != value ==> old(self)@.pc + 2 <= u16::MAX,
        ensures
            final(self)@ == old(self)@.skip_if(old(self)@.reg(register) != value),
    {
        if self.registers[slot_index(register)] != value {
            self.next_instruction();
        }
    }

    /// Skips the next instruction when `VX == VY`.
    pub fn skip_if_register_equals_register(&mut self, register_a: u8, register_b: u8)
        requires
            old(self)@.reg(register_a) == old(self)@.reg(register_b) ==> old(self)@.pc + 2
                <= u16::MAX,
        ensures
            final(self)@ == old(self)@.skip_if(
                old(self)@.reg(register_a) == old(self)@.reg(register_b),
            ),
    {
        if self.registers[slot_index(register_a)] == self.registers[slot_index(register_b)] {
            self.next_instruction();
        }
    }

    /// Skips the next instruction when `VX != VY`.
    pub fn skip_if_register_not_equals_register(&mut self, register_a: u8, register_b: u8)
        requires
            old(self)@.reg(register_a) != old(self)@.reg(register_b) ==> old(self)@.pc + 2
                <= u16::MAX,
        ensures
            final(self)@ == old(self)@.skip_if(
                old(self)@.reg(register_a) != old(self)@.reg(register_b),
            ),
    {
        if self.registers[slot_index(register_a)] != self.registers[slot_index(register_b)] {
            self.next_instruction();
        }
    }

    /// `VX = VY`.
    pub fn set_register_to_register(&mut self, register_lhs: u8, register_rhs: u8)
        ensures
            final(self)@ == old(self)@.set_reg(register_lhs, old(self)@.reg(register_rhs)),
    {
        let value = self.registers[slot_index(register_rhs)];
        self.registers[slot_index(register_lhs)] = value;
    }

    /// `VX |= VY`.
    pub fn or(&mut self, register_lhs: u8, register_rhs: u8)
        ensures
            final(self)@ == old(self)@.set_reg(
                register_lhs,
                old(self)@.reg(register_lhs) | old(self)@.reg(register_rhs),
            ),
    {
        let lhs = slot_index(register_lhs);
        let value = self.registers[lhs] | self.registers[slot_index(register_rhs)];
        self.registers[lhs] = value;
    }

    /// `VX &= VY`.
    pub fn and(&mut self, register_lhs: u8, register_rhs: u8)
        ensures
            final(self)@ == old(self)@.set_reg(
                register_lhs,
                old(self)@.reg(register_lhs) & old(self)@.reg(register_rhs),
            ),
    {
        let lhs = slot_index(register_lhs);
        let value = self.registers[lhs] & self.registers[slot_index(register_rhs)];
        self.registers[lhs] = value;
    }

    /// `VX ^= VY`.
    pub fn xor(&mut self, register_lhs: u8, register_rhs: u8)
        ensures
            final(self)@ == old(self)@.set_reg(
                register_lhs,
                old(self)@.reg(register_lhs) ^ old(self)@.reg(register_rhs),
            ),
    {
        let lhs = slot_index(register_lhs);
        let value = self.registers[lhs] ^ self.registers[slot_index(register_rhs)];
        self.registers[lhs] = value;
    }

    /// `VX += VY` modulo 256, then VF = 1 on carry and 0 otherwise.
    pub fn add(&mut self, register_lhs: u8, register_rhs: u8)
        ensures
            final(self)@ == old(self)@.add(register_lhs, register_rhs),
    {
        let lhs = slot_index(register_lhs);
        let rhs = slot_index(register_rhs);
        let sum = self.registers[lhs] as u16 + self.registers[rhs] as u16;
        self.registers[lhs] = (sum % 256) as u8;
        self.registers[0xF] = if sum > 255 { 1 } else { 0 };
    }

    /// `VX -= VY` modulo 256, then VF = 1 when no borrow occurred (VX >= VY).
    pub fn subtract(&mut self, register_lhs: u8, register_rhs: u8)
        ensures
            final(self)@ == old(self)@.sub_into(
                register_lhs,
                old(self)@.reg(register_lhs),
                old(self)@.reg(register_rhs),
            ),
    {
        let lhs = slot_index(register_lhs);
        let rhs = slot_index(register_rhs);
        let minuend = self.registers[lhs];
        let subtrahend = self.registers[rhs];
        self.registers[lhs] = minuend.wrapping_sub(subtrahend);
        self.registers[0xF] = if minuend >= subtrahend { 1 } else { 0 };
    }

    /// `VX = VY - VX` modulo 256, then VF = 1 when no borrow occurred (VY >= VX).
    pub fn subtract_reversed(&mut self, register_lhs: u8, register_rhs: u8)
        ensures
            final(self)@ == old(self)@.sub_into(
                register_lhs,
                old(self)@.reg(register_rhs),
                old(self)@.reg(register_lhs),
            ),
    {
        let lhs = slot_index(register_lhs);
        let rhs = slot_index(register_rhs);
        let minuend = self.registers[rhs];
        let subtrahend = self.registers[lhs];
        self.registers[lhs] = minuend.wrapping_sub(subtrahend);
        self.registers[0xF] = if minuend >= subtrahend { 1 } else { 0 };
    }

    /// `VX = VY >> 1`, then VF = the least significant bit of the old VY.
    pub fn shift_right(&mut self, target: u8, source: u8)
        ensures
            final(self)@ == old(self)@.shift_right(target, source),
    {
        let target = slot_index(target);
        let source = slot_index(source);
        let value = self.registers[source];
        let carry = value & 0b0000_0001;
        assert(value >> 1 == value / 2 && value & 1 == value % 2) by (bit_vector);
        self.registers[target] = value >> 1;
        self.registers[0xF] = carry;
    }

    /// `VX = VY << 1` (truncated), then VF = the most significant bit of the old VY.
    pub fn shift_left(&mut self, target: u8, source: u8)
        ensures
            final(self)@ == old(self)@.shift_left(target, source),
    {
        let target = slot_index(target);
        let source = slot_index(source);
        let value = self.registers[source];
        let carry = (value & 0b1000_0000) >> 7;
        assert(value << 1 == (value * 2) % 256 && (value & 0x80) >> 7 == value / 128)
            by (bit_vector);
        self.registers[target] = value << 1;
        self.registers[0xF] = carry;
    }

    /// `VX = r & mask` for a byte `r` drawn at random.
    pub fn random(&mut self, target: u8, mask: u8)
        ensures
            exists|byte: u8| final(self)@ == old(self)@.set_reg(target, byte & mask),
    {
        let byte = random_byte();
        self.set_random(target, mask, byte);
    }

    /// `VX = byte & mask`: the effect of `CXNN` once the random byte is drawn.
    pub fn set_random(&mut self, target: u8, mask: u8, byte: u8)
        ensures
            final(self)@ == old(self)@.set_reg(target, byte & mask),
    {
        self.set_register(target, byte & mask);
    }

    /// Points the index register at the font sprite of the digit in `VX`.
    pub fn load_font_address_to_index_register(&mut self, character: u8)
        ensures
            final(self)@ == old(self)@.set_index(font_address(old(self)@.reg(character))),
    {
        let character = self.at_register(character) as u16;
        let bytes_per_character = FONT_BYTES_PER_CHARACTER as u16;
        let character_address: u16 = FONT_START_ADDRESS + (character * bytes_per_character);
        self.set_index_register(character_address);
    }

    /// `VX = value`.
    pub fn set_register(&mut self, register: u8, value: u8)
        ensures
            final(self)@ == old(self)@.set_reg(register, value),
    {
        self.registers[slot_index(register)] = value;
    }

    /// `I = value`.
    pub fn set_index_register(&mut self, value: u16)
        ensures
            final(self)@ == old(self)@.set_index(value),
    {
        self.index_register = value;
    }

    /// `I += value`.
    pub fn add_to_index_register(&mut self, value: u16)
        requires
            old(self)@.index + value <= u16::MAX,
        ensures
            final(self)@ == old(self)@.set_index((old(self)@.index + value) as u16),
    {
        self.index_register = self.index_register + value;
    }

    /// `VX += value` modulo 256; VF is left alone.
    pub fn add_to_register(&mut self, register: u8, value: u8)
        ensures
            final(self)@ == old(self)@.set_reg(
                register,
                ((old(self)@.reg(register) + value) % 256) as u8,
            ),
    {
        let index = slot_index(register);
        self.registers[index] = self.registers[index].wrapping_add(value);
    }
}

} // verus!
