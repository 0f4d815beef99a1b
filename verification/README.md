# chip8

A CHIP-8 interpreter whose core is verified with Verus.

- `src/emulator/memory.rs` — 4 kB byte memory; reads and writes with bounds
  errors, big-endian instruction fetch.
- `src/emulator/cpu.rs` — registers V0..VF, program counter, index register,
  call stack, and the arithmetic and logic of the instruction set.
- `src/emulator/display.rs` — the 64 x 32 monochrome screen, XOR sprite
  drawing with clipping, and the built-in hexadecimal font.
- `src/emulator/timer.rs`, `keypad.rs`, `protocol.rs` — timers, keypad, and
  the commands and frames exchanged with the user interface.
- `src/emulator/chip.rs` — the whole machine: loading a program, fetching,
  decoding and executing one instruction. `execute` is the specification of
  every instruction.
- `src/emulator/mod.rs` — the decisions of the emulation loop: what each
  command does and how many instructions run per frame.
- `app/` — the program: the emulation thread (channels, sleeping, sharing the
  frame) and the egui window.

Each public function states its result over a mathematical model (`CpuView`,
`ChipView`, `Seq<u8>` for memory, `Seq<Seq<bool>>` for the screen), and the
`law_*` proof functions state properties that span several operations.
