# chip8-core

A CHIP-8 interpreter core written in Verus. Every operation is specified over
a mathematical model of the machine (`src/machine.rs`) and proved against it.

## Layout

- `src/` — the verified library.
  - `memory.rs`, `display.rs`, `keypad.rs`, `font.rs` — the machine's parts.
  - `opcode.rs` — the opcode table and the decoder.
  - `machine.rs` — the model: the machine state and what each instruction,
    fetch, step and timer tick does to it.
  - `chip8.rs` — the interpreter, proved to follow the model.
  - `emulator.rs` — scheduling of CPU steps and timer ticks from elapsed time.
  - `runtime.rs` — the decisions of a frontend's emulator thread.
  - `input.rs`, `disassembly.rs` — keyboard layout and debugger helpers.
  - `laws.rs` — properties that span several operations.
  - `rng.rs` — the one call into an outside crate (`rand`).
- `tests/` — the test suite.
- `app/` — the egui/eframe desktop frontend with `rodio` audio.
