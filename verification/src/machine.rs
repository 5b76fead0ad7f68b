//! The mathematical model of a CHIP-8 machine and of what each instruction
//! does to it. The executable interpreter in `chip8` is proved against it.
use vstd::prelude::*;

use crate::config::Config;
use crate::display::{blank_pixels, drawn_pixels, sprite_collides, well_shaped, DISPLAY_HEIGHT, DISPLAY_WIDTH};
use crate::error::Chip8Error;
use crate::keypad::{first_pressed, NUM_KEYS};
use crate::memory::{with_bytes, FONT_CHAR_SIZE, FONT_START_ADDR, MEMORY_SIZE};
use crate::opcode::{spec_decode, Instruction};

verus! {

/// Number of general-purpose registers `V0`..`VF`.
pub const NUM_REGS: usize = 16;

/// Number of return addresses the call stack holds.
pub const STACK_SIZE: usize = 16;

/// The flag register `VF`.
pub const VF: usize = 15;

/// The largest value the index register takes in a well-formed machine.
pub const MAX_INDEX: usize = 0xFFFF;

/// The state of a CHIP-8 machine.
#[verifier::ext_equal]
pub struct MachineState {
    pub config: Config,
    pub memory: Seq<u8>,
    pub pixels: Seq<Seq<bool>>,
    pub dirty: bool,
    pub keys: Seq<bool>,
    pub registers: Seq<u8>,
    pub stack: Seq<u16>,
    pub sp: int,
    pub pc: int,
    pub index: int,
    pub delay_timer: u8,
    pub sound_timer: u8,
    /// The key that `FX0A` saw pressed and waits to see released, when
    /// `key_waits_for_release` is set.
    pub awaited_key: Option<usize>,
}

/// What an operation does: the state after it, and whether it succeeded.
pub type Outcome = (MachineState, Result<(), Chip8Error>);

impl MachineState {
    pub open spec fn wf(self) -> bool {
        &&& self.memory.len() == MEMORY_SIZE
        &&& well_shaped(self.pixels)
        &&& self.keys.len() == NUM_KEYS
        &&& self.registers.len() == NUM_REGS
        &&& self.stack.len() == STACK_SIZE
        &&& 0 <= self.sp <= STACK_SIZE
        &&& 0 <= self.pc <= usize::MAX
        &&& 0 <= self.index <= MAX_INDEX
        &&& self.awaited_key matches Some(k) ==> k < NUM_KEYS
    }

    pub open spec fn with_register(self, x: int, value: u8) -> MachineState {
        MachineState { registers: self.registers.update(x, value), ..self }
    }

    pub open spec fn with_flag(self, value: u8) -> MachineState {
        self.with_register(VF as int, value)
    }

    pub open spec fn with_pc(self, pc: int) -> MachineState {
        MachineState { pc, ..self }
    }

    pub open spec fn with_index(self, index: int) -> MachineState {
        MachineState { index, ..self }
    }

    /// Skip the next instruction when `cond` holds.
    pub open spec fn skip_if(self, cond: bool) -> MachineState {
        if cond {
            self.with_pc(self.pc + 2)
        } else {
            self
        }
    }

    pub open spec fn reg(self, x: int) -> u8 {
        self.registers[x]
    }
}

pub open spec fn ok(state: MachineState) -> Outcome {
    (state, Ok(()))
}

pub open spec fn fail(state: MachineState, error: Chip8Error) -> Outcome {
    (state, Err(error))
}

/// The key that `ExA1`/`Ex9E` in register `x` test, when it names a key.
pub open spec fn tested_key(m: MachineState, x: int) -> int {
    m.reg(x) as int
}

/// Whether a skip instruction skips the next instruction in state `m`.
pub open spec fn skip_taken(m: MachineState, ins: Instruction) -> bool {
    match ins {
        Instruction::SkeqConst(x, nn) => m.reg(x as int) == nn,
        Instruction::SkneConst(x, nn) => m.reg(x as int) != nn,
        Instruction::Skeq(x, y) => m.reg(x as int) == m.reg(y as int),
        Instruction::Skne(x, y) => m.reg(x as int) != m.reg(y as int),
        Instruction::Skpr(x) => tested_key(m, x as int) < NUM_KEYS && m.keys[tested_key(m, x as int)],
        Instruction::Skup(x) => tested_key(m, x as int) < NUM_KEYS && !m.keys[tested_key(m, x as int)],
        _ => false,
    }
}

/// The three decimal digits of `num`, most significant first.
pub open spec fn bcd_digits(num: u8) -> Seq<u8> {
    seq![num / 100, (num % 100) / 10, num % 10]
}

/// How many of the `count` bytes starting at `index` lie inside memory.
pub open spec fn bytes_in_memory(index: int, count: int) -> int {
    if index + count <= MEMORY_SIZE {
        count
    } else if index >= MEMORY_SIZE {
        0
    } else {
        MEMORY_SIZE - index
    }
}

/// `FX55`: store `V0`..`VX` from address `I`, stopping at the end of memory.
pub open spec fn store_registers(m: MachineState, x: int) -> Outcome {
    let k = bytes_in_memory(m.index, x + 1);
    let memory = with_bytes(m.memory, m.index, m.registers.subrange(0, k));
    let index = if m.config.str_ldr_increments_index {
        m.index + k
    } else {
        m.index
    };
    let state = MachineState { memory, index, ..m };
    if k == x + 1 {
        ok(state)
    } else {
        fail(state, Chip8Error::MemoryOutOfBounds { address: (m.index + k) as usize })
    }
}

/// `FX65`: load `V0`..`VX` from address `I`, stopping at the end of memory.
pub open spec fn load_registers(m: MachineState, x: int) -> Outcome {
    let k = bytes_in_memory(m.index, x + 1);
    let registers = Seq::new(
        NUM_REGS as nat,
        |i: int|
            if i < k {
                m.memory[m.index + i]
            } else {
                m.registers[i]
            },
    );
    let index = if m.config.str_ldr_increments_index {
        m.index + k
    } else {
        m.index
    };
    let state = MachineState { registers, index, ..m };
    if k == x + 1 {
        ok(state)
    } else {
        fail(state, Chip8Error::MemoryOutOfBounds { address: (m.index + k) as usize })
    }
}

/// `DXYN`: draw the `n`-byte sprite at `I` at (`VX`, `VY`), the start
/// wrapped onto the screen; `VF` reports a collision.
pub open spec fn draw(m: MachineState, x: int, y: int, n: int) -> Outcome {
    let x0 = (m.reg(x) as int) % (DISPLAY_WIDTH as int);
    let y0 = (m.reg(y) as int) % (DISPLAY_HEIGHT as int);
    let cleared = m.with_flag(0);
    if m.index + n > MEMORY_SIZE {
        fail(cleared, Chip8Error::MemoryOutOfBounds { address: m.index as usize })
    } else {
        let sprite = m.memory.subrange(m.index, m.index + n);
        let wrap = m.config.sprites_wrap_at_edge;
        let collision = sprite_collides(m.pixels, x0, y0, sprite, wrap);
        ok(
            MachineState {
                pixels: drawn_pixels(m.pixels, x0, y0, sprite, wrap),
                dirty: true,
                ..cleared.with_flag(if collision { 1 } else { 0 })
            },
        )
    }
}

/// `FX0A`: wait for a key and store it in `VX`, executing the instruction
/// again while waiting. By default the lowest-numbered pressed key is taken
/// at once; with `key_waits_for_release`, the key first seen pressed is
/// remembered and stored once it has been released.
pub open spec fn wait_for_key(m: MachineState, x: int) -> Outcome {
    let again = m.with_pc(m.pc - 2);
    if m.config.key_waits_for_release {
        match m.awaited_key {
            Some(k) => if m.keys[k as int] {
                ok(again)
            } else {
                ok(MachineState { awaited_key: None, ..m.with_register(x, k as u8) })
            },
            None => match first_pressed(m.keys) {
                Some(k) => ok(MachineState { awaited_key: Some(k as usize), ..again }),
                None => ok(again),
            },
        }
    } else {
        match first_pressed(m.keys) {
            Some(k) => ok(MachineState { awaited_key: None, ..m.with_register(x, k as u8) }),
            None => ok(MachineState { awaited_key: None, ..again }),
        }
    }
}

/// Whether `FX0A` executes again in state `m`, stepping the program counter back.
pub open spec fn key_wait_repeats(m: MachineState) -> bool {
    if m.config.key_waits_for_release {
        match m.awaited_key {
            Some(k) => m.keys[k as int],
            None => true,
        }
    } else {
        first_pressed(m.keys) is None
    }
}

/// `FX1E`: add `VX` to `I`, keeping 12 bits.
pub open spec fn add_to_index(m: MachineState, x: int) -> Outcome {
    let value = m.index + m.reg(x);
    if value > 0xFFF {
        let wrapped = m.with_index(value % 0x1000);
        ok(
            if m.config.adi_flags_overflow {
                wrapped.with_flag(1)
            } else {
                wrapped
            },
        )
    } else {
        ok(m.with_index(value))
    }
}

/// `BNNN`: jump to `nnn` plus `V0`, or plus `VX` where `x` is the top
/// nibble of `nnn` when so configured.
pub open spec fn jump_offset(m: MachineState, nnn: int) -> Outcome {
    let offset = if m.config.jmi_uses_vx {
        m.reg((nnn / 256) % 16)
    } else {
        m.reg(0)
    };
    ok(m.with_pc(nnn + offset))
}

/// The source operand of a shift: `VY` or `VX` depending on the configuration.
pub open spec fn shift_source(m: MachineState, x: int, y: int) -> u8 {
    if m.config.shift_uses_vy {
        m.reg(y)
    } else {
        m.reg(x)
    }
}

/// What executing `ins` does to `m`. `random` is the byte that `CXNN` draws.
pub open spec fn execute_model(m: MachineState, ins: Instruction, random: u8) -> Outcome {
    match ins {
        Instruction::Unknown => ok(m),
        Instruction::Cls => ok(MachineState { pixels: blank_pixels(), dirty: true, ..m }),
        Instruction::Rts => if m.sp == 0 {
            fail(m, Chip8Error::StackUnderflow)
        } else {
            ok(MachineState { sp: m.sp - 1, pc: m.stack[m.sp - 1] as int, ..m })
        },
        Instruction::Low | Instruction::High | Instruction::Xfont(_) => ok(m),
        Instruction::Jmp(nnn) => ok(m.with_pc(nnn as int)),
        Instruction::Jsr(nnn) => if m.sp >= STACK_SIZE {
            fail(m, Chip8Error::StackOverflow)
        } else {
            ok(
                MachineState {
                    stack: m.stack.update(m.sp, m.pc as u16),
                    sp: m.sp + 1,
                    pc: nnn as int,
                    ..m
                },
            )
        },
        Instruction::SkeqConst(_, _) | Instruction::SkneConst(_, _) | Instruction::Skeq(_, _)
        | Instruction::Skne(_, _) => ok(m.skip_if(skip_taken(m, ins))),
        Instruction::Skpr(x) | Instruction::Skup(x) => if tested_key(m, x as int) >= NUM_KEYS {
            fail(m, Chip8Error::KeypadOutOfBounds { key: tested_key(m, x as int) as usize })
        } else {
            ok(m.skip_if(skip_taken(m, ins)))
        },
        Instruction::MovConst(x, nn) => ok(m.with_register(x as int, nn)),
        Instruction::AddConst(x, nn) => ok(
            m.with_register(x as int, ((m.reg(x as int) + nn) % 256) as u8),
        ),
        Instruction::Mov(x, y) => ok(m.with_register(x as int, m.reg(y as int))),
        Instruction::Or(x, y) => ok(m.with_register(x as int, m.reg(x as int) | m.reg(y as int))),
        Instruction::And(x, y) => ok(m.with_register(x as int, m.reg(x as int) & m.reg(y as int))),
        Instruction::Xor(x, y) => ok(m.with_register(x as int, m.reg(x as int) ^ m.reg(y as int))),
        Instruction::Add(x, y) => {
            let sum = m.reg(x as int) + m.reg(y as int);
            ok(
                m.with_register(x as int, (sum % 256) as u8).with_flag(
                    if sum > 255 {
                        1
                    } else {
                        0
                    },
                ),
            )
        },
        Instruction::Sub(x, y) => {
            let (a, b) = (m.reg(x as int), m.reg(y as int));
            ok(
                m.with_register(x as int, ((a - b + 256) % 256) as u8).with_flag(
                    if a >= b {
                        1
                    } else {
                        0
                    },
                ),
            )
        },
        Instruction::Rsb(x, y) => {
            let (a, b) = (m.reg(y as int), m.reg(x as int));
            ok(
                m.with_register(x as int, ((a - b + 256) % 256) as u8).with_flag(
                    if a >= b {
                        1
                    } else {
                        0
                    },
                ),
            )
        },
        Instruction::Shr(x, y) => {
            let v = shift_source(m, x as int, y as int);
            ok(m.with_register(x as int, v / 2).with_flag(v % 2))
        },
        Instruction::Shl(x, y) => {
            let v = shift_source(m, x as int, y as int);
            ok(m.with_register(x as int, ((v * 2) % 256) as u8).with_flag(v / 128))
        },
        Instruction::Mvi(nnn) => ok(m.with_index(nnn as int)),
        Instruction::Jmi(nnn) => jump_offset(m, nnn as int),
        Instruction::Rand(x, nn) => ok(m.with_register(x as int, random & nn)),
        Instruction::Sprite(x, y, n) => draw(m, x as int, y as int, n as int),
        Instruction::Gdelay(x) => ok(m.with_register(x as int, m.delay_timer)),
        Instruction::Key(x) => wait_for_key(m, x as int),
        Instruction::Sdelay(x) => ok(MachineState { delay_timer: m.reg(x as int), ..m }),
        Instruction::Ssound(x) => ok(MachineState { sound_timer: m.reg(x as int), ..m }),
        Instruction::Adi(x) => add_to_index(m, x as int),
        Instruction::Font(x) => ok(
            m.with_index(FONT_START_ADDR + (m.reg(x as int) % 16) * FONT_CHAR_SIZE),
        ),
        Instruction::Bcd(x) => if m.index + 3 > MEMORY_SIZE {
            fail(m, Chip8Error::MemoryOutOfBounds { address: m.index as usize })
        } else {
            ok(
                MachineState {
                    memory: with_bytes(m.memory, m.index, bcd_digits(m.reg(x as int))),
                    ..m
                },
            )
        },
        Instruction::Str(x) => store_registers(m, x as int),
        Instruction::Ldr(x) => load_registers(m, x as int),
    }
}

/// What executing `ins` in state `m` needs so that it neither panics nor
/// overflows: a known instruction with operands in range, room for the
/// program counter to move past a skipped instruction, and, when `FX0A`
/// executes again, a program counter that can step back to it.
pub open spec fn can_execute(m: MachineState, ins: Instruction) -> bool {
    &&& ins.wf()
    &&& ins != Instruction::Unknown
    &&& skip_taken(m, ins) ==> m.pc + 2 <= usize::MAX
    &&& (ins is Key && key_wait_repeats(m)) ==> m.pc >= 2
}

/// Fetching the opcode at `pc`: the state with `pc` advanced, and the opcode.
pub open spec fn fetch_model(m: MachineState) -> Result<(MachineState, u16), Chip8Error> {
    if m.pc >= MEMORY_SIZE {
        Err(Chip8Error::MemoryOutOfBounds { address: m.pc as usize })
    } else if m.pc + 1 >= MEMORY_SIZE {
        Err(Chip8Error::MemoryOutOfBounds { address: (m.pc + 1) as usize })
    } else {
        Ok((m.with_pc(m.pc + 2), (m.memory[m.pc] as int * 256 + m.memory[m.pc + 1] as int) as u16))
    }
}

/// One fetch-decode-execute cycle. `random` is the byte `CXNN` would draw.
pub open spec fn step_model(m: MachineState, random: u8) -> Outcome {
    match fetch_model(m) {
        Err(e) => fail(m, e),
        Ok((fetched, opcode)) => {
            let ins = spec_decode(opcode);
            if ins is Unknown {
                fail(fetched, Chip8Error::UnknownOpcode(opcode))
            } else {
                execute_model(fetched, ins, random)
            }
        },
    }
}

/// One timer tick: both timers count down to zero and stop there.
pub open spec fn tick_model(m: MachineState) -> MachineState {
    MachineState {
        delay_timer: if m.delay_timer > 0 { (m.delay_timer - 1) as u8 } else { 0 },
        sound_timer: if m.sound_timer > 0 { (m.sound_timer - 1) as u8 } else { 0 },
        ..m
    }
}

/// `n` timer ticks.
pub open spec fn ticks(m: MachineState, n: nat) -> MachineState
    decreases n,
{
    if n == 0 {
        m
    } else {
        tick_model(ticks(m, (n - 1) as nat))
    }
}

/// Running one step per byte of `randoms` (the byte is what that step's
/// `CXNN` would draw), stopping at the first error: the final state, the
/// result of the last step run, and how many steps succeeded.
pub open spec fn run_steps(m: MachineState, randoms: Seq<u8>) -> (MachineState, Result<(), Chip8Error>, nat)
    decreases randoms.len(),
{
    if randoms.len() == 0 {
        (m, Ok(()), 0)
    } else {
        let (before, result, count) = run_steps(m, randoms.drop_last());
        if result is Err {
            (before, result, count)
        } else {
            let (after, r) = step_model(before, randoms.last());
            (after, r, if r is Ok { count + 1 } else { count })
        }
    }
}

} // verus!
