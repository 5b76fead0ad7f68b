//! # Chip8 emulator core module
//!
//! This module provides the Chip8 struct for running the emulator core logic
//! and interfacing with the main application.
use vstd::prelude::*;

use crate::config::{default_config, Config};
use crate::display::{blank_pixels, Display};
use crate::error::Chip8Error;
use crate::keypad::{first_pressed, Keypad, NUM_KEYS};
use crate::machine::{
    bcd_digits, bytes_in_memory, can_execute, execute_model, key_wait_repeats, fetch_model, load_registers,
    step_model, store_registers, tick_model, MachineState, MAX_INDEX, NUM_REGS, STACK_SIZE,
};
use crate::memory::{boot_memory, with_bytes, Memory, MAX_ROM_SIZE, MEMORY_SIZE, ROM_START_ADDR};
use crate::opcode::{decode, spec_decode, Instruction};
use crate::rng::random_byte;
use crate::utils;

verus! {

/// Snapshot of the CPU state, for a debugger to display.
#[derive(Debug, Clone, Copy)]
pub struct CpuState {
    /// The 16 general-purpose registers `V0`..`VF`.
    pub registers: [u8; 16],
    /// The program counter.
    pub pc: usize,
    /// The index register (`I`).
    pub index: usize,
    /// The number of return addresses currently on the call stack.
    pub sp: usize,
    /// The call stack, of which only the first `sp` entries are in use.
    pub stack: [u16; 16],
    /// The delay timer's current value.
    pub delay_timer: u8,
    /// The sound timer's current value.
    pub sound_timer: u8,
}

impl Default for CpuState {
    fn default() -> (s: Self)
        ensures
            s.registers@ == Seq::new(NUM_REGS as nat, |i: int| 0u8),
            s.stack@ == Seq::new(STACK_SIZE as nat, |i: int| 0u16),
            s.pc == 0,
            s.index == 0,
            s.sp == 0,
            s.delay_timer == 0,
            s.sound_timer == 0,
    {
        let s = CpuState {
            registers: [0; 16],
            pc: 0,
            index: 0,
            sp: 0,
            stack: [0; 16],
            delay_timer: 0,
            sound_timer: 0,
        };
        assert(s.registers@ =~= Seq::new(NUM_REGS as nat, |i: int| 0u8));
        assert(s.stack@ =~= Seq::new(STACK_SIZE as nat, |i: int| 0u16));
        s
    }
}

/// The state of a freshly created machine.
pub open spec fn fresh_state() -> MachineState {
    MachineState {
        config: default_config(),
        memory: boot_memory(),
        pixels: blank_pixels(),
        dirty: false,
        keys: Seq::new(NUM_KEYS as nat, |i: int| false),
        registers: Seq::new(NUM_REGS as nat, |i: int| 0u8),
        stack: Seq::new(STACK_SIZE as nat, |i: int| 0u16),
        sp: 0,
        pc: 0,
        index: 0,
        delay_timer: 0,
        sound_timer: 0,
        awaited_key: None,
    }
}

/// `m` brought back to a fresh boot: memory, display, registers, stack,
/// program counter, index and timers reset; keys and configuration kept.
pub open spec fn reset_model(m: MachineState) -> MachineState {
    MachineState {
        memory: boot_memory(),
        pixels: blank_pixels(),
        dirty: true,
        registers: Seq::new(NUM_REGS as nat, |i: int| 0u8),
        stack: Seq::new(STACK_SIZE as nat, |i: int| 0u16),
        sp: 0,
        pc: 0,
        index: 0,
        delay_timer: 0,
        sound_timer: 0,
        awaited_key: None,
        ..m
    }
}

/// CHIP-8 virtual machine state and instruction executor.
pub struct Chip8 {
    /// Compatibility settings for instruction variants. Public so a
    /// frontend can read or replace it at any time; takes effect starting
    /// with the next instruction executed.
    pub config: Config,
    pub ram: Memory,
    pub display: Display,
    pub keypad: Keypad,
    pub registers: [u8; 16],
    pub stack: [u16; 16],
    pub sp: usize,
    pub pc: usize,
    pub index: usize,
    pub delay_timer: u8,
    pub sound_timer: u8,
    /// The key that `FX0A` waits to see released, when
    /// `config.key_waits_for_release` is set.
    pub awaited_key: Option<usize>,
}

impl Default for Chip8 {
    fn default() -> (c: Self)
        ensures
            c@ == fresh_state(),
            c.wf(),
    {
        Self::new()
    }
}

impl Chip8 {
    /// Max number of elements on stack
    pub const STACK_SIZE: usize = 16;

    /// Number of CPU registers
    pub const NUM_REGS: usize = 16;

    /// The machine this value holds.
    pub open spec fn view(&self) -> MachineState {
        MachineState {
            config: self.config,
            memory: self.ram@,
            pixels: self.display@,
            dirty: self.display.is_dirty(),
            keys: self.keypad@,
            registers: self.registers@,
            stack: self.stack@,
            sp: self.sp as int,
            pc: self.pc as int,
            index: self.index as int,
            delay_timer: self.delay_timer,
            sound_timer: self.sound_timer,
            awaited_key: self.awaited_key,
        }
    }

    /// The stack pointer is within the stack and the index register within
    /// the range the instructions keep it in.
    pub open spec fn wf(&self) -> bool {
        &&& self.sp <= STACK_SIZE
        &&& self.index <= MAX_INDEX
        &&& self.awaited_key matches Some(k) ==> k < NUM_KEYS
    }

    pub proof fn lemma_view_wf(&self)
        requires
            self.wf(),
        ensures
            self@.wf(),
    {
        self.ram.lemma_len();
        self.display.lemma_shape();
        self.keypad.lemma_len();
    }

    /// Create a reset CHIP-8 machine.
    pub fn new() -> (c: Self)
        ensures
            c@ == fresh_state(),
            c.wf(),
    {
        let c = Chip8 {
            config: Config::new(),
            ram: Memory::new(),
            display: Display::new(),
            keypad: Keypad::new(),
            registers: [0; 16],
            stack: [0; 16],
            sp: 0,
            pc: 0,
            index: 0,
            delay_timer: 0,
            sound_timer: 0,
            awaited_key: None,
        };
        assert(c.registers@ =~= Seq::new(NUM_REGS as nat, |i: int| 0u8));
        assert(c.stack@ =~= Seq::new(STACK_SIZE as nat, |i: int| 0u16));
        c
    }

    /// Load a ROM and reset the program counter to its start address.
    pub fn load_rom(&mut self, rom: &[u8]) -> (r: Result<(), Chip8Error>)
        ensures
            rom@.len() <= MAX_ROM_SIZE ==> r == Ok::<(), Chip8Error>(()) && final(self)@ == (MachineState {
                memory: with_bytes(old(self)@.memory, ROM_START_ADDR as int, rom@),
                pc: ROM_START_ADDR as int,
                ..old(self)@
            }),
            rom@.len() > MAX_ROM_SIZE ==> r == Err::<(), Chip8Error>(
                Chip8Error::RomTooLarge { size: rom@.len() as usize, max_size: MAX_ROM_SIZE },
            ) && final(self)@ == old(self)@,
    {
        self.ram.load_rom(rom)?;
        self.pc = Memory::ROM_START_ADDR;
        Ok(())
    }

    /// Fetch, decode, and execute one instruction.
    pub fn step(&mut self) -> (r: Result<(), Chip8Error>)
        requires
            old(self).wf(),
        ensures
            exists|random: u8|
                final(self)@ == (#[trigger] step_model(old(self)@, random)).0 && r == step_model(
                    old(self)@,
                    random,
                ).1,
            final(self).wf(),
    {
        let ghost m0 = self@;
        proof {
            self.lemma_view_wf();
        }
        let opcode = match self.fetch() {
            Ok(opcode) => opcode,
            Err(e) => {
                assert(step_model(m0, 0).0 == m0);
                return Err(e);
            },
        };
        let instruction = match self.decode(opcode) {
            Ok(instruction) => instruction,
            Err(e) => {
                assert(step_model(m0, 0).0 == self@);
                return Err(e);
            },
        };
        proof {
            crate::opcode::lemma_decode_wf(opcode);
            self.lemma_view_wf();
        }
        let r = self.execute(instruction);
        proof {
            let random = choose|random: u8|
                self@ == (#[trigger] execute_model(fetched_of(m0), instruction, random)).0 && r
                    == execute_model(fetched_of(m0), instruction, random).1;
            assert(self@ == step_model(m0, random).0);
        }
        r
    }

    /// Decrement the delay and sound timers by one tick.
    pub fn tick_timers(&mut self)
        ensures
            final(self)@ == tick_model(old(self)@),
    {
        self.delay_timer = self.delay_timer.saturating_sub(1);
        self.sound_timer = self.sound_timer.saturating_sub(1);
    }

    /// Reset the state of the Chip-8
    pub fn reset(&mut self)
        ensures
            final(self)@ == reset_model(old(self)@),
    {
        self.ram.clear();
        self.display.clear();
        self.registers = [0; 16];
        self.stack = [0; 16];
        self.sp = 0;
        self.pc = 0;
        self.index = 0;
        self.delay_timer = 0;
        self.sound_timer = 0;
        self.awaited_key = None;

        self.ram.load_font();
        assert(self.registers@ =~= Seq::new(NUM_REGS as nat, |i: int| 0u8));
        assert(self.stack@ =~= Seq::new(STACK_SIZE as nat, |i: int| 0u16));
    }

    /// Borrow the current display buffer.
    pub fn get_display(&self) -> (d: &Display)
        ensures
            *d == self.display,
    {
        &self.display
    }

    /// Borrow the emulator memory.
    pub fn get_memory(&self) -> (m: &Memory)
        ensures
            *m == self.ram,
    {
        &self.ram
    }

    /// Copy the current CPU state for inspection.
    pub fn get_state(&self) -> (s: CpuState)
        ensures
            s.registers == self.registers,
            s.pc == self.pc,
            s.index == self.index,
            s.sp == self.sp,
            s.stack == self.stack,
            s.delay_timer == self.delay_timer,
            s.sound_timer == self.sound_timer,
    {
        CpuState {
            registers: self.registers,
            pc: self.pc,
            index: self.index,
            sp: self.sp,
            stack: self.stack,
            delay_timer: self.delay_timer,
            sound_timer: self.sound_timer,
        }
    }

    /// Borrow the full 4 KiB memory space, e.g. to disassemble around the program counter.
    pub fn get_memory_content(&self) -> (content: &[u8; 4096])
        ensures
            content@ == self@.memory,
    {
        self.ram.get_content()
    }

    /// Directly overwrite a general-purpose register (`V0`..`VF`).
    pub fn set_register(&mut self, x: usize, value: u8)
        requires
            x < NUM_REGS,
        ensures
            final(self)@ == old(self)@.with_register(x as int, value),
    {
        self.registers[x] = value;
    }

    /// Directly overwrite the program counter, e.g. to set a breakpoint-style jump.
    pub fn set_pc(&mut self, addr: usize)
        ensures
            final(self)@ == old(self)@.with_pc(addr as int),
    {
        self.pc = addr;
    }

    /// Mark a CHIP-8 key as pressed.
    pub fn key_down(&mut self, key: usize) -> (r: Result<(), Chip8Error>)
        ensures
            key < NUM_KEYS ==> r == Ok::<(), Chip8Error>(()) && final(self)@ == (MachineState {
                keys: old(self)@.keys.update(key as int, true),
                ..old(self)@
            }),
            key >= NUM_KEYS ==> r == Err::<(), Chip8Error>(Chip8Error::KeypadOutOfBounds { key })
                && final(self)@ == old(self)@,
    {
        self.keypad.press_key(key)
    }

    /// Mark a CHIP-8 key as released.
    pub fn key_up(&mut self, key: usize) -> (r: Result<(), Chip8Error>)
        ensures
            key < NUM_KEYS ==> r == Ok::<(), Chip8Error>(()) && final(self)@ == (MachineState {
                keys: old(self)@.keys.update(key as int, false),
                ..old(self)@
            }),
            key >= NUM_KEYS ==> r == Err::<(), Chip8Error>(Chip8Error::KeypadOutOfBounds { key })
                && final(self)@ == old(self)@,
    {
        self.keypad.release_key(key)
    }

    /// Return whether the sound timer is active.
    pub fn is_beeping(&self) -> (b: bool)
        ensures
            b == (self.sound_timer > 0),
    {
        self.sound_timer > 0
    }

    /// Take dirty bit from display
    pub fn display_take_dirty(&mut self) -> (was_dirty: bool)
        ensures
            was_dirty == old(self)@.dirty,
            final(self)@ == (MachineState { dirty: false, ..old(self)@ }),
    {
        self.display.take_dirty()
    }

    /// Fetch next opcode from memory
    fn fetch(&mut self) -> (r: Result<u16, Chip8Error>)
        ensures
            match fetch_model(old(self)@) {
                Ok((m, opcode)) => r == Ok::<u16, Chip8Error>(opcode) && final(self)@ == m,
                Err(e) => r == Err::<u16, Chip8Error>(e) && final(self)@ == old(self)@,
            },
    {
        proof {
            self.ram.lemma_len();
        }
        // Fetch opcode from PC
        let high_byte = self.ram.read(self.pc)? as u16;
        let low_byte = self.ram.read(self.pc + 1)? as u16;
        // Increment PC
        self.pc += 2;
        // Return 16-bit opcode
        proof {
            assert((high_byte << 8u16) | low_byte == high_byte * 256 + low_byte) by (bit_vector)
                requires
                    high_byte < 256,
                    low_byte < 256,
            ;
        }
        Ok((high_byte << 8) | low_byte)
    }

    /// Decode opcode into instruction
    fn decode(&self, opcode: u16) -> (r: Result<Instruction, Chip8Error>)
        ensures
            spec_decode(opcode) is Unknown ==> r == Err::<Instruction, Chip8Error>(
                Chip8Error::UnknownOpcode(opcode),
            ),
            !(spec_decode(opcode) is Unknown) ==> r == Ok::<Instruction, Chip8Error>(
                spec_decode(opcode),
            ),
    {
        match decode(opcode) {
            Instruction::Unknown => Err(Chip8Error::UnknownOpcode(opcode)),
            instruction => Ok(instruction),
        }
    }
}


// Instruction execution
impl Chip8 {
    /// Execute instruction. `CXNN` draws its random byte from `rand`.
    pub fn execute(&mut self, instruction: Instruction) -> (r: Result<(), Chip8Error>)
        requires
            old(self).wf(),
            can_execute(old(self)@, instruction),
        ensures
            exists|random: u8|
                final(self)@ == (#[trigger] execute_model(old(self)@, instruction, random)).0
                    && r == execute_model(old(self)@, instruction, random).1,
            final(self).wf(),
    {
        let random = if let Instruction::Rand(_, _) = instruction {
            random_byte()
        } else {
            0
        };
        self.execute_with_random(instruction, random)
    }

    /// Execute instruction, with `random` as the byte that `CXNN` draws.
    pub fn execute_with_random(&mut self, instruction: Instruction, random: u8) -> (r: Result<
        (),
        Chip8Error,
    >)
        requires
            old(self).wf(),
            can_execute(old(self)@, instruction),
        ensures
            final(self)@ == execute_model(old(self)@, instruction, random).0,
            r == execute_model(old(self)@, instruction, random).1,
            final(self).wf(),
    {
        match instruction {
            Instruction::Cls | Instruction::Rts | Instruction::Low | Instruction::High
            | Instruction::Jmp(_) | Instruction::Jsr(_) | Instruction::SkeqConst(_, _)
            | Instruction::SkneConst(_, _) | Instruction::Skeq(_, _) | Instruction::Skne(_, _)
            | Instruction::Jmi(_) | Instruction::Skpr(_) | Instruction::Skup(_)
            | Instruction::Key(_) => self.execute_control(instruction),
            Instruction::MovConst(_, _) | Instruction::AddConst(_, _) | Instruction::Mov(_, _)
            | Instruction::Or(_, _) | Instruction::And(_, _) | Instruction::Xor(_, _)
            | Instruction::Add(_, _) | Instruction::Sub(_, _) | Instruction::Shr(_, _)
            | Instruction::Rsb(_, _) | Instruction::Shl(_, _) | Instruction::Rand(_, _)
            | Instruction::Gdelay(_) | Instruction::Sdelay(_)
            | Instruction::Ssound(_) => self.execute_registers(instruction, random),
            _ => self.execute_memory(instruction),
        }
    }

    /// Execute an instruction that changes the flow of control: clear,
    /// return, jump, call, skip, or wait for a key.
    fn execute_control(&mut self, instruction: Instruction) -> (r: Result<(), Chip8Error>)
        requires
            old(self).wf(),
            can_execute(old(self)@, instruction),
            instruction is Cls || instruction is Rts || instruction is Low || instruction is High
                || instruction is Jmp || instruction is Jsr || instruction is SkeqConst
                || instruction is SkneConst || instruction is Skeq || instruction is Skne
                || instruction is Jmi || instruction is Skpr || instruction is Skup
                || instruction is Key,
        ensures
            final(self)@ == execute_model(old(self)@, instruction, 0).0,
            r == execute_model(old(self)@, instruction, 0).1,
            final(self).wf(),
    {
        proof {
            self.lemma_view_wf();
        }
        match instruction {
            Instruction::Cls => self.display.clear(),
            Instruction::Rts => self.pc = self.pop()? as usize,
            Instruction::Low => (),
            Instruction::High => (),
            Instruction::Jmp(nnn) => self.pc = nnn,
            Instruction::Jsr(nnn) => self.execute_jsr(nnn)?,
            Instruction::SkeqConst(x, nn) => self.skip_if_eq(self.registers[x], nn),
            Instruction::SkneConst(x, nn) => self.skip_if_not_eq(self.registers[x], nn),
            Instruction::Skeq(x, y) => self.skip_if_eq(self.registers[x], self.registers[y]),
            Instruction::Skne(x, y) => self.skip_if_not_eq(self.registers[x], self.registers[y]),
            Instruction::Jmi(nnn) => self.execute_jmi(nnn),
            Instruction::Skpr(x) => {
                if self.keypad.is_pressed(self.registers[x] as usize)? {
                    self.pc += 2
                }
            },
            Instruction::Skup(x) => {
                if !self.keypad.is_pressed(self.registers[x] as usize)? {
                    self.pc += 2
                }
            },
            Instruction::Key(x) => self.execute_key(x),
            _ => (),
        }
        Ok(())
    }

    /// Execute an instruction that computes a register or a timer from
    /// registers, constants, timers or `random`.
    fn execute_registers(&mut self, instruction: Instruction, random: u8) -> (r: Result<
        (),
        Chip8Error,
    >)
        requires
            old(self).wf(),
            can_execute(old(self)@, instruction),
            instruction is MovConst || instruction is AddConst || instruction is Mov
                || instruction is Or || instruction is And || instruction is Xor
                || instruction is Add || instruction is Sub || instruction is Shr
                || instruction is Rsb || instruction is Shl || instruction is Rand
                || instruction is Gdelay || instruction is Sdelay || instruction is Ssound,
        ensures
            final(self)@ == execute_model(old(self)@, instruction, random).0,
            r == execute_model(old(self)@, instruction, random).1,
            final(self).wf(),
    {
        match instruction {
            Instruction::MovConst(x, nn) => self.registers[x] = nn,
            Instruction::AddConst(x, nn) => self.registers[x] = self.registers[x].wrapping_add(nn),
            Instruction::Mov(x, y) => self.registers[x] = self.registers[y],
            Instruction::Or(x, y) => self.registers[x] = self.registers[x] | self.registers[y],
            Instruction::And(x, y) => self.registers[x] = self.registers[x] & self.registers[y],
            Instruction::Xor(x, y) => self.registers[x] = self.registers[x] ^ self.registers[y],
            Instruction::Add(x, y) => self.execute_add(x, y),
            Instruction::Sub(x, y) => self.execute_sub(x, y),
            Instruction::Shr(x, y) => self.execute_shr(x, y),
            Instruction::Rsb(x, y) => self.execute_rsb(x, y),
            Instruction::Shl(x, y) => self.execute_shl(x, y),
            Instruction::Rand(x, nn) => self.registers[x] = random & nn,
            Instruction::Gdelay(x) => self.registers[x] = self.delay_timer,
            Instruction::Sdelay(x) => self.delay_timer = self.registers[x],
            Instruction::Ssound(x) => self.sound_timer = self.registers[x],
            _ => (),
        }
        Ok(())
    }

    /// Execute an instruction that works on the index register or memory.
    fn execute_memory(&mut self, instruction: Instruction) -> (r: Result<(), Chip8Error>)
        requires
            old(self).wf(),
            can_execute(old(self)@, instruction),
            instruction is Mvi || instruction is Sprite || instruction is Adi || instruction is Font
                || instruction is Xfont || instruction is Bcd || instruction is Str
                || instruction is Ldr,
        ensures
            final(self)@ == execute_model(old(self)@, instruction, 0).0,
            r == execute_model(old(self)@, instruction, 0).1,
            final(self).wf(),
    {
        proof {
            self.lemma_view_wf();
        }
        match instruction {
            Instruction::Mvi(nnn) => self.index = nnn,
            Instruction::Sprite(x, y, n) => self.execute_sprite(x, y, n)?,
            Instruction::Adi(x) => self.execute_adi(x),
            Instruction::Font(x) => self.execute_font(x),
            Instruction::Xfont(_x) => (),
            Instruction::Bcd(x) => self.execute_bcd(x)?,
            Instruction::Str(x) => self.execute_str(x)?,
            Instruction::Ldr(x) => self.execute_ldr(x)?,
            _ => (),
        }
        Ok(())
    }

    /// Set VF register to value
    fn set_vf(&mut self, value: u8)
        ensures
            final(self)@ == old(self)@.with_flag(value),
    {
        self.registers[0xF] = value;
    }

    /// Push element to stack
    pub fn push(&mut self, value: u16) -> (r: Result<(), Chip8Error>)
        ensures
            old(self).sp >= STACK_SIZE ==> r == Err::<(), Chip8Error>(Chip8Error::StackOverflow)
                && final(self)@ == old(self)@,
            old(self).sp < STACK_SIZE ==> r == Ok::<(), Chip8Error>(()) && final(self)@ == (MachineState {
                stack: old(self)@.stack.update(old(self).sp as int, value),
                sp: old(self).sp + 1,
                ..old(self)@
            }),
    {
        if self.sp >= Self::STACK_SIZE {
            return Err(Chip8Error::StackOverflow);
        }
        self.stack[self.sp] = value;
        self.sp += 1;
        Ok(())
    }

    /// Pop element from stack
    pub fn pop(&mut self) -> (r: Result<u16, Chip8Error>)
        requires
            old(self).sp <= STACK_SIZE,
        ensures
            old(self).sp == 0 ==> r == Err::<u16, Chip8Error>(Chip8Error::StackUnderflow)
                && final(self)@ == old(self)@,
            old(self).sp > 0 ==> r == Ok::<u16, Chip8Error>(old(self).stack@[old(self).sp - 1])
                && final(self)@ == (MachineState { sp: old(self).sp - 1, ..old(self)@ }),
    {
        if self.sp == 0 {
            return Err(Chip8Error::StackUnderflow);
        }
        self.sp -= 1;
        Ok(self.stack[self.sp])
    }
}

// CPU execute helper functions
impl Chip8 {
    /// Execute Jsr instruction
    fn execute_jsr(&mut self, nnn: usize) -> (r: Result<(), Chip8Error>)
        ensures
            final(self)@ == execute_model(old(self)@, Instruction::Jsr(nnn), 0).0,
            r == execute_model(old(self)@, Instruction::Jsr(nnn), 0).1,
    {
        self.push(self.pc as u16)?;
        self.pc = nnn;
        Ok(())
    }

    /// Skip next instruction if x equals y
    fn skip_if_eq(&mut self, x: u8, y: u8)
        requires
            x == y ==> old(self).pc + 2 <= usize::MAX,
        ensures
            final(self)@ == old(self)@.skip_if(x == y),
    {
        if x == y {
            self.pc += 2;
        }
    }

    /// Skip next instruction if x does not equal y
    fn skip_if_not_eq(&mut self, x: u8, y: u8)
        requires
            x != y ==> old(self).pc + 2 <= usize::MAX,
        ensures
            final(self)@ == old(self)@.skip_if(x != y),
    {
        if x != y {
            self.pc += 2;
        }
    }

    /// Execute Add instruction
    fn execute_add(&mut self, x: usize, y: usize)
        requires
            x < NUM_REGS,
            y < NUM_REGS,
        ensures
            final(self)@ == execute_model(old(self)@, Instruction::Add(x, y), 0).0,
    {
        let (result, carry) = utils::add_with_carry(self.registers[x], self.registers[y]);
        self.registers[x] = result;
        self.set_vf(carry);
    }

    /// Execute Sub instruction
    fn execute_sub(&mut self, x: usize, y: usize)
        requires
            x < NUM_REGS,
            y < NUM_REGS,
        ensures
            final(self)@ == execute_model(old(self)@, Instruction::Sub(x, y), 0).0,
    {
        let (result, borrow) = utils::sub_with_borrow(self.registers[x], self.registers[y]);
        self.registers[x] = result;
        self.set_vf(borrow);
    }

    /// Execute Rsb instruction
    fn execute_rsb(&mut self, x: usize, y: usize)
        requires
            x < NUM_REGS,
            y < NUM_REGS,
        ensures
            final(self)@ == execute_model(old(self)@, Instruction::Rsb(x, y), 0).0,
    {
        let (result, borrow) = utils::sub_with_borrow(self.registers[y], self.registers[x]);
        self.registers[x] = result;
        self.set_vf(borrow);
    }

    /// Execute Shr instruction
    fn execute_shr(&mut self, x: usize, y: usize)
        requires
            x < NUM_REGS,
            y < NUM_REGS,
        ensures
            final(self)@ == execute_model(old(self)@, Instruction::Shr(x, y), 0).0,
    {
        if self.config.shift_uses_vy {
            self.registers[x] = self.registers[y];
        }
        // Store bit 0 in VF
        let carry = utils::extract_bit(self.registers[x], 0);
        proof {
            let v = self.registers[x as int];
            assert(v >> 1u8 == v / 2) by (bit_vector);
            vstd::arithmetic::power2::lemma2_to64();
        }
        self.registers[x] = self.registers[x] >> 1;
        self.set_vf(carry);
    }

    /// Execute Shl instruction
    fn execute_shl(&mut self, x: usize, y: usize)
        requires
            x < NUM_REGS,
            y < NUM_REGS,
        ensures
            final(self)@ == execute_model(old(self)@, Instruction::Shl(x, y), 0).0,
    {
        if self.config.shift_uses_vy {
            self.registers[x] = self.registers[y];
        }
        // Store bit 7 in VF
        let carry = utils::extract_bit(self.registers[x], 7);
        proof {
            let v = self.registers[x as int];
            assert(v << 1u8 == (v * 2) % 256) by (bit_vector);
            vstd::arithmetic::power2::lemma2_to64();
        }
        self.registers[x] = self.registers[x] << 1;
        self.set_vf(carry);
    }

    /// Execute Jmi instruction
    fn execute_jmi(&mut self, nnn: usize)
        requires
            nnn < 0x1000,
        ensures
            final(self)@ == execute_model(old(self)@, Instruction::Jmi(nnn), 0).0,
    {
        let offset = if self.config.jmi_uses_vx {
            let x = utils::extract_nibbles(nnn as u16, 2, 1) as usize;
            proof {
                crate::opcode::lemma_nibble_ranges(nnn as u16);
                reveal_with_fuel(utils::pow16, 3);
            }
            self.registers[x] as usize
        } else {
            self.registers[0] as usize
        };
        self.pc = nnn + offset;
    }

    /// Execute Sprite instruction
    fn execute_sprite(&mut self, x: usize, y: usize, n: u8) -> (r: Result<(), Chip8Error>)
        requires
            old(self).wf(),
            x < NUM_REGS,
            y < NUM_REGS,
            n < 16,
        ensures
            final(self)@ == execute_model(old(self)@, Instruction::Sprite(x, y, n), 0).0,
            r == execute_model(old(self)@, Instruction::Sprite(x, y, n), 0).1,
    {
        let x_coord = self.registers[x] as usize;
        let y_coord = self.registers[y] as usize;

        // Wrap start coordinates, but not rest of sprite
        let x_coord = x_coord % Display::WIDTH;
        let y_coord = y_coord % Display::HEIGHT;

        self.set_vf(0);
        proof {
            self.ram.lemma_len();
        }
        let sprite = self.ram.read_slice(self.index, n as usize)?;
        let collision = self.display.draw_sprite_with_wrap(
            x_coord,
            y_coord,
            sprite,
            self.config.sprites_wrap_at_edge,
        )?;
        if collision {
            self.set_vf(1);
        }
        Ok(())
    }

    /// Execute Key instruction
    fn execute_key(&mut self, x: usize)
        requires
            x < NUM_REGS,
            old(self).wf(),
            key_wait_repeats(old(self)@) ==> old(self).pc >= 2,
        ensures
            final(self)@ == execute_model(old(self)@, Instruction::Key(x), 0).0,
    {
        proof {
            self.keypad.lemma_len();
        }
        if self.config.key_waits_for_release {
            match self.awaited_key {
                Some(key) => {
                    if let Ok(true) = self.keypad.is_pressed(key) {
                        self.pc -= 2;  // Still held: stay at same instruction
                    } else {
                        self.registers[x] = key as u8;
                        self.awaited_key = None;
                    }
                },
                None => {
                    let (key, pressed) = self.keypad.is_pressed_any();
                    if pressed {
                        self.awaited_key = Some(key);
                    }
                    self.pc -= 2;  // Stay at same instruction
                },
            }
        } else {
            let (key, pressed) = self.keypad.is_pressed_any();
            if pressed {
                self.registers[x] = key as u8;
            } else {
                self.pc -= 2;  // Stay at same instruction
            }
            self.awaited_key = None;
        }
    }

    /// Execute Adi instruction
    fn execute_adi(&mut self, x: usize)
        requires
            x < NUM_REGS,
            old(self).index <= MAX_INDEX,
        ensures
            final(self)@ == execute_model(old(self)@, Instruction::Adi(x), 0).0,
    {
        let mut value = self.index + self.registers[x] as usize;
        if value > 0x0FFF {
            proof {
                assert(value & 0x0FFFusize == value % 0x1000) by (bit_vector);
            }
            value = value & 0x0FFF;
            if self.config.adi_flags_overflow {
                self.set_vf(1);
            }
        }
        self.index = value;
    }

    /// Execute Font instruction
    fn execute_font(&mut self, x: usize)
        requires
            x < NUM_REGS,
        ensures
            final(self)@ == execute_model(old(self)@, Instruction::Font(x), 0).0,
    {
        let hex_char: u8 = self.registers[x] & 0x0F;
        proof {
            let v = self.registers[x as int];
            assert(v & 0x0Fu8 == v % 16) by (bit_vector);
        }
        let address = Memory::FONT_START_ADDR + (hex_char as usize) * Memory::FONT_CHAR_SIZE;
        self.index = address;
    }

    /// Execute Bcd instruction
    fn execute_bcd(&mut self, x: usize) -> (r: Result<(), Chip8Error>)
        requires
            x < NUM_REGS,
            old(self).index <= MAX_INDEX,
        ensures
            final(self)@ == execute_model(old(self)@, Instruction::Bcd(x), 0).0,
            r == execute_model(old(self)@, Instruction::Bcd(x), 0).1,
    {
        let num = self.registers[x];
        let digits: [u8; 3] = [num / 100, (num % 100) / 10, num % 10];
        assert(digits@ =~= bcd_digits(num));
        self.ram.write_slice(self.index, digits.as_slice(), 3)
    }

    /// Execute Str instruction
    fn execute_str(&mut self, x: usize) -> (r: Result<(), Chip8Error>)
        requires
            x < NUM_REGS,
            old(self).index <= MAX_INDEX,
        ensures
            final(self)@ == store_registers(old(self)@, x as int).0,
            r == store_registers(old(self)@, x as int).1,
    {
        let ghost m0 = self@;
        proof {
            self.ram.lemma_len();
        }
        let mut i: usize = 0;
        while i <= x
            invariant
                0 <= i <= x + 1,
                x < NUM_REGS,
                m0 == old(self)@,
                m0.index <= MAX_INDEX,
                m0.memory.len() == MEMORY_SIZE,
                m0.registers.len() == NUM_REGS,
                i <= bytes_in_memory(m0.index, x + 1),
                self@ == (MachineState {
                    memory: with_bytes(m0.memory, m0.index, m0.registers.subrange(0, i as int)),
                    index: if m0.config.str_ldr_increments_index {
                        m0.index + i
                    } else {
                        m0.index
                    },
                    ..m0
                }),
            decreases x + 1 - i,
        {
            let address = if self.config.str_ldr_increments_index {
                self.index
            } else {
                self.index + i
            };
            if let Err(e) = self.ram.write(address, self.registers[i]) {
                return Err(e);
            }
            if self.config.str_ldr_increments_index {
                self.index += 1;
            }
            assert(with_bytes(m0.memory, m0.index, m0.registers.subrange(0, i + 1)) =~= with_bytes(
                m0.memory,
                m0.index,
                m0.registers.subrange(0, i as int),
            ).update(m0.index + i, m0.registers[i as int]));
            i += 1;
        }
        Ok(())
    }

    /// Execute Ldr instruction
    fn execute_ldr(&mut self, x: usize) -> (r: Result<(), Chip8Error>)
        requires
            x < NUM_REGS,
            old(self).index <= MAX_INDEX,
        ensures
            final(self)@ == load_registers(old(self)@, x as int).0,
            r == load_registers(old(self)@, x as int).1,
    {
        let ghost m0 = self@;
        proof {
            self.ram.lemma_len();
        }
        let mut i: usize = 0;
        while i <= x
            invariant
                0 <= i <= x + 1,
                x < NUM_REGS,
                m0 == old(self)@,
                m0.index <= MAX_INDEX,
                m0.memory.len() == MEMORY_SIZE,
                m0.registers.len() == NUM_REGS,
                i <= bytes_in_memory(m0.index, x + 1),
                self@ == (MachineState {
                    registers: Seq::new(
                        NUM_REGS as nat,
                        |j: int|
                            if j < i {
                                m0.memory[m0.index + j]
                            } else {
                                m0.registers[j]
                            },
                    ),
                    index: if m0.config.str_ldr_increments_index {
                        m0.index + i
                    } else {
                        m0.index
                    },
                    ..m0
                }),
            decreases x + 1 - i,
        {
            let address = if self.config.str_ldr_increments_index {
                self.index
            } else {
                self.index + i
            };
            match self.ram.read(address) {
                Ok(value) => self.registers[i] = value,
                Err(e) => return Err(e),
            }
            if self.config.str_ldr_increments_index {
                self.index += 1;
            }
            assert(self.registers@ =~= Seq::new(
                NUM_REGS as nat,
                |j: int|
                    if j < i + 1 {
                        m0.memory[m0.index + j]
                    } else {
                        m0.registers[j]
                    },
            ));
            i += 1;
        }
        Ok(())
    }
}

/// The state after a successful fetch from `m`.
pub open spec fn fetched_of(m: MachineState) -> MachineState {
    fetch_model(m)->Ok_0.0
}

} // verus!
