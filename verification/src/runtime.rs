//! The decisions of the emulator thread: how each command from the GUI
//! changes the emulator, when the CPU runs, and what snapshot goes back. The
//! thread itself, its channels and its clock are the frontend's.
use vstd::prelude::*;

use crate::chip8::CpuState;
use crate::config::Config;
use crate::emulator::Emulator;
use crate::error::Chip8Error;
use crate::keypad::NUM_KEYS;
use crate::machine::{step_model, MachineState};
use crate::memory::{with_bytes, MAX_ROM_SIZE, ROM_START_ADDR};

verus! {

/// The most wall-clock time one worker iteration lets the emulator catch up
/// on, in nanoseconds (a quarter of a second).
pub const MAX_CATCH_UP_NANOS: u128 = 250_000_000;

/// A request sent from the GUI thread to the emulator thread.
pub enum EmuCommand {
    /// Mark a CHIP-8 key (`0..16`) as pressed.
    KeyDown(usize),
    /// Mark a CHIP-8 key (`0..16`) as released.
    KeyUp(usize),
    /// Load a ROM image and start executing it from its entry point.
    LoadRom(Vec<u8>),
    /// Pause (`true`) or resume (`false`) CPU and timer execution.
    Pause(bool),
    /// Clear all CPU, memory, and display state back to a fresh boot.
    Reset(),
    /// Replace the interpreter's compatibility settings.
    SetConfig(Config),
    /// Execute a single CPU step, regardless of the pause state. Used by
    /// the debugger's Step button.
    StepOnce(),
}

/// A snapshot of emulator state produced once per worker loop iteration.
pub struct Snapshot {
    /// The current display framebuffer.
    pub display_buffer: [[bool; 64]; 32],
    /// Whether the display has changed since the previous snapshot.
    pub display_dirty: bool,
    /// Whether the sound timer is currently active.
    pub beeping: bool,
    /// The most recent emulator error, if any.
    pub error: Option<Chip8Error>,
    /// The current CPU state, for the debugger panel.
    pub cpu: CpuState,
    /// The full memory space, for the debugger's instruction disassembly.
    pub memory: [u8; 4096],
}

/// The emulator thread's state: the emulator, whether it is paused, and the
/// last error to report.
pub struct Worker {
    emulator: Emulator,
    paused: bool,
    last_error: Option<Chip8Error>,
}

impl Worker {
    pub closed spec fn emulator(&self) -> Emulator {
        self.emulator
    }

    pub closed spec fn is_paused(&self) -> bool {
        self.paused
    }

    pub closed spec fn last_error(&self) -> Option<Chip8Error> {
        self.last_error
    }

    pub open spec fn wf(&self) -> bool {
        self.emulator().wf()
    }

    /// A running worker around `emulator`, with no error to report.
    pub fn new(emulator: Emulator) -> (w: Self)
        requires
            emulator.wf(),
        ensures
            w.wf(),
            w.emulator() == emulator,
            !w.is_paused(),
            w.last_error() is None,
    {
        Worker { emulator, paused: false, last_error: None }
    }

    /// Apply one command from the GUI.
    pub fn handle_command(&mut self, command: EmuCommand)
        requires
            old(self).wf(),
        ensures
            final(self).wf(),
            final(self).emulator().clocks_unchanged(old(self).emulator()),
            ({
                let before = old(self).emulator().machine();
                let after = final(self).emulator().machine();
                match command {
                    EmuCommand::KeyDown(key) => if key < NUM_KEYS {
                        after == (MachineState { keys: before.keys.update(key as int, true), ..before })
                            && final(self).last_error() == old(self).last_error()
                            && final(self).is_paused() == old(self).is_paused()
                    } else {
                        after == before && final(self).last_error() == Some(
                            Chip8Error::KeypadOutOfBounds { key },
                        ) && final(self).is_paused() == old(self).is_paused()
                    },
                    EmuCommand::KeyUp(key) => if key < NUM_KEYS {
                        after == (MachineState { keys: before.keys.update(key as int, false), ..before })
                            && final(self).last_error() == old(self).last_error()
                            && final(self).is_paused() == old(self).is_paused()
                    } else {
                        after == before && final(self).last_error() == Some(
                            Chip8Error::KeypadOutOfBounds { key },
                        ) && final(self).is_paused() == old(self).is_paused()
                    },
                    EmuCommand::LoadRom(bytes) => if bytes@.len() <= MAX_ROM_SIZE {
                        after == (MachineState {
                            memory: with_bytes(before.memory, ROM_START_ADDR as int, bytes@),
                            pc: ROM_START_ADDR as int,
                            ..before
                        }) && final(self).last_error() is None && !final(self).is_paused()
                    } else {
                        after == before && final(self).last_error() == Some(
                            Chip8Error::RomTooLarge { size: bytes@.len() as usize, max_size: MAX_ROM_SIZE },
                        ) && final(self).is_paused() == old(self).is_paused()
                    },
                    EmuCommand::Pause(value) => after == before && final(self).is_paused() == value
                        && final(self).last_error() == old(self).last_error(),
                    EmuCommand::Reset() => after == crate::chip8::reset_model(before)
                        && final(self).is_paused() == old(self).is_paused()
                        && final(self).last_error() == old(self).last_error(),
                    EmuCommand::SetConfig(config) => after == (MachineState { config, ..before })
                        && final(self).is_paused() == old(self).is_paused()
                        && final(self).last_error() == old(self).last_error(),
                    EmuCommand::StepOnce() => (exists|random: u8|
                        after == (#[trigger] step_model(before, random)).0)
                        && final(self).is_paused() == old(self).is_paused()
                        && final(self).last_error() == old(self).last_error(),
                }
            }),
    {
        match command {
            EmuCommand::KeyDown(key) => {
                if let Err(err) = self.emulator.key_down(key) {
                    self.last_error = Some(err);
                }
            },
            EmuCommand::KeyUp(key) => {
                if let Err(err) = self.emulator.key_up(key) {
                    self.last_error = Some(err);
                }
            },
            EmuCommand::LoadRom(bytes) => match self.emulator.load_rom(bytes.as_slice()) {
                Ok(()) => {
                    self.last_error = None;
                    self.paused = false;
                },
                Err(err) => {
                    self.last_error = Some(err);
                },
            },
            EmuCommand::Pause(value) => {
                self.paused = value;
            },
            EmuCommand::Reset() => {
                self.emulator.reset();
            },
            EmuCommand::SetConfig(config) => {
                self.emulator.set_config(config);
            },
            EmuCommand::StepOnce() => {
                self.emulator.step();
            },
        }
    }

    /// The time one iteration catches up on: what elapsed, but at most
    /// `MAX_CATCH_UP_NANOS`.
    pub open spec fn catch_up(elapsed: u128) -> u128 {
        if elapsed < MAX_CATCH_UP_NANOS {
            elapsed
        } else {
            MAX_CATCH_UP_NANOS
        }
    }

    /// Whether `advance(elapsed)` keeps the emulator's clocks within a `Duration`.
    pub fn can_advance(&self, elapsed: u128) -> (fits: bool)
        requires
            self.wf(),
        ensures
            fits == (self.is_paused() || self.emulator().update_fits(Self::catch_up(elapsed))),
    {
        let capped = if elapsed < MAX_CATCH_UP_NANOS {
            elapsed
        } else {
            MAX_CATCH_UP_NANOS
        };
        self.paused || self.emulator.can_update(capped)
    }

    /// Let the emulator catch up on `elapsed` nanoseconds (at most a quarter
    /// of a second) unless paused. An error is kept for reporting and pauses
    /// the emulator.
    pub fn advance(&mut self, elapsed: u128)
        requires
            old(self).wf(),
            !old(self).is_paused() ==> old(self).emulator().update_fits(Self::catch_up(elapsed)),
        ensures
            final(self).wf(),
            old(self).is_paused() ==> *final(self) == *old(self),
            !old(self).is_paused() ==> exists|randoms: Seq<u8>, r: Result<(), Chip8Error>|
                #[trigger] crate::emulator::runs_due_steps(
                    old(self).emulator(),
                    final(self).emulator(),
                    Self::catch_up(elapsed),
                    r,
                    randoms,
                ) && (r is Ok ==> final(self).last_error() == old(self).last_error()
                    && !final(self).is_paused()) && (r is Err ==> final(self).last_error() == Some(
                    r->Err_0,
                ) && final(self).is_paused()),
    {
        if self.paused {
            return;
        }
        let capped = if elapsed < MAX_CATCH_UP_NANOS {
            elapsed
        } else {
            MAX_CATCH_UP_NANOS
        };
        let ghost before = self.emulator;
        let r = self.emulator.update(capped);
        let ghost randoms = choose|randoms: Seq<u8>|
            #[trigger] crate::emulator::runs_due_steps(before, self.emulator, capped, r, randoms);
        if let Err(err) = r {
            self.last_error = Some(err);
            self.paused = true;
        }
        assert(crate::emulator::runs_due_steps(
            old(self).emulator(),
            self.emulator(),
            Self::catch_up(elapsed),
            r,
            randoms,
        ));
    }

    /// The snapshot for the GUI; taking it clears the display's dirty flag.
    pub fn snapshot(&mut self) -> (s: Snapshot)
        requires
            old(self).wf(),
        ensures
            final(self).wf(),
            final(self).emulator().clocks_unchanged(old(self).emulator()),
            final(self).emulator().machine() == (MachineState {
                dirty: false,
                ..old(self).emulator().machine()
            }),
            final(self).is_paused() == old(self).is_paused(),
            final(self).last_error() == old(self).last_error(),
            forall|r: int, c: int|
                crate::display::on_screen(r, c) ==> #[trigger] s.display_buffer@[r]@[c]
                    == old(self).emulator().machine().pixels[r][c],
            s.display_dirty == old(self).emulator().machine().dirty,
            s.beeping == (old(self).emulator().machine().sound_timer > 0),
            s.error == old(self).last_error(),
            s.cpu.registers@ == old(self).emulator().machine().registers,
            s.cpu.stack@ == old(self).emulator().machine().stack,
            s.cpu.pc == old(self).emulator().machine().pc,
            s.cpu.index == old(self).emulator().machine().index,
            s.cpu.sp == old(self).emulator().machine().sp,
            s.cpu.delay_timer == old(self).emulator().machine().delay_timer,
            s.cpu.sound_timer == old(self).emulator().machine().sound_timer,
            s.memory@ == old(self).emulator().machine().memory,
    {
        let display_buffer = *self.emulator.display().get_content();
        let display_dirty = self.emulator.display_take_dirty();
        Snapshot {
            display_buffer,
            display_dirty,
            beeping: self.emulator.is_beeping(),
            error: self.last_error,
            cpu: self.emulator.get_state(),
            memory: *self.emulator.get_memory_content(),
        }
    }
}

} // verus!
