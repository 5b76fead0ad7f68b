//! Timing wrapper around [`Chip8`] that decouples CPU and timer frequency
//! from the caller's own update rate.
//!
//! [`Emulator::update`] accumulates elapsed wall-clock time and runs however
//! many CPU steps and timer ticks are due, so callers don't need to run at
//! CHIP-8's CPU frequency themselves. Durations are in nanoseconds.
use vstd::prelude::*;
use vstd::arithmetic::div_mod::lemma_fundamental_div_mod_converse;

use crate::chip8::{Chip8, CpuState};
use crate::config::Config;
use crate::display::Display;
use crate::error::Chip8Error;
use crate::keypad::NUM_KEYS;
use crate::machine::{run_steps, step_model, ticks, MachineState};
use crate::memory::MAX_ROM_SIZE;

verus! {

/// The longest duration a `std::time::Duration` holds, in nanoseconds.
pub const MAX_DURATION_NANOS: u128 = 18_446_744_073_709_551_615_999_999_999;

/// Timer frequency in ticks per second.
pub const TIMER_HZ: u32 = 60;

/// CPU frequency used when none is given, in instructions per second.
pub const DEFAULT_CPU_HZ: u32 = 700;

/// A [`Chip8`] instance paired with independent CPU and timer clocks.
pub struct Emulator {
    chip8: Chip8,
    cpu_step: u128,
    timer_step: u128,
    cpu_accumulator: u128,
    timer_accumulator: u128,
}

impl Emulator {
    /// The emulated machine.
    pub closed spec fn machine(&self) -> MachineState {
        self.chip8@
    }

    /// Nanoseconds per CPU step.
    pub closed spec fn cpu_step_nanos(&self) -> int {
        self.cpu_step as int
    }

    /// Nanoseconds per timer tick.
    pub closed spec fn timer_step_nanos(&self) -> int {
        self.timer_step as int
    }

    /// Elapsed nanoseconds not yet spent on CPU steps.
    pub closed spec fn cpu_pending(&self) -> int {
        self.cpu_accumulator as int
    }

    /// Elapsed nanoseconds not yet spent on timer ticks.
    pub closed spec fn timer_pending(&self) -> int {
        self.timer_accumulator as int
    }

    pub closed spec fn wf(&self) -> bool {
        &&& self.chip8.wf()
        &&& 0 < self.cpu_step <= MAX_DURATION_NANOS
        &&& 0 < self.timer_step <= MAX_DURATION_NANOS
        &&& self.cpu_accumulator <= MAX_DURATION_NANOS
        &&& self.timer_accumulator <= MAX_DURATION_NANOS
    }

    /// Whether adding `elapsed` to both clocks stays within a `Duration`.
    pub open spec fn update_fits(&self, elapsed: u128) -> bool {
        &&& self.cpu_pending() + elapsed <= MAX_DURATION_NANOS
        &&& self.timer_pending() + elapsed <= MAX_DURATION_NANOS
    }

    /// Create a reset emulator whose CPU steps every `cpu_step` nanoseconds
    /// and whose timers tick every `timer_step` nanoseconds.
    pub fn with_step_nanos(cpu_step: u128, timer_step: u128) -> (e: Self)
        requires
            0 < cpu_step <= MAX_DURATION_NANOS,
            0 < timer_step <= MAX_DURATION_NANOS,
        ensures
            e.wf(),
            e.machine() == crate::chip8::fresh_state(),
            e.cpu_step_nanos() == cpu_step,
            e.timer_step_nanos() == timer_step,
            e.cpu_pending() == 0,
            e.timer_pending() == 0,
    {
        Emulator {
            chip8: Chip8::default(),
            cpu_step,
            timer_step,
            cpu_accumulator: 0,
            timer_accumulator: 0,
        }
    }

    /// Whether `update(elapsed)` keeps both clocks within a `Duration`.
    pub fn can_update(&self, elapsed: u128) -> (fits: bool)
        requires
            self.wf(),
        ensures
            fits == self.update_fits(elapsed),
    {
        elapsed <= MAX_DURATION_NANOS - self.cpu_accumulator && elapsed <= MAX_DURATION_NANOS
            - self.timer_accumulator
    }

    /// Advance the emulator by `elapsed` nanoseconds of wall-clock time,
    /// running every CPU step and timer tick that is due. Stops at the first
    /// instruction error, before any timer tick.
    pub fn update(&mut self, elapsed: u128) -> (r: Result<(), Chip8Error>)
        requires
            old(self).wf(),
            old(self).update_fits(elapsed),
        ensures
            final(self).wf(),
            final(self).cpu_step_nanos() == old(self).cpu_step_nanos(),
            final(self).timer_step_nanos() == old(self).timer_step_nanos(),
            exists|randoms: Seq<u8>|
                #[trigger] runs_due_steps(*old(self), *final(self), elapsed, r, randoms),
    {
        let ghost m0 = self.chip8@;
        let ghost cpu_total = self.cpu_accumulator + elapsed;
        let ghost timer_total = self.timer_accumulator + elapsed;
        // Update accumulators
        self.cpu_accumulator = self.cpu_accumulator + elapsed;
        self.timer_accumulator = self.timer_accumulator + elapsed;
        // Run every elapsed CPU cycle, even when the GUI frame rate is lower.
        let ghost mut randoms: Seq<u8> = Seq::empty();
        while self.cpu_accumulator >= self.cpu_step
            invariant
                self.chip8.wf(),
                m0 == old(self).chip8@,
                cpu_total == old(self).cpu_accumulator + elapsed,
                timer_total == old(self).timer_accumulator + elapsed,
                self.cpu_step == old(self).cpu_step,
                self.timer_step == old(self).timer_step,
                self.cpu_accumulator <= cpu_total,
                0 < self.cpu_step <= MAX_DURATION_NANOS,
                0 < self.timer_step <= MAX_DURATION_NANOS,
                self.timer_accumulator == timer_total,
                timer_total <= MAX_DURATION_NANOS,
                cpu_total <= MAX_DURATION_NANOS,
                self.cpu_accumulator + randoms.len() * self.cpu_step == cpu_total,
                run_steps(m0, randoms) == (self.chip8@, Ok::<(), Chip8Error>(()), randoms.len()),
            decreases self.cpu_accumulator,
        {
            let ghost before = self.chip8@;
            let result = self.chip8.step();
            let ghost random = choose|random: u8|
                self.chip8@ == (#[trigger] step_model(before, random)).0 && result == step_model(
                    before,
                    random,
                ).1;
            proof {
                let extended = randoms.push(random);
                assert(extended.drop_last() =~= randoms);
                randoms = extended;
            }
            if let Err(e) = result {
                proof {
                    let k = (randoms.len() - 1) as int;
                    let step = self.cpu_step as int;
                    assert((k + 1) * step == k * step + step) by (nonlinear_arith);
                    lemma_div_lower_bound(cpu_total as int, step, k + 1);
                    assert(runs_due_steps(*old(self), *self, elapsed, Err(e), randoms));
                }
                return Err(e);
            }
            proof {
                assert(randoms.len() * self.cpu_step == (randoms.len() - 1) * self.cpu_step
                    + self.cpu_step) by (nonlinear_arith);
            }
            self.cpu_accumulator = self.cpu_accumulator - self.cpu_step;
        }
        proof {
            lemma_fundamental_div_mod_converse(
                cpu_total as int,
                self.cpu_step as int,
                randoms.len() as int,
                self.cpu_accumulator as int,
            );
        }
        let ghost mut ticked: nat = 0;
        while self.timer_accumulator >= self.timer_step
            invariant
                self.cpu_step == old(self).cpu_step,
                self.timer_step == old(self).timer_step,
                self.cpu_accumulator + randoms.len() * self.cpu_step == cpu_total,
                self.cpu_accumulator <= cpu_total,
                cpu_total <= MAX_DURATION_NANOS,
                timer_total <= MAX_DURATION_NANOS,
                self.timer_accumulator <= timer_total,
                0 < self.cpu_step <= MAX_DURATION_NANOS,
                0 < self.timer_step <= MAX_DURATION_NANOS,
                self.timer_accumulator + ticked * self.timer_step == timer_total,
                self.chip8@ == ticks(run_steps(m0, randoms).0, ticked),
                self.chip8.wf(),
            decreases self.timer_accumulator,
        {
            self.chip8.tick_timers();
            proof {
                assert((ticked + 1) * self.timer_step == ticked * self.timer_step + self.timer_step)
                    by (nonlinear_arith);
                ticked = ticked + 1;
            }
            self.timer_accumulator = self.timer_accumulator - self.timer_step;
        }
        proof {
            lemma_fundamental_div_mod_converse(
                timer_total as int,
                self.timer_step as int,
                ticked as int,
                self.timer_accumulator as int,
            );
            assert(run_steps(m0, randoms).1 is Ok);
            assert(runs_due_steps(*old(self), *self, elapsed, Ok(()), randoms));
        }
        Ok(())
    }

    /// Clear all CPU, memory, and display state back to a fresh boot.
    /// Does not reload a ROM; follow with [`Emulator::load_rom`].
    pub fn reset(&mut self)
        requires
            old(self).wf(),
        ensures
            final(self).wf(),
            final(self).machine() == crate::chip8::reset_model(old(self).machine()),
            final(self).cpu_pending() == old(self).cpu_pending(),
            final(self).timer_pending() == old(self).timer_pending(),
            final(self).cpu_step_nanos() == old(self).cpu_step_nanos(),
            final(self).timer_step_nanos() == old(self).timer_step_nanos(),
    {
        self.chip8.reset();
    }

    /// Mark a CHIP-8 key as pressed.
    pub fn key_down(&mut self, key: usize) -> (r: Result<(), Chip8Error>)
        requires
            old(self).wf(),
        ensures
            final(self).wf(),
            final(self).clocks_unchanged(*old(self)),
            key < NUM_KEYS ==> r == Ok::<(), Chip8Error>(()) && final(self).machine() == (
            MachineState { keys: old(self).machine().keys.update(key as int, true), ..old(self).machine() }),
            key >= NUM_KEYS ==> r == Err::<(), Chip8Error>(Chip8Error::KeypadOutOfBounds { key })
                && final(self).machine() == old(self).machine(),
    {
        self.chip8.key_down(key)
    }

    /// Perform a single CPU step, ignoring its error.
    pub fn step(&mut self)
        requires
            old(self).wf(),
        ensures
            final(self).wf(),
            final(self).clocks_unchanged(*old(self)),
            exists|random: u8|
                final(self).machine() == (#[trigger] step_model(old(self).machine(), random)).0,
    {
        let ghost before = self.chip8@;
        let _ = self.chip8.step();
        proof {
            let random = choose|random: u8| self.chip8@ == (#[trigger] step_model(before, random)).0;
            assert(self.machine() == step_model(old(self).machine(), random).0);
        }
    }

    /// Mark a CHIP-8 key as released.
    pub fn key_up(&mut self, key: usize) -> (r: Result<(), Chip8Error>)
        requires
            old(self).wf(),
        ensures
            final(self).wf(),
            final(self).clocks_unchanged(*old(self)),
            key < NUM_KEYS ==> r == Ok::<(), Chip8Error>(()) && final(self).machine() == (
            MachineState { keys: old(self).machine().keys.update(key as int, false), ..old(self).machine() }),
            key >= NUM_KEYS ==> r == Err::<(), Chip8Error>(Chip8Error::KeypadOutOfBounds { key })
                && final(self).machine() == old(self).machine(),
    {
        self.chip8.key_up(key)
    }

    /// Return whether the sound timer is active.
    pub fn is_beeping(&self) -> (b: bool)
        ensures
            b == (self.machine().sound_timer > 0),
    {
        self.chip8.is_beeping()
    }

    /// Borrow the current display object.
    pub fn display(&self) -> (d: &Display)
        ensures
            d@ == self.machine().pixels,
            d.is_dirty() == self.machine().dirty,
    {
        self.chip8.get_display()
    }

    /// Take the display's dirty flag, returning whether it has changed since
    /// the last call.
    pub fn display_take_dirty(&mut self) -> (was_dirty: bool)
        requires
            old(self).wf(),
        ensures
            final(self).wf(),
            final(self).clocks_unchanged(*old(self)),
            was_dirty == old(self).machine().dirty,
            final(self).machine() == (MachineState { dirty: false, ..old(self).machine() }),
    {
        self.chip8.display_take_dirty()
    }

    /// Load a ROM and reset the program counter to its start address.
    pub fn load_rom(&mut self, rom: &[u8]) -> (r: Result<(), Chip8Error>)
        requires
            old(self).wf(),
        ensures
            final(self).wf(),
            final(self).clocks_unchanged(*old(self)),
            rom@.len() <= MAX_ROM_SIZE ==> r == Ok::<(), Chip8Error>(()) && final(self).machine()
                == (MachineState {
                memory: crate::memory::with_bytes(
                    old(self).machine().memory,
                    crate::memory::ROM_START_ADDR as int,
                    rom@,
                ),
                pc: crate::memory::ROM_START_ADDR as int,
                ..old(self).machine()
            }),
            rom@.len() > MAX_ROM_SIZE ==> r == Err::<(), Chip8Error>(
                Chip8Error::RomTooLarge { size: rom@.len() as usize, max_size: MAX_ROM_SIZE },
            ) && final(self).machine() == old(self).machine(),
    {
        self.chip8.load_rom(rom)
    }

    /// Replace the interpreter's compatibility settings, taking effect on the
    /// next instruction.
    pub fn set_config(&mut self, config: Config)
        requires
            old(self).wf(),
        ensures
            final(self).wf(),
            final(self).clocks_unchanged(*old(self)),
            final(self).machine() == (MachineState { config, ..old(self).machine() }),
    {
        self.chip8.config = config;
    }

    /// Copy the current CPU state for inspection.
    pub fn get_state(&self) -> (s: CpuState)
        ensures
            s.registers@ == self.machine().registers,
            s.stack@ == self.machine().stack,
            s.pc == self.machine().pc,
            s.index == self.machine().index,
            s.sp == self.machine().sp,
            s.delay_timer == self.machine().delay_timer,
            s.sound_timer == self.machine().sound_timer,
    {
        self.chip8.get_state()
    }

    /// Borrow the full 4 KiB memory space.
    pub fn get_memory_content(&self) -> (content: &[u8; 4096])
        ensures
            content@ == self.machine().memory,
    {
        self.chip8.get_memory_content()
    }

    /// The clocks of `self` are those of `other`.
    pub open spec fn clocks_unchanged(&self, other: Emulator) -> bool {
        &&& self.cpu_step_nanos() == other.cpu_step_nanos()
        &&& self.timer_step_nanos() == other.timer_step_nanos()
        &&& self.cpu_pending() == other.cpu_pending()
        &&& self.timer_pending() == other.timer_pending()
    }
}

/// `after` is `before` advanced by `elapsed` nanoseconds with result `r`,
/// the CPU steps drawing `randoms`: every due step runs unless one fails,
/// which ends the update before the timers tick; otherwise every due tick
/// follows. Unspent time stays pending.
pub open spec fn runs_due_steps(
    before: Emulator,
    after: Emulator,
    elapsed: u128,
    r: Result<(), Chip8Error>,
    randoms: Seq<u8>,
) -> bool {
    let cpu_total = before.cpu_pending() + elapsed;
    let timer_total = before.timer_pending() + elapsed;
    let due = cpu_total / before.cpu_step_nanos();
    let (stepped, result, done) = run_steps(before.machine(), randoms);
    &&& randoms.len() <= due
    &&& r == result
    &&& result is Ok ==> randoms.len() == due
    &&& result is Err ==> randoms.len() == done + 1
    &&& after.cpu_pending() == cpu_total - done * before.cpu_step_nanos()
    &&& result is Ok ==> after.machine() == ticks(
        stepped,
        (timer_total / before.timer_step_nanos()) as nat,
    ) && after.timer_pending() == timer_total % before.timer_step_nanos()
    &&& result is Err ==> after.machine() == stepped && after.timer_pending() == timer_total
}

/// An error-free update conserves time: the CPU steps it ran and the time
/// left pending make up the pending time plus `elapsed`, and likewise the
/// timer ticks it ran, with less than one step or tick left over.
pub proof fn law_update_conserves_time(
    before: Emulator,
    after: Emulator,
    elapsed: u128,
    randoms: Seq<u8>,
)
    requires
        before.wf(),
        runs_due_steps(before, after, elapsed, Ok(()), randoms),
    ensures
        randoms.len() * before.cpu_step_nanos() + after.cpu_pending() == before.cpu_pending()
            + elapsed,
        0 <= after.cpu_pending() < before.cpu_step_nanos(),
        exists|k: nat|
            #![trigger ticks(run_steps(before.machine(), randoms).0, k)]
            after.machine() == ticks(run_steps(before.machine(), randoms).0, k) && k
                * before.timer_step_nanos() + after.timer_pending() == before.timer_pending()
                + elapsed,
        0 <= after.timer_pending() < before.timer_step_nanos(),
{
    let cs = before.cpu_step_nanos();
    let ts = before.timer_step_nanos();
    lemma_ok_run_counts_every_step(before.machine(), randoms);
    let ct = before.cpu_pending() + elapsed;
    let tt = before.timer_pending() + elapsed;
    vstd::arithmetic::div_mod::lemma_fundamental_div_mod(ct, cs);
    vstd::arithmetic::div_mod::lemma_mod_pos_bound(ct, cs);
    vstd::arithmetic::div_mod::lemma_fundamental_div_mod(tt, ts);
    vstd::arithmetic::div_mod::lemma_mod_pos_bound(tt, ts);
    assert(cs * (ct / cs) == (ct / cs) * cs) by (nonlinear_arith);
    let k = (tt / ts) as nat;
    assert(ts * (tt / ts) == k * ts) by (nonlinear_arith)
        requires
            k == tt / ts,
    ;
    assert(after.machine() == ticks(run_steps(before.machine(), randoms).0, k));
}

/// Splitting elapsed time over two error-free updates runs as many CPU steps
/// and timer ticks, and leaves as much time pending, as one update over the
/// whole time would: no time is lost or counted twice between updates.
pub proof fn law_updates_split_time(
    e0: Emulator,
    e1: Emulator,
    e2: Emulator,
    a: u128,
    b: u128,
    ra: Seq<u8>,
    rb: Seq<u8>,
)
    requires
        e0.wf(),
        e1.wf(),
        e1.cpu_step_nanos() == e0.cpu_step_nanos(),
        e1.timer_step_nanos() == e0.timer_step_nanos(),
        runs_due_steps(e0, e1, a, Ok(()), ra),
        runs_due_steps(e1, e2, b, Ok(()), rb),
    ensures
        ra.len() + rb.len() == (e0.cpu_pending() + a + b) / e0.cpu_step_nanos(),
        e2.cpu_pending() == (e0.cpu_pending() + a + b) % e0.cpu_step_nanos(),
        e2.timer_pending() == (e0.timer_pending() + a + b) % e0.timer_step_nanos(),
        exists|k1: nat, k2: nat|
            #![trigger ticks(run_steps(e0.machine(), ra).0, k1), ticks(run_steps(e1.machine(), rb).0, k2)]
            e1.machine() == ticks(run_steps(e0.machine(), ra).0, k1) && e2.machine() == ticks(
                run_steps(e1.machine(), rb).0,
                k2,
            ) && k1 + k2 == (e0.timer_pending() + a + b) / e0.timer_step_nanos(),
{
    let cs = e0.cpu_step_nanos();
    let ts = e0.timer_step_nanos();
    law_update_conserves_time(e0, e1, a, ra);
    law_update_conserves_time(e1, e2, b, rb);
    let k1 = choose|k: nat|
        #![trigger ticks(run_steps(e0.machine(), ra).0, k)]
        e1.machine() == ticks(run_steps(e0.machine(), ra).0, k) && k * ts + e1.timer_pending()
            == e0.timer_pending() + a;
    let k2 = choose|k: nat|
        #![trigger ticks(run_steps(e1.machine(), rb).0, k)]
        e2.machine() == ticks(run_steps(e1.machine(), rb).0, k) && k * ts + e2.timer_pending()
            == e1.timer_pending() + b;
    let total_t = e0.timer_pending() + a + b;
    assert(total_t == (k1 + k2) * ts + e2.timer_pending()) by (nonlinear_arith)
        requires
            k1 * ts + e1.timer_pending() == e0.timer_pending() + a,
            k2 * ts + e2.timer_pending() == e1.timer_pending() + b,
            total_t == e0.timer_pending() + a + b,
    ;
    lemma_fundamental_div_mod_converse(total_t, ts, (k1 + k2) as int, e2.timer_pending());
    let total_c = e0.cpu_pending() + a + b;
    let n1 = ra.len() as int;
    let n2 = rb.len() as int;
    assert(total_c == (n1 + n2) * cs + e2.cpu_pending()) by (nonlinear_arith)
        requires
            n1 * cs + e1.cpu_pending() == e0.cpu_pending() + a,
            n2 * cs + e2.cpu_pending() == e1.cpu_pending() + b,
            total_c == e0.cpu_pending() + a + b,
    ;
    lemma_fundamental_div_mod_converse(total_c, cs, n1 + n2, e2.cpu_pending());
}

/// A run of steps that ends without error ran every one of its steps.
proof fn lemma_ok_run_counts_every_step(m: MachineState, randoms: Seq<u8>)
    ensures
        run_steps(m, randoms).1 is Ok ==> run_steps(m, randoms).2 == randoms.len(),
    decreases randoms.len(),
{
    if randoms.len() > 0 {
        lemma_ok_run_counts_every_step(m, randoms.drop_last());
    }
}

/// `x / d` is at least `q` when `q * d <= x`.
proof fn lemma_div_lower_bound(x: int, d: int, q: int)
    requires
        0 < d,
        0 <= q,
        q * d <= x,
    ensures
        q <= x / d,
{
    vstd::arithmetic::div_mod::lemma_fundamental_div_mod(x, d);
    vstd::arithmetic::div_mod::lemma_mod_pos_bound(x, d);
    if x / d < q {
        let p = x / d;
        let m = x % d;
        assert(false) by (nonlinear_arith)
            requires
                x == d * p + m,
                0 <= m < d,
                p < q,
                q * d <= x,
                0 < d,
        ;
    }
}

} // verus!
