//! The emulator: a machine together with the timeline of the loop that
//! drives it.

use crate::chip8_cpu::Chip8Cpu;
use crate::error::Chip8Error;
use crate::machine::Machine;
use crate::timeline::Timeline;
use vstd::prelude::*;

verus! {

/// A machine and the timeline on which it is driven.
pub struct TinyChip8 {
    /// The machine.
    pub cpu: Chip8Cpu,
    /// The clocks of the loop.
    pub clock: Timeline,
}

impl TinyChip8 {
    /// An emulator whose machine is at power-on and on whose timeline no
    /// time has passed.
    pub fn initialize() -> (emulator: TinyChip8)
        ensures
            emulator.cpu@ == Machine::initial(),
            emulator.clock == (Timeline { cycle_clock: 0, sync_clock: 0 }),
    {
        TinyChip8 { cpu: Chip8Cpu::start(), clock: Timeline::new() }
    }

    /// Loads the program `rom` and puts the timeline at its start, ready for
    /// the loop to run.
    ///
    /// A program of more than 3584 bytes is refused with a diagnostic, and
    /// neither machine nor timeline changes.
    pub fn start(&mut self, rom: &[u8]) -> (r: Result<(), String>)
        ensures
            rom@.len() <= 3584 ==> r is Ok && final(self).cpu@ == old(self).cpu@.load(rom@)
                && final(self).clock == (Timeline { cycle_clock: 0, sync_clock: 0 }),
            rom@.len() > 3584 ==> r is Err && r->Err_0@ == Chip8Error::LoadTooLarge.spec_message()
                && final(self).cpu@ == old(self).cpu@ && final(self).clock == old(self).clock,
    {
        match self.cpu.load_game(rom) {
            Ok(()) => {
                self.clock = Timeline::new();
                Ok(())
            },
            Err(error) => Err(error.message()),
        }
    }
}

} // verus!
