//! The mathematical model of the machine: its state as plain sequences and
//! integers, and the effect of every instruction as a function on that state.
//!
//! The executable interpreter is specified against these functions.

use crate::constants::FONT_SET;
use crate::error::Chip8Error;
use crate::sprite::{collides, draw, lemma_draw_twice, lemma_flip};
use crate::timeline::Timeline;
use vstd::prelude::*;

verus! {

/// How the attempt to run one instruction ended.
#[derive(Clone, Copy, Debug, PartialEq, Eq, Structural)]
pub enum Step {
    /// A known instruction ran.
    Executed,
    /// The word is no known instruction: it was passed over as a no-op.
    Unknown,
    /// The instruction waits for a key and none was supplied: nothing changed.
    AwaitKey,
}

/// What one cycle reports to the loop that drives the machine.
#[derive(Clone, Copy, Debug, PartialEq, Eq, Structural)]
pub struct CycleReport {
    /// The instruction word that was fetched.
    pub opcode: u16,
    /// How running it ended.
    pub step: Step,
    /// Whether the sound timer reached zero in this cycle.
    pub beep: bool,
}

/// What one turn of the loop reports to its caller.
#[derive(Clone, Copy, Debug, PartialEq, Eq)]
pub struct LoopReport {
    /// The report of the processor cycle, if one was due.
    pub cycle: Option<CycleReport>,
    /// Whether a synchronization was due: the display is to be shown and the
    /// keypad read.
    pub sync: bool,
}

/// The state of the machine.
#[verifier::ext_equal]
pub struct Machine {
    /// The 4096 bytes of memory.
    pub memory: Seq<u8>,
    /// The registers `V0..VF`.
    pub v: Seq<u8>,
    /// The index register.
    pub i: int,
    /// The program counter.
    pub pc: int,
    /// The return addresses of the calls in progress, oldest first.
    pub stack: Seq<int>,
    /// The delay timer.
    pub delay_timer: u8,
    /// The sound timer.
    pub sound_timer: u8,
    /// The display, row by row, one cell per entry.
    pub gfx: Seq<u8>,
    /// Which keys of the keypad are held down.
    pub key: Seq<bool>,
}

/// The top four bits of an instruction word, which select its group.
pub open spec fn op_group(op: u16) -> int {
    op as int / 4096
}

/// Bits 8 to 11 of an instruction word: the first register selector.
pub open spec fn op_x(op: u16) -> int {
    (op as int / 256) % 16
}

/// Bits 4 to 7 of an instruction word: the second register selector.
pub open spec fn op_y(op: u16) -> int {
    (op as int / 16) % 16
}

/// The low byte of an instruction word: an immediate value.
pub open spec fn op_kk(op: u16) -> int {
    op as int % 256
}

/// The low twelve bits of an instruction word: an address.
pub open spec fn op_nnn(op: u16) -> int {
    op as int % 4096
}

/// The low four bits of an instruction word: a count.
pub open spec fn op_n(op: u16) -> int {
    op as int % 16
}

/// Whether an instruction word is one of the known instructions.
pub open spec fn op_known(op: u16) -> bool {
    let g = op_group(op);
    let kk = op_kk(op);
    let n = op_n(op);
    if g == 0x0 {
        kk == 0xE0 || kk == 0xEE
    } else if g == 0x8 {
        n <= 7 || n == 0xE
    } else if g == 0xE {
        kk == 0x9E || kk == 0xA1
    } else if g == 0xF {
        kk == 0x07 || kk == 0x0A || kk == 0x15 || kk == 0x18 || kk == 0x1E || kk == 0x29
            || kk == 0x33 || kk == 0x55 || kk == 0x65
    } else {
        true
    }
}

/// Whether an instruction word sets the program counter to a target of its own.
pub open spec fn op_jumps(op: u16) -> bool {
    let g = op_group(op);
    g == 0x1 || g == 0x2 || g == 0xB || (g == 0x0 && op_kk(op) == 0xEE)
}

/// Whether an instruction word is a conditional skip.
pub open spec fn op_skips(op: u16) -> bool {
    let g = op_group(op);
    g == 0x3 || g == 0x4 || g == 0x5 || g == 0x9 || (g == 0xE && op_known(op))
}

impl Machine {
    /// The invariant of the state: sizes of the tables, addresses within the
    /// twelve-bit address space, at most sixteen calls in progress, and
    /// display cells that are 0 or 1.
    pub open spec fn wf(self) -> bool {
        &&& self.memory.len() == 4096
        &&& self.v.len() == 16
        &&& 0 <= self.i < 4096
        &&& 0 <= self.pc < 4096
        &&& self.stack.len() <= 16
        &&& forall|k: int| 0 <= k < self.stack.len() ==> 0 <= #[trigger] self.stack[k] < 4096
        &&& self.gfx.len() == 2048
        &&& forall|k: int| 0 <= k < 2048 ==> #[trigger] self.gfx[k] <= 1
        &&& self.key.len() == 16
    }

    /// The state at power-on: the font at the base of memory, the program
    /// counter at the program start, and everything else zero.
    pub open spec fn initial() -> Machine {
        Machine {
            memory: Seq::new(
                4096,
                |a: int|
                    if 0 <= a < 80 {
                        FONT_SET[a]
                    } else {
                        0u8
                    },
            ),
            v: Seq::new(16, |k: int| 0u8),
            i: 0,
            pc: 0x200,
            stack: Seq::empty(),
            delay_timer: 0,
            sound_timer: 0,
            gfx: Seq::new(2048, |k: int| 0u8),
            key: Seq::new(16, |k: int| false),
        }
    }

    /// The state after a program is copied to memory from the program start.
    pub open spec fn load(self, rom: Seq<u8>) -> Machine {
        Machine {
            memory: Seq::new(
                4096,
                |a: int|
                    if 0x200 <= a < 0x200 + rom.len() {
                        rom[a - 0x200]
                    } else {
                        self.memory[a]
                    },
            ),
            ..self
        }
    }

    /// The instruction word at the program counter: two bytes, high byte
    /// first, the second taken from the next address within the address space.
    pub open spec fn fetch(self) -> u16 {
        (self.memory[self.pc] as int * 256 + self.memory[(self.pc + 1) % 4096] as int) as u16
    }

    /// The program counter moved past one instruction.
    pub open spec fn advance(self) -> Machine {
        Machine { pc: (self.pc + 2) % 4096, ..self }
    }

    /// The program counter moved past one instruction, and past a second one
    /// if the skip is taken.
    pub open spec fn skip_if(self, taken: bool) -> Machine {
        if taken {
            self.advance().advance()
        } else {
            self.advance()
        }
    }

    /// Register `x` set to `value`.
    pub open spec fn set_v(self, x: int, value: u8) -> Machine {
        Machine { v: self.v.update(x, value), ..self }
    }

    /// The flag register set to 1 or 0.
    pub open spec fn set_flag(self, on: bool) -> Machine {
        self.set_v(
            0xF,
            if on {
                1u8
            } else {
                0u8
            },
        )
    }

    /// `00E0`: every cell of the display cleared.
    pub open spec fn cls(self) -> Machine {
        Machine { gfx: Seq::new(2048, |k: int| 0u8), ..self }.advance()
    }

    /// `00EE`: execution resumes behind the call whose return address is on
    /// top of the stack.
    pub open spec fn ret(self) -> Machine {
        Machine { pc: self.stack.last(), stack: self.stack.drop_last(), ..self }.advance()
    }

    /// `1nnn`: jump to `nnn`.
    pub open spec fn jp_nnn(self, nnn: int) -> Machine {
        Machine { pc: nnn, ..self }
    }

    /// `2nnn`: the program counter is pushed and execution goes on at `nnn`.
    pub open spec fn call_nnn(self, nnn: int) -> Machine {
        Machine { pc: nnn, stack: self.stack.push(self.pc), ..self }
    }

    /// `3xkk`: skip if `Vx == kk`.
    pub open spec fn se_vx_kk(self, x: int, kk: int) -> Machine {
        self.skip_if(self.v[x] == kk)
    }

    /// `4xkk`: skip if `Vx != kk`.
    pub open spec fn sne_vx_kk(self, x: int, kk: int) -> Machine {
        self.skip_if(self.v[x] != kk)
    }

    /// `5xy0`: skip if `Vx == Vy`.
    pub open spec fn se_vx_vy(self, x: int, y: int) -> Machine {
        self.skip_if(self.v[x] == self.v[y])
    }

    /// `6xkk`: `Vx := kk`.
    pub open spec fn ld_vx_kk(self, x: int, kk: int) -> Machine {
        self.set_v(x, kk as u8).advance()
    }

    /// `7xkk`: `Vx := Vx + kk` modulo 256; the flag is untouched.
    pub open spec fn add_vx_kk(self, x: int, kk: int) -> Machine {
        self.set_v(x, ((self.v[x] + kk) % 256) as u8).advance()
    }

    /// `8xy0`: `Vx := Vy`.
    pub open spec fn ld_vx_vy(self, x: int, y: int) -> Machine {
        self.set_v(x, self.v[y]).advance()
    }

    /// `8xy1`: `Vx := Vx | Vy`.
    pub open spec fn or_vx_vy(self, x: int, y: int) -> Machine {
        self.set_v(x, self.v[x] | self.v[y]).advance()
    }

    /// `8xy2`: `Vx := Vx & Vy`.
    pub open spec fn and_vx_vy(self, x: int, y: int) -> Machine {
        self.set_v(x, self.v[x] & self.v[y]).advance()
    }

    /// `8xy3`: `Vx := Vx ^ Vy`.
    pub open spec fn xor_vx_vy(self, x: int, y: int) -> Machine {
        self.set_v(x, self.v[x] ^ self.v[y]).advance()
    }

    /// `8xy4`: `Vx := Vx + Vy` modulo 256, then the flag is set to the carry.
    /// Both operands are read before anything is written.
    pub open spec fn add_vx_vy(self, x: int, y: int) -> Machine {
        let sum = self.v[x] + self.v[y];
        self.set_v(x, (sum % 256) as u8).set_flag(sum > 255).advance()
    }

    /// `8xy5`: `Vx := Vx - Vy` modulo 256, then the flag is set to 1 if
    /// nothing was borrowed.
    pub open spec fn sub_vx_vy(self, x: int, y: int) -> Machine {
        let difference = self.v[x] - self.v[y];
        self.set_v(x, (difference % 256) as u8).set_flag(self.v[x] >= self.v[y]).advance()
    }

    /// `8xy6`: `Vx` halved, then the flag is set to the bit shifted out.
    pub open spec fn shr(self, x: int) -> Machine {
        self.set_v(x, self.v[x] / 2).set_flag(self.v[x] % 2 == 1).advance()
    }

    /// `8xy7`: `Vx := Vy - Vx` modulo 256, then the flag is set to 1 if
    /// nothing was borrowed.
    pub open spec fn subn_vx_vy(self, x: int, y: int) -> Machine {
        let difference = self.v[y] - self.v[x];
        self.set_v(x, (difference % 256) as u8).set_flag(self.v[y] >= self.v[x]).advance()
    }

    /// `8xyE`: `Vx` doubled modulo 256, then the flag is set to the bit
    /// shifted out.
    pub open spec fn shl(self, x: int) -> Machine {
        self.set_v(x, ((self.v[x] * 2) % 256) as u8).set_flag(self.v[x] >= 128).advance()
    }

    /// `9xy0`: skip if `Vx != Vy`.
    pub open spec fn sne_vx_vy(self, x: int, y: int) -> Machine {
        self.skip_if(self.v[x] != self.v[y])
    }

    /// `Annn`: `I := nnn`.
    pub open spec fn ld_i_nnn(self, nnn: int) -> Machine {
        Machine { i: nnn, ..self }.advance()
    }

    /// `Bnnn`: jump to `nnn + V0` within the address space.
    pub open spec fn jp_v0_nnn(self, nnn: int) -> Machine {
        Machine { pc: (nnn + self.v[0]) % 4096, ..self }
    }

    /// `Cxkk`: `Vx := kk & random`, for the random byte that was drawn.
    pub open spec fn rnd_vx_kk(self, x: int, kk: int, random: u8) -> Machine {
        self.set_v(x, (kk as u8) & random).advance()
    }

    /// `Dxyn`: the `n`-row sprite at `I` is combined into the display by
    /// exclusive or, its corner at column `Vx` and row `Vy`; then the flag is
    /// set to 1 if a lit cell went dark.
    pub open spec fn drw_vx_vy_n(self, x: int, y: int, n: int) -> Machine {
        let vx = self.v[x] as int;
        let vy = self.v[y] as int;
        Machine { gfx: draw(self.gfx, self.memory, self.i, vx, vy, n), ..self }.set_flag(
            collides(self.gfx, self.memory, self.i, vx, vy, n),
        ).advance()
    }

    /// Whether the key that `Vx` names is held down. Only the low four bits
    /// of `Vx` name a key.
    pub open spec fn key_down(self, x: int) -> bool {
        self.key[self.v[x] as int % 16]
    }

    /// `Ex9E`: skip if the key that `Vx` names is held down.
    pub open spec fn skp_vx(self, x: int) -> Machine {
        self.skip_if(self.key_down(x))
    }

    /// `ExA1`: skip if the key that `Vx` names is not held down.
    pub open spec fn sknp_vx(self, x: int) -> Machine {
        self.skip_if(!self.key_down(x))
    }

    /// `Fx07`: `Vx := delay timer`.
    pub open spec fn ld_vx_dt(self, x: int) -> Machine {
        self.set_v(x, self.delay_timer).advance()
    }

    /// `Fx0A`, once a key was pressed: `Vx := key`.
    pub open spec fn ld_vx_k(self, x: int, key: u8) -> Machine {
        self.set_v(x, key).advance()
    }

    /// `Fx15`: `delay timer := Vx`.
    pub open spec fn ld_dt_vx(self, x: int) -> Machine {
        Machine { delay_timer: self.v[x], ..self }.advance()
    }

    /// `Fx18`: `sound timer := Vx`.
    pub open spec fn ld_st_vx(self, x: int) -> Machine {
        Machine { sound_timer: self.v[x], ..self }.advance()
    }

    /// `Fx1E`: `I := I + Vx` within the address space.
    pub open spec fn add_i_vx(self, x: int) -> Machine {
        Machine { i: (self.i + self.v[x]) % 4096, ..self }.advance()
    }

    /// `Fx29`: `I :=` the address of the glyph of digit `Vx`.
    pub open spec fn ld_f_vx(self, x: int) -> Machine {
        Machine { i: 5 * self.v[x], ..self }.advance()
    }

    /// `Fx33`: the hundreds, tens and units digits of `Vx` are stored at
    /// `I`, `I + 1` and `I + 2`, addresses taken within the address space.
    pub open spec fn ld_b_vx(self, x: int) -> Machine {
        let value = self.v[x];
        Machine {
            memory: self.memory.update(self.i, value / 100).update(
                (self.i + 1) % 4096,
                (value / 10) % 10,
            ).update((self.i + 2) % 4096, value % 10),
            ..self
        }.advance()
    }

    /// `Fx55`: `V0..Vx` are stored from `I` upward, addresses taken within
    /// the address space; then `I := I + x + 1`.
    pub open spec fn ld_i_vx(self, x: int) -> Machine {
        Machine {
            memory: Seq::new(
                4096,
                |a: int|
                    if (a - self.i) % 4096 <= x {
                        self.v[(a - self.i) % 4096]
                    } else {
                        self.memory[a]
                    },
            ),
            i: (self.i + x + 1) % 4096,
            ..self
        }.advance()
    }

    /// `Fx65`: `V0..Vx` are read from `I` upward, addresses taken within the
    /// address space; then `I := I + x + 1`.
    pub open spec fn ld_vx_i(self, x: int) -> Machine {
        Machine {
            v: Seq::new(
                16,
                |k: int|
                    if k <= x {
                        self.memory[(self.i + k) % 4096]
                    } else {
                        self.v[k]
                    },
            ),
            i: (self.i + x + 1) % 4096,
            ..self
        }.advance()
    }

    /// How the attempt to run the instruction word `op` ends, with `key` the
    /// key press at hand, if any.
    pub open spec fn outcome(self, op: u16, key: Option<u8>) -> Result<Step, Chip8Error> {
        let g = op_group(op);
        if g == 0x0 && op_kk(op) == 0xEE && self.stack.len() == 0 {
            Err(Chip8Error::StackUnderflow)
        } else if g == 0x2 && self.stack.len() == 16 {
            Err(Chip8Error::StackOverflow)
        } else if g == 0xF && op_kk(op) == 0x0A && key is None {
            Ok(Step::AwaitKey)
        } else if op_known(op) {
            Ok(Step::Executed)
        } else {
            Ok(Step::Unknown)
        }
    }

    /// The state after the known instruction word `op` ran, with `random` the
    /// byte drawn for `Cxkk` and `key` the key pressed for `Fx0A`.
    pub open spec fn run(self, op: u16, random: u8, key: u8) -> Machine {
        let g = op_group(op);
        let x = op_x(op);
        let y = op_y(op);
        let kk = op_kk(op);
        let nnn = op_nnn(op);
        let n = op_n(op);
        if g == 0x0 {
            if kk == 0xE0 {
                self.cls()
            } else {
                self.ret()
            }
        } else if g == 0x1 {
            self.jp_nnn(nnn)
        } else if g == 0x2 {
            self.call_nnn(nnn)
        } else if g == 0x3 {
            self.se_vx_kk(x, kk)
        } else if g == 0x4 {
            self.sne_vx_kk(x, kk)
        } else if g == 0x5 {
            self.se_vx_vy(x, y)
        } else if g == 0x6 {
            self.ld_vx_kk(x, kk)
        } else if g == 0x7 {
            self.add_vx_kk(x, kk)
        } else if g == 0x8 {
            if n == 0x0 {
                self.ld_vx_vy(x, y)
            } else if n == 0x1 {
                self.or_vx_vy(x, y)
            } else if n == 0x2 {
                self.and_vx_vy(x, y)
            } else if n == 0x3 {
                self.xor_vx_vy(x, y)
            } else if n == 0x4 {
                self.add_vx_vy(x, y)
            } else if n == 0x5 {
                self.sub_vx_vy(x, y)
            } else if n == 0x6 {
                self.shr(x)
            } else if n == 0x7 {
                self.subn_vx_vy(x, y)
            } else {
                self.shl(x)
            }
        } else if g == 0x9 {
            self.sne_vx_vy(x, y)
        } else if g == 0xA {
            self.ld_i_nnn(nnn)
        } else if g == 0xB {
            self.jp_v0_nnn(nnn)
        } else if g == 0xC {
            self.rnd_vx_kk(x, kk, random)
        } else if g == 0xD {
            self.drw_vx_vy_n(x, y, n)
        } else if g == 0xE {
            if kk == 0x9E {
                self.skp_vx(x)
            } else {
                self.sknp_vx(x)
            }
        } else {
            if kk == 0x07 {
                self.ld_vx_dt(x)
            } else if kk == 0x0A {
                self.ld_vx_k(x, key)
            } else if kk == 0x15 {
                self.ld_dt_vx(x)
            } else if kk == 0x18 {
                self.ld_st_vx(x)
            } else if kk == 0x1E {
                self.add_i_vx(x)
            } else if kk == 0x29 {
                self.ld_f_vx(x)
            } else if kk == 0x33 {
                self.ld_b_vx(x)
            } else if kk == 0x55 {
                self.ld_i_vx(x)
            } else {
                self.ld_vx_i(x)
            }
        }
    }

    /// The state after the attempt to run the instruction word `op`: the
    /// effect of a known instruction, a step past an unknown one, and no
    /// change where the attempt fails or waits for a key.
    pub open spec fn execute(self, op: u16, random: u8, key: Option<u8>) -> Machine {
        match self.outcome(op, key) {
            Ok(Step::Executed) => self.run(
                op,
                random,
                match key {
                    Some(k) => k,
                    None => 0u8,
                },
            ),
            Ok(Step::Unknown) => self.advance(),
            _ => self,
        }
    }

    /// Both timers count down by one, stopping at zero.
    pub open spec fn tick_timers(self) -> Machine {
        Machine {
            delay_timer: if self.delay_timer > 0 {
                (self.delay_timer - 1) as u8
            } else {
                0u8
            },
            sound_timer: if self.sound_timer > 0 {
                (self.sound_timer - 1) as u8
            } else {
                0u8
            },
            ..self
        }
    }

    /// Whether the next tick of the timers takes the sound timer to zero.
    pub open spec fn beeps(self) -> bool {
        self.sound_timer == 1
    }

    /// The state after one cycle: the instruction at the program counter is
    /// attempted and, unless the attempt fails or waits for a key, the timers
    /// tick.
    pub open spec fn cycle(self, random: u8, key: Option<u8>) -> Machine {
        let op = self.fetch();
        match self.outcome(op, key) {
            Ok(Step::Executed) | Ok(Step::Unknown) => self.execute(op, random, key).tick_timers(),
            _ => self,
        }
    }

    /// What one cycle reports.
    pub open spec fn cycle_report(self, random: u8, key: Option<u8>) -> Result<
        CycleReport,
        Chip8Error,
    > {
        let op = self.fetch();
        match self.outcome(op, key) {
            Err(e) => Err(e),
            Ok(Step::AwaitKey) => Ok(CycleReport { opcode: op, step: Step::AwaitKey, beep: false }),
            Ok(step) => Ok(
                CycleReport { opcode: op, step, beep: self.execute(op, random, key).beeps() },
            ),
        }
    }

    /// One turn of the loop after `elapsed` microseconds: the machine, the
    /// timeline and the report that result. The time is gathered on both
    /// clocks. A processor cycle is run if one is due; where it fails, the
    /// turn ends with the failure and a due synchronization stays due. A due
    /// synchronization is taken from the timeline and reported.
    pub open spec fn emulate(self, clock: Timeline, elapsed: u64, random: u8) -> (
        Machine,
        Timeline,
        Result<LoopReport, Chip8Error>,
    ) {
        let gathered = clock.advanced(elapsed);
        let sync = gathered.sync_due();
        if gathered.cycle_due() {
            match self.cycle_report(random, None) {
                Ok(report) => (
                    self.cycle(random, None),
                    gathered.after_cycle().after_sync(),
                    Ok(LoopReport { cycle: Some(report), sync }),
                ),
                Err(e) => (self, gathered.after_cycle(), Err(e)),
            }
        } else {
            (self, gathered.after_sync(), Ok(LoopReport { cycle: None, sync }))
        }
    }

    /// The address at which execution goes on after an instruction that sets
    /// the program counter itself: a jump, a call or a return.
    pub open spec fn jump_target(self, op: u16) -> int {
        let g = op_group(op);
        if g == 0x0 {
            (self.stack.last() + 2) % 4096
        } else if g == 0xB {
            (op_nnn(op) + self.v[0]) % 4096
        } else {
            op_nnn(op)
        }
    }

    /// Whether the condition of a conditional skip holds.
    pub open spec fn skip_taken(self, op: u16) -> bool {
        let g = op_group(op);
        let x = op_x(op);
        let y = op_y(op);
        let kk = op_kk(op);
        if g == 0x3 {
            self.v[x] == kk
        } else if g == 0x4 {
            self.v[x] != kk
        } else if g == 0x5 {
            self.v[x] == self.v[y]
        } else if g == 0x9 {
            self.v[x] != self.v[y]
        } else if kk == 0x9E {
            self.key_down(x)
        } else {
            !self.key_down(x)
        }
    }

    /// The program counter after an instruction word that was executed or
    /// passed over: the target of the jump, call or return, if the word is
    /// one; four past the old program counter, if the word is a skip whose
    /// condition holds; and two past it for every other word, each within
    /// the address space.
    pub open spec fn next_pc(self, op: u16) -> int {
        if op_jumps(op) {
            self.jump_target(op)
        } else if op_skips(op) && self.skip_taken(op) {
            (self.pc + 4) % 4096
        } else {
            (self.pc + 2) % 4096
        }
    }

    /// Where an instruction word was executed or passed over, the program
    /// counter afterwards is `next_pc`, whatever byte was drawn and whatever
    /// key was at hand, and it lies within the twelve-bit address space.
    pub proof fn lemma_program_counter(self, op: u16, random: u8, key: Option<u8>)
        requires
            self.wf(),
            self.outcome(op, key) == Ok::<Step, Chip8Error>(Step::Executed) || self.outcome(op, key)
                == Ok::<Step, Chip8Error>(Step::Unknown),
        ensures
            self.execute(op, random, key).pc == self.next_pc(op),
            0 <= self.next_pc(op) < 4096,
    {
        let g = op_group(op);
        assert(self.advance().advance().pc == (self.pc + 4) % 4096);
        assert(0 <= self.advance().pc < 4096);
        if self.outcome(op, key) == Ok::<Step, Chip8Error>(Step::Unknown) {
        } else if g == 0x0 {
            if op_kk(op) == 0xEE {
                assert(0 <= self.stack[self.stack.len() - 1] < 4096);
            }
        } else if g == 0x1 || g == 0x2 || g == 0xB {
        } else if g == 0x3 || g == 0x4 || g == 0x5 || g == 0x9 || g == 0xE {
        } else if g == 0x8 {
        } else if g == 0xF {
        } else {
        }
    }

    /// Executing an instruction word keeps the invariant of the state.
    pub proof fn lemma_execute_wf(self, op: u16, random: u8, key: Option<u8>)
        requires
            self.wf(),
        ensures
            self.execute(op, random, key).wf(),
    {
        let after = self.execute(op, random, key);
        if op_group(op) == 0xD && self.outcome(op, key) == Ok::<Step, Chip8Error>(Step::Executed) {
            assert forall|c: int| 0 <= c < 2048 implies #[trigger] after.gfx[c] <= 1 by {
                lemma_flip(self.gfx[c]);
            }
        }
    }

    /// A cycle keeps the invariant of the state.
    pub proof fn lemma_cycle_wf(self, random: u8, key: Option<u8>)
        requires
            self.wf(),
        ensures
            self.cycle(random, key).wf(),
    {
        self.lemma_execute_wf(self.fetch(), random, key);
    }

    /// Drawing the same sprite twice at the same coordinates gives back the
    /// display as it was before the first draw, and the second draw sets the
    /// flag exactly if the first draw lit a cell that was dark.
    ///
    /// The coordinates of the second draw are those of the first unless one
    /// of them is read from the flag register, which the first draw writes.
    pub proof fn lemma_drw_twice(self, x: int, y: int, n: int)
        requires
            self.wf(),
            0 <= x < 16,
            0 <= y < 16,
            0 <= n < 16,
            self.drw_vx_vy_n(x, y, n).v[x] == self.v[x],
            self.drw_vx_vy_n(x, y, n).v[y] == self.v[y],
        ensures
            self.drw_vx_vy_n(x, y, n).drw_vx_vy_n(x, y, n).gfx == self.gfx,
            self.drw_vx_vy_n(x, y, n).drw_vx_vy_n(x, y, n).v[0xF] == 1 <==> (exists|c: int|
                0 <= c < 2048 && self.gfx[c] == 0 && #[trigger] self.drw_vx_vy_n(x, y, n).gfx[c]
                    == 1),
    {
        lemma_draw_twice(self.gfx, self.memory, self.i, self.v[x] as int, self.v[y] as int, n);
    }
}

} // verus!
