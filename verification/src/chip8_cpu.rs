//! The processor: the machine state held in fixed arrays, and the
//! interpreter that fetches, decodes and executes instructions on it.

use crate::constants::{FONT_SET, MAX_PROGRAM_SIZE, PROGRAM_START};
use crate::error::Chip8Error;
use crate::machine::{CycleReport, LoopReport, Machine, Step};
use crate::sprite::{
    collides, collides_before, draw, lemma_all_rows_done, lemma_flip, lemma_next_bit, lemma_next_row,
    toggles_before,
};
use crate::timeline::Timeline;
use vstd::prelude::*;

verus! {

/// A CHIP-8 machine: 4096 bytes of memory, sixteen registers, the index
/// register, the program counter, a stack of sixteen return addresses, two
/// timers, a display of 64 by 32 cells and a keypad of sixteen keys.
///
/// Its view is the `Machine` of the model, and every machine satisfies the
/// invariant `Machine::wf` of the model: each method says so of the machine
/// it is given and of the machine it leaves.
pub struct Chip8Cpu {
    memory: [u8; 4096],
    v: [u8; 16],
    i: u16,
    pc: u16,
    gfx: [u8; 2048],
    delay_timer: u8,
    sound_timer: u8,
    stack: [u16; 16],
    sp: usize,
    key: [bool; 16],
}

/// Draws one byte at random.
///
/// The body calls `rand::random::<u8>()`, which takes the next value of the
/// thread's generator. Nothing is claimed of the byte beyond its type: any
/// of the 256 values may come back, and two calls may differ.
#[verifier::external_body]
fn random_byte() -> (byte: u8) {
    rand::random::<u8>()
}

/// The address `a` lies `k` bytes above `base`, counting within the address
/// space, exactly if it is the address reached from `base` by `k` steps.
proof fn lemma_offset(base: int, a: int, k: int)
    requires
        0 <= a < 4096,
        0 <= k < 4096,
    ensures
        (a - base) % 4096 == k <==> a == (base + k) % 4096,
{
}

impl View for Chip8Cpu {
    type V = Machine;

    closed spec fn view(&self) -> Machine {
        Machine {
            memory: self.memory@,
            v: self.v@,
            i: self.i as int,
            pc: self.pc as int,
            stack: Seq::new(self.sp as nat, |k: int| self.stack[k] as int),
            delay_timer: self.delay_timer,
            sound_timer: self.sound_timer,
            gfx: self.gfx@,
            key: self.key@,
        }
    }
}

impl Chip8Cpu {
    /// What holds of every machine: both address registers lie within the
    /// address space, at most sixteen calls are in progress, the return
    /// addresses on the stack lie within the address space, and every cell
    /// of the display is 0 or 1.
    #[verifier::type_invariant]
    spec fn inv(self) -> bool {
        &&& self.i < 4096
        &&& self.pc < 4096
        &&& self.sp <= 16
        &&& forall|k: int| 0 <= k < self.sp ==> #[trigger] self.stack[k] < 4096
        &&& forall|k: int| 0 <= k < 2048 ==> #[trigger] self.gfx[k] <= 1
    }

    /// A machine at power-on: the font at the base of memory, the program
    /// counter at the program start, everything else zero.
    pub fn start() -> (cpu: Chip8Cpu)
        ensures
            cpu@ == Machine::initial(),
            cpu@.wf(),
    {
        let mut memory = [0u8; 4096];
        let mut k: usize = 0;
        while k < 80
            invariant
                k <= 80,
                forall|a: int| 0 <= a < k ==> memory[a] == FONT_SET[a],
                forall|a: int| k <= a < 4096 ==> memory[a] == 0,
            decreases 80 - k,
        {
            memory[k] = FONT_SET[k];
            k += 1;
        }
        let cpu = Chip8Cpu {
            memory,
            v: [0u8; 16],
            i: 0,
            pc: PROGRAM_START,
            gfx: [0u8; 2048],
            delay_timer: 0,
            sound_timer: 0,
            stack: [0u16; 16],
            sp: 0,
            key: [false; 16],
        };
        assert(cpu@ =~= Machine::initial());
        cpu
    }

    /// Puts the machine back to power-on, whatever state it was in.
    pub fn reset(&mut self)
        ensures
            final(self)@ == Machine::initial(),
            final(self)@.wf(),
    {
        *self = Chip8Cpu::start();
    }

    /// Copies a program to memory from the program start. A program of more
    /// than 3584 bytes is refused and nothing is written. Only memory
    /// changes: a caller that wants a fresh machine resets it first.
    pub fn load_game(&mut self, rom: &[u8]) -> (r: Result<(), Chip8Error>)
        ensures
            rom@.len() > 3584 ==> r == Err::<(), Chip8Error>(Chip8Error::LoadTooLarge)
                && final(self)@ == old(self)@,
            rom@.len() <= 3584 ==> r == Ok::<(), Chip8Error>(())
                && final(self)@ == old(self)@.load(rom@),
            old(self)@.wf(),
            final(self)@.wf(),
    {
        proof {
            use_type_invariant(&*self);
        }
        if rom.len() > MAX_PROGRAM_SIZE {
            return Err(Chip8Error::LoadTooLarge);
        }
        let mut memory = self.memory;
        let mut k: usize = 0;
        while k < rom.len()
            invariant
                k <= rom@.len() <= 3584,
                forall|a: int| 0x200 <= a < 0x200 + k ==> memory[a] == rom@[a - 0x200],
                forall|a: int|
                    0 <= a < 4096 && !(0x200 <= a < 0x200 + k) ==> memory[a] == self.memory[a],
            decreases rom@.len() - k,
        {
            memory[k + 0x200] = rom[k];
            k += 1;
        }
        self.memory = memory;
        assert(self@ =~= old(self)@.load(rom@));
        Ok(())
    }

    /// Moves the program counter past one instruction, within the address space.
    fn advance(&mut self)
        ensures
            final(self)@ == old(self)@.advance(),
            old(self)@.wf(),
            final(self)@.wf(),
    {
        proof {
            use_type_invariant(&*self);
        }
        let pc: u16 = self.pc;
        assert((pc + 2) as u16 & 0x0FFF == (pc + 2) % 4096) by (bit_vector)
            requires
                pc < 4096,
        ;
        self.pc = (pc + 2) & 0x0FFF;
    }

    /// Moves the program counter past one instruction, and past a second one
    /// where the skip is taken.
    fn skip_if(&mut self, taken: bool)
        ensures
            final(self)@ == old(self)@.skip_if(taken),
            old(self)@.wf(),
            final(self)@.wf(),
    {
        if taken {
            self.advance();
        }
        self.advance();
    }

    /// A word that is no known instruction: it is passed over.
    pub fn sys(&mut self)
        ensures
            final(self)@ == old(self)@.advance(),
            old(self)@.wf(),
            final(self)@.wf(),
    {
        self.advance();
    }

    /// `00E0`: clears the display.
    pub fn cls(&mut self)
        ensures
            final(self)@ == old(self)@.cls(),
            old(self)@.wf(),
            final(self)@.wf(),
    {
        proof {
            use_type_invariant(&*self);
        }
        self.gfx = [0u8; 2048];
        assert(self.gfx@ =~= Seq::new(2048, |k: int| 0u8));
        self.advance();
    }

    /// `00EE`: returns from the call in progress. With no call in progress
    /// the return fails and nothing changes.
    pub fn ret(&mut self) -> (r: Result<(), Chip8Error>)
        ensures
            old(self)@.stack.len() == 0 ==> r == Err::<(), Chip8Error>(Chip8Error::StackUnderflow)
                && final(self)@ == old(self)@,
            old(self)@.stack.len() > 0 ==> r == Ok::<(), Chip8Error>(())
                && final(self)@ == old(self)@.ret(),
            old(self)@.wf(),
            final(self)@.wf(),
    {
        proof {
            use_type_invariant(&*self);
        }
        if self.sp == 0 {
            return Err(Chip8Error::StackUnderflow);
        }
        self.sp = self.sp - 1;
        self.pc = self.stack[self.sp];
        assert(self@ =~= (Machine {
            pc: old(self)@.stack.last(),
            stack: old(self)@.stack.drop_last(),
            ..old(self)@
        }));
        self.advance();
        Ok(())
    }

    /// `1nnn`: jumps to `nnn`.
    pub fn jp_nnn(&mut self, nnn: u16)
        requires
            nnn < 4096,
        ensures
            final(self)@ == old(self)@.jp_nnn(nnn as int),
            old(self)@.wf(),
            final(self)@.wf(),
    {
        proof {
            use_type_invariant(&*self);
        }
        self.pc = nnn;
    }

    /// `2nnn`: calls the routine at `nnn`. With sixteen calls in progress
    /// the call fails and nothing changes.
    pub fn call_nnn(&mut self, nnn: u16) -> (r: Result<(), Chip8Error>)
        requires
            nnn < 4096,
        ensures
            old(self)@.stack.len() == 16 ==> r == Err::<(), Chip8Error>(Chip8Error::StackOverflow)
                && final(self)@ == old(self)@,
            old(self)@.stack.len() != 16 ==> r == Ok::<(), Chip8Error>(())
                && final(self)@ == old(self)@.call_nnn(nnn as int),
            old(self)@.wf(),
            final(self)@.wf(),
    {
        proof {
            use_type_invariant(&*self);
        }
        if self.sp == 16 {
            return Err(Chip8Error::StackOverflow);
        }
        self.stack[self.sp] = self.pc;
        self.sp = self.sp + 1;
        self.pc = nnn;
        assert(self@ =~= old(self)@.call_nnn(nnn as int));
        Ok(())
    }

    /// `3xkk`: skips the next instruction if `Vx == kk`.
    pub fn se_vx_kk(&mut self, x: u16, kk: u16)
        requires
            x < 16,
            kk < 256,
        ensures
            final(self)@ == old(self)@.se_vx_kk(x as int, kk as int),
            old(self)@.wf(),
            final(self)@.wf(),
    {
        let taken: bool = self.v[x as usize] == kk as u8;
        self.skip_if(taken);
    }

    /// `4xkk`: skips the next instruction if `Vx != kk`.
    pub fn sne_vx_kk(&mut self, x: u16, kk: u16)
        requires
            x < 16,
            kk < 256,
        ensures
            final(self)@ == old(self)@.sne_vx_kk(x as int, kk as int),
            old(self)@.wf(),
            final(self)@.wf(),
    {
        let taken: bool = self.v[x as usize] != kk as u8;
        self.skip_if(taken);
    }

    /// `5xy0`: skips the next instruction if `Vx == Vy`.
    pub fn se_vx_vy(&mut self, x: u16, y: u16)
        requires
            x < 16,
            y < 16,
        ensures
            final(self)@ == old(self)@.se_vx_vy(x as int, y as int),
            old(self)@.wf(),
            final(self)@.wf(),
    {
        let taken: bool = self.v[x as usize] == self.v[y as usize];
        self.skip_if(taken);
    }

    /// `6xkk`: `Vx := kk`.
    pub fn ld_vx_kk(&mut self, x: u16, kk: u16)
        requires
            x < 16,
            kk < 256,
        ensures
            final(self)@ == old(self)@.ld_vx_kk(x as int, kk as int),
            old(self)@.wf(),
            final(self)@.wf(),
    {
        proof {
            use_type_invariant(&*self);
        }
        self.v[x as usize] = kk as u8;
        self.advance();
    }

    /// `7xkk`: `Vx := Vx + kk`, wrapping at 256.
    pub fn add_vx_kk(&mut self, x: u16, kk: u16)
        requires
            x < 16,
            kk < 256,
        ensures
            final(self)@ == old(self)@.add_vx_kk(x as int, kk as int),
            old(self)@.wf(),
            final(self)@.wf(),
    {
        proof {
            use_type_invariant(&*self);
        }
        self.v[x as usize] = self.v[x as usize].wrapping_add(kk as u8);
        self.advance();
    }

    /// `8xy0`: `Vx := Vy`.
    pub fn ld_vx_vy(&mut self, x: u16, y: u16)
        requires
            x < 16,
            y < 16,
        ensures
            final(self)@ == old(self)@.ld_vx_vy(x as int, y as int),
            old(self)@.wf(),
            final(self)@.wf(),
    {
        proof {
            use_type_invariant(&*self);
        }
        self.v[x as usize] = self.v[y as usize];
        self.advance();
    }

    /// `8xy1`: `Vx := Vx | Vy`.
    pub fn or_vx_vy(&mut self, x: u16, y: u16)
        requires
            x < 16,
            y < 16,
        ensures
            final(self)@ == old(self)@.or_vx_vy(x as int, y as int),
            old(self)@.wf(),
            final(self)@.wf(),
    {
        proof {
            use_type_invariant(&*self);
        }
        self.v[x as usize] = self.v[x as usize] | self.v[y as usize];
        self.advance();
    }

    /// `8xy2`: `Vx := Vx & Vy`.
    pub fn and_vx_vy(&mut self, x: u16, y: u16)
        requires
            x < 16,
            y < 16,
        ensures
            final(self)@ == old(self)@.and_vx_vy(x as int, y as int),
            old(self)@.wf(),
            final(self)@.wf(),
    {
        proof {
            use_type_invariant(&*self);
        }
        self.v[x as usize] = self.v[x as usize] & self.v[y as usize];
        self.advance();
    }

    /// `8xy3`: `Vx := Vx ^ Vy`.
    pub fn xor_vx_vy(&mut self, x: u16, y: u16)
        requires
            x < 16,
            y < 16,
        ensures
            final(self)@ == old(self)@.xor_vx_vy(x as int, y as int),
            old(self)@.wf(),
            final(self)@.wf(),
    {
        proof {
            use_type_invariant(&*self);
        }
        self.v[x as usize] = self.v[x as usize] ^ self.v[y as usize];
        self.advance();
    }

    /// `8xy4`: `Vx := Vx + Vy`, wrapping at 256; then `VF` is 1 if the sum
    /// passed 255 and 0 if not. Where `x` is `F` the flag is what stays.
    pub fn add_vx_vy(&mut self, x: u16, y: u16)
        requires
            x < 16,
            y < 16,
        ensures
            final(self)@ == old(self)@.add_vx_vy(x as int, y as int),
            final(self)@.v[0xF] == 1 <==> old(self)@.v[x as int] + old(self)@.v[y as int] > 255,
            final(self)@.v[0xF] == 1 || final(self)@.v[0xF] == 0,
            x != 0xF ==> final(self)@.v[x as int] == (old(self)@.v[x as int]
                + old(self)@.v[y as int]) % 256,
            old(self)@.wf(),
            final(self)@.wf(),
    {
        proof {
            use_type_invariant(&*self);
        }
        let a: u8 = self.v[x as usize];
        let b: u8 = self.v[y as usize];
        let carry: u8 = if b > 255 - a {
            1
        } else {
            0
        };
        self.v[x as usize] = a.wrapping_add(b);
        self.v[0xF] = carry;
        self.advance();
    }

    /// `8xy5`: `Vx := Vx - Vy`, wrapping at 256; then `VF` is 1 if
    /// `Vx >= Vy` held and 0 if not. Where `x` is `F` the flag is what stays.
    pub fn sub_vx_vy(&mut self, x: u16, y: u16)
        requires
            x < 16,
            y < 16,
        ensures
            final(self)@ == old(self)@.sub_vx_vy(x as int, y as int),
            final(self)@.v[0xF] == 1 <==> old(self)@.v[x as int] >= old(self)@.v[y as int],
            final(self)@.v[0xF] == 1 || final(self)@.v[0xF] == 0,
            x != 0xF ==> final(self)@.v[x as int] == (old(self)@.v[x as int]
                - old(self)@.v[y as int]) % 256,
            old(self)@.wf(),
            final(self)@.wf(),
    {
        proof {
            use_type_invariant(&*self);
        }
        let a: u8 = self.v[x as usize];
        let b: u8 = self.v[y as usize];
        let no_borrow: u8 = if a >= b {
            1
        } else {
            0
        };
        self.v[x as usize] = a.wrapping_sub(b);
        self.v[0xF] = no_borrow;
        self.advance();
    }

    /// `8xy6`: `Vx` is shifted right by one; then `VF` is the bit that left.
    pub fn shr(&mut self, x: u16)
        requires
            x < 16,
        ensures
            final(self)@ == old(self)@.shr(x as int),
            old(self)@.wf(),
            final(self)@.wf(),
    {
        proof {
            use_type_invariant(&*self);
        }
        let a: u8 = self.v[x as usize];
        assert(a >> 1u8 == a / 2 && (a & 1 == 1 <==> a % 2 == 1) && a & 1 <= 1) by (bit_vector);
        self.v[x as usize] = a >> 1u8;
        self.v[0xF] = a & 1;
        self.advance();
    }

    /// `8xy7`: `Vx := Vy - Vx`, wrapping at 256; then `VF` is 1 if
    /// `Vy >= Vx` held and 0 if not. Where `x` is `F` the flag is what stays.
    pub fn subn_vx_vy(&mut self, x: u16, y: u16)
        requires
            x < 16,
            y < 16,
        ensures
            final(self)@ == old(self)@.subn_vx_vy(x as int, y as int),
            old(self)@.wf(),
            final(self)@.wf(),
    {
        proof {
            use_type_invariant(&*self);
        }
        let a: u8 = self.v[x as usize];
        let b: u8 = self.v[y as usize];
        let no_borrow: u8 = if b >= a {
            1
        } else {
            0
        };
        self.v[x as usize] = b.wrapping_sub(a);
        self.v[0xF] = no_borrow;
        self.advance();
    }

    /// `8xyE`: `Vx` is shifted left by one, its low byte kept; then `VF` is
    /// the bit that left, as 0 or 1.
    pub fn shl(&mut self, x: u16)
        requires
            x < 16,
        ensures
            final(self)@ == old(self)@.shl(x as int),
            old(self)@.wf(),
            final(self)@.wf(),
    {
        proof {
            use_type_invariant(&*self);
        }
        let a: u8 = self.v[x as usize];
        assert(a << 1u8 == (a * 2) % 256 && (a >> 7u8 == 1 <==> a >= 128) && a >> 7u8 <= 1)
            by (bit_vector);
        self.v[x as usize] = a << 1u8;
        self.v[0xF] = a >> 7u8;
        self.advance();
    }

    /// `9xy0`: skips the next instruction if `Vx != Vy`.
    pub fn sne_vx_vy(&mut self, x: u16, y: u16)
        requires
            x < 16,
            y < 16,
        ensures
            final(self)@ == old(self)@.sne_vx_vy(x as int, y as int),
            old(self)@.wf(),
            final(self)@.wf(),
    {
        let taken: bool = self.v[x as usize] != self.v[y as usize];
        self.skip_if(taken);
    }

    /// `Annn`: `I := nnn`.
    pub fn ld_i_nnn(&mut self, nnn: u16)
        requires
            nnn < 4096,
        ensures
            final(self)@ == old(self)@.ld_i_nnn(nnn as int),
            old(self)@.wf(),
            final(self)@.wf(),
    {
        proof {
            use_type_invariant(&*self);
        }
        self.i = nnn;
        self.advance();
    }

    /// `Bnnn`: jumps to `nnn + V0`, within the address space.
    pub fn jp_v0_nnn(&mut self, nnn: u16)
        requires
            nnn < 4096,
        ensures
            final(self)@ == old(self)@.jp_v0_nnn(nnn as int),
            old(self)@.wf(),
            final(self)@.wf(),
    {
        proof {
            use_type_invariant(&*self);
        }
        let target: u16 = nnn + self.v[0] as u16;
        assert(target & 0x0FFF == target % 4096) by (bit_vector);
        self.pc = target & 0x0FFF;
    }

    /// `Cxkk` for a random byte that was drawn: `Vx := kk & random`.
    pub fn ld_vx_rnd(&mut self, x: u16, kk: u16, random: u8)
        requires
            x < 16,
            kk < 256,
        ensures
            final(self)@ == old(self)@.rnd_vx_kk(x as int, kk as int, random),
            old(self)@.wf(),
            final(self)@.wf(),
    {
        proof {
            use_type_invariant(&*self);
        }
        self.v[x as usize] = (kk as u8) & random;
        self.advance();
    }

    /// `Ex9E`: skips the next instruction if the key that `Vx` names is down.
    pub fn skp_vx(&mut self, x: u16)
        requires
            x < 16,
        ensures
            final(self)@ == old(self)@.skp_vx(x as int),
            old(self)@.wf(),
            final(self)@.wf(),
    {
        let taken: bool = self.key_down(x);
        self.skip_if(taken);
    }

    /// `ExA1`: skips the next instruction if the key that `Vx` names is not
    /// down.
    pub fn sknp_vx(&mut self, x: u16)
        requires
            x < 16,
        ensures
            final(self)@ == old(self)@.sknp_vx(x as int),
            old(self)@.wf(),
            final(self)@.wf(),
    {
        let taken: bool = !self.key_down(x);
        self.skip_if(taken);
    }

    /// Whether the key that the low four bits of `Vx` name is down.
    fn key_down(&self, x: u16) -> (down: bool)
        requires
            x < 16,
        ensures
            down == self@.key_down(x as int),
    {
        let a: u8 = self.v[x as usize];
        assert(a & 0x0F == a % 16) by (bit_vector);
        self.key[(a & 0x0F) as usize]
    }

    /// `Fx07`: `Vx := delay timer`.
    pub fn ld_vx_dt(&mut self, x: u16)
        requires
            x < 16,
        ensures
            final(self)@ == old(self)@.ld_vx_dt(x as int),
            old(self)@.wf(),
            final(self)@.wf(),
    {
        proof {
            use_type_invariant(&*self);
        }
        self.v[x as usize] = self.delay_timer;
        self.advance();
    }

    /// `Fx0A` once a key was pressed: `Vx := key`.
    pub fn ld_vx_k(&mut self, x: u16, key: u8)
        requires
            x < 16,
            key < 16,
        ensures
            final(self)@ == old(self)@.ld_vx_k(x as int, key),
            old(self)@.wf(),
            final(self)@.wf(),
    {
        proof {
            use_type_invariant(&*self);
        }
        self.v[x as usize] = key;
        self.advance();
    }

    /// `Fx15`: `delay timer := Vx`.
    pub fn ld_dt_vx(&mut self, x: u16)
        requires
            x < 16,
        ensures
            final(self)@ == old(self)@.ld_dt_vx(x as int),
            old(self)@.wf(),
            final(self)@.wf(),
    {
        proof {
            use_type_invariant(&*self);
        }
        self.delay_timer = self.v[x as usize];
        self.advance();
    }

    /// `Fx18`: `sound timer := Vx`.
    pub fn ld_st_vx(&mut self, x: u16)
        requires
            x < 16,
        ensures
            final(self)@ == old(self)@.ld_st_vx(x as int),
            old(self)@.wf(),
            final(self)@.wf(),
    {
        proof {
            use_type_invariant(&*self);
        }
        self.sound_timer = self.v[x as usize];
        self.advance();
    }

    /// `Fx1E`: `I := I + Vx`, within the address space.
    pub fn add_i_vx(&mut self, x: u16)
        requires
            x < 16,
        ensures
            final(self)@ == old(self)@.add_i_vx(x as int),
            old(self)@.wf(),
            final(self)@.wf(),
    {
        proof {
            use_type_invariant(&*self);
        }
        let sum: u16 = self.i + self.v[x as usize] as u16;
        assert(sum & 0x0FFF == sum % 4096) by (bit_vector);
        self.i = sum & 0x0FFF;
        self.advance();
    }

    /// `Fx29`: `I :=` the address of the glyph of digit `Vx`, five bytes a
    /// glyph.
    pub fn ld_f_vx(&mut self, x: u16)
        requires
            x < 16,
        ensures
            final(self)@ == old(self)@.ld_f_vx(x as int),
            old(self)@.wf(),
            final(self)@.wf(),
    {
        proof {
            use_type_invariant(&*self);
        }
        self.i = 5 * (self.v[x as usize] as u16);
        self.advance();
    }

    /// `Fx33`: stores the hundreds, tens and units digits of `Vx` at `I`,
    /// `I + 1` and `I + 2`, addresses taken within the address space.
    pub fn ld_b_vx(&mut self, x: u16)
        requires
            x < 16,
        ensures
            final(self)@ == old(self)@.ld_b_vx(x as int),
            old(self)@.wf(),
            final(self)@.wf(),
    {
        proof {
            use_type_invariant(&*self);
        }
        let value: u8 = self.v[x as usize];
        let base: u16 = self.i;
        assert((base + 1) as u16 & 0x0FFF == (base + 1) % 4096
            && (base + 2) as u16 & 0x0FFF == (base + 2) % 4096) by (bit_vector)
            requires
                base < 4096,
        ;
        let tens_at: u16 = (base + 1) & 0x0FFF;
        let units_at: u16 = (base + 2) & 0x0FFF;
        self.memory[base as usize] = value / 100;
        self.memory[tens_at as usize] = (value / 10) % 10;
        self.memory[units_at as usize] = value % 10;
        self.advance();
    }

    /// `Fx55`: stores `V0..Vx` from `I` upward, addresses taken within the
    /// address space; then `I := I + x + 1`.
    pub fn ld_i_vx(&mut self, x: u16)
        requires
            x < 16,
        ensures
            final(self)@ == old(self)@.ld_i_vx(x as int),
            old(self)@.wf(),
            final(self)@.wf(),
    {
        proof {
            use_type_invariant(&*self);
        }
        let base: u16 = self.i;
        let mut memory = self.memory;
        let mut k: u16 = 0;
        while k <= x
            invariant
                k <= x + 1,
                x < 16,
                base < 4096,
                forall|a: int|
                    0 <= a < 4096 ==> memory[a] == (if (a - base) % 4096 < k {
                        self.v[(a - base) % 4096]
                    } else {
                        self.memory[a]
                    }),
            decreases x + 1 - k,
        {
            assert((base + k) as u16 & 0x0FFF == (base + k) % 4096) by (bit_vector)
                requires
                    base < 4096,
                    k < 16,
            ;
            let address: u16 = (base + k) & 0x0FFF;
            memory[address as usize] = self.v[k as usize];
            assert forall|a: int| 0 <= a < 4096 implies #[trigger] memory[a] == (
                if (a - base) % 4096 < k + 1 {
                    self.v[(a - base) % 4096]
                } else {
                    self.memory[a]
                }
            ) by {
                lemma_offset(base as int, a, k as int);
            }
            k += 1;
        }
        assert((base + x + 1) as u16 & 0x0FFF == (base + x + 1) % 4096) by (bit_vector)
            requires
                base < 4096,
                x < 16,
        ;
        self.memory = memory;
        self.i = (base + x + 1) & 0x0FFF;
        assert(self@ =~= (Machine {
            memory: old(self)@.ld_i_vx(x as int).memory,
            i: old(self)@.ld_i_vx(x as int).i,
            ..old(self)@
        }));
        self.advance();
    }

    /// `Fx65`: reads `V0..Vx` from `I` upward, addresses taken within the
    /// address space; then `I := I + x + 1`.
    pub fn ld_vx_i(&mut self, x: u16)
        requires
            x < 16,
        ensures
            final(self)@ == old(self)@.ld_vx_i(x as int),
            old(self)@.wf(),
            final(self)@.wf(),
    {
        proof {
            use_type_invariant(&*self);
        }
        let base: u16 = self.i;
        let mut v = self.v;
        let mut k: u16 = 0;
        while k <= x
            invariant
                k <= x + 1,
                x < 16,
                base < 4096,
                forall|j: int|
                    0 <= j < 16 ==> v[j] == (if j < k {
                        self.memory[(base + j) % 4096]
                    } else {
                        self.v[j]
                    }),
            decreases x + 1 - k,
        {
            assert((base + k) as u16 & 0x0FFF == (base + k) % 4096) by (bit_vector)
                requires
                    base < 4096,
                    k < 16,
            ;
            let address: u16 = (base + k) & 0x0FFF;
            v[k as usize] = self.memory[address as usize];
            k += 1;
        }
        assert((base + x + 1) as u16 & 0x0FFF == (base + x + 1) % 4096) by (bit_vector)
            requires
                base < 4096,
                x < 16,
        ;
        self.v = v;
        self.i = (base + x + 1) & 0x0FFF;
        assert(self@ =~= (Machine {
            v: old(self)@.ld_vx_i(x as int).v,
            i: old(self)@.ld_vx_i(x as int).i,
            ..old(self)@
        }));
        self.advance();
    }

    /// `Dxyn`: draws the `n`-row sprite stored at `I` with its corner at
    /// column `Vx` and row `Vy`, flipping the cells under its set bits;
    /// columns wrap at 64 and rows at 32. Then `VF` is 1 if a lit cell went
    /// dark and 0 if none did. `Vx` and `Vy` are read before `VF` is written.
    pub fn drw_vx_vy_n(&mut self, x: u16, y: u16, n: u16)
        requires
            x < 16,
            y < 16,
            n < 16,
        ensures
            final(self)@ == old(self)@.drw_vx_vy_n(x as int, y as int, n as int),
            old(self)@.wf(),
            final(self)@.wf(),
    {
        proof {
            use_type_invariant(&*self);
        }
        let vx: u16 = self.v[x as usize] as u16;
        let vy: u16 = self.v[y as usize] as u16;
        let base: u16 = self.i;
        let ghost before = self.gfx@;
        let ghost memory = self.memory@;
        let mut gfx = self.gfx;
        let mut collision: bool = false;
        let mut row: u16 = 0;
        while row < n
            invariant
                row <= n < 16,
                vx < 256,
                vy < 256,
                base < 4096,
                memory == self.memory@,
                before.len() == 2048,
                forall|c: int| 0 <= c < 2048 ==> #[trigger] before[c] <= 1,
                forall|c: int| 0 <= c < 2048 ==> #[trigger] gfx[c] <= 1,
                forall|c: int|
                    0 <= c < 2048 ==> #[trigger] gfx[c] == (if toggles_before(
                        memory,
                        base as int,
                        vx as int,
                        vy as int,
                        row as int,
                        0,
                        c,
                    ) {
                        before[c] ^ 1u8
                    } else {
                        before[c]
                    }),
                collision <==> collides_before(
                    before,
                    memory,
                    base as int,
                    vx as int,
                    vy as int,
                    row as int,
                    0,
                ),
            decreases n - row,
        {
            assert((base + row) as u16 & 0x0FFF == (base + row) % 4096) by (bit_vector)
                requires
                    base < 4096,
                    row < 16,
            ;
            let address: u16 = (base + row) & 0x0FFF;
            let bits: u8 = self.memory[address as usize];
            let mut col: u16 = 0;
            while col < 8
                invariant
                    col <= 8,
                    row < n < 16,
                    vx < 256,
                    vy < 256,
                    base < 4096,
                    memory == self.memory@,
                    bits == memory[(base + row) % 4096],
                    before.len() == 2048,
                    forall|c: int| 0 <= c < 2048 ==> #[trigger] before[c] <= 1,
                    forall|c: int| 0 <= c < 2048 ==> #[trigger] gfx[c] <= 1,
                    forall|c: int|
                        0 <= c < 2048 ==> #[trigger] gfx[c] == (if toggles_before(
                            memory,
                            base as int,
                            vx as int,
                            vy as int,
                            row as int,
                            col as int,
                            c,
                        ) {
                            before[c] ^ 1u8
                        } else {
                            before[c]
                        }),
                    collision <==> collides_before(
                        before,
                        memory,
                        base as int,
                        vx as int,
                        vy as int,
                        row as int,
                        col as int,
                    ),
                decreases 8 - col,
            {
                proof {
                    lemma_next_bit(
                        before,
                        memory,
                        base as int,
                        vx as int,
                        vy as int,
                        row as int,
                        col as int,
                    );
                }
                let mask: u8 = 0x80u8 >> col;
                if bits & mask != 0 {
                    let pos_x: u16 = (vx + col) % 64;
                    let pos_y: u16 = (vy + row) % 32;
                    let pos: usize = (pos_x + pos_y * 64) as usize;
                    proof {
                        lemma_flip(before[pos as int]);
                    }
                    if gfx[pos] == 1 {
                        collision = true;
                    }
                    gfx[pos] ^= 1;
                }
                col += 1;
            }
            proof {
                lemma_next_row(before, memory, base as int, vx as int, vy as int, row as int);
            }
            row += 1;
        }
        proof {
            lemma_all_rows_done(before, memory, base as int, vx as int, vy as int, n as int);
        }
        self.gfx = gfx;
        self.v[0xF] = if collision {
            1
        } else {
            0
        };
        assert(self@ =~= (Machine {
            gfx: draw(before, memory, base as int, vx as int, vy as int, n as int),
            ..old(self)@
        }).set_flag(collides(before, memory, base as int, vx as int, vy as int, n as int)));
        self.advance();
    }

    /// `Cxkk`: `Vx := kk & random`, for a byte drawn at random.
    pub fn rnd_vx_kk(&mut self, x: u16, kk: u16)
        requires
            x < 16,
            kk < 256,
        ensures
            exists|random: u8|
                final(self)@ == #[trigger] old(self)@.rnd_vx_kk(x as int, kk as int, random),
            old(self)@.wf(),
            final(self)@.wf(),
    {
        let random: u8 = random_byte();
        self.ld_vx_rnd(x, kk, random);
    }

    /// Counts both timers down by one, each stopping at zero, and says
    /// whether the sound timer reached zero by this tick: the moment to beep.
    pub fn update_timers(&mut self) -> (beep: bool)
        ensures
            final(self)@ == old(self)@.tick_timers(),
            beep == old(self)@.beeps(),
            old(self)@.wf(),
            final(self)@.wf(),
    {
        proof {
            use_type_invariant(&*self);
        }
        let mut beep: bool = false;
        if self.delay_timer > 0 {
            self.delay_timer = self.delay_timer - 1;
        }
        if self.sound_timer > 0 {
            if self.sound_timer == 1 {
                beep = true;
            }
            self.sound_timer = self.sound_timer - 1;
        }
        beep
    }

    /// Decodes the instruction word `op_code` and executes it. `key` is the
    /// key press at hand for an instruction that waits for one.
    ///
    /// A word that is no known instruction is passed over and reported as
    /// `Step::Unknown`. A call with a full stack and a return with an empty
    /// one fail and change nothing. `Fx0A` with no key at hand changes
    /// nothing and reports `Step::AwaitKey`. `Cxkk` draws its byte at random:
    /// the state that results is that of `execute` for some byte.
    pub fn decode(&mut self, op_code: u16, key: Option<u8>) -> (r: Result<Step, Chip8Error>)
        requires
            key matches Some(k) ==> k < 16,
        ensures
            r == old(self)@.outcome(op_code, key),
            exists|random: u8| final(self)@ == #[trigger] old(self)@.execute(op_code, random, key),
            r == Ok::<Step, Chip8Error>(Step::Executed)
                || r == Ok::<Step, Chip8Error>(Step::Unknown)
                ==> final(self)@.pc == old(self)@.next_pc(op_code),
            r is Err || r == Ok::<Step, Chip8Error>(Step::AwaitKey) ==> final(self)@ == old(self)@,
            old(self)@.wf(),
            final(self)@.wf(),
    {
        proof {
            use_type_invariant(&*self);
        }
        let x: u16 = (op_code & 0x0F00) >> 8;
        let y: u16 = (op_code & 0x00F0) >> 4;
        let kk: u16 = op_code & 0x00FF;
        let nnn: u16 = op_code & 0x0FFF;
        let n: u16 = op_code & 0x000F;
        let group: u16 = op_code & 0xF000;
        assert(x == (op_code / 256) % 16 && y == (op_code / 16) % 16 && kk == op_code % 256
            && nnn == op_code % 4096 && n == op_code % 16 && group == (op_code / 4096) * 4096)
            by (bit_vector)
            requires
                x == (op_code & 0x0F00) >> 8,
                y == (op_code & 0x00F0) >> 4,
                kk == op_code & 0x00FF,
                nnn == op_code & 0x0FFF,
                n == op_code & 0x000F,
                group == op_code & 0xF000,
        ;
        let ghost mut random: u8 = 0;
        let ghost pressed: u8 = match key {
            Some(k) => k,
            None => 0u8,
        };
        let mut step: Step = Step::Executed;
        match group {
            0x0000 => match kk {
                0x00E0 => self.cls(),
                0x00EE => match self.ret() {
                    Ok(()) => {},
                    Err(e) => {
                        assert(self@ == old(self)@.execute(op_code, random, key));
                        return Err(e);
                    },
                },
                _ => {
                    self.sys();
                    step = Step::Unknown;
                },
            },
            0x1000 => self.jp_nnn(nnn),
            0x2000 => match self.call_nnn(nnn) {
                Ok(()) => {},
                Err(e) => {
                    assert(self@ == old(self)@.execute(op_code, random, key));
                    return Err(e);
                },
            },
            0x3000 => self.se_vx_kk(x, kk),
            0x4000 => self.sne_vx_kk(x, kk),
            0x5000 => self.se_vx_vy(x, y),
            0x6000 => self.ld_vx_kk(x, kk),
            0x7000 => self.add_vx_kk(x, kk),
            0x8000 => match n {
                0x0000 => self.ld_vx_vy(x, y),
                0x0001 => self.or_vx_vy(x, y),
                0x0002 => self.and_vx_vy(x, y),
                0x0003 => self.xor_vx_vy(x, y),
                0x0004 => self.add_vx_vy(x, y),
                0x0005 => self.sub_vx_vy(x, y),
                0x0006 => self.shr(x),
                0x0007 => self.subn_vx_vy(x, y),
                0x000E => self.shl(x),
                _ => {
                    self.sys();
                    step = Step::Unknown;
                },
            },
            0x9000 => self.sne_vx_vy(x, y),
            0xA000 => self.ld_i_nnn(nnn),
            0xB000 => self.jp_v0_nnn(nnn),
            0xC000 => {
                self.rnd_vx_kk(x, kk);
                proof {
                    random = choose|random: u8|
                        self@ == #[trigger] old(self)@.rnd_vx_kk(x as int, kk as int, random);
                }
            },
            0xD000 => self.drw_vx_vy_n(x, y, n),
            0xE000 => match kk {
                0x009E => self.skp_vx(x),
                0x00A1 => self.sknp_vx(x),
                _ => {
                    self.sys();
                    step = Step::Unknown;
                },
            },
            _ => match kk {
                0x0007 => self.ld_vx_dt(x),
                0x000A => match key {
                    Some(k) => self.ld_vx_k(x, k),
                    None => {
                        step = Step::AwaitKey;
                    },
                },
                0x0015 => self.ld_dt_vx(x),
                0x0018 => self.ld_st_vx(x),
                0x001E => self.add_i_vx(x),
                0x0029 => self.ld_f_vx(x),
                0x0033 => self.ld_b_vx(x),
                0x0055 => self.ld_i_vx(x),
                0x0065 => self.ld_vx_i(x),
                _ => {
                    self.sys();
                    step = Step::Unknown;
                },
            },
        }
        assert(self@ == old(self)@.execute(op_code, random, key));
        proof {
            if step != Step::AwaitKey {
                old(self)@.lemma_program_counter(op_code, random, key);
            }
        }
        Ok(step)
    }

    /// The instruction word at the program counter: two bytes, the high one
    /// first, the low one from the next address within the address space.
    pub fn fetch(&self) -> (op_code: u16)
        ensures
            op_code == self@.fetch(),
            self@.wf(),
    {
        proof {
            use_type_invariant(self);
        }
        let pc: u16 = self.pc;
        assert((pc + 1) as u16 & 0x0FFF == (pc + 1) % 4096) by (bit_vector)
            requires
                pc < 4096,
        ;
        let high: u16 = self.memory[pc as usize] as u16;
        let low: u16 = self.memory[((pc + 1) & 0x0FFF) as usize] as u16;
        assert((high << 8u16) | low == high * 256 + low) by (bit_vector)
            requires
                high < 256,
                low < 256,
        ;
        (high << 8u16) | low
    }

    /// Runs one cycle: fetches the instruction at the program counter,
    /// decodes and executes it, then ticks the timers.
    ///
    /// Where the instruction fails, the failure is returned and nothing has
    /// changed. Where it waits for a key and `key` is `None`, nothing has
    /// changed either, the timers included, and the report says
    /// `Step::AwaitKey`: the cycle is to be run again with the key that was
    /// pressed. The report's `beep` is set in the cycle in which the sound
    /// timer reaches zero.
    pub fn cycle(&mut self, key: Option<u8>) -> (r: Result<CycleReport, Chip8Error>)
        requires
            key matches Some(k) ==> k < 16,
        ensures
            exists|random: u8|
                final(self)@ == #[trigger] old(self)@.cycle(random, key)
                    && r == old(self)@.cycle_report(random, key),
            old(self)@.wf(),
            final(self)@.wf(),
    {
        let op_code: u16 = self.fetch();
        let decoded: Result<Step, Chip8Error> = self.decode(op_code, key);
        let ghost random: u8 = choose|random: u8|
            self@ == #[trigger] old(self)@.execute(op_code, random, key);
        let step: Step = match decoded {
            Ok(step) => step,
            Err(e) => {
                assert(self@ == old(self)@.cycle(random, key));
                return Err(e);
            },
        };
        let mut beep: bool = false;
        match step {
            Step::AwaitKey => {},
            _ => {
                beep = self.update_timers();
            },
        }
        assert(self@ == old(self)@.cycle(random, key));
        Ok(CycleReport { opcode: op_code, step, beep })
    }

    /// Runs one turn of the loop that drives the machine, `elapsed`
    /// microseconds after the turn before.
    ///
    /// The time is gathered on both clocks of the timeline. If a processor
    /// cycle is due it is taken from the timeline and run with no key at
    /// hand; a cycle that fails ends the turn with its failure. If a
    /// synchronization is due it is taken from the timeline and the report
    /// says so: the caller shows the display, reads the keypad and hands the
    /// keys to `set_keys`. A cycle that reports `Step::AwaitKey` is run again
    /// by the caller, through `cycle`, once a key was pressed.
    pub fn emulate(&mut self, clock: &mut Timeline, elapsed: u64) -> (r: Result<
        LoopReport,
        Chip8Error,
    >)
        ensures
            exists|random: u8|
                (final(self)@, *final(clock), r)
                    == #[trigger] old(self)@.emulate(*old(clock), elapsed, random),
            old(self)@.wf(),
            final(self)@.wf(),
    {
        proof {
            use_type_invariant(&*self);
        }
        clock.advance(elapsed);
        let mut report: Option<CycleReport> = None;
        let ghost mut random: u8 = 0;
        if clock.take_cycle() {
            let cycled: Result<CycleReport, Chip8Error> = self.cycle(None);
            proof {
                random = choose|random: u8|
                    self@ == #[trigger] old(self)@.cycle(random, None::<u8>)
                        && cycled == old(self)@.cycle_report(random, None::<u8>);
            }
            match cycled {
                Ok(cycle_report) => {
                    report = Some(cycle_report);
                },
                Err(e) => {
                    assert((self@, *clock, Err::<LoopReport, Chip8Error>(e))
                        == old(self)@.emulate(*old(clock), elapsed, random));
                    return Err(e);
                },
            }
        }
        let sync: bool = clock.take_sync();
        let r: Result<LoopReport, Chip8Error> = Ok(LoopReport { cycle: report, sync });
        assert((self@, *clock, r) == old(self)@.emulate(*old(clock), elapsed, random));
        r
    }

    /// Takes the keys that are held down from the keypad.
    pub fn set_keys(&mut self, keys: &[bool; 16])
        ensures
            final(self)@ == (Machine { key: keys@, ..old(self)@ }),
            old(self)@.wf(),
            final(self)@.wf(),
    {
        proof {
            use_type_invariant(&*self);
        }
        self.key = *keys;
    }

    /// The program counter.
    pub fn pc(&self) -> (pc: u16)
        ensures
            pc == self@.pc,
            pc < 4096,
    {
        proof {
            use_type_invariant(self);
        }
        self.pc
    }

    /// The index register.
    pub fn i(&self) -> (i: u16)
        ensures
            i == self@.i,
            i < 4096,
    {
        proof {
            use_type_invariant(self);
        }
        self.i
    }

    /// The registers `V0..VF`.
    pub fn v(&self) -> (v: &[u8; 16])
        ensures
            v@ == self@.v,
    {
        &self.v
    }

    /// The memory.
    pub fn memory(&self) -> (memory: &[u8; 4096])
        ensures
            memory@ == self@.memory,
    {
        &self.memory
    }

    /// The display, row by row: 2048 cells that hold 0 or 1.
    pub fn gfx(&self) -> (gfx: &[u8; 2048])
        ensures
            gfx@ == self@.gfx,
            forall|c: int| 0 <= c < 2048 ==> #[trigger] gfx@[c] <= 1,
    {
        proof {
            use_type_invariant(self);
        }
        &self.gfx
    }

    /// The keys that are held down.
    pub fn keys(&self) -> (keys: &[bool; 16])
        ensures
            keys@ == self@.key,
    {
        &self.key
    }

    /// The delay timer.
    pub fn delay_timer(&self) -> (timer: u8)
        ensures
            timer == self@.delay_timer,
    {
        self.delay_timer
    }

    /// The sound timer.
    pub fn sound_timer(&self) -> (timer: u8)
        ensures
            timer == self@.sound_timer,
    {
        self.sound_timer
    }

    /// The number of calls in progress.
    pub fn stack_depth(&self) -> (depth: usize)
        ensures
            depth == self@.stack.len(),
            depth <= 16,
    {
        proof {
            use_type_invariant(self);
        }
        self.sp
    }
}

} // verus!
