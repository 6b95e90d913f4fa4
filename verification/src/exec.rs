//! The dispatcher and the instruction semantics: every opcode's effect on
//! the machine state, stated by `spec_execute` and implemented by the
//! per-opcode methods that `execute` selects among. `step` ties fetch,
//! decode and execute together into one all-or-nothing transition.

use vstd::prelude::*;

use crate::decode::decode;
use crate::decode::Instr;
use crate::draw::spec_display;
use crate::input::spec_key_down;
use crate::input::Keys;
use crate::machine::spec_word_at;
use crate::machine::Chip8;
use crate::machine::Chip8View;
use crate::machine::InterpreterError;
use crate::machine::StepOutcome;
use crate::machine::DISPLAY_SIZE;
use crate::machine::RAM_SIZE;
use crate::machine::STACK_SIZE;

verus! {

/// `v` reduced mod 256, for `v` in `[-256, 512)`: the wraparound of
/// 8-bit register arithmetic, one step away from the representable range.
pub open spec fn spec_wrap8(v: int) -> u8 {
    if v < 0 {
        (v + 256) as u8
    } else if v > 255 {
        (v - 256) as u8
    } else {
        v as u8
    }
}

/// `v` reduced mod 2^16, for `v` in `[0, 2^17)`: the wraparound of the
/// 16-bit address registers.
pub open spec fn spec_wrap16(v: int) -> u16 {
    if v > 0xFFFF {
        (v - 0x10000) as u16
    } else {
        v as u16
    }
}

/// The state after a conditional skip: PC moves past the next instruction
/// exactly when `cond` holds.
pub open spec fn spec_skip_if(s: Chip8View, cond: bool) -> Chip8View {
    if cond {
        Chip8View { pc: spec_wrap16(s.pc + 2), ..s }
    } else {
        s
    }
}

/// The state with register `x` set to `v`.
pub open spec fn spec_set_reg(s: Chip8View, x: u8, v: u8) -> Chip8View {
    Chip8View { registers: s.registers.update(x as int, v), ..s }
}

/// The state after an ALU operation that reports `flag` in VF and writes
/// `v` to register `x`. The flag is written first: when `x` is 0xF the
/// result, not the flag, is what remains, which is why the flag must be
/// computed before either write.
pub open spec fn spec_flag_then_set(s: Chip8View, x: u8, flag: u8, v: u8) -> Chip8View {
    Chip8View { registers: s.registers.update(0xF, flag).update(x as int, v), ..s }
}

/// Memory after registers `V0..Vx` are stored at `[base, base + x]`.
pub open spec fn spec_stored_ram(ram: Seq<u8>, regs: Seq<u8>, base: int, x: int) -> Seq<u8> {
    Seq::new(RAM_SIZE as nat, |j: int|
        if base <= j <= base + x {
            regs[j - base]
        } else {
            ram[j]
        })
}

/// Registers after `V0..Vx` are loaded from memory `[base, base + x]`.
pub open spec fn spec_loaded_regs(regs: Seq<u8>, ram: Seq<u8>, base: int, x: int) -> Seq<u8> {
    Seq::new(16, |j: int|
        if 0 <= j <= x {
            ram[base + j]
        } else {
            regs[j]
        })
}

/// The smallest hex key value in `[h, 16)` whose key is down, or 16 when
/// none is.
pub open spec fn spec_first_key_from(keys: Seq<bool>, h: int) -> int
    decreases 16 - h,
{
    if h < 0 || h >= 16 {
        16
    } else if spec_key_down(keys, h) {
        h
    } else {
        spec_first_key_from(keys, h + 1)
    }
}

/// The effect of the 8xyn ALU family on the state, paired with the step
/// result. Flags use strict comparisons: equality yields flag 0.
pub open spec fn spec_alu(s: Chip8View, x: u8, y: u8, n: u8) -> (Chip8View, Result<
    StepOutcome,
    InterpreterError,
>) {
    let vx = s.registers[x as int];
    let vy = s.registers[y as int];
    let ok = Ok::<StepOutcome, InterpreterError>(StepOutcome::Completed);
    if n == 0x0 {
        (spec_set_reg(s, x, vy), ok)
    } else if n == 0x1 {
        (spec_set_reg(s, x, vx | vy), ok)
    } else if n == 0x2 {
        (spec_set_reg(s, x, vx & vy), ok)
    } else if n == 0x3 {
        (spec_set_reg(s, x, vx ^ vy), ok)
    } else if n == 0x4 {
        (spec_flag_then_set(s, x, if vx + vy > 255 { 1u8 } else { 0u8 }, spec_wrap8(vx + vy)), ok)
    } else if n == 0x5 {
        (spec_flag_then_set(s, x, if vx > vy { 1u8 } else { 0u8 }, spec_wrap8(vx - vy)), ok)
    } else if n == 0x6 {
        (spec_flag_then_set(s, x, vx & 1, vx >> 1u8), ok)
    } else if n == 0x7 {
        (spec_flag_then_set(s, x, if vy > vx { 1u8 } else { 0u8 }, spec_wrap8(vy - vx)), ok)
    } else if n == 0xE {
        (spec_flag_then_set(s, x, vx >> 7u8, spec_wrap8(2 * vx)), ok)
    } else {
        (s, Err(InterpreterError::UnimplementedOpcode))
    }
}

/// The effect of the Fxnn family on the state, paired with the step
/// result.
pub open spec fn spec_misc(s: Chip8View, x: u8, nn: u8, keys: Seq<bool>) -> (Chip8View, Result<
    StepOutcome,
    InterpreterError,
>) {
    let vx = s.registers[x as int];
    let ok = Ok::<StepOutcome, InterpreterError>(StepOutcome::Completed);
    if nn == 0x07 {
        (spec_set_reg(s, x, s.delay_timer), ok)
    } else if nn == 0x0A {
        let first = spec_first_key_from(keys, 0);
        if first < 16 {
            (spec_set_reg(s, x, first as u8), ok)
        } else {
            (s, Ok(StepOutcome::WaitingForKey))
        }
    } else if nn == 0x15 {
        (Chip8View { delay_timer: vx, ..s }, ok)
    } else if nn == 0x18 {
        (Chip8View { sound_timer: vx, ..s }, ok)
    } else if nn == 0x1E {
        (Chip8View { idx: spec_wrap16(s.idx + vx), ..s }, ok)
    } else if nn == 0x29 {
        (Chip8View { idx: (vx * 5) as u16, ..s }, ok)
    } else if nn == 0x33 {
        if s.idx + 2 >= RAM_SIZE {
            (s, Err(InterpreterError::MemoryBoundsError))
        } else {
            (
                Chip8View {
                    ram: s.ram.update(s.idx as int, (vx / 100) as u8).update(
                        s.idx as int + 1,
                        ((vx / 10) % 10) as u8,
                    ).update(s.idx as int + 2, (vx % 10) as u8),
                    ..s
                },
                ok,
            )
        }
    } else if nn == 0x55 {
        if s.idx + x >= RAM_SIZE {
            (s, Err(InterpreterError::MemoryBoundsError))
        } else {
            (
                Chip8View {
                    ram: spec_stored_ram(s.ram, s.registers, s.idx as int, x as int),
                    ..s
                },
                ok,
            )
        }
    } else if nn == 0x65 {
        if s.idx + x >= RAM_SIZE {
            (s, Err(InterpreterError::MemoryBoundsError))
        } else {
            (
                Chip8View {
                    registers: spec_loaded_regs(s.registers, s.ram, s.idx as int, x as int),
                    ..s
                },
                ok,
            )
        }
    } else {
        (s, Err(InterpreterError::UnimplementedOpcode))
    }
}

/// Whether the decoded instruction appears in the opcode table at all.
/// Class 0xB is deliberately not implemented.
pub open spec fn spec_implemented(i: Instr) -> bool {
    ||| i.class == 0x0 && (i.nn == 0xE0 || i.nn == 0xEE)
    ||| 0x1 <= i.class <= 0x7
    ||| i.class == 0x8 && (i.n <= 0x7 || i.n == 0xE)
    ||| i.class == 0x9
    ||| i.class == 0xA
    ||| i.class == 0xC
    ||| i.class == 0xD
    ||| i.class == 0xE && (i.nn == 0x9E || i.nn == 0xA1)
    ||| i.class == 0xF && (i.nn == 0x07 || i.nn == 0x0A || i.nn == 0x15 || i.nn == 0x18
        || i.nn == 0x1E || i.nn == 0x29 || i.nn == 0x33 || i.nn == 0x55 || i.nn == 0x65)
}

/// The semantics of one decoded instruction on state `s`: the next state
/// and the step result. `keys` is the pad snapshot and `rnd` the byte the
/// randomness source supplied (consulted only by class 0xC).
pub open spec fn spec_execute(s: Chip8View, i: Instr, keys: Seq<bool>, rnd: u8) -> (Chip8View,
    Result<StepOutcome, InterpreterError>,
) {
    let vx = s.registers[i.x as int];
    let vy = s.registers[i.y as int];
    let ok = Ok::<StepOutcome, InterpreterError>(StepOutcome::Completed);
    if i.class == 0x0 {
        if i.nn == 0xE0 {
            (Chip8View { vram: Seq::new(DISPLAY_SIZE as nat, |p: int| false), ..s }, ok)
        } else if i.nn == 0xEE {
            if s.sp == 0 {
                (s, Err(InterpreterError::StackUnderflow))
            } else {
                (Chip8View { sp: (s.sp - 1) as u8, pc: s.stack[s.sp - 1], ..s }, ok)
            }
        } else {
            (s, Err(InterpreterError::UnimplementedOpcode))
        }
    } else if i.class == 0x1 {
        (Chip8View { pc: i.nnn, ..s }, ok)
    } else if i.class == 0x2 {
        if s.sp >= STACK_SIZE {
            (s, Err(InterpreterError::StackOverflow))
        } else {
            (
                Chip8View {
                    stack: s.stack.update(s.sp as int, s.pc),
                    sp: (s.sp + 1) as u8,
                    pc: i.nnn,
                    ..s
                },
                ok,
            )
        }
    } else if i.class == 0x3 {
        (spec_skip_if(s, vx == i.nn), ok)
    } else if i.class == 0x4 {
        (spec_skip_if(s, vx != i.nn), ok)
    } else if i.class == 0x5 {
        (spec_skip_if(s, vx == vy), ok)
    } else if i.class == 0x6 {
        (spec_set_reg(s, i.x, i.nn), ok)
    } else if i.class == 0x7 {
        (spec_set_reg(s, i.x, spec_wrap8(vx + i.nn)), ok)
    } else if i.class == 0x8 {
        spec_alu(s, i.x, i.y, i.n)
    } else if i.class == 0x9 {
        (spec_skip_if(s, vx != vy), ok)
    } else if i.class == 0xA {
        (Chip8View { idx: i.nnn, ..s }, ok)
    } else if i.class == 0xC {
        (spec_set_reg(s, i.x, rnd & i.nn), ok)
    } else if i.class == 0xD {
        spec_display(s, i.x, i.y, i.n)
    } else if i.class == 0xE {
        if i.nn == 0x9E {
            (spec_skip_if(s, spec_key_down(keys, vx as int)), ok)
        } else if i.nn == 0xA1 {
            (spec_skip_if(s, !spec_key_down(keys, vx as int)), ok)
        } else {
            (s, Err(InterpreterError::UnimplementedOpcode))
        }
    } else if i.class == 0xF {
        spec_misc(s, i.x, i.nn, keys)
    } else {
        (s, Err(InterpreterError::UnimplementedOpcode))
    }
}

/// The semantics of one whole step from state `s`: fetch the word at PC
/// (an error when PC + 1 lies outside memory), advance PC by 2, then run
/// the decoded instruction. A wait-for-key instruction that finds no key
/// down restores PC to its pre-fetch value, so the driver's next step
/// retries it.
pub open spec fn spec_step(s: Chip8View, keys: Seq<bool>, rnd: u8) -> (Chip8View, Result<
    StepOutcome,
    InterpreterError,
>) {
    if s.pc + 1 >= RAM_SIZE {
        (s, Err(InterpreterError::MemoryBoundsError))
    } else {
        let w = spec_word_at(s.ram, s.pc);
        let s1 = Chip8View { pc: (s.pc + 2) as u16, ..s };
        let r = crate::decode::spec_decode(w);
        let out = spec_execute(s1, r, keys, rnd);
        if out.1 == Ok::<StepOutcome, InterpreterError>(StepOutcome::WaitingForKey) {
            (Chip8View { pc: s.pc, ..out.0 }, out.1)
        } else {
            out
        }
    }
}

/// Relies on rand::random: one byte from the thread-local generator.
/// Nothing is promised of its value; callers state what holds of every
/// outcome.
#[verifier::external_body]
fn random_byte() -> u8 {
    rand::random::<u8>()
}

impl Chip8 {
    /// Opcode 00E0: every pixel of the framebuffer goes off.
    pub fn clear_screen(&mut self)
        requires
            old(self).wf(),
        ensures
            final(self).wf(),
            final(self)@ == (Chip8View {
                vram: Seq::new(DISPLAY_SIZE as nat, |p: int| false),
                ..old(self)@
            }),
    {
        let mut i: usize = 0;
        while i < DISPLAY_SIZE
            invariant
                old(self).wf(),
                i <= DISPLAY_SIZE,
                self@.vram.len() == DISPLAY_SIZE,
                self@ == (Chip8View { vram: self@.vram, ..old(self)@ }),
                forall|j: int| 0 <= j < i ==> !self@.vram[j],
                forall|j: int| i <= j < DISPLAY_SIZE ==> self@.vram[j] == old(self)@.vram[j],
            decreases DISPLAY_SIZE - i,
        {
            self.vram[i] = false;
            i = i + 1;
        }
        proof {
            assert(self@.vram =~= Seq::new(DISPLAY_SIZE as nat, |p: int| false));
        }
    }

    /// Opcode 1nnn: jump.
    pub fn jump(&mut self, nnn: u16)
        requires
            old(self).wf(),
        ensures
            final(self).wf(),
            final(self)@ == (Chip8View { pc: nnn, ..old(self)@ }),
    {
        self.pc = nnn;
    }

    /// Opcode 2nnn: push the address of the following instruction and jump.
    /// A call with the stack already full is an error and changes nothing.
    pub fn call(&mut self, nnn: u16) -> (r: Result<(), InterpreterError>)
        requires
            old(self).wf(),
        ensures
            final(self).wf(),
            old(self)@.sp >= STACK_SIZE ==> {
                &&& r == Err::<(), InterpreterError>(InterpreterError::StackOverflow)
                &&& final(self)@ == old(self)@
            },
            old(self)@.sp < STACK_SIZE ==> {
                &&& r == Ok::<(), InterpreterError>(())
                &&& final(self)@ == (Chip8View {
                    stack: old(self)@.stack.update(old(self)@.sp as int, old(self)@.pc),
                    sp: (old(self)@.sp + 1) as u8,
                    pc: nnn,
                    ..old(self)@
                })
            },
    {
        if self.sp as usize >= STACK_SIZE {
            return Err(InterpreterError::StackOverflow);
        }
        self.stack[self.sp as usize] = self.pc;
        self.sp = self.sp + 1;
        self.pc = nnn;
        Ok(())
    }

    /// Opcode 00EE: pop the return address into PC. A return with the
    /// stack empty is an error and changes nothing.
    pub fn ret(&mut self) -> (r: Result<(), InterpreterError>)
        requires
            old(self).wf(),
        ensures
            final(self).wf(),
            old(self)@.sp == 0 ==> {
                &&& r == Err::<(), InterpreterError>(InterpreterError::StackUnderflow)
                &&& final(self)@ == old(self)@
            },
            old(self)@.sp > 0 ==> {
                &&& r == Ok::<(), InterpreterError>(())
                &&& final(self)@ == (Chip8View {
                    sp: (old(self)@.sp - 1) as u8,
                    pc: old(self)@.stack[old(self)@.sp - 1],
                    ..old(self)@
                })
            },
    {
        if self.sp == 0 {
            return Err(InterpreterError::StackUnderflow);
        }
        self.sp = self.sp - 1;
        self.pc = self.stack[self.sp as usize];
        Ok(())
    }

    /// Opcode 6xkk: Vx = kk.
    pub fn set(&mut self, x: u8, nn: u8)
        requires
            old(self).wf(),
            x < 16,
        ensures
            final(self).wf(),
            final(self)@ == spec_set_reg(old(self)@, x, nn),
    {
        self.registers[x as usize] = nn;
    }

    /// Opcode 8xy0: Vx = Vy.
    pub fn set_r(&mut self, x: u8, y: u8)
        requires
            old(self).wf(),
            x < 16,
            y < 16,
        ensures
            final(self).wf(),
            final(self)@ == spec_set_reg(old(self)@, x, old(self)@.registers[y as int]),
    {
        let vy = self.registers[y as usize];
        self.registers[x as usize] = vy;
    }

    /// Opcode Annn: I = nnn.
    pub fn set_idx(&mut self, nnn: u16)
        requires
            old(self).wf(),
        ensures
            final(self).wf(),
            final(self)@ == (Chip8View { idx: nnn, ..old(self)@ }),
    {
        self.idx = nnn;
    }

    /// Opcode 7xkk: Vx = (Vx + kk) mod 256, with no flag.
    pub fn add(&mut self, x: u8, nn: u8)
        requires
            old(self).wf(),
            x < 16,
        ensures
            final(self).wf(),
            final(self)@ == spec_set_reg(
                old(self)@,
                x,
                spec_wrap8(old(self)@.registers[x as int] + nn),
            ),
    {
        let vx = self.registers[x as usize];
        self.registers[x as usize] = vx.wrapping_add(nn);
    }

    /// Opcode 8xy4: Vx = (Vx + Vy) mod 256, VF = 1 exactly when the sum
    /// overflowed. The flag is computed before either write, since x may
    /// be 0xF.
    pub fn add_r(&mut self, x: u8, y: u8)
        requires
            old(self).wf(),
            x < 16,
            y < 16,
        ensures
            final(self).wf(),
            ({
                let vx = old(self)@.registers[x as int];
                let vy = old(self)@.registers[y as int];
                final(self)@ == spec_flag_then_set(
                    old(self)@,
                    x,
                    if vx + vy > 255 { 1u8 } else { 0u8 },
                    spec_wrap8(vx + vy),
                )
            }),
    {
        let vx = self.registers[x as usize];
        let vy = self.registers[y as usize];
        let sum: u16 = vx as u16 + vy as u16;
        let flag: u8 = if sum > 255 { 1 } else { 0 };
        self.registers[0xF] = flag;
        self.registers[x as usize] = vx.wrapping_add(vy);
    }

    /// Opcode 8xy5: Vx = (Vx - Vy) mod 256, VF = 1 exactly when Vx > Vy
    /// (no borrow); equality yields 0.
    pub fn subtract_right(&mut self, x: u8, y: u8)
        requires
            old(self).wf(),
            x < 16,
            y < 16,
        ensures
            final(self).wf(),
            ({
                let vx = old(self)@.registers[x as int];
                let vy = old(self)@.registers[y as int];
                final(self)@ == spec_flag_then_set(
                    old(self)@,
                    x,
                    if vx > vy { 1u8 } else { 0u8 },
                    spec_wrap8(vx - vy),
                )
            }),
    {
        let vx = self.registers[x as usize];
        let vy = self.registers[y as usize];
        let flag: u8 = if vx > vy { 1 } else { 0 };
        self.registers[0xF] = flag;
        self.registers[x as usize] = vx.wrapping_sub(vy);
    }

    /// Opcode 8xy7: Vx = (Vy - Vx) mod 256, VF = 1 exactly when Vy > Vx.
    pub fn subtract_left(&mut self, x: u8, y: u8)
        requires
            old(self).wf(),
            x < 16,
            y < 16,
        ensures
            final(self).wf(),
            ({
                let vx = old(self)@.registers[x as int];
                let vy = old(self)@.registers[y as int];
                final(self)@ == spec_flag_then_set(
                    old(self)@,
                    x,
                    if vy > vx { 1u8 } else { 0u8 },
                    spec_wrap8(vy - vx),
                )
            }),
    {
        let vx = self.registers[x as usize];
        let vy = self.registers[y as usize];
        let flag: u8 = if vy > vx { 1 } else { 0 };
        self.registers[0xF] = flag;
        self.registers[x as usize] = vy.wrapping_sub(vx);
    }

    /// Opcode 8xy6: VF = the bit shifted out (Vx & 1), then Vx = Vx >> 1.
    /// Operates on Vx alone; Vy is not consulted.
    pub fn shift_right(&mut self, x: u8)
        requires
            old(self).wf(),
            x < 16,
        ensures
            final(self).wf(),
            ({
                let vx = old(self)@.registers[x as int];
                final(self)@ == spec_flag_then_set(old(self)@, x, vx & 1, vx >> 1u8)
            }),
    {
        let vx = self.registers[x as usize];
        self.registers[0xF] = vx & 1;
        self.registers[x as usize] = vx >> 1u8;
    }

    /// Opcode 8xyE: VF = the top bit (Vx >> 7), then Vx = (2 Vx) mod 256.
    pub fn shift_left(&mut self, x: u8)
        requires
            old(self).wf(),
            x < 16,
        ensures
            final(self).wf(),
            ({
                let vx = old(self)@.registers[x as int];
                final(self)@ == spec_flag_then_set(old(self)@, x, vx >> 7u8, spec_wrap8(2 * vx))
            }),
    {
        let vx = self.registers[x as usize];
        self.registers[0xF] = vx >> 7u8;
        self.registers[x as usize] = vx.wrapping_mul(2);
    }

    /// Opcode 8xy1: Vx = Vx OR Vy.
    pub fn or(&mut self, x: u8, y: u8)
        requires
            old(self).wf(),
            x < 16,
            y < 16,
        ensures
            final(self).wf(),
            final(self)@ == spec_set_reg(
                old(self)@,
                x,
                old(self)@.registers[x as int] | old(self)@.registers[y as int],
            ),
    {
        let vy = self.registers[y as usize];
        let vx = self.registers[x as usize];
        self.registers[x as usize] = vx | vy;
    }

    /// Opcode 8xy2: Vx = Vx AND Vy.
    pub fn and(&mut self, x: u8, y: u8)
        requires
            old(self).wf(),
            x < 16,
            y < 16,
        ensures
            final(self).wf(),
            final(self)@ == spec_set_reg(
                old(self)@,
                x,
                old(self)@.registers[x as int] & old(self)@.registers[y as int],
            ),
    {
        let vy = self.registers[y as usize];
        let vx = self.registers[x as usize];
        self.registers[x as usize] = vx & vy;
    }

    /// Opcode 8xy3: Vx = Vx XOR Vy.
    pub fn xor(&mut self, x: u8, y: u8)
        requires
            old(self).wf(),
            x < 16,
            y < 16,
        ensures
            final(self).wf(),
            final(self)@ == spec_set_reg(
                old(self)@,
                x,
                old(self)@.registers[x as int] ^ old(self)@.registers[y as int],
            ),
    {
        let vy = self.registers[y as usize];
        let vx = self.registers[x as usize];
        self.registers[x as usize] = vx ^ vy;
    }

    /// Opcode Fx33: the three decimal digits of Vx go to memory at I
    /// (hundreds), I+1 (tens) and I+2 (ones). An I within 2 bytes of the
    /// end of memory is an error and changes nothing.
    pub fn split_into_three(&mut self, x: u8) -> (r: Result<(), InterpreterError>)
        requires
            old(self).wf(),
            x < 16,
        ensures
            final(self).wf(),
            old(self)@.idx + 2 >= RAM_SIZE ==> {
                &&& r == Err::<(), InterpreterError>(InterpreterError::MemoryBoundsError)
                &&& final(self)@ == old(self)@
            },
            old(self)@.idx + 2 < RAM_SIZE ==> {
                &&& r == Ok::<(), InterpreterError>(())
                &&& ({
                    let vx = old(self)@.registers[x as int];
                    final(self)@ == (Chip8View {
                        ram: old(self)@.ram.update(old(self)@.idx as int, (vx / 100) as u8).update(
                            old(self)@.idx as int + 1,
                            ((vx / 10) % 10) as u8,
                        ).update(old(self)@.idx as int + 2, (vx % 10) as u8),
                        ..old(self)@
                    })
                })
            },
    {
        if self.idx as usize + 2 >= RAM_SIZE {
            return Err(InterpreterError::MemoryBoundsError);
        }
        let vx = self.registers[x as usize];
        self.ram[self.idx as usize] = vx / 100;
        self.ram[self.idx as usize + 1] = (vx / 10) % 10;
        self.ram[self.idx as usize + 2] = vx % 10;
        Ok(())
    }

    /// Opcode 3xkk / 5xy0 twin: PC skips the next instruction exactly when
    /// Vx equals the operand.
    pub fn skip_eq(&mut self, x: u8, nn: u8)
        requires
            old(self).wf(),
            x < 16,
        ensures
            final(self).wf(),
            final(self)@ == spec_skip_if(old(self)@, old(self)@.registers[x as int] == nn),
    {
        if self.registers[x as usize] == nn {
            self.pc = self.pc.wrapping_add(2);
        }
    }

    /// Opcode 4xkk: skip when Vx differs from kk.
    pub fn skip_ne(&mut self, x: u8, nn: u8)
        requires
            old(self).wf(),
            x < 16,
        ensures
            final(self).wf(),
            final(self)@ == spec_skip_if(old(self)@, old(self)@.registers[x as int] != nn),
    {
        if self.registers[x as usize] != nn {
            self.pc = self.pc.wrapping_add(2);
        }
    }

    /// Opcode 5xy0: skip when Vx equals Vy.
    pub fn skipr_eq(&mut self, x: u8, y: u8)
        requires
            old(self).wf(),
            x < 16,
            y < 16,
        ensures
            final(self).wf(),
            final(self)@ == spec_skip_if(
                old(self)@,
                old(self)@.registers[x as int] == old(self)@.registers[y as int],
            ),
    {
        if self.registers[x as usize] == self.registers[y as usize] {
            self.pc = self.pc.wrapping_add(2);
        }
    }

    /// Opcode 9xy0: skip when Vx differs from Vy.
    pub fn skipr_ne(&mut self, x: u8, y: u8)
        requires
            old(self).wf(),
            x < 16,
            y < 16,
        ensures
            final(self).wf(),
            final(self)@ == spec_skip_if(
                old(self)@,
                old(self)@.registers[x as int] != old(self)@.registers[y as int],
            ),
    {
        if self.registers[x as usize] != self.registers[y as usize] {
            self.pc = self.pc.wrapping_add(2);
        }
    }

    /// Opcode Ex9E: skip when the hex key named by Vx is down. A Vx above
    /// 0xF names no key and never skips.
    pub fn skip_if_key(&mut self, x: u8, keys: &Keys)
        requires
            old(self).wf(),
            x < 16,
            keys.wf(),
        ensures
            final(self).wf(),
            final(self)@ == spec_skip_if(
                old(self)@,
                spec_key_down(keys@, old(self)@.registers[x as int] as int),
            ),
    {
        let vx = self.registers[x as usize];
        let down = match keys.key_pressed(vx as usize) {
            Some(true) => true,
            _ => false,
        };
        if down {
            self.pc = self.pc.wrapping_add(2);
        }
    }

    /// Opcode ExA1: skip when the hex key named by Vx is not down. A Vx
    /// above 0xF names no key and always skips.
    pub fn skip_if_not_key(&mut self, x: u8, keys: &Keys)
        requires
            old(self).wf(),
            x < 16,
            keys.wf(),
        ensures
            final(self).wf(),
            final(self)@ == spec_skip_if(
                old(self)@,
                !spec_key_down(keys@, old(self)@.registers[x as int] as int),
            ),
    {
        let vx = self.registers[x as usize];
        let down = match keys.key_pressed(vx as usize) {
            Some(true) => true,
            _ => false,
        };
        if !down {
            self.pc = self.pc.wrapping_add(2);
        }
    }

    /// Opcode Cxkk with the random byte supplied by the caller:
    /// Vx = rnd AND kk. Verified for every value the source may hand back.
    pub fn mask_random(&mut self, x: u8, nn: u8, rnd: u8)
        requires
            old(self).wf(),
            x < 16,
        ensures
            final(self).wf(),
            final(self)@ == spec_set_reg(old(self)@, x, rnd & nn),
    {
        self.registers[x as usize] = rnd & nn;
    }

    /// Opcode Cxkk: Vx = random AND kk. Whatever byte the source yields,
    /// the result is that byte masked by kk.
    pub fn random_and(&mut self, x: u8, nn: u8)
        requires
            old(self).wf(),
            x < 16,
        ensures
            final(self).wf(),
            exists|rnd: u8| final(self)@ == spec_set_reg(old(self)@, x, rnd & nn),
    {
        let rnd = random_byte();
        self.mask_random(x, nn, rnd);
    }

    /// Opcode Fx0A: when some hex key is down, Vx takes the smallest such
    /// key value and the step completes; otherwise the machine reports
    /// that it is waiting and nothing changes.
    pub fn wait_key(&mut self, x: u8, keys: &Keys) -> (r: StepOutcome)
        requires
            old(self).wf(),
            x < 16,
            keys.wf(),
        ensures
            final(self).wf(),
            ({
                let first = spec_first_key_from(keys@, 0);
                if first < 16 {
                    r == StepOutcome::Completed && final(self)@ == spec_set_reg(
                        old(self)@,
                        x,
                        first as u8,
                    )
                } else {
                    r == StepOutcome::WaitingForKey && final(self)@ == old(self)@
                }
            }),
    {
        let mut h: u8 = 0;
        while h < 16
            invariant
                old(self).wf(),
                x < 16,
                keys.wf(),
                h <= 16,
                self@ == old(self)@,
                spec_first_key_from(keys@, 0) == spec_first_key_from(keys@, h as int),
            decreases 16 - h,
        {
            let down = match keys.key_pressed(h as usize) {
                Some(true) => true,
                _ => false,
            };
            if down {
                self.registers[x as usize] = h;
                return StepOutcome::Completed;
            }
            h = h + 1;
        }
        StepOutcome::WaitingForKey
    }

    /// Opcode Fx55: registers V0..Vx go to memory `[I, I + x]`. An I too
    /// close to the end of memory is an error and changes nothing.
    pub fn store(&mut self, x: u8) -> (r: Result<(), InterpreterError>)
        requires
            old(self).wf(),
            x < 16,
        ensures
            final(self).wf(),
            old(self)@.idx + x >= RAM_SIZE ==> {
                &&& r == Err::<(), InterpreterError>(InterpreterError::MemoryBoundsError)
                &&& final(self)@ == old(self)@
            },
            old(self)@.idx + x < RAM_SIZE ==> {
                &&& r == Ok::<(), InterpreterError>(())
                &&& final(self)@ == (Chip8View {
                    ram: spec_stored_ram(
                        old(self)@.ram,
                        old(self)@.registers,
                        old(self)@.idx as int,
                        x as int,
                    ),
                    ..old(self)@
                })
            },
    {
        if self.idx as usize + x as usize >= RAM_SIZE {
            return Err(InterpreterError::MemoryBoundsError);
        }
        let base = self.idx as usize;
        let count = x as usize + 1;
        let mut i: usize = 0;
        while i < count
            invariant
                old(self).wf(),
                count == x as int + 1,
                x < 16,
                base == old(self)@.idx,
                base + x < RAM_SIZE,
                i <= count,
                self@.ram.len() == RAM_SIZE,
                self@ == (Chip8View { ram: self@.ram, ..old(self)@ }),
                forall|j: int| base <= j < base + i ==> self@.ram[j] == old(self)@.registers[
                    j - base
                ],
                forall|j: int| 0 <= j < RAM_SIZE && !(base <= j < base + i) ==> self@.ram[j]
                    == old(self)@.ram[j],
            decreases count - i,
        {
            self.ram[base + i] = self.registers[i];
            i = i + 1;
        }
        proof {
            assert(self@.ram =~= spec_stored_ram(
                old(self)@.ram,
                old(self)@.registers,
                old(self)@.idx as int,
                x as int,
            ));
        }
        Ok(())
    }

    /// Opcode Fx65: memory `[I, I + x]` is read back into V0..Vx. An I too
    /// close to the end of memory is an error and changes nothing.
    pub fn load(&mut self, x: u8) -> (r: Result<(), InterpreterError>)
        requires
            old(self).wf(),
            x < 16,
        ensures
            final(self).wf(),
            old(self)@.idx + x >= RAM_SIZE ==> {
                &&& r == Err::<(), InterpreterError>(InterpreterError::MemoryBoundsError)
                &&& final(self)@ == old(self)@
            },
            old(self)@.idx + x < RAM_SIZE ==> {
                &&& r == Ok::<(), InterpreterError>(())
                &&& final(self)@ == (Chip8View {
                    registers: spec_loaded_regs(
                        old(self)@.registers,
                        old(self)@.ram,
                        old(self)@.idx as int,
                        x as int,
                    ),
                    ..old(self)@
                })
            },
    {
        if self.idx as usize + x as usize >= RAM_SIZE {
            return Err(InterpreterError::MemoryBoundsError);
        }
        let base = self.idx as usize;
        let count = x as usize + 1;
        let mut i: usize = 0;
        while i < count
            invariant
                old(self).wf(),
                count == x as int + 1,
                x < 16,
                base == old(self)@.idx,
                base + x < RAM_SIZE,
                i <= count,
                self@.registers.len() == 16,
                self@ == (Chip8View { registers: self@.registers, ..old(self)@ }),
                forall|j: int| 0 <= j < i ==> self@.registers[j] == old(self)@.ram[base + j],
                forall|j: int| i <= j < 16 ==> self@.registers[j] == old(self)@.registers[j],
            decreases count - i,
        {
            self.registers[i] = self.ram[base + i];
            i = i + 1;
        }
        proof {
            assert(self@.registers =~= spec_loaded_regs(
                old(self)@.registers,
                old(self)@.ram,
                old(self)@.idx as int,
                x as int,
            ));
        }
        Ok(())
    }

    /// The 8xyn ALU dispatcher.
    pub fn match_arithmetic(&mut self, x: u8, y: u8, n: u8) -> (r: Result<
        StepOutcome,
        InterpreterError,
    >)
        requires
            old(self).wf(),
            x < 16,
            y < 16,
        ensures
            final(self).wf(),
            (final(self)@, r) == spec_alu(old(self)@, x, y, n),
    {
        match n {
            0x0 => {
                self.set_r(x, y);
                Ok(StepOutcome::Completed)
            },
            0x1 => {
                self.or(x, y);
                Ok(StepOutcome::Completed)
            },
            0x2 => {
                self.and(x, y);
                Ok(StepOutcome::Completed)
            },
            0x3 => {
                self.xor(x, y);
                Ok(StepOutcome::Completed)
            },
            0x4 => {
                self.add_r(x, y);
                Ok(StepOutcome::Completed)
            },
            0x5 => {
                self.subtract_right(x, y);
                Ok(StepOutcome::Completed)
            },
            0x6 => {
                self.shift_right(x);
                Ok(StepOutcome::Completed)
            },
            0x7 => {
                self.subtract_left(x, y);
                Ok(StepOutcome::Completed)
            },
            0xE => {
                self.shift_left(x);
                Ok(StepOutcome::Completed)
            },
            _ => Err(InterpreterError::UnimplementedOpcode),
        }
    }

    /// The Fxnn dispatcher.
    pub fn match_f(&mut self, x: u8, nn: u8, keys: &Keys) -> (r: Result<
        StepOutcome,
        InterpreterError,
    >)
        requires
            old(self).wf(),
            x < 16,
            keys.wf(),
        ensures
            final(self).wf(),
            (final(self)@, r) == spec_misc(old(self)@, x, nn, keys@),
    {
        match nn {
            0x07 => {
                let dt = self.delay_timer;
                self.set(x, dt);
                Ok(StepOutcome::Completed)
            },
            0x0A => Ok(self.wait_key(x, keys)),
            0x15 => {
                self.delay_timer = self.registers[x as usize];
                Ok(StepOutcome::Completed)
            },
            0x18 => {
                self.sound_timer = self.registers[x as usize];
                Ok(StepOutcome::Completed)
            },
            0x1E => {
                let vx = self.registers[x as usize];
                self.idx = self.idx.wrapping_add(vx as u16);
                Ok(StepOutcome::Completed)
            },
            0x29 => {
                let vx = self.registers[x as usize];
                self.idx = (vx as u16) * 5;
                Ok(StepOutcome::Completed)
            },
            0x33 => {
                match self.split_into_three(x) {
                    Ok(()) => Ok(StepOutcome::Completed),
                    Err(e) => Err(e),
                }
            },
            0x55 => {
                match self.store(x) {
                    Ok(()) => Ok(StepOutcome::Completed),
                    Err(e) => Err(e),
                }
            },
            0x65 => {
                match self.load(x) {
                    Ok(()) => Ok(StepOutcome::Completed),
                    Err(e) => Err(e),
                }
            },
            _ => Err(InterpreterError::UnimplementedOpcode),
        }
    }

    /// The dispatcher: runs one decoded instruction. `rnd` is the byte the
    /// randomness source supplied for a class 0xC instruction; the effect
    /// is verified for every value of it.
    pub fn execute(&mut self, i: Instr, keys: &Keys, rnd: u8) -> (r: Result<
        StepOutcome,
        InterpreterError,
    >)
        requires
            old(self).wf(),
            i.wf(),
            keys.wf(),
        ensures
            final(self).wf(),
            (final(self)@, r) == spec_execute(old(self)@, i, keys@, rnd),
    {
        match i.class {
            0x0 => {
                if i.nn == 0xE0 {
                    self.clear_screen();
                    Ok(StepOutcome::Completed)
                } else if i.nn == 0xEE {
                    match self.ret() {
                        Ok(()) => Ok(StepOutcome::Completed),
                        Err(e) => Err(e),
                    }
                } else {
                    Err(InterpreterError::UnimplementedOpcode)
                }
            },
            0x1 => {
                self.jump(i.nnn);
                Ok(StepOutcome::Completed)
            },
            0x2 => {
                match self.call(i.nnn) {
                    Ok(()) => Ok(StepOutcome::Completed),
                    Err(e) => Err(e),
                }
            },
            0x3 => {
                self.skip_eq(i.x, i.nn);
                Ok(StepOutcome::Completed)
            },
            0x4 => {
                self.skip_ne(i.x, i.nn);
                Ok(StepOutcome::Completed)
            },
            0x5 => {
                self.skipr_eq(i.x, i.y);
                Ok(StepOutcome::Completed)
            },
            0x6 => {
                self.set(i.x, i.nn);
                Ok(StepOutcome::Completed)
            },
            0x7 => {
                self.add(i.x, i.nn);
                Ok(StepOutcome::Completed)
            },
            0x8 => self.match_arithmetic(i.x, i.y, i.n),
            0x9 => {
                self.skipr_ne(i.x, i.y);
                Ok(StepOutcome::Completed)
            },
            0xA => {
                self.set_idx(i.nnn);
                Ok(StepOutcome::Completed)
            },
            0xC => {
                self.mask_random(i.x, i.nn, rnd);
                Ok(StepOutcome::Completed)
            },
            0xD => self.display(i.x, i.y, i.n),
            0xE => {
                if i.nn == 0x9E {
                    self.skip_if_key(i.x, keys);
                    Ok(StepOutcome::Completed)
                } else if i.nn == 0xA1 {
                    self.skip_if_not_key(i.x, keys);
                    Ok(StepOutcome::Completed)
                } else {
                    Err(InterpreterError::UnimplementedOpcode)
                }
            },
            0xF => self.match_f(i.x, i.nn, keys),
            _ => Err(InterpreterError::UnimplementedOpcode),
        }
    }

    /// One whole step with the random byte supplied by the caller, so the
    /// transition is deterministic and verified for every value of it:
    /// fetch, decode, execute; on a wait-for-key with no key down, PC is
    /// restored so the next step retries the instruction.
    pub fn step_with(&mut self, keys: &Keys, rnd: u8) -> (r: Result<StepOutcome, InterpreterError>)
        requires
            old(self).wf(),
            keys.wf(),
        ensures
            final(self).wf(),
            (final(self)@, r) == spec_step(old(self)@, keys@, rnd),
    {
        let word = match self.fetch() {
            Ok(w) => w,
            Err(e) => {
                return Err(e);
            },
        };
        let i = decode(word);
        let r = self.execute(i, keys, rnd);
        match r {
            Ok(StepOutcome::WaitingForKey) => {
                self.pc = self.pc - 2;
            },
            _ => {},
        }
        r
    }

    /// One whole step: fetch, decode, execute, drawing the byte for a
    /// class 0xC instruction from the randomness source. Whatever byte it
    /// yields, the step is one of the transitions `spec_step` describes.
    pub fn step(&mut self, keys: &Keys) -> (r: Result<StepOutcome, InterpreterError>)
        requires
            old(self).wf(),
            keys.wf(),
        ensures
            final(self).wf(),
            exists|rnd: u8| (final(self)@, r) == #[trigger] spec_step(old(self)@, keys@, rnd),
    {
        let rnd = random_byte();
        let r = self.step_with(keys, rnd);
        r
    }
}

} // verus!
