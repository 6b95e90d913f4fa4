//! The CHIP-8 machine state: memory, registers, stack, timers and
//! framebuffer, together with its lifecycle (construction, program load,
//! instruction fetch, timer ticks and framebuffer queries).

use vstd::prelude::*;

verus! {

/// Bytes of addressable memory.
pub const RAM_SIZE: usize = 4096;

/// Width of the monochrome display in pixels.
pub const DISPLAY_WIDTH: usize = 64;

/// Height of the monochrome display in pixels.
pub const DISPLAY_HEIGHT: usize = 32;

/// Pixels in the framebuffer (row-major, `y * DISPLAY_WIDTH + x`).
pub const DISPLAY_SIZE: usize = 2048;

/// Return addresses the call stack can hold.
pub const STACK_SIZE: usize = 16;

/// Address where a loaded program begins.
pub const PROGRAM_START: usize = 0x200;

/// Largest program that fits between `PROGRAM_START` and the end of memory.
pub const MAX_PROGRAM_LEN: usize = 3584;

/// The fixed font table: 16 hex-digit glyphs of 5 bytes each, written to
/// memory addresses `[0, 80)` once at construction and never mutated.
pub const FONT: [u8; 80] = [
    0xF0, 0x90, 0x90, 0x90, 0xF0,
    0x20, 0x60, 0x20, 0x20, 0x70,
    0xF0, 0x10, 0xF0, 0x80, 0xF0,
    0xF0, 0x10, 0xF0, 0x10, 0xF0,
    0x90, 0x90, 0xF0, 0x10, 0x10,
    0xF0, 0x80, 0xF0, 0x10, 0xF0,
    0xF0, 0x80, 0xF0, 0x90, 0xF0,
    0xF0, 0x10, 0x20, 0x40, 0x40,
    0xF0, 0x90, 0xF0, 0x90, 0xF0,
    0xF0, 0x90, 0xF0, 0x10, 0xF0,
    0xF0, 0x90, 0xF0, 0x90, 0x90,
    0xE0, 0x90, 0xE0, 0x90, 0xE0,
    0xF0, 0x80, 0x80, 0x80, 0xF0,
    0xE0, 0x90, 0x90, 0x90, 0xE0,
    0xF0, 0x80, 0xF0, 0x80, 0xF0,
    0xF0, 0x80, 0xF0, 0x80, 0x80,
];

/// Errors a single interpreter step can report. The core never aborts the
/// hosting process: every detected inconsistency is returned to the driver.
#[derive(Clone, Copy, Debug, PartialEq, Eq, Structural)]
pub enum InterpreterError {
    /// A fetch or indexed memory access fell outside `[0, RAM_SIZE)`.
    MemoryBoundsError,
    /// A call was made with the stack already full.
    StackOverflow,
    /// A return was made with the stack empty.
    StackUnderflow,
    /// The decoded instruction has no defined semantics.
    UnimplementedOpcode,
}

/// Errors reported when loading a program image.
#[derive(Clone, Copy, Debug, PartialEq, Eq, Structural)]
pub enum LoadError {
    /// The program is longer than `MAX_PROGRAM_LEN` bytes.
    ProgramTooLarge,
}

/// What a successful step did: either one instruction completed, or the
/// machine is suspended on a wait-for-key instruction and the driver must
/// re-invoke `step` after polling input.
#[derive(Clone, Copy, Debug, PartialEq, Eq, Structural)]
pub enum StepOutcome {
    Completed,
    WaitingForKey,
}

/// The mathematical model of the machine state that all contracts speak of.
pub ghost struct Chip8View {
    /// 4096 bytes of memory.
    pub ram: Seq<u8>,
    /// 2048 pixels, row-major: pixel `(x, y)` is `vram[y * 64 + x]`.
    pub vram: Seq<bool>,
    /// 16 return-address slots; only the first `sp` are live.
    pub stack: Seq<u16>,
    /// Program counter.
    pub pc: u16,
    /// Index register I.
    pub idx: u16,
    /// Stack pointer, in `[0, 16]`.
    pub sp: u8,
    /// Delay timer, decremented by the external 60 Hz clock.
    pub delay_timer: u8,
    /// Sound timer, decremented by the external 60 Hz clock.
    pub sound_timer: u8,
    /// The 16 general-purpose registers V0..VF.
    pub registers: Seq<u8>,
}

impl Chip8View {
    /// Structural well-formedness: fixed capacities and a stack pointer
    /// within range.
    pub open spec fn wf(self) -> bool {
        &&& self.ram.len() == RAM_SIZE
        &&& self.vram.len() == DISPLAY_SIZE
        &&& self.stack.len() == STACK_SIZE
        &&& self.registers.len() == 16
        &&& self.sp <= STACK_SIZE
    }
}

/// Memory as it stands right after construction: the font table in
/// `[0, 80)` and zeroes everywhere else.
pub open spec fn spec_initial_ram() -> Seq<u8> {
    Seq::new(RAM_SIZE as nat, |i: int| if i < 80 { FONT@[i] } else { 0u8 })
}

/// The machine state right after construction.
pub open spec fn spec_new_view() -> Chip8View {
    Chip8View {
        ram: spec_initial_ram(),
        vram: Seq::new(DISPLAY_SIZE as nat, |i: int| false),
        stack: Seq::new(STACK_SIZE as nat, |i: int| 0u16),
        pc: PROGRAM_START as u16,
        idx: 0,
        sp: 0,
        delay_timer: 0,
        sound_timer: 0,
        registers: Seq::new(16, |i: int| 0u8),
    }
}

/// Memory after a program image `prog` is copied verbatim to
/// `[PROGRAM_START, PROGRAM_START + prog.len())`.
pub open spec fn spec_loaded_ram(ram: Seq<u8>, prog: Seq<u8>) -> Seq<u8> {
    Seq::new(RAM_SIZE as nat, |i: int|
        if PROGRAM_START <= i < PROGRAM_START + prog.len() {
            prog[i - PROGRAM_START]
        } else {
            ram[i]
        })
}

/// The big-endian 16-bit instruction word held at address `pc`.
pub open spec fn spec_word_at(ram: Seq<u8>, pc: u16) -> u16 {
    ((ram[pc as int] as u16) << 8u16) | (ram[pc as int + 1] as u16)
}

/// One CHIP-8 virtual machine, owning all CPU-visible state.
pub struct Chip8 {
    /// 4096 bytes of memory (font, then reserved space, then the program).
    pub ram: Vec<u8>,
    /// Framebuffer: 2048 one-bit pixels, row-major.
    pub vram: Vec<bool>,
    /// Call stack: 16 return-address slots.
    pub stack: Vec<u16>,
    /// Program counter.
    pub pc: u16,
    /// Index register I.
    pub idx: u16,
    /// Stack pointer.
    pub sp: u8,
    /// Delay timer.
    pub delay_timer: u8,
    /// Sound timer.
    pub sound_timer: u8,
    /// The 16 general-purpose registers.
    pub registers: Vec<u8>,
}

impl View for Chip8 {
    type V = Chip8View;

    open spec fn view(&self) -> Chip8View {
        Chip8View {
            ram: self.ram@,
            vram: self.vram@,
            stack: self.stack@,
            pc: self.pc,
            idx: self.idx,
            sp: self.sp,
            delay_timer: self.delay_timer,
            sound_timer: self.sound_timer,
            registers: self.registers@,
        }
    }
}

/// A vector of `len` copies of `val`.
fn filled<T: Copy>(len: usize, val: T) -> (v: Vec<T>)
    ensures
        v@.len() == len,
        forall|i: int| 0 <= i < len ==> v@[i] == val,
{
    let mut v: Vec<T> = Vec::new();
    let mut i: usize = 0;
    while i < len
        invariant
            i <= len,
            v@.len() == i,
            forall|j: int| 0 <= j < i ==> v@[j] == val,
        decreases len - i,
    {
        v.push(val);
        i = i + 1;
    }
    v
}

impl Chip8 {
    pub open spec fn wf(self) -> bool {
        self@.wf()
    }

    /// A fresh machine: font table written, program counter at
    /// `PROGRAM_START`, everything else zeroed.
    pub fn new() -> (c: Chip8)
        ensures
            c.wf(),
            c@ == spec_new_view(),
    {
        let mut ram = filled(RAM_SIZE, 0u8);
        let mut i: usize = 0;
        while i < 80
            invariant
                i <= 80,
                ram@.len() == RAM_SIZE,
                forall|j: int| 0 <= j < i ==> ram@[j] == FONT@[j],
                forall|j: int| i <= j < RAM_SIZE ==> ram@[j] == 0u8,
            decreases 80 - i,
        {
            ram[i] = FONT[i];
            i = i + 1;
        }
        let c = Chip8 {
            ram,
            vram: filled(DISPLAY_SIZE, false),
            stack: filled(STACK_SIZE, 0u16),
            pc: PROGRAM_START as u16,
            idx: 0,
            sp: 0,
            delay_timer: 0,
            sound_timer: 0,
            registers: filled(16, 0u8),
        };
        proof {
            assert(c@.ram =~= spec_initial_ram());
            assert(c@.vram =~= spec_new_view().vram);
            assert(c@.stack =~= spec_new_view().stack);
            assert(c@.registers =~= spec_new_view().registers);
        }
        c
    }

    /// Copies `program` verbatim into memory starting at `PROGRAM_START`.
    /// Rejects images longer than the space above `PROGRAM_START`; nothing
    /// is written in that case.
    pub fn load_program(&mut self, program: &Vec<u8>) -> (r: Result<(), LoadError>)
        requires
            old(self).wf(),
        ensures
            final(self).wf(),
            program@.len() > MAX_PROGRAM_LEN ==> {
                &&& r == Err::<(), LoadError>(LoadError::ProgramTooLarge)
                &&& final(self)@ == old(self)@
            },
            program@.len() <= MAX_PROGRAM_LEN ==> {
                &&& r == Ok::<(), LoadError>(())
                &&& final(self)@ == (Chip8View {
                    ram: spec_loaded_ram(old(self)@.ram, program@),
                    ..old(self)@
                })
            },
    {
        if program.len() > MAX_PROGRAM_LEN {
            return Err(LoadError::ProgramTooLarge);
        }
        let ghost ram0 = self@.ram;
        let mut i: usize = 0;
        while i < program.len()
            invariant
                self@.ram.len() == RAM_SIZE,
                program@.len() <= MAX_PROGRAM_LEN,
                i <= program@.len(),
                forall|j: int| PROGRAM_START <= j < PROGRAM_START + i ==>
                    self@.ram[j] == program@[j - PROGRAM_START],
                forall|j: int| 0 <= j < RAM_SIZE &&
                    !(PROGRAM_START <= j < PROGRAM_START + i) ==> self@.ram[j] == ram0[j],
                self@ == (Chip8View { ram: self@.ram, ..old(self)@ }),
            decreases program@.len() - i,
    {
            self.ram[PROGRAM_START + i] = program[i];
            i = i + 1;
        }
        proof {
            assert(self@.ram =~= spec_loaded_ram(ram0, program@));
        }
        Ok(())
    }

    /// Reads the two bytes at PC, combines them big-endian, and advances PC
    /// by 2. Reports `MemoryBoundsError`, and changes nothing, when PC + 1
    /// lies outside memory.
    pub fn fetch(&mut self) -> (r: Result<u16, InterpreterError>)
        requires
            old(self).wf(),
        ensures
            final(self).wf(),
            old(self)@.pc + 1 < RAM_SIZE ==> {
                &&& r == Ok::<u16, InterpreterError>(spec_word_at(old(self)@.ram, old(self)@.pc))
                &&& final(self)@ == (Chip8View { pc: (old(self)@.pc + 2) as u16, ..old(self)@ })
            },
            old(self)@.pc + 1 >= RAM_SIZE ==> {
                &&& r == Err::<u16, InterpreterError>(InterpreterError::MemoryBoundsError)
                &&& final(self)@ == old(self)@
            },
    {
        if self.pc as usize >= RAM_SIZE - 1 {
            return Err(InterpreterError::MemoryBoundsError);
        }
        let hi = self.ram[self.pc as usize];
        let lo = self.ram[self.pc as usize + 1];
        let word = ((hi as u16) << 8u16) | (lo as u16);
        self.pc = self.pc + 2;
        Ok(word)
    }

    /// Decrements each timer that is above zero. Invoked by the driver's
    /// own 60 Hz clock, independently of instruction execution.
    pub fn tick_timers(&mut self)
        requires
            old(self).wf(),
        ensures
            final(self).wf(),
            final(self)@ == (Chip8View {
                delay_timer: if old(self)@.delay_timer > 0 {
                    (old(self)@.delay_timer - 1) as u8
                } else {
                    0u8
                },
                sound_timer: if old(self)@.sound_timer > 0 {
                    (old(self)@.sound_timer - 1) as u8
                } else {
                    0u8
                },
                ..old(self)@
            }),
    {
        if self.delay_timer > 0 {
            self.delay_timer = self.delay_timer - 1;
        }
        if self.sound_timer > 0 {
            self.sound_timer = self.sound_timer - 1;
        }
    }

    /// Whether the pixel at `(x, y)` is lit.
    pub fn get_pixel(&self, x: usize, y: usize) -> (r: bool)
        requires
            self.wf(),
            x < DISPLAY_WIDTH,
            y < DISPLAY_HEIGHT,
        ensures
            r == self@.vram[y * DISPLAY_WIDTH + x],
    {
        self.vram[y * DISPLAY_WIDTH + x]
    }

    /// A read-only borrow of the framebuffer, row-major, for the renderer.
    pub fn framebuffer(&self) -> (r: &Vec<bool>)
        ensures
            r@ == self@.vram,
    {
        &self.vram
    }
}

} // verus!
