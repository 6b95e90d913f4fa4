//! Laws of the instruction set that relate several operations or quantify
//! over all inputs, proved from the contracts the semantics states.

use vstd::prelude::*;

use crate::decode::spec_decode;
use crate::decode::Instr;
use crate::draw::lemma_pix;
use crate::draw::spec_covers_upto;
use crate::draw::spec_display;
use crate::draw::spec_draw_bit;
use crate::exec::spec_execute;
use crate::exec::spec_implemented;
use crate::exec::spec_misc;
use crate::exec::spec_step;
use crate::exec::spec_wrap8;
use crate::machine::spec_word_at;
use crate::machine::Chip8View;
use crate::machine::InterpreterError;
use crate::machine::StepOutcome;
use crate::machine::DISPLAY_SIZE;
use crate::machine::RAM_SIZE;
use crate::machine::STACK_SIZE;

verus! {

/// Law: a step that fetches a 6xkk instruction sets Vx to kk exactly and
/// advances PC by exactly 2 from its pre-fetch value.
pub proof fn lemma_set_imm(s: Chip8View, keys: Seq<bool>, rnd: u8)
    requires
        s.wf(),
        s.pc + 1 < RAM_SIZE,
        spec_decode(spec_word_at(s.ram, s.pc)).class == 0x6,
    ensures
        ({
            let i = spec_decode(spec_word_at(s.ram, s.pc));
            let post = spec_step(s, keys, rnd).0;
            &&& spec_step(s, keys, rnd).1 == Ok::<StepOutcome, InterpreterError>(
                StepOutcome::Completed,
            )
            &&& post.registers[i.x as int] == i.nn
            &&& post.pc == s.pc + 2
        }),
{
    let w = spec_word_at(s.ram, s.pc);
    assert(((w >> 8u16) & 0xF) < 16) by (bit_vector);
}

/// Law: 7xkk wraps mod 256 and touches no flag: Vx becomes
/// (Vx + kk) mod 256 and, for any x other than 0xF (where the result
/// itself lands in the flag register), VF is unchanged.
pub proof fn lemma_add_imm_wraps(s: Chip8View, i: Instr, keys: Seq<bool>, rnd: u8)
    requires
        s.wf(),
        i.wf(),
        i.class == 0x7,
    ensures
        ({
            let post = spec_execute(s, i, keys, rnd).0;
            &&& post.registers[i.x as int] == (s.registers[i.x as int] + i.nn) % 256
            &&& i.x != 0xF ==> post.registers[0xF] == s.registers[0xF]
            &&& post.pc == s.pc
        }),
{
    let vx = s.registers[i.x as int];
    assert(spec_wrap8(vx + i.nn) == (vx + i.nn) % 256) by (nonlinear_arith)
        requires
            0 <= vx < 256,
            0 <= i.nn < 256,
    ;
}

/// Law: 8xy4 adds with a carry flag: Vx becomes (Vx + Vy) mod 256, and,
/// for any x other than 0xF, VF becomes 1 exactly when the sum exceeded
/// 255.
pub proof fn lemma_add_reg_carry(s: Chip8View, i: Instr, keys: Seq<bool>, rnd: u8)
    requires
        s.wf(),
        i.wf(),
        i.class == 0x8,
        i.n == 0x4,
    ensures
        ({
            let vx = s.registers[i.x as int];
            let vy = s.registers[i.y as int];
            let post = spec_execute(s, i, keys, rnd).0;
            &&& post.registers[i.x as int] == (vx + vy) % 256
            &&& i.x != 0xF ==> post.registers[0xF] == (
                if vx + vy > 255 { 1u8 } else { 0u8 }
            )
        }),
{
    let vx = s.registers[i.x as int];
    let vy = s.registers[i.y as int];
    assert(spec_wrap8(vx + vy) == (vx + vy) % 256) by (nonlinear_arith)
        requires
            0 <= vx < 256,
            0 <= vy < 256,
    ;
}

/// Law: after 00E0, every one of the 2048 pixel queries answers off.
pub proof fn lemma_clear_all_off(s: Chip8View, i: Instr, keys: Seq<bool>, rnd: u8)
    requires
        s.wf(),
        i.class == 0x0,
        i.nn == 0xE0,
    ensures
        ({
            let post = spec_execute(s, i, keys, rnd).0;
            &&& spec_execute(s, i, keys, rnd).1 == Ok::<StepOutcome, InterpreterError>(
                StepOutcome::Completed,
            )
            &&& forall|px: int, py: int| 0 <= px < 64 && 0 <= py < 32 ==>
                !#[trigger] crate::draw::spec_pixel(post, px, py)
        }),
{
    let post = spec_execute(s, i, keys, rnd).0;
    assert forall|px: int, py: int| 0 <= px < 64 && 0 <= py < 32 implies
        !#[trigger] crate::draw::spec_pixel(post, px, py) by {
        lemma_pix(px, py);
    }
}

/// Law: a 2nnn call followed by a 00EE return brings PC to exactly the
/// instruction after the call.
pub proof fn lemma_call_then_ret(s: Chip8View, keys: Seq<bool>, r1: u8, r2: u8)
    requires
        s.wf(),
        s.pc + 1 < RAM_SIZE,
        s.sp < STACK_SIZE,
        spec_decode(spec_word_at(s.ram, s.pc)).class == 0x2,
        spec_decode(spec_word_at(s.ram, s.pc)).nnn + 1 < RAM_SIZE,
        spec_word_at(s.ram, spec_decode(spec_word_at(s.ram, s.pc)).nnn) == 0x00EE,
    ensures
        ({
            let first = spec_step(s, keys, r1);
            let second = spec_step(first.0, keys, r2);
            &&& first.1 == Ok::<StepOutcome, InterpreterError>(StepOutcome::Completed)
            &&& second.1 == Ok::<StepOutcome, InterpreterError>(StepOutcome::Completed)
            &&& second.0.pc == s.pc + 2
            &&& second.0.sp == s.sp
        }),
{
    assert(((0x00EEu16 >> 12u16) & 0xF) as u8 == 0x0 && (0x00EEu16 & 0xFF) as u8 == 0xEE)
        by (bit_vector);
}

/// Law: storing V0..Vx with Fx55 and reading them back with Fx65 from the
/// same I restores every register exactly.
pub proof fn lemma_store_load_round_trip(s: Chip8View, x: u8, keys: Seq<bool>)
    requires
        s.wf(),
        x < 16,
        s.idx + x < RAM_SIZE,
    ensures
        ({
            let stored = spec_misc(s, x, 0x55, keys);
            let loaded = spec_misc(stored.0, x, 0x65, keys);
            &&& stored.1 == Ok::<StepOutcome, InterpreterError>(StepOutcome::Completed)
            &&& loaded.1 == Ok::<StepOutcome, InterpreterError>(StepOutcome::Completed)
            &&& loaded.0.registers == s.registers
            &&& loaded.0.ram == stored.0.ram
        }),
{
    let stored = spec_misc(s, x, 0x55, keys);
    let loaded = spec_misc(stored.0, x, 0x65, keys);
    assert forall|j: int| 0 <= j < 16 implies loaded.0.registers[j] == s.registers[j] by {
        if j <= x {
            assert(stored.0.ram[s.idx + j] == s.registers[j]);
        }
    }
    assert(loaded.0.registers =~= s.registers);
}

/// Law: drawing an 8-wide, 1-row, all-on sprite twice at the same origin
/// on a cleared screen reports no collision the first time (VF = 0) and a
/// collision the second time (VF = 1), the XOR blit having lit the pixels
/// in between. Stated for x and y other than 0xF, since the first draw's
/// flag write would otherwise move the origin.
pub proof fn lemma_draw_twice_collides(s: Chip8View, x: u8, y: u8)
    requires
        s.wf(),
        x < 16,
        y < 16,
        x != 0xF,
        y != 0xF,
        s.idx < RAM_SIZE,
        s.ram[s.idx as int] == 0xFF,
        forall|p: int| 0 <= p < DISPLAY_SIZE ==> !s.vram[p],
    ensures
        ({
            let first = spec_display(s, x, y, 1);
            let second = spec_display(first.0, x, y, 1);
            &&& first.1 == Ok::<StepOutcome, InterpreterError>(StepOutcome::Completed)
            &&& second.1 == Ok::<StepOutcome, InterpreterError>(StepOutcome::Completed)
            &&& first.0.registers[0xF] == 0
            &&& second.0.registers[0xF] == 1
        }),
{
    let cx = (s.registers[x as int] % 64) as int;
    let cy = (s.registers[y as int] % 32) as int;
    let first = spec_display(s, x, y, 1);
    let s1 = first.0;
    if crate::draw::spec_collision(s, cx, cy, 1) {
        let q = choose|q: int|
            0 <= q < DISPLAY_SIZE && #[trigger] spec_covers_upto(cx, cy, 1, 0, q) && s.vram[q]
                && spec_draw_bit(s, cx, cy, q);
        assert(false);
    }
    let p0 = cy * 64 + cx;
    lemma_pix(cx, cy);
    assert(spec_covers_upto(cx, cy, 1, 0, p0));
    assert((0xFFu8 >> ((7 - 0) as u8)) & 1 == 1) by (bit_vector);
    assert(spec_draw_bit(s, cx, cy, p0));
    assert(s1.vram[p0]);
    assert(s1.registers[x as int] == s.registers[x as int]);
    assert(s1.registers[y as int] == s.registers[y as int]);
    assert(spec_draw_bit(s1, cx, cy, p0));
    assert(crate::draw::spec_collision(s1, cx, cy, 1));
}

/// Law: an instruction outside the opcode table is reported as
/// unimplemented and mutates nothing.
pub proof fn lemma_unimplemented_keeps_state(s: Chip8View, i: Instr, keys: Seq<bool>, rnd: u8)
    requires
        s.wf(),
        !spec_implemented(i),
    ensures
        spec_execute(s, i, keys, rnd) == (
            s,
            Err::<StepOutcome, InterpreterError>(InterpreterError::UnimplementedOpcode),
        ),
{
}

/// Law: a step that fetches an instruction outside the opcode table
/// reports it as unimplemented and leaves registers, memory, framebuffer
/// and stack unchanged; only PC reflects the completed fetch.
pub proof fn lemma_unimplemented_step(s: Chip8View, keys: Seq<bool>, rnd: u8)
    requires
        s.wf(),
        s.pc + 1 < RAM_SIZE,
        !spec_implemented(spec_decode(spec_word_at(s.ram, s.pc))),
    ensures
        spec_step(s, keys, rnd) == (
            Chip8View { pc: (s.pc + 2) as u16, ..s },
            Err::<StepOutcome, InterpreterError>(InterpreterError::UnimplementedOpcode),
        ),
{
    let s1 = Chip8View { pc: (s.pc + 2) as u16, ..s };
    lemma_unimplemented_keeps_state(s1, spec_decode(spec_word_at(s.ram, s.pc)), keys, rnd);
}

} // verus!

