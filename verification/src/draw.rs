//! The sprite engine: draws an 8-wide sprite row block into the
//! framebuffer. The blit policy is the standard CHIP-8 XOR: each sprite
//! bit is XOR-ed into the existing pixel, and VF reports a collision
//! (becomes 1 exactly when some lit pixel meets a set sprite bit). The
//! sprite origin wraps on the 64x32 grid; individual pixels that fall off
//! the grid are clipped, never wrapped.

use vstd::prelude::*;

use crate::machine::Chip8;
use crate::machine::Chip8View;
use crate::machine::InterpreterError;
use crate::machine::StepOutcome;
use crate::machine::DISPLAY_SIZE;
use crate::machine::RAM_SIZE;

verus! {

/// The pixel at column `px`, row `py` of the framebuffer.
pub open spec fn spec_pixel(s: Chip8View, px: int, py: int) -> bool {
    s.vram[py * 64 + px]
}

/// Bit `c` (from the left, `c` in `[0, 8)`) of the sprite row byte `b`.
pub open spec fn spec_sprite_bit(b: u8, c: int) -> bool {
    (b >> ((7 - c) as u8)) & 1 == 1
}

/// Whether framebuffer position `p` lies under the sprite block with
/// origin `(cx, cy)` and `rows` rows, with the first `cols` columns of the
/// row after those also counted. Positions off the grid never qualify,
/// because `p % 64` is always below 64 and `p / 64` below 32: that is the
/// clipping rule.
pub open spec fn spec_covers_upto(cx: int, cy: int, rows: int, cols: int, p: int) -> bool {
    let px = p % 64;
    let py = p / 64;
    (cx <= px < cx + 8 && cy <= py < cy + rows) || (py == cy + rows && cx <= px < cx + cols)
}

/// The sprite bit that lands on framebuffer position `p`.
pub open spec fn spec_draw_bit(s: Chip8View, cx: int, cy: int, p: int) -> bool {
    spec_sprite_bit(s.ram[s.idx + (p / 64 - cy)], p % 64 - cx)
}

/// The pixel at `p` after the sprite bit covering it is XOR-ed in.
pub open spec fn spec_xor_pixel(s: Chip8View, cx: int, cy: int, p: int) -> bool {
    s.vram[p] != spec_draw_bit(s, cx, cy, p)
}

/// The framebuffer after the first `rows` full rows and `cols` further
/// columns of the sprite block are XOR-ed in.
pub open spec fn spec_vram_upto(s: Chip8View, cx: int, cy: int, rows: int, cols: int) -> Seq<bool> {
    Seq::new(DISPLAY_SIZE as nat, |p: int|
        if spec_covers_upto(cx, cy, rows, cols, p) {
            spec_xor_pixel(s, cx, cy, p)
        } else {
            s.vram[p]
        })
}

/// Whether the partial draw has turned off some pixel that was lit: a set
/// sprite bit met a lit pixel somewhere under the block drawn so far.
pub open spec fn spec_collision_upto(s: Chip8View, cx: int, cy: int, rows: int, cols: int) -> bool {
    exists|p: int|
        0 <= p < DISPLAY_SIZE && #[trigger] spec_covers_upto(cx, cy, rows, cols, p)
            && s.vram[p] && spec_draw_bit(s, cx, cy, p)
}

/// The framebuffer after the whole `rows`-row sprite block is drawn.
pub open spec fn spec_drawn_vram(s: Chip8View, cx: int, cy: int, rows: int) -> Seq<bool> {
    spec_vram_upto(s, cx, cy, rows, 0)
}

/// Whether drawing the whole block collides with a lit pixel.
pub open spec fn spec_collision(s: Chip8View, cx: int, cy: int, rows: int) -> bool {
    spec_collision_upto(s, cx, cy, rows, 0)
}

/// The effect of opcode Dxyn: the sprite at memory `[I, I + n)` is drawn
/// with origin `(Vx mod 64, Vy mod 32)` and VF reports the collision.
/// Reading a sprite byte outside memory is an error and changes nothing.
pub open spec fn spec_display(s: Chip8View, x: u8, y: u8, n: u8) -> (Chip8View, Result<
    StepOutcome,
    InterpreterError,
>) {
    if n > 0 && s.idx + n > RAM_SIZE {
        (s, Err(InterpreterError::MemoryBoundsError))
    } else {
        let cx = (s.registers[x as int] % 64) as int;
        let cy = (s.registers[y as int] % 32) as int;
        let vf: u8 = if spec_collision(s, cx, cy, n as int) {
            1u8
        } else {
            0u8
        };
        (
            Chip8View {
                vram: spec_drawn_vram(s, cx, cy, n as int),
                registers: s.registers.update(0xF, vf),
                ..s
            },
            Ok(StepOutcome::Completed),
        )
    }
}

/// Position `(px, py)` of the grid is index `py * 64 + px`, row-major.
pub proof fn lemma_pix(px: int, py: int)
    requires
        0 <= px < 64,
        0 <= py < 32,
    ensures
        (py * 64 + px) / 64 == py,
        (py * 64 + px) % 64 == px,
        0 <= py * 64 + px < 2048,
{
    assert((py * 64 + px) / 64 == py && (py * 64 + px) % 64 == px) by (nonlinear_arith)
        requires
            0 <= px < 64,
            0 <= py < 32,
    ;
}

/// Every framebuffer index splits uniquely into a column below 64 and a
/// row below 32.
pub proof fn lemma_pix_decompose(p: int)
    requires
        0 <= p < 2048,
    ensures
        p == 64 * (p / 64) + p % 64,
        0 <= p % 64 < 64,
        0 <= p / 64 < 32,
{
    assert(p == 64 * (p / 64) + p % 64 && 0 <= p % 64 < 64 && 0 <= p / 64 < 32)
        by (nonlinear_arith)
        requires
            0 <= p < 2048,
    ;
}

/// Two partial draws that cover the same positions collide alike.
proof fn lemma_collision_same_cover(
    s: Chip8View,
    cx: int,
    cy: int,
    r1: int,
    c1: int,
    r2: int,
    c2: int,
)
    requires
        forall|q: int| 0 <= q < DISPLAY_SIZE ==>
            #[trigger] spec_covers_upto(cx, cy, r1, c1, q) == spec_covers_upto(cx, cy, r2, c2, q),
    ensures
        spec_collision_upto(s, cx, cy, r1, c1) == spec_collision_upto(s, cx, cy, r2, c2),
{
    if spec_collision_upto(s, cx, cy, r1, c1) {
        let q = choose|q: int|
            0 <= q < DISPLAY_SIZE && #[trigger] spec_covers_upto(cx, cy, r1, c1, q)
                && s.vram[q] && spec_draw_bit(s, cx, cy, q);
        assert(spec_covers_upto(cx, cy, r2, c2, q));
        assert(spec_collision_upto(s, cx, cy, r2, c2));
    }
    if spec_collision_upto(s, cx, cy, r2, c2) {
        let q = choose|q: int|
            0 <= q < DISPLAY_SIZE && #[trigger] spec_covers_upto(cx, cy, r2, c2, q)
                && s.vram[q] && spec_draw_bit(s, cx, cy, q);
        assert(spec_covers_upto(cx, cy, r1, c1, q));
        assert(spec_collision_upto(s, cx, cy, r1, c1));
    }
}

impl Chip8 {
    /// Opcode Dxyn: draw the n-row sprite held at memory `[I, I + n)` at
    /// origin `(Vx mod 64, Vy mod 32)`, XOR-ing it into the framebuffer,
    /// clipping pixels that fall off the grid, and setting VF to 1 exactly
    /// when a set sprite bit lands on a lit pixel.
    pub fn display(&mut self, x: u8, y: u8, n: u8) -> (r: Result<StepOutcome, InterpreterError>)
        requires
            old(self).wf(),
            x < 16,
            y < 16,
            n < 16,
        ensures
            final(self).wf(),
            (final(self)@, r) == spec_display(old(self)@, x, y, n),
    {
        if n > 0 && self.idx as usize + n as usize > RAM_SIZE {
            return Err(InterpreterError::MemoryBoundsError);
        }
        let ghost s0 = self@;
        let cx = (self.registers[x as usize] % 64) as usize;
        let cy = (self.registers[y as usize] % 32) as usize;
        let mut collision = false;
        let mut row: u8 = 0;

        proof {
            assert forall|q: int| 0 <= q < DISPLAY_SIZE implies
                !spec_covers_upto(cx as int, cy as int, 0, 0, q) by {
                lemma_pix_decompose(q);
            }
            assert(self@.vram =~= spec_vram_upto(s0, cx as int, cy as int, 0, 0));
            if spec_collision_upto(s0, cx as int, cy as int, 0, 0) {
                let q = choose|q: int|
                    0 <= q < DISPLAY_SIZE && #[trigger] spec_covers_upto(
                        cx as int, cy as int, 0, 0, q,
                    ) && s0.vram[q] && spec_draw_bit(s0, cx as int, cy as int, q);
                assert(false);
            }
        }

        while row < n
            invariant
                s0.wf(),
                x < 16,
                y < 16,
                n < 16,
                row <= n,
                n > 0 ==> s0.idx + n <= RAM_SIZE,
                cx == s0.registers[x as int] % 64,
                cy == s0.registers[y as int] % 32,
                cx < 64,
                cy < 32,
                self@.wf(),
                self@ == (Chip8View { vram: self@.vram, ..s0 }),
                self@.vram == spec_vram_upto(s0, cx as int, cy as int, row as int, 0),
                collision == spec_collision_upto(s0, cx as int, cy as int, row as int, 0),
            decreases n - row,
        {
            let rowbyte = self.ram[self.idx as usize + row as usize];
            assert(rowbyte == s0.ram[s0.idx + row as int]);
            let mut col: u8 = 0;
            while col < 8
                invariant
                    s0.wf(),
                    n < 16,
                    row < n,
                    col <= 8,
                    n > 0 ==> s0.idx + n <= RAM_SIZE,
                    cx < 64,
                    cy < 32,
                    rowbyte == s0.ram[s0.idx + row as int],
                    self@.wf(),
                    self@ == (Chip8View { vram: self@.vram, ..s0 }),
                    self@.vram == spec_vram_upto(s0, cx as int, cy as int, row as int, col as int),
                    collision == spec_collision_upto(
                        s0, cx as int, cy as int, row as int, col as int,
                    ),
                decreases 8 - col,
            {
                let px = cx + col as usize;
                let py = cy + row as usize;
                let bit = ((rowbyte >> ((7 - col) as u8)) & 1) == 1;
                let ghost cxi = cx as int;
                let ghost cyi = cy as int;
                let ghost ri = row as int;
                let ghost ci = col as int;
                if px < 64 && py < 32 {
                    let p = py * 64 + px;
                    proof {
                        lemma_pix(px as int, py as int);
                    }
                    let old_pix = self.vram[p];
                    assert(old_pix == s0.vram[p as int] && bit == spec_draw_bit(s0, cxi, cyi, p as int)) by {
                        assert(!spec_covers_upto(cxi, cyi, ri, ci, p as int));
                    }
                    if bit && old_pix {
                        collision = true;
                    }
                    self.vram[p] = old_pix != bit;
                    proof {
                        assert forall|q: int| 0 <= q < DISPLAY_SIZE implies
                            self@.vram[q] == spec_vram_upto(s0, cxi, cyi, ri, ci + 1)[q] by {
                            lemma_pix_decompose(q);
                            if q != p as int {
                                assert(spec_covers_upto(cxi, cyi, ri, ci + 1, q)
                                    == spec_covers_upto(cxi, cyi, ri, ci, q));
                            } else {
                                assert(spec_covers_upto(cxi, cyi, ri, ci + 1, q));
                            }
                        }
                        assert(self@.vram =~= spec_vram_upto(s0, cxi, cyi, ri, ci + 1));
                        if bit && old_pix {
                            assert(spec_covers_upto(cxi, cyi, ri, ci + 1, p as int));
                            assert(spec_collision_upto(s0, cxi, cyi, ri, ci + 1));
                        } else {
                            if spec_collision_upto(s0, cxi, cyi, ri, ci + 1) {
                                let q = choose|q: int|
                                    0 <= q < DISPLAY_SIZE && #[trigger] spec_covers_upto(
                                        cxi, cyi, ri, ci + 1, q,
                                    ) && s0.vram[q] && spec_draw_bit(s0, cxi, cyi, q);
                                lemma_pix_decompose(q);
                                assert(q != p as int);
                                assert(spec_covers_upto(cxi, cyi, ri, ci, q));
                                assert(spec_collision_upto(s0, cxi, cyi, ri, ci));
                            }
                            if spec_collision_upto(s0, cxi, cyi, ri, ci) {
                                let q = choose|q: int|
                                    0 <= q < DISPLAY_SIZE && #[trigger] spec_covers_upto(
                                        cxi, cyi, ri, ci, q,
                                    ) && s0.vram[q] && spec_draw_bit(s0, cxi, cyi, q);
                                assert(spec_covers_upto(cxi, cyi, ri, ci + 1, q));
                                assert(spec_collision_upto(s0, cxi, cyi, ri, ci + 1));
                            }
                        }
                    }
                } else {
                    proof {
                        assert forall|q: int| 0 <= q < DISPLAY_SIZE implies
                            spec_covers_upto(cxi, cyi, ri, ci + 1, q)
                                == spec_covers_upto(cxi, cyi, ri, ci, q) by {
                            lemma_pix_decompose(q);
                        }
                        assert(self@.vram =~= spec_vram_upto(s0, cxi, cyi, ri, ci + 1));
                        lemma_collision_same_cover(s0, cxi, cyi, ri, ci + 1, ri, ci);
                    }
                }
                col = col + 1;
            }
            proof {
                let ghost cxi = cx as int;
                let ghost cyi = cy as int;
                let ghost ri = row as int;
                assert forall|q: int| 0 <= q < DISPLAY_SIZE implies
                    spec_covers_upto(cxi, cyi, ri + 1, 0, q)
                        == spec_covers_upto(cxi, cyi, ri, 8, q) by {
                    lemma_pix_decompose(q);
                }
                assert(self@.vram =~= spec_vram_upto(s0, cxi, cyi, ri + 1, 0));
                lemma_collision_same_cover(s0, cxi, cyi, ri + 1, 0, ri, 8);
            }
            row = row + 1;
        }
        let vf: u8 = if collision {
            1
        } else {
            0
        };
        self.registers[0xF] = vf;
        Ok(StepOutcome::Completed)
    }
}

} // verus!
