//! The decoder: a pure, total extraction of the opcode fields from a
//! 16-bit instruction word. Every field is produced for every word,
//! whether or not the opcode is implemented.

use vstd::prelude::*;

verus! {

/// The fields of a decoded instruction word `W`:
/// class = bits 15-12, x = bits 11-8, y = bits 7-4, n = bits 3-0,
/// nn = bits 7-0, nnn = bits 11-0.
#[derive(Clone, Copy, Debug, PartialEq, Eq, Structural)]
pub struct Instr {
    pub class: u8,
    pub x: u8,
    pub y: u8,
    pub n: u8,
    pub nn: u8,
    pub nnn: u16,
}

impl Instr {
    /// The field ranges that bit extraction guarantees.
    pub open spec fn wf(self) -> bool {
        &&& self.class < 16
        &&& self.x < 16
        &&& self.y < 16
        &&& self.n < 16
        &&& self.nnn < 0x1000
    }
}

/// Field extraction, stated bit for bit.
pub open spec fn spec_decode(w: u16) -> Instr {
    Instr {
        class: ((w >> 12u16) & 0xF) as u8,
        x: ((w >> 8u16) & 0xF) as u8,
        y: ((w >> 4u16) & 0xF) as u8,
        n: (w & 0xF) as u8,
        nn: (w & 0xFF) as u8,
        nnn: w & 0xFFF,
    }
}

/// Decodes the instruction word `w` into its fields.
pub fn decode(w: u16) -> (i: Instr)
    ensures
        i == spec_decode(w),
        i.wf(),
{
    let i = Instr {
        class: ((w >> 12u16) & 0xF) as u8,
        x: ((w >> 8u16) & 0xF) as u8,
        y: ((w >> 4u16) & 0xF) as u8,
        n: (w & 0xF) as u8,
        nn: (w & 0xFF) as u8,
        nnn: w & 0xFFF,
    };
    proof {
        assert(((w >> 12u16) & 0xF) < 16 && ((w >> 8u16) & 0xF) < 16
            && ((w >> 4u16) & 0xF) < 16 && (w & 0xF) < 16 && (w & 0xFFF) < 0x1000)
            by (bit_vector);
    }
    i
}

} // verus!
