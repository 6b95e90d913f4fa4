//! The 16-key hex keypad snapshot handed to the core by the input
//! collaborator. The collaborator owns the physical-key mapping; this type
//! only records which of the 16 pad positions are down and answers queries
//! by hex key value.

use vstd::prelude::*;

verus! {

/// The pad position that hex key `hex` occupies in the 4x4 layout
/// (rows `1 2 3 C / 4 5 6 D / 7 8 9 E / A 0 B F`).
pub open spec fn spec_key_slot(hex: int) -> int {
    if hex == 0x1 { 0 }
    else if hex == 0x2 { 1 }
    else if hex == 0x3 { 2 }
    else if hex == 0xC { 3 }
    else if hex == 0x4 { 4 }
    else if hex == 0x5 { 5 }
    else if hex == 0x6 { 6 }
    else if hex == 0xD { 7 }
    else if hex == 0x7 { 8 }
    else if hex == 0x8 { 9 }
    else if hex == 0x9 { 10 }
    else if hex == 0xE { 11 }
    else if hex == 0xA { 12 }
    else if hex == 0x0 { 13 }
    else if hex == 0xB { 14 }
    else { 15 }
}

/// Whether hex key `hex` is down in the snapshot `keys` (16 slots in
/// layout order). A value above 0xF names no key and counts as not down.
pub open spec fn spec_key_down(keys: Seq<bool>, hex: int) -> bool {
    0 <= hex <= 0xF && keys[spec_key_slot(hex)]
}

/// A snapshot of the 16-key pad, one flag per pad position.
pub struct Keys {
    /// One flag per pad position, in layout order.
    pub keys: Vec<bool>,
}

impl View for Keys {
    type V = Seq<bool>;

    open spec fn view(&self) -> Seq<bool> {
        self.keys@
    }
}

impl Keys {
    pub open spec fn wf(self) -> bool {
        self@.len() == 16
    }

    /// A snapshot with every key up.
    pub fn new() -> (k: Keys)
        ensures
            k.wf(),
            forall|i: int| 0 <= i < 16 ==> !k@[i],
    {
        let mut keys: Vec<bool> = Vec::new();
        let mut i: usize = 0;
        while i < 16
            invariant
                i <= 16,
                keys@.len() == i,
                forall|j: int| 0 <= j < i ==> !keys@[j],
            decreases 16 - i,
        {
            keys.push(false);
            i = i + 1;
        }
        Keys { keys }
    }

    /// Marks the pad position `slot` (layout order, not hex value) as down.
    pub fn press(&mut self, slot: usize)
        requires
            old(self).wf(),
            slot < 16,
        ensures
            final(self).wf(),
            final(self)@ == old(self)@.update(slot as int, true),
    {
        self.keys[slot] = true;
    }

    /// Whether the key with hex value `keycode` is down; `None` when
    /// `keycode` is not one of the 16 hex keys.
    pub fn key_pressed(&self, keycode: usize) -> (r: Option<bool>)
        requires
            self.wf(),
        ensures
            keycode <= 0xF ==> r == Some(self@[spec_key_slot(keycode as int)]),
            keycode > 0xF ==> r == None::<bool>,
    {
        let slot: Option<usize> = match keycode {
            0x1 => Some(0),
            0x2 => Some(1),
            0x3 => Some(2),
            0xC => Some(3),
            0x4 => Some(4),
            0x5 => Some(5),
            0x6 => Some(6),
            0xD => Some(7),
            0x7 => Some(8),
            0x8 => Some(9),
            0x9 => Some(10),
            0xE => Some(11),
            0xA => Some(12),
            0x0 => Some(13),
            0xB => Some(14),
            0xF => Some(15),
            _ => None,
        };
        match slot {
            Some(index) => Some(self.keys[index]),
            None => None,
        }
    }
}

} // verus!
