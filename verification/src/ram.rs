//! The 4096-byte address space of the machine, with the built-in digit
//! sprites preloaded at address 0.

use vstd::prelude::*;

verus! {

/// Number of addressable bytes.
pub const MEM_SIZE: usize = 4096;

/// One row of the built-in sprite for digit `d` (0 to 15): row `k` of 5.
pub open spec fn glyph_row(d: int, k: int) -> u8 {
    if d == 0 {
        if k == 0 { 0xF0 } else if k == 1 { 0x90 } else if k == 2 { 0x90 }
        else if k == 3 { 0x90 } else { 0xF0 }
    } else if d == 1 {
        if k == 0 { 0x20 } else if k == 1 { 0x60 } else if k == 2 { 0x20 }
        else if k == 3 { 0x20 } else { 0x70 }
    } else if d == 2 {
        if k == 0 { 0xF0 } else if k == 1 { 0x10 } else if k == 2 { 0xF0 }
        else if k == 3 { 0x80 } else { 0xF0 }
    } else if d == 3 {
        if k == 0 { 0xF0 } else if k == 1 { 0x10 } else if k == 2 { 0xF0 }
        else if k == 3 { 0x10 } else { 0xF0 }
    } else if d == 4 {
        if k == 0 { 0x90 } else if k == 1 { 0x90 } else if k == 2 { 0xF0 }
        else if k == 3 { 0x10 } else { 0x10 }
    } else if d == 5 {
        if k == 0 { 0xF0 } else if k == 1 { 0x80 } else if k == 2 { 0xF0 }
        else if k == 3 { 0x10 } else { 0xF0 }
    } else if d == 6 {
        if k == 0 { 0xF0 } else if k == 1 { 0x80 } else if k == 2 { 0xF0 }
        else if k == 3 { 0x90 } else { 0xF0 }
    } else if d == 7 {
        if k == 0 { 0xF0 } else if k == 1 { 0x10 } else if k == 2 { 0x20 }
        else if k == 3 { 0x40 } else { 0x40 }
    } else if d == 8 {
        if k == 0 { 0xF0 } else if k == 1 { 0x90 } else if k == 2 { 0xF0 }
        else if k == 3 { 0x90 } else { 0xF0 }
    } else if d == 9 {
        if k == 0 { 0xF0 } else if k == 1 { 0x90 } else if k == 2 { 0xF0 }
        else if k == 3 { 0x10 } else { 0xF0 }
    } else if d == 10 {
        if k == 0 { 0xF0 } else if k == 1 { 0x90 } else if k == 2 { 0xF0 }
        else if k == 3 { 0x90 } else { 0x90 }
    } else if d == 11 {
        if k == 0 { 0xE0 } else if k == 1 { 0x90 } else if k == 2 { 0xE0 }
        else if k == 3 { 0x90 } else { 0xE0 }
    } else if d == 12 {
        if k == 0 { 0xF0 } else if k == 1 { 0x80 } else if k == 2 { 0x80 }
        else if k == 3 { 0x80 } else { 0xF0 }
    } else if d == 13 {
        if k == 0 { 0xE0 } else if k == 1 { 0x90 } else if k == 2 { 0x90 }
        else if k == 3 { 0x90 } else { 0xE0 }
    } else if d == 14 {
        if k == 0 { 0xF0 } else if k == 1 { 0x80 } else if k == 2 { 0xF0 }
        else if k == 3 { 0x80 } else { 0xF0 }
    } else {
        if k == 0 { 0xF0 } else if k == 1 { 0x80 } else if k == 2 { 0xF0 }
        else if k == 3 { 0x80 } else { 0x80 }
    }
}

/// Byte `j` of the 80-byte font area: row `j % 5` of the glyph for digit
/// `j / 5`.
pub open spec fn font_byte(j: int) -> u8 {
    glyph_row(j / 5, j % 5)
}

/// The whole address space as it looks before any program is loaded: the
/// font in the first 80 bytes, zeroes everywhere else.
pub open spec fn initial_mem() -> Seq<u8> {
    Seq::new(4096, |j: int| if j < 80 { font_byte(j) } else { 0 })
}

/// Flat byte store covering the full address space.
pub struct Ram {
    pub bytes: Vec<u8>,
}

impl Ram {
    /// The store always covers exactly the 4096 addresses.
    pub open spec fn wf(self) -> bool {
        self.bytes@.len() == 4096
    }

    /// A fresh store: font data in place, all other bytes zero.
    pub fn new() -> (r: Ram)
        ensures
            r.wf(),
            r.bytes@ == initial_mem(),
    {
        let mut bytes: Vec<u8> = Vec::new();
        let mut d: u8 = 0;
        while d < 16
            invariant
                d <= 16,
                bytes@.len() == 5 * d,
                forall|j: int| 0 <= j < bytes@.len() ==> bytes@[j] == font_byte(j),
            decreases 16 - d,
        {
            push_glyph(&mut bytes, d);
            d = d + 1;
        }
        while bytes.len() < MEM_SIZE
            invariant
                80 <= bytes@.len() <= 4096,
                forall|j: int| 0 <= j < 80 ==> bytes@[j] == font_byte(j),
                forall|j: int| 80 <= j < bytes@.len() ==> bytes@[j] == 0,
            decreases 4096 - bytes@.len(),
        {
            bytes.push(0);
        }
        let r = Ram { bytes };
        proof {
            assert(r.bytes@ =~= initial_mem());
        }
        r
    }

    /// The byte at `addr`.
    pub fn read(&self, addr: u16) -> (b: u8)
        requires
            self.wf(),
            addr < 4096,
        ensures
            b == self.bytes@[addr as int],
    {
        self.bytes[addr as usize]
    }

    /// Overwrite the byte at `addr`.
    pub fn set(&mut self, addr: u16, new: u8)
        requires
            old(self).wf(),
            addr < 4096,
        ensures
            final(self).wf(),
            final(self).bytes@ == old(self).bytes@.update(addr as int, new),
    {
        self.bytes.set(addr as usize, new);
    }
}

/// Append the five rows of the glyph for digit `d` (0 to 15).
fn push_glyph(v: &mut Vec<u8>, d: u8)
    requires
        d < 16,
        old(v)@.len() == 5 * d,
        forall|j: int| 0 <= j < old(v)@.len() ==> old(v)@[j] == font_byte(j),
    ensures
        final(v)@.len() == old(v)@.len() + 5,
        forall|j: int| 0 <= j < final(v)@.len() ==> final(v)@[j] == font_byte(j),
{
    match d {
        0 => { v.push(0xF0); v.push(0x90); v.push(0x90); v.push(0x90); v.push(0xF0); }
        1 => { v.push(0x20); v.push(0x60); v.push(0x20); v.push(0x20); v.push(0x70); }
        2 => { v.push(0xF0); v.push(0x10); v.push(0xF0); v.push(0x80); v.push(0xF0); }
        3 => { v.push(0xF0); v.push(0x10); v.push(0xF0); v.push(0x10); v.push(0xF0); }
        4 => { v.push(0x90); v.push(0x90); v.push(0xF0); v.push(0x10); v.push(0x10); }
        5 => { v.push(0xF0); v.push(0x80); v.push(0xF0); v.push(0x10); v.push(0xF0); }
        6 => { v.push(0xF0); v.push(0x80); v.push(0xF0); v.push(0x90); v.push(0xF0); }
        7 => { v.push(0xF0); v.push(0x10); v.push(0x20); v.push(0x40); v.push(0x40); }
        8 => { v.push(0xF0); v.push(0x90); v.push(0xF0); v.push(0x90); v.push(0xF0); }
        9 => { v.push(0xF0); v.push(0x90); v.push(0xF0); v.push(0x10); v.push(0xF0); }
        10 => { v.push(0xF0); v.push(0x90); v.push(0xF0); v.push(0x90); v.push(0x90); }
        11 => { v.push(0xE0); v.push(0x90); v.push(0xE0); v.push(0x90); v.push(0xE0); }
        12 => { v.push(0xF0); v.push(0x80); v.push(0x80); v.push(0x80); v.push(0xF0); }
        13 => { v.push(0xE0); v.push(0x90); v.push(0x90); v.push(0x90); v.push(0xE0); }
        14 => { v.push(0xF0); v.push(0x80); v.push(0xF0); v.push(0x80); v.push(0xF0); }
        _ => { v.push(0xF0); v.push(0x80); v.push(0xF0); v.push(0x80); v.push(0x80); }
    }
    proof {
        assert(forall|j: int| 5 * d <= j < 5 * d + 5 ==> #[trigger] font_byte(j) == glyph_row(
            d as int,
            j - 5 * d,
        )) by {
            assert forall|j: int| 5 * d <= j < 5 * d + 5 implies #[trigger] font_byte(j)
                == glyph_row(d as int, j - 5 * d) by {
                assert(j / 5 == d as int && j % 5 == j - 5 * d) by (nonlinear_arith)
                    requires 5 * d <= j < 5 * d + 5, 0 <= d < 16;
            }
        }
    }
}

} // verus!
