//! Pure classification of a 16-bit instruction word into one of the known
//! instruction shapes, with its operands extracted.

use vstd::prelude::*;

verus! {

/// One decoded instruction.  `x` and `y` are 4-bit register indices, `nn`
/// an 8-bit immediate, `nnn` a 12-bit address and `n` a 4-bit count.
#[derive(Clone, Copy, PartialEq, Eq, Structural, Debug)]
pub enum Opcode {
    Cls,
    Ret,
    JpAddr { nnn: u16 },
    CallAddr { nnn: u16 },
    SeVxByte { x: u8, nn: u8 },
    SneVxByte { x: u8, nn: u8 },
    SeVxVy { x: u8, y: u8 },
    LdVxByte { x: u8, nn: u8 },
    AddVxByte { x: u8, nn: u8 },
    LdVxVy { x: u8, y: u8 },
    OrVxVy { x: u8, y: u8 },
    AndVxVy { x: u8, y: u8 },
    XorVxVy { x: u8, y: u8 },
    AddVxVy { x: u8, y: u8 },
    SubVxVy { x: u8, y: u8 },
    ShrVx { x: u8 },
    SubnVxVy { x: u8, y: u8 },
    ShlVx { x: u8 },
    SneVxVy { x: u8, y: u8 },
    LdIAddr { nnn: u16 },
    JpV0Addr { nnn: u16 },
    RndVxByte { x: u8, nn: u8 },
    DrwVxVyN { x: u8, y: u8, n: u8 },
    SkpVx { x: u8 },
    SknpVx { x: u8 },
    LdVxDt { x: u8 },
    LdVxK { x: u8 },
    LdDtVx { x: u8 },
    LdStVx { x: u8 },
    AddIVx { x: u8 },
    LdFVx { x: u8 },
    LdBVx { x: u8 },
    LdIVx { x: u8 },
    LdVxI { x: u8 },
}

/// Highest nibble of an instruction word.
pub open spec fn nib3(w: u16) -> u8 {
    ((w >> 12) & 0xF) as u8
}

/// Second-highest nibble: the first register index.
pub open spec fn nib2(w: u16) -> u8 {
    ((w >> 8) & 0xF) as u8
}

/// Second-lowest nibble: the second register index.
pub open spec fn nib1(w: u16) -> u8 {
    ((w >> 4) & 0xF) as u8
}

/// Lowest nibble: the count operand.
pub open spec fn nib0(w: u16) -> u8 {
    (w & 0xF) as u8
}

/// The 12-bit address operand.
pub open spec fn addr_of(w: u16) -> u16 {
    w & 0x0FFF
}

/// The 8-bit immediate operand.
pub open spec fn byte_of(w: u16) -> u8 {
    (w & 0xFF) as u8
}

/// Which instruction, if any, the word `w` encodes.
pub open spec fn decode_spec(w: u16) -> Option<Opcode> {
    let t = nib3(w);
    let x = nib2(w);
    let y = nib1(w);
    let n = nib0(w);
    let nn = byte_of(w);
    let nnn = addr_of(w);
    if w == 0x00E0 {
        Some(Opcode::Cls)
    } else if w == 0x00EE {
        Some(Opcode::Ret)
    } else if t == 0x1 {
        Some(Opcode::JpAddr { nnn })
    } else if t == 0x2 {
        Some(Opcode::CallAddr { nnn })
    } else if t == 0x3 {
        Some(Opcode::SeVxByte { x, nn })
    } else if t == 0x4 {
        Some(Opcode::SneVxByte { x, nn })
    } else if t == 0x5 && n == 0x0 {
        Some(Opcode::SeVxVy { x, y })
    } else if t == 0x6 {
        Some(Opcode::LdVxByte { x, nn })
    } else if t == 0x7 {
        Some(Opcode::AddVxByte { x, nn })
    } else if t == 0x8 && n == 0x0 {
        Some(Opcode::LdVxVy { x, y })
    } else if t == 0x8 && n == 0x1 {
        Some(Opcode::OrVxVy { x, y })
    } else if t == 0x8 && n == 0x2 {
        Some(Opcode::AndVxVy { x, y })
    } else if t == 0x8 && n == 0x3 {
        Some(Opcode::XorVxVy { x, y })
    } else if t == 0x8 && n == 0x4 {
        Some(Opcode::AddVxVy { x, y })
    } else if t == 0x8 && n == 0x5 {
        Some(Opcode::SubVxVy { x, y })
    } else if t == 0x8 && n == 0x6 {
        Some(Opcode::ShrVx { x })
    } else if t == 0x8 && n == 0x7 {
        Some(Opcode::SubnVxVy { x, y })
    } else if t == 0x8 && n == 0xE {
        Some(Opcode::ShlVx { x })
    } else if t == 0x9 && n == 0x0 {
        Some(Opcode::SneVxVy { x, y })
    } else if t == 0xA {
        Some(Opcode::LdIAddr { nnn })
    } else if t == 0xB {
        Some(Opcode::JpV0Addr { nnn })
    } else if t == 0xC {
        Some(Opcode::RndVxByte { x, nn })
    } else if t == 0xD {
        Some(Opcode::DrwVxVyN { x, y, n })
    } else if t == 0xE && nn == 0x9E {
        Some(Opcode::SkpVx { x })
    } else if t == 0xE && nn == 0xA1 {
        Some(Opcode::SknpVx { x })
    } else if t == 0xF && nn == 0x07 {
        Some(Opcode::LdVxDt { x })
    } else if t == 0xF && nn == 0x0A {
        Some(Opcode::LdVxK { x })
    } else if t == 0xF && nn == 0x15 {
        Some(Opcode::LdDtVx { x })
    } else if t == 0xF && nn == 0x18 {
        Some(Opcode::LdStVx { x })
    } else if t == 0xF && nn == 0x1E {
        Some(Opcode::AddIVx { x })
    } else if t == 0xF && nn == 0x29 {
        Some(Opcode::LdFVx { x })
    } else if t == 0xF && nn == 0x33 {
        Some(Opcode::LdBVx { x })
    } else if t == 0xF && nn == 0x55 {
        Some(Opcode::LdIVx { x })
    } else if t == 0xF && nn == 0x65 {
        Some(Opcode::LdVxI { x })
    } else {
        None
    }
}

/// Every operand a decoded instruction carries lies in its field's range.
pub open spec fn op_wf(op: Opcode) -> bool {
    match op {
        Opcode::Cls => true,
        Opcode::Ret => true,
        Opcode::JpAddr { nnn } => nnn < 0x1000,
        Opcode::CallAddr { nnn } => nnn < 0x1000,
        Opcode::SeVxByte { x, nn: _ } => x < 16,
        Opcode::SneVxByte { x, nn: _ } => x < 16,
        Opcode::SeVxVy { x, y } => x < 16 && y < 16,
        Opcode::LdVxByte { x, nn: _ } => x < 16,
        Opcode::AddVxByte { x, nn: _ } => x < 16,
        Opcode::LdVxVy { x, y } => x < 16 && y < 16,
        Opcode::OrVxVy { x, y } => x < 16 && y < 16,
        Opcode::AndVxVy { x, y } => x < 16 && y < 16,
        Opcode::XorVxVy { x, y } => x < 16 && y < 16,
        Opcode::AddVxVy { x, y } => x < 16 && y < 16,
        Opcode::SubVxVy { x, y } => x < 16 && y < 16,
        Opcode::ShrVx { x } => x < 16,
        Opcode::SubnVxVy { x, y } => x < 16 && y < 16,
        Opcode::ShlVx { x } => x < 16,
        Opcode::SneVxVy { x, y } => x < 16 && y < 16,
        Opcode::LdIAddr { nnn } => nnn < 0x1000,
        Opcode::JpV0Addr { nnn } => nnn < 0x1000,
        Opcode::RndVxByte { x, nn: _ } => x < 16,
        Opcode::DrwVxVyN { x, y, n } => x < 16 && y < 16 && n < 16,
        Opcode::SkpVx { x } => x < 16,
        Opcode::SknpVx { x } => x < 16,
        Opcode::LdVxDt { x } => x < 16,
        Opcode::LdVxK { x } => x < 16,
        Opcode::LdDtVx { x } => x < 16,
        Opcode::LdStVx { x } => x < 16,
        Opcode::AddIVx { x } => x < 16,
        Opcode::LdFVx { x } => x < 16,
        Opcode::LdBVx { x } => x < 16,
        Opcode::LdIVx { x } => x < 16,
        Opcode::LdVxI { x } => x < 16,
    }
}

/// Classify `w`, returning `None` for a word that matches no known shape.
pub fn decode(w: u16) -> (r: Option<Opcode>)
    ensures
        r == decode_spec(w),
        r matches Some(op) ==> op_wf(op),
{
    proof {
        assert(((w >> 12) & 0xF) < 16) by (bit_vector);
        assert(((w >> 8) & 0xF) < 16) by (bit_vector);
        assert(((w >> 4) & 0xF) < 16) by (bit_vector);
        assert((w & 0xF) < 16) by (bit_vector);
        assert((w & 0x0FFF) < 0x1000) by (bit_vector);
    }
    let t: u8 = ((w >> 12) & 0xF) as u8;
    let x: u8 = ((w >> 8) & 0xF) as u8;
    let y: u8 = ((w >> 4) & 0xF) as u8;
    let n: u8 = (w & 0xF) as u8;
    let nn: u8 = (w & 0xFF) as u8;
    let nnn: u16 = w & 0x0FFF;
    if w == 0x00E0 {
        Some(Opcode::Cls)
    } else if w == 0x00EE {
        Some(Opcode::Ret)
    } else if t == 0x1 {
        Some(Opcode::JpAddr { nnn })
    } else if t == 0x2 {
        Some(Opcode::CallAddr { nnn })
    } else if t == 0x3 {
        Some(Opcode::SeVxByte { x, nn })
    } else if t == 0x4 {
        Some(Opcode::SneVxByte { x, nn })
    } else if t == 0x5 && n == 0x0 {
        Some(Opcode::SeVxVy { x, y })
    } else if t == 0x6 {
        Some(Opcode::LdVxByte { x, nn })
    } else if t == 0x7 {
        Some(Opcode::AddVxByte { x, nn })
    } else if t == 0x8 && n == 0x0 {
        Some(Opcode::LdVxVy { x, y })
    } else if t == 0x8 && n == 0x1 {
        Some(Opcode::OrVxVy { x, y })
    } else if t == 0x8 && n == 0x2 {
        Some(Opcode::AndVxVy { x, y })
    } else if t == 0x8 && n == 0x3 {
        Some(Opcode::XorVxVy { x, y })
    } else if t == 0x8 && n == 0x4 {
        Some(Opcode::AddVxVy { x, y })
    } else if t == 0x8 && n == 0x5 {
        Some(Opcode::SubVxVy { x, y })
    } else if t == 0x8 && n == 0x6 {
        Some(Opcode::ShrVx { x })
    } else if t == 0x8 && n == 0x7 {
        Some(Opcode::SubnVxVy { x, y })
    } else if t == 0x8 && n == 0xE {
        Some(Opcode::ShlVx { x })
    } else if t == 0x9 && n == 0x0 {
        Some(Opcode::SneVxVy { x, y })
    } else if t == 0xA {
        Some(Opcode::LdIAddr { nnn })
    } else if t == 0xB {
        Some(Opcode::JpV0Addr { nnn })
    } else if t == 0xC {
        Some(Opcode::RndVxByte { x, nn })
    } else if t == 0xD {
        Some(Opcode::DrwVxVyN { x, y, n })
    } else if t == 0xE && nn == 0x9E {
        Some(Opcode::SkpVx { x })
    } else if t == 0xE && nn == 0xA1 {
        Some(Opcode::SknpVx { x })
    } else if t == 0xF && nn == 0x07 {
        Some(Opcode::LdVxDt { x })
    } else if t == 0xF && nn == 0x0A {
        Some(Opcode::LdVxK { x })
    } else if t == 0xF && nn == 0x15 {
        Some(Opcode::LdDtVx { x })
    } else if t == 0xF && nn == 0x18 {
        Some(Opcode::LdStVx { x })
    } else if t == 0xF && nn == 0x1E {
        Some(Opcode::AddIVx { x })
    } else if t == 0xF && nn == 0x29 {
        Some(Opcode::LdFVx { x })
    } else if t == 0xF && nn == 0x33 {
        Some(Opcode::LdBVx { x })
    } else if t == 0xF && nn == 0x55 {
        Some(Opcode::LdIVx { x })
    } else if t == 0xF && nn == 0x65 {
        Some(Opcode::LdVxI { x })
    } else {
        None
    }
}

} // verus!
