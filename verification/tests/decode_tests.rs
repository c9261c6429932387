use chip8::decode::{decode, Opcode};

#[test]
fn decode_screen_and_flow() {
    assert_eq!(decode(0x00E0), Some(Opcode::Cls));
    assert_eq!(decode(0x00EE), Some(Opcode::Ret));
    assert_eq!(decode(0x1234), Some(Opcode::JpAddr { nnn: 0x234 }));
    assert_eq!(decode(0x2ABC), Some(Opcode::CallAddr { nnn: 0xABC }));
    assert_eq!(decode(0xB321), Some(Opcode::JpV0Addr { nnn: 0x321 }));
}

#[test]
fn decode_skips_and_loads() {
    assert_eq!(decode(0x3A42), Some(Opcode::SeVxByte { x: 0xA, nn: 0x42 }));
    assert_eq!(decode(0x4A42), Some(Opcode::SneVxByte { x: 0xA, nn: 0x42 }));
    assert_eq!(decode(0x5AB0), Some(Opcode::SeVxVy { x: 0xA, y: 0xB }));
    assert_eq!(decode(0x9AB0), Some(Opcode::SneVxVy { x: 0xA, y: 0xB }));
    assert_eq!(decode(0x6C77), Some(Opcode::LdVxByte { x: 0xC, nn: 0x77 }));
    assert_eq!(decode(0x7C77), Some(Opcode::AddVxByte { x: 0xC, nn: 0x77 }));
    assert_eq!(decode(0xA111), Some(Opcode::LdIAddr { nnn: 0x111 }));
}

#[test]
fn decode_alu() {
    assert_eq!(decode(0x8120), Some(Opcode::LdVxVy { x: 1, y: 2 }));
    assert_eq!(decode(0x8121), Some(Opcode::OrVxVy { x: 1, y: 2 }));
    assert_eq!(decode(0x8122), Some(Opcode::AndVxVy { x: 1, y: 2 }));
    assert_eq!(decode(0x8123), Some(Opcode::XorVxVy { x: 1, y: 2 }));
    assert_eq!(decode(0x8124), Some(Opcode::AddVxVy { x: 1, y: 2 }));
    assert_eq!(decode(0x8125), Some(Opcode::SubVxVy { x: 1, y: 2 }));
    assert_eq!(decode(0x8126), Some(Opcode::ShrVx { x: 1 }));
    assert_eq!(decode(0x8127), Some(Opcode::SubnVxVy { x: 1, y: 2 }));
    assert_eq!(decode(0x812E), Some(Opcode::ShlVx { x: 1 }));
}

#[test]
fn decode_misc() {
    assert_eq!(decode(0xC5F0), Some(Opcode::RndVxByte { x: 5, nn: 0xF0 }));
    assert_eq!(decode(0xD12F), Some(Opcode::DrwVxVyN { x: 1, y: 2, n: 0xF }));
    assert_eq!(decode(0xE39E), Some(Opcode::SkpVx { x: 3 }));
    assert_eq!(decode(0xE3A1), Some(Opcode::SknpVx { x: 3 }));
    assert_eq!(decode(0xF207), Some(Opcode::LdVxDt { x: 2 }));
    assert_eq!(decode(0xF20A), Some(Opcode::LdVxK { x: 2 }));
    assert_eq!(decode(0xF215), Some(Opcode::LdDtVx { x: 2 }));
    assert_eq!(decode(0xF218), Some(Opcode::LdStVx { x: 2 }));
    assert_eq!(decode(0xF21E), Some(Opcode::AddIVx { x: 2 }));
    assert_eq!(decode(0xF229), Some(Opcode::LdFVx { x: 2 }));
    assert_eq!(decode(0xF233), Some(Opcode::LdBVx { x: 2 }));
    assert_eq!(decode(0xF255), Some(Opcode::LdIVx { x: 2 }));
    assert_eq!(decode(0xF265), Some(Opcode::LdVxI { x: 2 }));
}

#[test]
fn decode_rejects_unknown_words() {
    assert_eq!(decode(0xFFFF), None);
    assert_eq!(decode(0x0000), None);
    assert_eq!(decode(0x00EF), None);
    assert_eq!(decode(0x5AB1), None);
    assert_eq!(decode(0x8128), None);
    assert_eq!(decode(0x9AB5), None);
    assert_eq!(decode(0xE300), None);
    assert_eq!(decode(0xF299), None);
}
