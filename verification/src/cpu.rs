//! The fetch-decode-execute engine: register file, program counter, call
//! stack, index register and the two countdown timers, together with the
//! semantics of every instruction.

use vstd::prelude::*;

use crate::decode::{decode, decode_spec, op_wf, Opcode};
use crate::display::Display;
use crate::ram::{initial_mem, Ram};

verus! {

/// Wall-clock nanoseconds between two timer decrements (a 60 Hz rate).
pub const TIMER_INTERVAL_NANOS: u64 = 1_000_000_000 / 60;

/// Execution starts here: the program image is loaded at this address.
pub const PROGRAM_START: u16 = 0x200;

/// A condition that ends the run: the interpreter defines no trap or
/// recovery mechanism, so each carries the address it was detected at.
#[derive(Clone, Copy, PartialEq, Eq, Structural, Debug)]
pub enum Chip8Error {
    /// The program image does not fit in the address space.
    ImageLoadFailure,
    /// The word at `addr` matches no known instruction shape.
    DecodeFailure { addr: u16, word: u16 },
    /// A subroutine call was executed with the call stack full.
    StackOverflow { addr: u16 },
    /// A return was executed with the call stack empty.
    StackUnderflow { addr: u16 },
    /// An address computation left the addressable space.
    AddressOutOfRange { addr: u16 },
}

/// The machine state owned by the engine.  The display is a collaborator
/// handed in per call; the input device is read through a per-call button
/// bitmask and the explicit awaiting-input state.
pub struct Cpu {
    pub ram: Ram,
    pub regs: Vec<u8>,
    pub pc: u16,
    pub stack: Vec<u16>,
    pub sp: u8,
    pub i: u16,
    pub dt: u8,
    pub st: u8,
    /// Monotonic timestamp (nanoseconds) of the last timer decrement.
    pub last_timer_decrement: u64,
    /// When `Some(x)`, the engine is suspended until the host reports a
    /// fresh button press, to be stored in register `x`.
    pub awaiting_key: Option<u8>,
}

/// The two memories agree byte for byte.
pub open spec fn same_mem(a: Cpu, b: Cpu) -> bool {
    a.ram.bytes@ == b.ram.bytes@
}

/// The register files agree.
pub open spec fn same_regs(a: Cpu, b: Cpu) -> bool {
    a.regs@ == b.regs@
}

/// The call stacks and stack pointers agree.
pub open spec fn same_stack(a: Cpu, b: Cpu) -> bool {
    a.stack@ == b.stack@ && a.sp == b.sp
}

/// The index registers agree.
pub open spec fn same_index(a: Cpu, b: Cpu) -> bool {
    a.i == b.i
}

/// Both timers and the decrement timestamp agree.
pub open spec fn same_timers(a: Cpu, b: Cpu) -> bool {
    a.dt == b.dt && a.st == b.st && a.last_timer_decrement == b.last_timer_decrement
}

/// The awaiting-input states agree.
pub open spec fn same_await(a: Cpu, b: Cpu) -> bool {
    a.awaiting_key == b.awaiting_key
}

/// The whole machine states agree.
pub open spec fn same_cpu(a: Cpu, b: Cpu) -> bool {
    &&& same_mem(a, b)
    &&& same_regs(a, b)
    &&& same_stack(a, b)
    &&& same_index(a, b)
    &&& same_timers(a, b)
    &&& same_await(a, b)
    &&& a.pc == b.pc
}

/// The framebuffers agree, dirty flag included.
pub open spec fn same_display(a: Display, b: Display) -> bool {
    a.vram@ == b.vram@ && a.changed == b.changed
}

/// Everything but the register file and the program counter is unchanged.
pub open spec fn only_regs_pc(pre: Cpu, post: Cpu) -> bool {
    &&& same_mem(pre, post)
    &&& same_stack(pre, post)
    &&& same_index(pre, post)
    &&& same_timers(pre, post)
    &&& same_await(pre, post)
}

/// The 16-bit big-endian instruction word stored at `addr`.
pub open spec fn word_at(mem: Seq<u8>, addr: int) -> u16 {
    ((mem[addr] as u16) << 8u16) | (mem[addr + 1] as u16)
}

/// Whether logical button `k & 0xF` is down in the bitmask `keys`.
pub open spec fn key_down(keys: u16, k: u8) -> bool {
    (keys >> ((k & 0xF) as u16)) & 1 == 1
}

/// Skip over the next word when the register equals the immediate.
pub open spec fn se_vx_byte_post(pre: Cpu, post: Cpu, x: u8, nn: u8) -> bool {
    &&& only_regs_pc(pre, post)
    &&& same_regs(pre, post)
    &&& post.pc == pre.pc + (if pre.regs@[x as int] == nn { 4int } else { 2int })
}

/// Skip over the next word when the register differs from the immediate.
pub open spec fn sne_vx_byte_post(pre: Cpu, post: Cpu, x: u8, nn: u8) -> bool {
    &&& only_regs_pc(pre, post)
    &&& same_regs(pre, post)
    &&& post.pc == pre.pc + (if pre.regs@[x as int] != nn { 4int } else { 2int })
}

/// Skip over the next word when the two registers are equal.
pub open spec fn se_vx_vy_post(pre: Cpu, post: Cpu, x: u8, y: u8) -> bool {
    &&& only_regs_pc(pre, post)
    &&& same_regs(pre, post)
    &&& post.pc == pre.pc + (if pre.regs@[x as int] == pre.regs@[y as int] { 4int } else { 2int })
}

/// Skip over the next word when the two registers differ.
pub open spec fn sne_vx_vy_post(pre: Cpu, post: Cpu, x: u8, y: u8) -> bool {
    &&& only_regs_pc(pre, post)
    &&& same_regs(pre, post)
    &&& post.pc == pre.pc + (if pre.regs@[x as int] != pre.regs@[y as int] { 4int } else { 2int })
}

/// Load an immediate into a register.
pub open spec fn ld_vx_byte_post(pre: Cpu, post: Cpu, x: u8, nn: u8) -> bool {
    &&& only_regs_pc(pre, post)
    &&& post.regs@ == pre.regs@.update(x as int, nn)
    &&& post.pc == pre.pc + 2
}

/// Add an immediate to a register, wrapping modulo 256, with no flag
/// side effect.
pub open spec fn add_vx_byte_post(pre: Cpu, post: Cpu, x: u8, nn: u8) -> bool {
    &&& only_regs_pc(pre, post)
    &&& post.regs@ == pre.regs@.update(x as int, ((pre.regs@[x as int] + nn) % 256) as u8)
    &&& post.pc == pre.pc + 2
}

/// Copy one register into another.
pub open spec fn ld_vx_vy_post(pre: Cpu, post: Cpu, x: u8, y: u8) -> bool {
    &&& only_regs_pc(pre, post)
    &&& post.regs@ == pre.regs@.update(x as int, pre.regs@[y as int])
    &&& post.pc == pre.pc + 2
}

/// Bitwise OR in place, with no flag side effect.
pub open spec fn or_vx_vy_post(pre: Cpu, post: Cpu, x: u8, y: u8) -> bool {
    &&& only_regs_pc(pre, post)
    &&& post.regs@ == pre.regs@.update(x as int, pre.regs@[x as int] | pre.regs@[y as int])
    &&& post.pc == pre.pc + 2
}

/// Bitwise AND in place, with no flag side effect.
pub open spec fn and_vx_vy_post(pre: Cpu, post: Cpu, x: u8, y: u8) -> bool {
    &&& only_regs_pc(pre, post)
    &&& post.regs@ == pre.regs@.update(x as int, pre.regs@[x as int] & pre.regs@[y as int])
    &&& post.pc == pre.pc + 2
}

/// Bitwise XOR in place, with no flag side effect.
pub open spec fn xor_vx_vy_post(pre: Cpu, post: Cpu, x: u8, y: u8) -> bool {
    &&& only_regs_pc(pre, post)
    &&& post.regs@ == pre.regs@.update(x as int, pre.regs@[x as int] ^ pre.regs@[y as int])
    &&& post.pc == pre.pc + 2
}

/// Add two registers modulo 256; the flags register then records whether
/// the mathematical sum exceeded 255.
pub open spec fn add_vx_vy_post(pre: Cpu, post: Cpu, x: u8, y: u8) -> bool {
    let s = pre.regs@[x as int] + pre.regs@[y as int];
    &&& only_regs_pc(pre, post)
    &&& post.regs@ == pre.regs@.update(x as int, (s % 256) as u8).update(
        15,
        if s > 255 { 1u8 } else { 0u8 },
    )
    &&& post.pc == pre.pc + 2
}

/// Subtract `Vy` from `Vx` modulo 256; the flags register is first set to
/// 1 exactly when no borrow occurs, then the difference is stored.
pub open spec fn sub_vx_vy_post(pre: Cpu, post: Cpu, x: u8, y: u8) -> bool {
    let a = pre.regs@[x as int];
    let b = pre.regs@[y as int];
    &&& only_regs_pc(pre, post)
    &&& post.regs@ == pre.regs@.update(15, if a >= b { 1u8 } else { 0u8 }).update(
        x as int,
        (if a >= b { a - b } else { a - b + 256 }) as u8,
    )
    &&& post.pc == pre.pc + 2
}

/// Store `Vy - Vx` into `Vx` modulo 256; the flags register is first set
/// to 1 exactly when no borrow occurs, then the difference is stored.
pub open spec fn subn_vx_vy_post(pre: Cpu, post: Cpu, x: u8, y: u8) -> bool {
    let a = pre.regs@[x as int];
    let b = pre.regs@[y as int];
    &&& only_regs_pc(pre, post)
    &&& post.regs@ == pre.regs@.update(15, if b >= a { 1u8 } else { 0u8 }).update(
        x as int,
        (if b >= a { b - a } else { b - a + 256 }) as u8,
    )
    &&& post.pc == pre.pc + 2
}

/// Shift `Vx` right by one; the flags register is first given the
/// least-significant bit the shift drops.
pub open spec fn shr_vx_post(pre: Cpu, post: Cpu, x: u8) -> bool {
    let withf = pre.regs@.update(15, pre.regs@[x as int] & 1);
    &&& only_regs_pc(pre, post)
    &&& post.regs@ == withf.update(x as int, withf[x as int] >> 1u8)
    &&& post.pc == pre.pc + 2
}

/// Shift `Vx` left by one; the flags register is first given the
/// most-significant bit the shift drops, as a 0/1 value.
pub open spec fn shl_vx_post(pre: Cpu, post: Cpu, x: u8) -> bool {
    let withf = pre.regs@.update(15, pre.regs@[x as int] >> 7u8);
    &&& only_regs_pc(pre, post)
    &&& post.regs@ == withf.update(x as int, withf[x as int] << 1u8)
    &&& post.pc == pre.pc + 2
}

/// Load the 12-bit address into the index register.
pub open spec fn ld_i_addr_post(pre: Cpu, post: Cpu, nnn: u16) -> bool {
    &&& same_mem(pre, post)
    &&& same_regs(pre, post)
    &&& same_stack(pre, post)
    &&& same_timers(pre, post)
    &&& same_await(pre, post)
    &&& post.i == nnn
    &&& post.pc == pre.pc + 2
}

/// Jump to the 12-bit address plus register 0.
pub open spec fn jp_v0_addr_post(pre: Cpu, post: Cpu, nnn: u16) -> bool {
    &&& only_regs_pc(pre, post)
    &&& same_regs(pre, post)
    &&& post.pc == pre.regs@[0] + nnn
}

/// Copy the delay timer into a register.
pub open spec fn ld_vx_dt_post(pre: Cpu, post: Cpu, x: u8) -> bool {
    &&& only_regs_pc(pre, post)
    &&& post.regs@ == pre.regs@.update(x as int, pre.dt)
    &&& post.pc == pre.pc + 2
}

/// Copy a register into the delay timer.
pub open spec fn ld_dt_vx_post(pre: Cpu, post: Cpu, x: u8) -> bool {
    &&& same_mem(pre, post)
    &&& same_regs(pre, post)
    &&& same_stack(pre, post)
    &&& same_index(pre, post)
    &&& same_await(pre, post)
    &&& post.dt == pre.regs@[x as int]
    &&& post.st == pre.st
    &&& post.last_timer_decrement == pre.last_timer_decrement
    &&& post.pc == pre.pc + 2
}

/// Copy a register into the sound timer.
pub open spec fn ld_st_vx_post(pre: Cpu, post: Cpu, x: u8) -> bool {
    &&& same_mem(pre, post)
    &&& same_regs(pre, post)
    &&& same_stack(pre, post)
    &&& same_index(pre, post)
    &&& same_await(pre, post)
    &&& post.st == pre.regs@[x as int]
    &&& post.dt == pre.dt
    &&& post.last_timer_decrement == pre.last_timer_decrement
    &&& post.pc == pre.pc + 2
}

/// Clear the screen and advance past the instruction.
pub open spec fn cls_post(pre: Cpu, post: Cpu, dpre: Display, dpost: Display) -> bool {
    &&& only_regs_pc(pre, post)
    &&& same_regs(pre, post)
    &&& post.pc == pre.pc + 2
    &&& dpost.wf()
    &&& dpost.changed
    &&& forall|px: int, py: int| 0 <= px < 64 && 0 <= py < 32 ==> !dpost.pix(px, py)
}

/// Pop the return address pushed by the matching call; with an empty
/// stack the return is a fatal underflow and changes nothing.
pub open spec fn ret_post(pre: Cpu, post: Cpu, r: Result<(), Chip8Error>) -> bool {
    if pre.sp == 0 {
        &&& r == Err::<(), Chip8Error>(Chip8Error::StackUnderflow { addr: pre.pc })
        &&& same_cpu(pre, post)
    } else {
        &&& r is Ok
        &&& same_mem(pre, post)
        &&& same_regs(pre, post)
        &&& same_index(pre, post)
        &&& same_timers(pre, post)
        &&& same_await(pre, post)
        &&& post.stack@ == pre.stack@
        &&& post.sp == pre.sp - 1
        &&& post.pc == pre.stack@[pre.sp - 1]
    }
}

/// Jump straight to the 12-bit address, which must lie inside the
/// address space.
pub open spec fn jp_addr_post(pre: Cpu, post: Cpu, nnn: u16, r: Result<(), Chip8Error>) -> bool {
    if nnn < 4095 {
        &&& r is Ok
        &&& same_mem(pre, post)
        &&& same_regs(pre, post)
        &&& same_stack(pre, post)
        &&& same_index(pre, post)
        &&& same_timers(pre, post)
        &&& same_await(pre, post)
        &&& post.pc == nnn
    } else {
        &&& r == Err::<(), Chip8Error>(Chip8Error::AddressOutOfRange { addr: pre.pc })
        &&& same_cpu(pre, post)
    }
}

/// Push the address of the next instruction and jump; a full stack is a
/// fatal overflow and changes nothing.
pub open spec fn call_addr_post(pre: Cpu, post: Cpu, nnn: u16, r: Result<(), Chip8Error>) -> bool {
    if nnn >= 4095 {
        &&& r == Err::<(), Chip8Error>(Chip8Error::AddressOutOfRange { addr: pre.pc })
        &&& same_cpu(pre, post)
    } else if pre.sp >= 16 {
        &&& r == Err::<(), Chip8Error>(Chip8Error::StackOverflow { addr: pre.pc })
        &&& same_cpu(pre, post)
    } else {
        &&& r is Ok
        &&& same_mem(pre, post)
        &&& same_regs(pre, post)
        &&& same_index(pre, post)
        &&& same_timers(pre, post)
        &&& same_await(pre, post)
        &&& post.stack@ == pre.stack@.update(pre.sp as int, (pre.pc + 2) as u16)
        &&& post.sp == pre.sp + 1
        &&& post.pc == nnn
    }
}

/// Store a host-random byte masked by the immediate: some byte exists
/// such that the register holds it ANDed with the mask.
pub open spec fn rnd_vx_byte_post(pre: Cpu, post: Cpu, x: u8, nn: u8) -> bool {
    &&& only_regs_pc(pre, post)
    &&& post.pc == pre.pc + 2
    &&& exists|b: u8| post.regs@ == pre.regs@.update(x as int, b & nn)
}

/// Skip the next instruction when the button named by the low nibble of
/// `Vx` is down.
pub open spec fn skp_vx_post(pre: Cpu, post: Cpu, x: u8, keys: u16) -> bool {
    &&& only_regs_pc(pre, post)
    &&& same_regs(pre, post)
    &&& post.pc == pre.pc + (if key_down(keys, pre.regs@[x as int]) { 4int } else { 2int })
}

/// Skip the next instruction when the button named by the low nibble of
/// `Vx` is up.
pub open spec fn sknp_vx_post(pre: Cpu, post: Cpu, x: u8, keys: u16) -> bool {
    &&& only_regs_pc(pre, post)
    &&& same_regs(pre, post)
    &&& post.pc == pre.pc + (if key_down(keys, pre.regs@[x as int]) { 2int } else { 4int })
}

/// Suspend at this instruction until the host reports a fresh press for
/// register `x`; the program counter does not move.
pub open spec fn ld_vx_k_post(pre: Cpu, post: Cpu, x: u8) -> bool {
    &&& same_mem(pre, post)
    &&& same_regs(pre, post)
    &&& same_stack(pre, post)
    &&& same_index(pre, post)
    &&& same_timers(pre, post)
    &&& post.pc == pre.pc
    &&& post.awaiting_key == Some(x)
}

/// Add `Vx` to the index register; a sum beyond 16 bits is fatal and
/// changes nothing.
pub open spec fn add_i_vx_post(pre: Cpu, post: Cpu, x: u8, r: Result<(), Chip8Error>) -> bool {
    let s = pre.i + pre.regs@[x as int];
    if s <= 0xFFFF {
        &&& r is Ok
        &&& same_mem(pre, post)
        &&& same_regs(pre, post)
        &&& same_stack(pre, post)
        &&& same_timers(pre, post)
        &&& same_await(pre, post)
        &&& post.i == s
        &&& post.pc == pre.pc + 2
    } else {
        &&& r == Err::<(), Chip8Error>(Chip8Error::AddressOutOfRange { addr: pre.pc })
        &&& same_cpu(pre, post)
    }
}

/// Write the decimal digits of `Vx` (hundreds, tens, units) to the three
/// bytes at the index register; running past the address space is fatal
/// and changes nothing.
pub open spec fn ld_b_vx_post(pre: Cpu, post: Cpu, x: u8, r: Result<(), Chip8Error>) -> bool {
    if pre.i + 2 < 4096 {
        let v = pre.regs@[x as int] as int;
        &&& r is Ok
        &&& post.ram.bytes@ == pre.ram.bytes@.update(pre.i as int, (v / 100) as u8).update(
            pre.i + 1,
            ((v % 100) / 10) as u8,
        ).update(pre.i + 2, (v % 10) as u8)
        &&& same_regs(pre, post)
        &&& same_stack(pre, post)
        &&& same_index(pre, post)
        &&& same_timers(pre, post)
        &&& same_await(pre, post)
        &&& post.pc == pre.pc + 2
    } else {
        &&& r == Err::<(), Chip8Error>(Chip8Error::AddressOutOfRange { addr: pre.pc })
        &&& same_cpu(pre, post)
    }
}

/// Copy registers 0 through `x` to memory starting at the index
/// register, which itself is unchanged; running past the address space
/// is fatal and changes nothing.
pub open spec fn ld_i_vx_post(pre: Cpu, post: Cpu, x: u8, r: Result<(), Chip8Error>) -> bool {
    if pre.i + x < 4096 {
        &&& r is Ok
        &&& post.ram.bytes@.len() == 4096
        &&& (forall|j: int| 0 <= j <= x ==> post.ram.bytes@[pre.i + j] == pre.regs@[j])
        &&& (forall|a: int|
            0 <= a < 4096 && !(pre.i <= a <= pre.i + x) ==> post.ram.bytes@[a]
                == pre.ram.bytes@[a])
        &&& same_regs(pre, post)
        &&& same_stack(pre, post)
        &&& same_index(pre, post)
        &&& same_timers(pre, post)
        &&& same_await(pre, post)
        &&& post.pc == pre.pc + 2
    } else {
        &&& r == Err::<(), Chip8Error>(Chip8Error::AddressOutOfRange { addr: pre.pc })
        &&& same_cpu(pre, post)
    }
}

/// Fill registers 0 through `x` from memory starting at the index
/// register, which itself is unchanged; running past the address space
/// is fatal and changes nothing.
pub open spec fn ld_vx_i_post(pre: Cpu, post: Cpu, x: u8, r: Result<(), Chip8Error>) -> bool {
    if pre.i + x < 4096 {
        &&& r is Ok
        &&& post.regs@.len() == 16
        &&& (forall|j: int| 0 <= j <= x ==> post.regs@[j] == pre.ram.bytes@[pre.i + j])
        &&& (forall|j: int| x < j < 16 ==> post.regs@[j] == pre.regs@[j])
        &&& same_mem(pre, post)
        &&& same_stack(pre, post)
        &&& same_index(pre, post)
        &&& same_timers(pre, post)
        &&& same_await(pre, post)
        &&& post.pc == pre.pc + 2
    } else {
        &&& r == Err::<(), Chip8Error>(Chip8Error::AddressOutOfRange { addr: pre.pc })
        &&& same_cpu(pre, post)
    }
}

/// Whether `(px, py)` lies under an 8-wide, `n`-tall sprite anchored at
/// `(x0, y0)`.
pub open spec fn in_sprite(x0: int, y0: int, n: int, px: int, py: int) -> bool {
    x0 <= px < x0 + 8 && y0 <= py < y0 + n
}

/// Whether the sprite bit covering `(px, py)` is set, for a sprite read
/// from `mem` starting at `i` and anchored at `(x0, y0)`: bit 7 of a row
/// is its leftmost pixel.
pub open spec fn sprite_bit(mem: Seq<u8>, i: int, x0: int, y0: int, px: int, py: int) -> bool {
    (mem[i + (py - y0)] >> ((7 - (px - x0)) as u8)) & 1 == 1
}

/// The pixel-level effect of one sprite draw: every in-bounds cell under
/// the sprite is XORed with its sprite bit, every other cell is
/// untouched.  Cells outside the 64 by 32 grid are dropped, not wrapped.
pub open spec fn draw_applied(
    dpre: Display,
    dpost: Display,
    mem: Seq<u8>,
    i: int,
    x0: int,
    y0: int,
    n: int,
) -> bool {
    &&& dpost.vram@.len() == 2048
    &&& forall|px: int, py: int|
        0 <= px < 64 && 0 <= py < 32 ==> #[trigger] dpost.pix(px, py) == (if in_sprite(
            x0,
            y0,
            n,
            px,
            py,
        ) {
            dpre.pix(px, py) != sprite_bit(mem, i, x0, y0, px, py)
        } else {
            dpre.pix(px, py)
        })
}

/// Whether the draw erases some pixel: an in-bounds cell that is lit and
/// covered by a set sprite bit.
pub open spec fn draw_collision(
    dpre: Display,
    mem: Seq<u8>,
    i: int,
    x0: int,
    y0: int,
    n: int,
) -> bool {
    exists|px: int, py: int|
        0 <= px < 64 && 0 <= py < 32 && in_sprite(x0, y0, n, px, py) && sprite_bit(
            mem,
            i,
            x0,
            y0,
            px,
            py,
        ) && #[trigger] dpre.pix(px, py)
}

/// Erasure within the first `cols` columns of sprite row `yy` alone.
pub open spec fn row_collision(
    dpre: Display,
    mem: Seq<u8>,
    i: int,
    x0: int,
    y0: int,
    yy: int,
    cols: int,
) -> bool {
    exists|px: int|
        x0 <= px < x0 + cols && px < 64 && 0 <= y0 + yy < 32 && sprite_bit(
            mem,
            i,
            x0,
            y0,
            px,
            y0 + yy,
        ) && #[trigger] dpre.pix(px, y0 + yy)
}

/// Extending a partial sprite row by one column extends the erasure
/// condition by exactly that column's cell.
proof fn lemma_row_collision_extend(
    dpre: Display,
    mem: Seq<u8>,
    i: int,
    x0: int,
    y0: int,
    yy: int,
    xx: int,
)
    requires
        0 <= x0 < 64,
        0 <= y0 < 32,
        0 <= yy,
        0 <= xx < 8,
    ensures
        row_collision(dpre, mem, i, x0, y0, yy, xx + 1) == (row_collision(
            dpre,
            mem,
            i,
            x0,
            y0,
            yy,
            xx,
        ) || (x0 + xx < 64 && y0 + yy < 32 && sprite_bit(mem, i, x0, y0, x0 + xx, y0 + yy)
            && dpre.pix(x0 + xx, y0 + yy))),
{
    if row_collision(dpre, mem, i, x0, y0, yy, xx + 1) {
        let px = choose|px: int|
            x0 <= px < x0 + xx + 1 && px < 64 && 0 <= y0 + yy < 32 && sprite_bit(
                mem,
                i,
                x0,
                y0,
                px,
                y0 + yy,
            ) && #[trigger] dpre.pix(px, y0 + yy);
        if px < x0 + xx {
            assert(row_collision(dpre, mem, i, x0, y0, yy, xx));
        }
    }
}

/// Appending one full sprite row extends the erasure condition by
/// exactly that row's cells.
proof fn lemma_collision_row_extend(dpre: Display, mem: Seq<u8>, i: int, x0: int, y0: int, yy: int)
    requires
        0 <= x0 < 64,
        0 <= y0 < 32,
        0 <= yy,
    ensures
        draw_collision(dpre, mem, i, x0, y0, yy + 1) == (draw_collision(dpre, mem, i, x0, y0, yy)
            || row_collision(dpre, mem, i, x0, y0, yy, 8)),
{
    if draw_collision(dpre, mem, i, x0, y0, yy + 1) {
        let (px, py) = choose|px: int, py: int|
            0 <= px < 64 && 0 <= py < 32 && in_sprite(x0, y0, yy + 1, px, py) && sprite_bit(
                mem,
                i,
                x0,
                y0,
                px,
                py,
            ) && #[trigger] dpre.pix(px, py);
        if py < y0 + yy {
            assert(draw_collision(dpre, mem, i, x0, y0, yy));
        } else {
            assert(py == y0 + yy);
            assert(row_collision(dpre, mem, i, x0, y0, yy, 8));
        }
    }
    if draw_collision(dpre, mem, i, x0, y0, yy) {
        let (px, py) = choose|px: int, py: int|
            0 <= px < 64 && 0 <= py < 32 && in_sprite(x0, y0, yy, px, py) && sprite_bit(
                mem,
                i,
                x0,
                y0,
                px,
                py,
            ) && #[trigger] dpre.pix(px, py);
        assert(in_sprite(x0, y0, yy + 1, px, py));
        assert(draw_collision(dpre, mem, i, x0, y0, yy + 1));
    }
    if row_collision(dpre, mem, i, x0, y0, yy, 8) {
        let px = choose|px: int|
            x0 <= px < x0 + 8 && px < 64 && 0 <= y0 + yy < 32 && sprite_bit(
                mem,
                i,
                x0,
                y0,
                px,
                y0 + yy,
            ) && #[trigger] dpre.pix(px, y0 + yy);
        assert(in_sprite(x0, y0, yy + 1, px, y0 + yy));
        assert(draw_collision(dpre, mem, i, x0, y0, yy + 1));
    }
}

/// Draw an 8-wide, `n`-tall sprite read from memory at the index
/// register, anchored at `(Vx mod 64, Vy mod 32)`; the flags register
/// records whether any lit pixel was erased.  A sprite read that would
/// run past the address space is fatal and changes nothing.
pub open spec fn drw_post(
    pre: Cpu,
    post: Cpu,
    dpre: Display,
    dpost: Display,
    x: u8,
    y: u8,
    n: u8,
    r: Result<(), Chip8Error>,
) -> bool {
    let x0 = pre.regs@[x as int] % 64;
    let y0 = pre.regs@[y as int] % 32;
    if n > 0 && pre.i + n > 4096 {
        &&& r == Err::<(), Chip8Error>(Chip8Error::AddressOutOfRange { addr: pre.pc })
        &&& same_cpu(pre, post)
        &&& same_display(dpre, dpost)
    } else {
        &&& r is Ok
        &&& same_mem(pre, post)
        &&& same_stack(pre, post)
        &&& same_index(pre, post)
        &&& same_timers(pre, post)
        &&& same_await(pre, post)
        &&& post.regs@ == pre.regs@.update(
            15,
            if draw_collision(dpre, pre.ram.bytes@, pre.i as int, x0 as int, y0 as int, n as int) {
                1u8
            } else {
                0u8
            },
        )
        &&& post.pc == pre.pc + 2
        &&& draw_applied(dpre, dpost, pre.ram.bytes@, pre.i as int, x0 as int, y0 as int, n as int)
        &&& dpost.changed == (dpre.changed || n > 0)
    }
}

/// The effect of executing one decoded instruction from state `pre` with
/// button bitmask `keys`: each arm is that instruction's own contract,
/// and an instruction that does not touch the screen leaves it
/// unchanged.
pub open spec fn step_post(
    pre: Cpu,
    post: Cpu,
    dpre: Display,
    dpost: Display,
    op: Opcode,
    keys: u16,
    r: Result<(), Chip8Error>,
) -> bool {
    match op {
        Opcode::Cls => r is Ok && cls_post(pre, post, dpre, dpost),
        Opcode::Ret => ret_post(pre, post, r) && same_display(dpre, dpost),
        Opcode::JpAddr { nnn } => jp_addr_post(pre, post, nnn, r) && same_display(dpre, dpost),
        Opcode::CallAddr { nnn } => call_addr_post(pre, post, nnn, r) && same_display(dpre, dpost),
        Opcode::SeVxByte { x, nn } => r is Ok && se_vx_byte_post(pre, post, x, nn) && same_display(
            dpre,
            dpost,
        ),
        Opcode::SneVxByte { x, nn } => r is Ok && sne_vx_byte_post(pre, post, x, nn)
            && same_display(dpre, dpost),
        Opcode::SeVxVy { x, y } => r is Ok && se_vx_vy_post(pre, post, x, y) && same_display(
            dpre,
            dpost,
        ),
        Opcode::LdVxByte { x, nn } => r is Ok && ld_vx_byte_post(pre, post, x, nn) && same_display(
            dpre,
            dpost,
        ),
        Opcode::AddVxByte { x, nn } => r is Ok && add_vx_byte_post(pre, post, x, nn)
            && same_display(dpre, dpost),
        Opcode::LdVxVy { x, y } => r is Ok && ld_vx_vy_post(pre, post, x, y) && same_display(
            dpre,
            dpost,
        ),
        Opcode::OrVxVy { x, y } => r is Ok && or_vx_vy_post(pre, post, x, y) && same_display(
            dpre,
            dpost,
        ),
        Opcode::AndVxVy { x, y } => r is Ok && and_vx_vy_post(pre, post, x, y) && same_display(
            dpre,
            dpost,
        ),
        Opcode::XorVxVy { x, y } => r is Ok && xor_vx_vy_post(pre, post, x, y) && same_display(
            dpre,
            dpost,
        ),
        Opcode::AddVxVy { x, y } => r is Ok && add_vx_vy_post(pre, post, x, y) && same_display(
            dpre,
            dpost,
        ),
        Opcode::SubVxVy { x, y } => r is Ok && sub_vx_vy_post(pre, post, x, y) && same_display(
            dpre,
            dpost,
        ),
        Opcode::ShrVx { x } => r is Ok && shr_vx_post(pre, post, x) && same_display(dpre, dpost),
        Opcode::SubnVxVy { x, y } => r is Ok && subn_vx_vy_post(pre, post, x, y) && same_display(
            dpre,
            dpost,
        ),
        Opcode::ShlVx { x } => r is Ok && shl_vx_post(pre, post, x) && same_display(dpre, dpost),
        Opcode::SneVxVy { x, y } => r is Ok && sne_vx_vy_post(pre, post, x, y) && same_display(
            dpre,
            dpost,
        ),
        Opcode::LdIAddr { nnn } => r is Ok && ld_i_addr_post(pre, post, nnn) && same_display(
            dpre,
            dpost,
        ),
        Opcode::JpV0Addr { nnn } => r is Ok && jp_v0_addr_post(pre, post, nnn) && same_display(
            dpre,
            dpost,
        ),
        Opcode::RndVxByte { x, nn } => r is Ok && rnd_vx_byte_post(pre, post, x, nn)
            && same_display(dpre, dpost),
        Opcode::DrwVxVyN { x, y, n } => drw_post(pre, post, dpre, dpost, x, y, n, r),
        Opcode::SkpVx { x } => r is Ok && skp_vx_post(pre, post, x, keys) && same_display(
            dpre,
            dpost,
        ),
        Opcode::SknpVx { x } => r is Ok && sknp_vx_post(pre, post, x, keys) && same_display(
            dpre,
            dpost,
        ),
        Opcode::LdVxDt { x } => r is Ok && ld_vx_dt_post(pre, post, x) && same_display(
            dpre,
            dpost,
        ),
        Opcode::LdVxK { x } => r is Ok && ld_vx_k_post(pre, post, x) && same_display(dpre, dpost),
        Opcode::LdDtVx { x } => r is Ok && ld_dt_vx_post(pre, post, x) && same_display(
            dpre,
            dpost,
        ),
        Opcode::LdStVx { x } => r is Ok && ld_st_vx_post(pre, post, x) && same_display(
            dpre,
            dpost,
        ),
        Opcode::AddIVx { x } => add_i_vx_post(pre, post, x, r) && same_display(dpre, dpost),
        Opcode::LdFVx { x } => r is Ok && ld_f_vx_post(pre, post, x) && same_display(dpre, dpost),
        Opcode::LdBVx { x } => ld_b_vx_post(pre, post, x, r) && same_display(dpre, dpost),
        Opcode::LdIVx { x } => ld_i_vx_post(pre, post, x, r) && same_display(dpre, dpost),
        Opcode::LdVxI { x } => ld_vx_i_post(pre, post, x, r) && same_display(dpre, dpost),
    }
}

/// One tick: the timers catch up to `now`, then, unless the engine is
/// suspended awaiting input, the word at the program counter is fetched,
/// decoded and executed.
pub open spec fn tick_post(
    pre: Cpu,
    post: Cpu,
    dpre: Display,
    dpost: Display,
    keys: u16,
    now: u64,
    r: Result<(), Chip8Error>,
) -> bool {
    let mid = timer_step(pre, now);
    if mid.awaiting_key is Some {
        &&& r is Ok
        &&& same_cpu(mid, post)
        &&& same_display(dpre, dpost)
    } else if mid.pc + 1 >= 4096 {
        &&& r == Err::<(), Chip8Error>(Chip8Error::AddressOutOfRange { addr: mid.pc })
        &&& same_cpu(mid, post)
        &&& same_display(dpre, dpost)
    } else {
        let w = word_at(mid.ram.bytes@, mid.pc as int);
        match decode_spec(w) {
            None => {
                &&& r == Err::<(), Chip8Error>(Chip8Error::DecodeFailure { addr: mid.pc, word: w })
                &&& same_cpu(mid, post)
                &&& same_display(dpre, dpost)
            },
            Some(op) => step_post(mid, post, dpre, dpost, op, keys, r),
        }
    }
}

/// How many whole timer intervals have elapsed since `last` by `now`,
/// counting an interval only once it is strictly exceeded.
pub open spec fn timer_ticks(last: u64, now: u64) -> int {
    if now > last && now - last > TIMER_INTERVAL_NANOS {
        (now - last - 1) / (TIMER_INTERVAL_NANOS as int)
    } else {
        0
    }
}

/// The machine after catching the timers up to wall-clock time `now`:
/// both counters go down by the elapsed interval count, saturating at
/// zero, and the timestamp advances by exactly that many intervals.
pub open spec fn timer_step(c: Cpu, now: u64) -> Cpu {
    let n = timer_ticks(c.last_timer_decrement, now);
    Cpu {
        dt: (if n >= c.dt { 0int } else { c.dt - n }) as u8,
        st: (if n >= c.st { 0int } else { c.st - n }) as u8,
        last_timer_decrement: (c.last_timer_decrement + n * TIMER_INTERVAL_NANOS) as u64,
        ..c
    }
}

/// Point the index register at the built-in sprite for the low nibble of
/// the register: each glyph occupies five bytes from address 0 on.
pub open spec fn ld_f_vx_post(pre: Cpu, post: Cpu, x: u8) -> bool {
    &&& same_mem(pre, post)
    &&& same_regs(pre, post)
    &&& same_stack(pre, post)
    &&& same_timers(pre, post)
    &&& same_await(pre, post)
    &&& post.i == (pre.regs@[x as int] & 0xF) * 5
    &&& post.pc == pre.pc + 2
}

impl Cpu {
    /// Structural invariant: 16 registers, 16 stack slots, the stack
    /// pointer within them, a full address space, and a register index in
    /// range whenever input is awaited.
    pub open spec fn wf(self) -> bool {
        &&& self.ram.wf()
        &&& self.regs@.len() == 16
        &&& self.stack@.len() == 16
        &&& self.sp <= 16
        &&& (self.awaiting_key matches Some(x) ==> x < 16)
    }

    /// A fresh machine: zeroed registers and stack, the program counter at
    /// the program start, font data in memory, timers idle since `now`.
    pub fn new(now_nanos: u64) -> (r: Cpu)
        ensures
            r.wf(),
            r.ram.bytes@ == initial_mem(),
            r.regs@ == Seq::new(16, |j: int| 0u8),
            r.pc == 0x200,
            r.stack@ == Seq::new(16, |j: int| 0u16),
            r.sp == 0,
            r.i == 0,
            r.dt == 0,
            r.st == 0,
            r.last_timer_decrement == now_nanos,
            r.awaiting_key is None,
    {
        let mut regs: Vec<u8> = Vec::new();
        while regs.len() < 16
            invariant
                regs@.len() <= 16,
                forall|j: int| 0 <= j < regs@.len() ==> regs@[j] == 0,
            decreases 16 - regs@.len(),
        {
            regs.push(0);
        }
        let mut stack: Vec<u16> = Vec::new();
        while stack.len() < 16
            invariant
                stack@.len() <= 16,
                forall|j: int| 0 <= j < stack@.len() ==> stack@[j] == 0,
            decreases 16 - stack@.len(),
        {
            stack.push(0);
        }
        let r = Cpu {
            ram: Ram::new(),
            regs,
            pc: PROGRAM_START,
            stack,
            sp: 0,
            i: 0,
            dt: 0,
            st: 0,
            last_timer_decrement: now_nanos,
            awaiting_key: None,
        };
        proof {
            assert(r.regs@ =~= Seq::new(16, |j: int| 0u8));
            assert(r.stack@ =~= Seq::new(16, |j: int| 0u16));
        }
        r
    }

    /// Copy a program image into memory byte for byte, starting at the
    /// program start address.  An image too large for the address space is
    /// rejected untouched.
    pub fn load_rom_into_ram(&mut self, rom: &Vec<u8>) -> (r: Result<(), Chip8Error>)
        requires
            old(self).wf(),
        ensures
            final(self).wf(),
            rom@.len() > 0xE00 ==> r == Err::<(), Chip8Error>(Chip8Error::ImageLoadFailure)
                && same_cpu(*old(self), *final(self)),
            rom@.len() <= 0xE00 ==> {
                &&& r is Ok
                &&& final(self).ram.bytes@.len() == 4096
                &&& (forall|a: int| 0 <= a < 0x200 ==> final(self).ram.bytes@[a]
                    == old(self).ram.bytes@[a])
                &&& (forall|j: int| 0 <= j < rom@.len() ==> final(self).ram.bytes@[0x200 + j]
                    == rom@[j])
                &&& (forall|a: int| 0x200 + rom@.len() <= a < 4096 ==> final(self).ram.bytes@[a]
                    == old(self).ram.bytes@[a])
                &&& same_regs(*old(self), *final(self))
                &&& same_stack(*old(self), *final(self))
                &&& same_index(*old(self), *final(self))
                &&& same_timers(*old(self), *final(self))
                &&& same_await(*old(self), *final(self))
                &&& final(self).pc == old(self).pc
            },
    {
        if rom.len() > 0xE00 {
            return Err(Chip8Error::ImageLoadFailure);
        }
        let mut j: usize = 0;
        while j < rom.len()
            invariant
                self.wf(),
                j <= rom@.len(),
                rom@.len() <= 0xE00,
                same_regs(*old(self), *self),
                same_stack(*old(self), *self),
                same_index(*old(self), *self),
                same_timers(*old(self), *self),
                same_await(*old(self), *self),
                self.pc == old(self).pc,
                forall|a: int| 0 <= a < 0x200 ==> self.ram.bytes@[a] == old(self).ram.bytes@[a],
                forall|k: int| 0 <= k < j ==> self.ram.bytes@[0x200 + k] == rom@[k],
                forall|a: int| 0x200 + j <= a < 4096 ==> self.ram.bytes@[a]
                    == old(self).ram.bytes@[a],
            decreases rom@.len() - j,
        {
            self.ram.set(0x200 + (j as u16), rom[j]);
            j = j + 1;
        }
        Ok(())
    }

    /// The instruction word stored big-endian at `addr`.
    pub fn opcode_at(&self, addr: u16) -> (w: u16)
        requires
            self.wf(),
            addr + 1 < 4096,
        ensures
            w == word_at(self.ram.bytes@, addr as int),
    {
        ((self.ram.read(addr) as u16) << 8u16) | (self.ram.read(addr + 1) as u16)
    }

    /// Skip the next instruction when `Vx` equals the immediate.
    pub fn se_vx_byte(&mut self, x: u8, nn: u8)
        requires
            old(self).wf(),
            x < 16,
            old(self).pc + 4 <= 0xFFFF,
        ensures
            final(self).wf(),
            se_vx_byte_post(*old(self), *final(self), x, nn),
    {
        if self.regs[x as usize] == nn {
            self.pc = self.pc + 2;
        }
        self.pc = self.pc + 2;
    }

    /// Skip the next instruction when `Vx` differs from the immediate.
    pub fn sne_vx_byte(&mut self, x: u8, nn: u8)
        requires
            old(self).wf(),
            x < 16,
            old(self).pc + 4 <= 0xFFFF,
        ensures
            final(self).wf(),
            sne_vx_byte_post(*old(self), *final(self), x, nn),
    {
        if self.regs[x as usize] != nn {
            self.pc = self.pc + 2;
        }
        self.pc = self.pc + 2;
    }

    /// Skip the next instruction when `Vx` equals `Vy`.
    pub fn se_vx_vy(&mut self, x: u8, y: u8)
        requires
            old(self).wf(),
            x < 16,
            y < 16,
            old(self).pc + 4 <= 0xFFFF,
        ensures
            final(self).wf(),
            se_vx_vy_post(*old(self), *final(self), x, y),
    {
        if self.regs[x as usize] == self.regs[y as usize] {
            self.pc = self.pc + 2;
        }
        self.pc = self.pc + 2;
    }

    /// Skip the next instruction when `Vx` differs from `Vy`.
    pub fn sne_vx_vy(&mut self, x: u8, y: u8)
        requires
            old(self).wf(),
            x < 16,
            y < 16,
            old(self).pc + 4 <= 0xFFFF,
        ensures
            final(self).wf(),
            sne_vx_vy_post(*old(self), *final(self), x, y),
    {
        if self.regs[x as usize] != self.regs[y as usize] {
            self.pc = self.pc + 2;
        }
        self.pc = self.pc + 2;
    }

    /// Load the immediate into `Vx`.
    pub fn ld_vx_byte(&mut self, x: u8, nn: u8)
        requires
            old(self).wf(),
            x < 16,
            old(self).pc + 2 <= 0xFFFF,
        ensures
            final(self).wf(),
            ld_vx_byte_post(*old(self), *final(self), x, nn),
    {
        self.regs.set(x as usize, nn);
        self.pc = self.pc + 2;
    }

    /// Add the immediate to `Vx`, wrapping modulo 256.
    pub fn add_vx_byte(&mut self, x: u8, nn: u8)
        requires
            old(self).wf(),
            x < 16,
            old(self).pc + 2 <= 0xFFFF,
        ensures
            final(self).wf(),
            add_vx_byte_post(*old(self), *final(self), x, nn),
    {
        let sum: u16 = self.regs[x as usize] as u16 + nn as u16;
        self.regs.set(x as usize, (sum % 256) as u8);
        self.pc = self.pc + 2;
    }

    /// Copy `Vy` into `Vx`.
    pub fn load_vx_vy(&mut self, x: u8, y: u8)
        requires
            old(self).wf(),
            x < 16,
            y < 16,
            old(self).pc + 2 <= 0xFFFF,
        ensures
            final(self).wf(),
            ld_vx_vy_post(*old(self), *final(self), x, y),
    {
        let v = self.regs[y as usize];
        self.regs.set(x as usize, v);
        self.pc = self.pc + 2;
    }

    /// OR `Vy` into `Vx`.
    pub fn or_vx_vy(&mut self, x: u8, y: u8)
        requires
            old(self).wf(),
            x < 16,
            y < 16,
            old(self).pc + 2 <= 0xFFFF,
        ensures
            final(self).wf(),
            or_vx_vy_post(*old(self), *final(self), x, y),
    {
        let v = self.regs[x as usize] | self.regs[y as usize];
        self.regs.set(x as usize, v);
        self.pc = self.pc + 2;
    }

    /// AND `Vy` into `Vx`.
    pub fn and_vx_vy(&mut self, x: u8, y: u8)
        requires
            old(self).wf(),
            x < 16,
            y < 16,
            old(self).pc + 2 <= 0xFFFF,
        ensures
            final(self).wf(),
            and_vx_vy_post(*old(self), *final(self), x, y),
    {
        let v = self.regs[x as usize] & self.regs[y as usize];
        self.regs.set(x as usize, v);
        self.pc = self.pc + 2;
    }

    /// XOR `Vy` into `Vx`.
    pub fn xor_vx_vy(&mut self, x: u8, y: u8)
        requires
            old(self).wf(),
            x < 16,
            y < 16,
            old(self).pc + 2 <= 0xFFFF,
        ensures
            final(self).wf(),
            xor_vx_vy_post(*old(self), *final(self), x, y),
    {
        let v = self.regs[x as usize] ^ self.regs[y as usize];
        self.regs.set(x as usize, v);
        self.pc = self.pc + 2;
    }

    /// Add `Vy` to `Vx` modulo 256, recording the carry in the flags
    /// register.
    pub fn add_vx_vy(&mut self, x: u8, y: u8)
        requires
            old(self).wf(),
            x < 16,
            y < 16,
            old(self).pc + 2 <= 0xFFFF,
        ensures
            final(self).wf(),
            add_vx_vy_post(*old(self), *final(self), x, y),
    {
        let sum: u16 = self.regs[x as usize] as u16 + self.regs[y as usize] as u16;
        self.regs.set(x as usize, (sum % 256) as u8);
        self.regs.set(15, if sum > 255 { 1 } else { 0 });
        self.pc = self.pc + 2;
    }

    /// Subtract `Vy` from `Vx` modulo 256, recording no-borrow in the
    /// flags register.
    pub fn sub_vx_vy(&mut self, x: u8, y: u8)
        requires
            old(self).wf(),
            x < 16,
            y < 16,
            old(self).pc + 2 <= 0xFFFF,
        ensures
            final(self).wf(),
            sub_vx_vy_post(*old(self), *final(self), x, y),
    {
        let a = self.regs[x as usize];
        let b = self.regs[y as usize];
        let diff: u8 = if a >= b { a - b } else { ((a as u16 + 256) - b as u16) as u8 };
        self.regs.set(15, if a >= b { 1 } else { 0 });
        self.regs.set(x as usize, diff);
        self.pc = self.pc + 2;
    }

    /// Store `Vy - Vx` modulo 256 into `Vx`, recording no-borrow in the
    /// flags register.
    pub fn subn_vx_vy(&mut self, x: u8, y: u8)
        requires
            old(self).wf(),
            x < 16,
            y < 16,
            old(self).pc + 2 <= 0xFFFF,
        ensures
            final(self).wf(),
            subn_vx_vy_post(*old(self), *final(self), x, y),
    {
        let a = self.regs[x as usize];
        let b = self.regs[y as usize];
        let diff: u8 = if b >= a { b - a } else { ((b as u16 + 256) - a as u16) as u8 };
        self.regs.set(15, if b >= a { 1 } else { 0 });
        self.regs.set(x as usize, diff);
        self.pc = self.pc + 2;
    }

    /// Shift `Vx` right by one, the dropped bit going to the flags
    /// register first.
    pub fn shr_vx(&mut self, x: u8)
        requires
            old(self).wf(),
            x < 16,
            old(self).pc + 2 <= 0xFFFF,
        ensures
            final(self).wf(),
            shr_vx_post(*old(self), *final(self), x),
    {
        let flag = self.regs[x as usize] & 1;
        self.regs.set(15, flag);
        let cur = self.regs[x as usize];
        self.regs.set(x as usize, cur >> 1u8);
        self.pc = self.pc + 2;
    }

    /// Shift `Vx` left by one, the dropped bit going to the flags
    /// register first as a 0/1 value.
    pub fn shl_vx(&mut self, x: u8)
        requires
            old(self).wf(),
            x < 16,
            old(self).pc + 2 <= 0xFFFF,
        ensures
            final(self).wf(),
            shl_vx_post(*old(self), *final(self), x),
    {
        let flag = self.regs[x as usize] >> 7u8;
        self.regs.set(15, flag);
        let cur = self.regs[x as usize];
        self.regs.set(x as usize, cur << 1u8);
        self.pc = self.pc + 2;
    }

    /// Load the 12-bit address into the index register.
    pub fn ld_i_addr(&mut self, nnn: u16)
        requires
            old(self).wf(),
            old(self).pc + 2 <= 0xFFFF,
        ensures
            final(self).wf(),
            ld_i_addr_post(*old(self), *final(self), nnn),
    {
        self.i = nnn;
        self.pc = self.pc + 2;
    }

    /// Jump to the 12-bit address plus register 0.
    pub fn jp_v0_addr(&mut self, nnn: u16)
        requires
            old(self).wf(),
            nnn < 0x1000,
        ensures
            final(self).wf(),
            jp_v0_addr_post(*old(self), *final(self), nnn),
    {
        self.pc = (self.regs[0] as u16) + nnn;
    }

    /// Copy the delay timer into `Vx`.
    pub fn ld_vx_dt(&mut self, x: u8)
        requires
            old(self).wf(),
            x < 16,
            old(self).pc + 2 <= 0xFFFF,
        ensures
            final(self).wf(),
            ld_vx_dt_post(*old(self), *final(self), x),
    {
        let v = self.dt;
        self.regs.set(x as usize, v);
        self.pc = self.pc + 2;
    }

    /// Copy `Vx` into the delay timer.
    pub fn ld_dt_vx(&mut self, x: u8)
        requires
            old(self).wf(),
            x < 16,
            old(self).pc + 2 <= 0xFFFF,
        ensures
            final(self).wf(),
            ld_dt_vx_post(*old(self), *final(self), x),
    {
        self.dt = self.regs[x as usize];
        self.pc = self.pc + 2;
    }

    /// Copy `Vx` into the sound timer.
    pub fn ld_st_vx(&mut self, x: u8)
        requires
            old(self).wf(),
            x < 16,
            old(self).pc + 2 <= 0xFFFF,
        ensures
            final(self).wf(),
            ld_st_vx_post(*old(self), *final(self), x),
    {
        self.st = self.regs[x as usize];
        self.pc = self.pc + 2;
    }

    /// Point the index register at the built-in glyph for the low nibble
    /// of `Vx`.
    pub fn ld_f_vx(&mut self, x: u8)
        requires
            old(self).wf(),
            x < 16,
            old(self).pc + 2 <= 0xFFFF,
        ensures
            final(self).wf(),
            ld_f_vx_post(*old(self), *final(self), x),
    {
        let d = self.regs[x as usize] & 0xF;
        self.i = (d as u16) * 5;
        self.pc = self.pc + 2;
    }

    /// Clear every pixel and advance.
    pub fn cls(&mut self, display: &mut Display)
        requires
            old(self).wf(),
            old(display).wf(),
            old(self).pc + 2 <= 0xFFFF,
        ensures
            final(self).wf(),
            final(display).wf(),
            cls_post(*old(self), *final(self), *old(display), *final(display)),
    {
        display.clear();
        self.pc = self.pc + 2;
    }

    /// Draw an 8-wide, `n`-tall sprite from memory at the index register,
    /// anchored at `(Vx mod 64, Vy mod 32)`, XORing each in-bounds pixel
    /// and dropping pixels that fall off the grid; the flags register
    /// records whether any lit pixel was erased.
    #[verifier::loop_isolation(false)]
    pub fn drw_vx_vy_nibble(&mut self, display: &mut Display, x: u8, y: u8, n: u8) -> (r: Result<
        (),
        Chip8Error,
    >)
        requires
            old(self).wf(),
            old(display).wf(),
            x < 16,
            y < 16,
            n < 16,
            old(self).pc + 2 <= 0xFFFF,
        ensures
            final(self).wf(),
            final(display).wf(),
            drw_post(*old(self), *final(self), *old(display), *final(display), x, y, n, r),
    {
        if n > 0 && self.i as usize + n as usize > 4096 {
            return Err(Chip8Error::AddressOutOfRange { addr: self.pc });
        }
        let x0 = self.regs[x as usize] % 64;
        let y0 = self.regs[y as usize] % 32;
        let mut erased = false;
        let mut yy: u8 = 0;
        while yy < n
            invariant
                display.wf(),
                yy <= n,
                draw_applied(
                    *old(display),
                    *display,
                    self.ram.bytes@,
                    self.i as int,
                    x0 as int,
                    y0 as int,
                    yy as int,
                ),
                erased == draw_collision(
                    *old(display),
                    self.ram.bytes@,
                    self.i as int,
                    x0 as int,
                    y0 as int,
                    yy as int,
                ),
                display.changed == (old(display).changed || yy > 0),
            decreases n - yy,
        {
            let row = self.ram.read(self.i + yy as u16);
            let mut xx: u8 = 0;
            while xx < 8
                invariant
                    display.wf(),
                    xx <= 8,
                    forall|px: int, py: int|
                        0 <= px < 64 && 0 <= py < 32 ==> #[trigger] display.pix(px, py) == (
                        if in_sprite(x0 as int, y0 as int, yy as int, px, py) || (py == y0 + yy
                            && x0 <= px < x0 + xx) {
                            old(display).pix(px, py) != sprite_bit(
                                self.ram.bytes@,
                                self.i as int,
                                x0 as int,
                                y0 as int,
                                px,
                                py,
                            )
                        } else {
                            old(display).pix(px, py)
                        }),
                    erased == (draw_collision(
                        *old(display),
                        self.ram.bytes@,
                        self.i as int,
                        x0 as int,
                        y0 as int,
                        yy as int,
                    ) || row_collision(
                        *old(display),
                        self.ram.bytes@,
                        self.i as int,
                        x0 as int,
                        y0 as int,
                        yy as int,
                        xx as int,
                    )),
                    display.changed == (old(display).changed || yy > 0 || (xx > 0 && y0 + yy
                        < 32)),
                decreases 8 - xx,
            {
                if x0 + xx < 64 && y0 + yy < 32 {
                    let flip = (row >> (7 - xx)) & 1 == 1;
                    let old_px = display.vram_get(x0 + xx, y0 + yy);
                    display.vram_set(x0 + xx, y0 + yy, old_px != flip);
                    erased = erased || (flip && old_px);
                }
                proof {
                    lemma_row_collision_extend(
                        *old(display),
                        self.ram.bytes@,
                        self.i as int,
                        x0 as int,
                        y0 as int,
                        yy as int,
                        xx as int,
                    );
                }
                xx = xx + 1;
            }
            proof {
                lemma_collision_row_extend(
                    *old(display),
                    self.ram.bytes@,
                    self.i as int,
                    x0 as int,
                    y0 as int,
                    yy as int,
                );
            }
            yy = yy + 1;
        }
        self.regs.set(15, if erased { 1 } else { 0 });
        self.pc = self.pc + 2;
        Ok(())
    }

    /// Return from a subroutine: pop the stored address into the program
    /// counter.
    pub fn ret(&mut self) -> (r: Result<(), Chip8Error>)
        requires
            old(self).wf(),
        ensures
            final(self).wf(),
            ret_post(*old(self), *final(self), r),
    {
        if self.sp == 0 {
            return Err(Chip8Error::StackUnderflow { addr: self.pc });
        }
        self.sp = self.sp - 1;
        self.pc = self.stack[self.sp as usize];
        Ok(())
    }

    /// Jump to the 12-bit address.
    pub fn jp_addr(&mut self, nnn: u16) -> (r: Result<(), Chip8Error>)
        requires
            old(self).wf(),
        ensures
            final(self).wf(),
            jp_addr_post(*old(self), *final(self), nnn, r),
    {
        if nnn >= 4095 {
            return Err(Chip8Error::AddressOutOfRange { addr: self.pc });
        }
        self.pc = nnn;
        Ok(())
    }

    /// Call the subroutine at the 12-bit address: push the address of the
    /// next instruction, then jump.
    pub fn call_addr(&mut self, nnn: u16) -> (r: Result<(), Chip8Error>)
        requires
            old(self).wf(),
            old(self).pc + 2 <= 0xFFFF,
        ensures
            final(self).wf(),
            call_addr_post(*old(self), *final(self), nnn, r),
    {
        if nnn >= 4095 {
            return Err(Chip8Error::AddressOutOfRange { addr: self.pc });
        }
        if self.sp >= 16 {
            return Err(Chip8Error::StackOverflow { addr: self.pc });
        }
        let ret_addr = self.pc + 2;
        self.stack.set(self.sp as usize, ret_addr);
        self.sp = self.sp + 1;
        self.pc = nnn;
        Ok(())
    }

    /// Store a host-random byte masked by the immediate into `Vx`.
    pub fn rnd_vx_byte(&mut self, x: u8, nn: u8)
        requires
            old(self).wf(),
            x < 16,
            old(self).pc + 2 <= 0xFFFF,
        ensures
            final(self).wf(),
            rnd_vx_byte_post(*old(self), *final(self), x, nn),
    {
        let b = random_byte();
        self.regs.set(x as usize, b & nn);
        self.pc = self.pc + 2;
    }

    /// Skip the next instruction when the button named by the low nibble
    /// of `Vx` is down in `keys`.
    pub fn skp_vx(&mut self, x: u8, keys: u16)
        requires
            old(self).wf(),
            x < 16,
            old(self).pc + 4 <= 0xFFFF,
        ensures
            final(self).wf(),
            skp_vx_post(*old(self), *final(self), x, keys),
    {
        let k = self.regs[x as usize];
        proof {
            assert((k & 0xF) < 16) by (bit_vector);
        }
        if (keys >> ((k & 0xF) as u16)) & 1 == 1 {
            self.pc = self.pc + 2;
        }
        self.pc = self.pc + 2;
    }

    /// Skip the next instruction when the button named by the low nibble
    /// of `Vx` is up in `keys`.
    pub fn sknp_vx(&mut self, x: u8, keys: u16)
        requires
            old(self).wf(),
            x < 16,
            old(self).pc + 4 <= 0xFFFF,
        ensures
            final(self).wf(),
            sknp_vx_post(*old(self), *final(self), x, keys),
    {
        let k = self.regs[x as usize];
        proof {
            assert((k & 0xF) < 16) by (bit_vector);
        }
        if !((keys >> ((k & 0xF) as u16)) & 1 == 1) {
            self.pc = self.pc + 2;
        }
        self.pc = self.pc + 2;
    }

    /// Suspend until the host reports a fresh button press for `Vx`.
    pub fn ld_vx_k(&mut self, x: u8)
        requires
            old(self).wf(),
            x < 16,
        ensures
            final(self).wf(),
            ld_vx_k_post(*old(self), *final(self), x),
    {
        self.awaiting_key = Some(x);
    }

    /// Resume a suspended machine with the freshly pressed button: store
    /// it in the awaited register and advance.
    pub fn provide_key(&mut self, key: u8)
        requires
            old(self).wf(),
            old(self).awaiting_key is Some,
            key < 16,
            old(self).pc + 2 <= 0xFFFF,
        ensures
            final(self).wf(),
            same_mem(*old(self), *final(self)),
            same_stack(*old(self), *final(self)),
            same_index(*old(self), *final(self)),
            same_timers(*old(self), *final(self)),
            old(self).awaiting_key matches Some(x) && final(self).regs@ == old(
                self,
            ).regs@.update(x as int, key),
            final(self).pc == old(self).pc + 2,
            final(self).awaiting_key is None,
    {
        match self.awaiting_key {
            Some(x) => {
                self.regs.set(x as usize, key);
            },
            None => {},
        }
        self.awaiting_key = None;
        self.pc = self.pc + 2;
    }

    /// Add `Vx` to the index register.
    pub fn add_i_vx(&mut self, x: u8) -> (r: Result<(), Chip8Error>)
        requires
            old(self).wf(),
            x < 16,
            old(self).pc + 2 <= 0xFFFF,
        ensures
            final(self).wf(),
            add_i_vx_post(*old(self), *final(self), x, r),
    {
        let v = self.regs[x as usize] as u16;
        if self.i > 0xFFFF - v {
            return Err(Chip8Error::AddressOutOfRange { addr: self.pc });
        }
        self.i = self.i + v;
        self.pc = self.pc + 2;
        Ok(())
    }

    /// Write the decimal digits of `Vx` to the three bytes at the index
    /// register.
    pub fn ld_b_vx(&mut self, x: u8) -> (r: Result<(), Chip8Error>)
        requires
            old(self).wf(),
            x < 16,
            old(self).pc + 2 <= 0xFFFF,
        ensures
            final(self).wf(),
            ld_b_vx_post(*old(self), *final(self), x, r),
    {
        if self.i >= 4094 {
            return Err(Chip8Error::AddressOutOfRange { addr: self.pc });
        }
        let v = self.regs[x as usize];
        self.ram.set(self.i, v / 100);
        self.ram.set(self.i + 1, (v % 100) / 10);
        self.ram.set(self.i + 2, v % 10);
        self.pc = self.pc + 2;
        Ok(())
    }

    /// Copy registers 0 through `x` to memory at the index register.
    pub fn ld_i_vx(&mut self, x: u8) -> (r: Result<(), Chip8Error>)
        requires
            old(self).wf(),
            x < 16,
            old(self).pc + 2 <= 0xFFFF,
        ensures
            final(self).wf(),
            ld_i_vx_post(*old(self), *final(self), x, r),
    {
        if self.i as usize + x as usize >= 4096 {
            return Err(Chip8Error::AddressOutOfRange { addr: self.pc });
        }
        let mut j: u8 = 0;
        while j <= x
            invariant
                self.wf(),
                j <= x + 1,
                x < 16,
                self.i as int + x < 4096,
                same_regs(*old(self), *self),
                same_stack(*old(self), *self),
                same_index(*old(self), *self),
                same_timers(*old(self), *self),
                same_await(*old(self), *self),
                self.pc == old(self).pc,
                forall|k: int| 0 <= k < j ==> self.ram.bytes@[self.i + k] == self.regs@[k],
                forall|a: int|
                    0 <= a < 4096 && !(self.i <= a < self.i + j) ==> self.ram.bytes@[a] == old(
                        self,
                    ).ram.bytes@[a],
            decreases x + 1 - j,
        {
            let v = self.regs[j as usize];
            self.ram.set(self.i + j as u16, v);
            j = j + 1;
        }
        self.pc = self.pc + 2;
        Ok(())
    }

    /// Fill registers 0 through `x` from memory at the index register.
    pub fn ld_vx_i(&mut self, x: u8) -> (r: Result<(), Chip8Error>)
        requires
            old(self).wf(),
            x < 16,
            old(self).pc + 2 <= 0xFFFF,
        ensures
            final(self).wf(),
            ld_vx_i_post(*old(self), *final(self), x, r),
    {
        if self.i as usize + x as usize >= 4096 {
            return Err(Chip8Error::AddressOutOfRange { addr: self.pc });
        }
        let mut j: u8 = 0;
        while j <= x
            invariant
                self.wf(),
                j <= x + 1,
                x < 16,
                self.i as int + x < 4096,
                same_mem(*old(self), *self),
                same_stack(*old(self), *self),
                same_index(*old(self), *self),
                same_timers(*old(self), *self),
                same_await(*old(self), *self),
                self.pc == old(self).pc,
                forall|k: int| 0 <= k < j ==> self.regs@[k] == self.ram.bytes@[self.i + k],
                forall|k: int| j <= k < 16 ==> self.regs@[k] == old(self).regs@[k],
            decreases x + 1 - j,
        {
            let v = self.ram.read(self.i + j as u16);
            self.regs.set(j as usize, v);
            j = j + 1;
        }
        self.pc = self.pc + 2;
        Ok(())
    }

    /// Execute one already-decoded instruction.
    pub fn run_opcode(&mut self, display: &mut Display, op: Opcode, keys: u16) -> (r: Result<
        (),
        Chip8Error,
    >)
        requires
            old(self).wf(),
            old(display).wf(),
            op_wf(op),
            old(self).pc + 4 <= 0xFFFF,
        ensures
            final(self).wf(),
            final(display).wf(),
            step_post(*old(self), *final(self), *old(display), *final(display), op, keys, r),
    {
        match op {
            Opcode::Cls => {
                self.cls(display);
                Ok(())
            },
            Opcode::Ret => self.ret(),
            Opcode::JpAddr { nnn } => self.jp_addr(nnn),
            Opcode::CallAddr { nnn } => self.call_addr(nnn),
            Opcode::SeVxByte { x, nn } => {
                self.se_vx_byte(x, nn);
                Ok(())
            },
            Opcode::SneVxByte { x, nn } => {
                self.sne_vx_byte(x, nn);
                Ok(())
            },
            Opcode::SeVxVy { x, y } => {
                self.se_vx_vy(x, y);
                Ok(())
            },
            Opcode::LdVxByte { x, nn } => {
                self.ld_vx_byte(x, nn);
                Ok(())
            },
            Opcode::AddVxByte { x, nn } => {
                self.add_vx_byte(x, nn);
                Ok(())
            },
            Opcode::LdVxVy { x, y } => {
                self.load_vx_vy(x, y);
                Ok(())
            },
            Opcode::OrVxVy { x, y } => {
                self.or_vx_vy(x, y);
                Ok(())
            },
            Opcode::AndVxVy { x, y } => {
                self.and_vx_vy(x, y);
                Ok(())
            },
            Opcode::XorVxVy { x, y } => {
                self.xor_vx_vy(x, y);
                Ok(())
            },
            Opcode::AddVxVy { x, y } => {
                self.add_vx_vy(x, y);
                Ok(())
            },
            Opcode::SubVxVy { x, y } => {
                self.sub_vx_vy(x, y);
                Ok(())
            },
            Opcode::ShrVx { x } => {
                self.shr_vx(x);
                Ok(())
            },
            Opcode::SubnVxVy { x, y } => {
                self.subn_vx_vy(x, y);
                Ok(())
            },
            Opcode::ShlVx { x } => {
                self.shl_vx(x);
                Ok(())
            },
            Opcode::SneVxVy { x, y } => {
                self.sne_vx_vy(x, y);
                Ok(())
            },
            Opcode::LdIAddr { nnn } => {
                self.ld_i_addr(nnn);
                Ok(())
            },
            Opcode::JpV0Addr { nnn } => {
                self.jp_v0_addr(nnn);
                Ok(())
            },
            Opcode::RndVxByte { x, nn } => {
                self.rnd_vx_byte(x, nn);
                Ok(())
            },
            Opcode::DrwVxVyN { x, y, n } => self.drw_vx_vy_nibble(display, x, y, n),
            Opcode::SkpVx { x } => {
                self.skp_vx(x, keys);
                Ok(())
            },
            Opcode::SknpVx { x } => {
                self.sknp_vx(x, keys);
                Ok(())
            },
            Opcode::LdVxDt { x } => {
                self.ld_vx_dt(x);
                Ok(())
            },
            Opcode::LdVxK { x } => {
                self.ld_vx_k(x);
                Ok(())
            },
            Opcode::LdDtVx { x } => {
                self.ld_dt_vx(x);
                Ok(())
            },
            Opcode::LdStVx { x } => {
                self.ld_st_vx(x);
                Ok(())
            },
            Opcode::AddIVx { x } => self.add_i_vx(x),
            Opcode::LdFVx { x } => {
                self.ld_f_vx(x);
                Ok(())
            },
            Opcode::LdBVx { x } => self.ld_b_vx(x),
            Opcode::LdIVx { x } => self.ld_i_vx(x),
            Opcode::LdVxI { x } => self.ld_vx_i(x),
        }
    }

    /// One tick of the engine: catch the timers up to `now_nanos`, then
    /// fetch, decode and execute the instruction at the program counter,
    /// unless the engine is suspended awaiting input.  `keys` is the
    /// host's current button bitmask, bit `k` for button `k`.
    pub fn tick(&mut self, display: &mut Display, keys: u16, now_nanos: u64) -> (r: Result<
        (),
        Chip8Error,
    >)
        requires
            old(self).wf(),
            old(display).wf(),
        ensures
            final(self).wf(),
            final(display).wf(),
            tick_post(
                *old(self),
                *final(self),
                *old(display),
                *final(display),
                keys,
                now_nanos,
                r,
            ),
    {
        self.update_timers(now_nanos);
        if self.awaiting_key.is_some() {
            return Ok(());
        }
        if self.pc >= 4095 {
            return Err(Chip8Error::AddressOutOfRange { addr: self.pc });
        }
        let w = self.opcode_at(self.pc);
        match decode(w) {
            None => Err(Chip8Error::DecodeFailure { addr: self.pc, word: w }),
            Some(op) => self.run_opcode(display, op, keys),
        }
    }

    /// Catch the timers up to wall-clock time `now_nanos`: one decrement
    /// per whole interval elapsed, saturating at zero, the timestamp
    /// advancing by exactly the counted intervals.
    pub fn update_timers(&mut self, now_nanos: u64)
        requires
            old(self).wf(),
        ensures
            final(self).wf(),
            *final(self) == timer_step(*old(self), now_nanos),
    {
        if now_nanos > self.last_timer_decrement {
            let d = now_nanos - self.last_timer_decrement;
            if d > TIMER_INTERVAL_NANOS {
                let n = (d - 1) / TIMER_INTERVAL_NANOS;
                proof {
                    assert(n * TIMER_INTERVAL_NANOS <= d - 1) by (nonlinear_arith)
                        requires
                            n == (d - 1) as int / (TIMER_INTERVAL_NANOS as int),
                            d >= 1,
                            TIMER_INTERVAL_NANOS > 0,
                    ;
                }
                self.last_timer_decrement = self.last_timer_decrement
                    + n * TIMER_INTERVAL_NANOS;
                self.dt = if self.dt as u64 <= n {
                    0
                } else {
                    self.dt - n as u8
                };
                self.st = if self.st as u64 <= n {
                    0
                } else {
                    self.st - n as u8
                };
            }
        }
    }
}

/// Relies on rand::random: a byte drawn from the host's generator;
/// nothing is promised of its value.
#[verifier::external_body]
fn random_byte() -> u8 {
    rand::random::<u8>()
}

/// A subroutine call followed by a return leaves the program counter at
/// the address immediately after the call, whatever the nesting depth
/// below 16 slots, and touches neither registers, memory, index register,
/// timers nor the stack pointer.
pub proof fn lemma_call_then_ret(
    s0: Cpu,
    s1: Cpu,
    s2: Cpu,
    nnn: u16,
    r1: Result<(), Chip8Error>,
    r2: Result<(), Chip8Error>,
)
    requires
        s0.wf(),
        s0.sp < 16,
        nnn < 4095,
        s0.pc + 2 <= 0xFFFF,
        call_addr_post(s0, s1, nnn, r1),
        ret_post(s1, s2, r2),
    ensures
        r1 is Ok,
        r2 is Ok,
        s2.pc == s0.pc + 2,
        s2.sp == s0.sp,
        same_mem(s0, s2),
        same_regs(s0, s2),
        same_index(s0, s2),
        same_timers(s0, s2),
        same_await(s0, s2),
{
}

/// Drawing an all-set 8-wide, `n`-tall sprite onto an all-clear screen
/// lights exactly the in-bounds cells under the sprite — cells falling
/// off the grid are dropped, not wrapped — and erases nothing.
pub proof fn lemma_draw_all_set_on_clear(
    d0: Display,
    d1: Display,
    mem: Seq<u8>,
    i: int,
    x0: int,
    y0: int,
    n: int,
)
    requires
        0 <= x0 < 64,
        0 <= y0 < 32,
        0 <= n,
        forall|px: int, py: int| 0 <= px < 64 && 0 <= py < 32 ==> !d0.pix(px, py),
        forall|k: int| 0 <= k < n ==> #[trigger] mem[i + k] == 0xFF,
        draw_applied(d0, d1, mem, i, x0, y0, n),
    ensures
        forall|px: int, py: int|
            0 <= px < 64 && 0 <= py < 32 ==> #[trigger] d1.pix(px, py) == in_sprite(
                x0,
                y0,
                n,
                px,
                py,
            ),
        !draw_collision(d0, mem, i, x0, y0, n),
{
    assert(forall|s: u8| s < 8 ==> ((0xFFu8 >> s) & 1) == 1) by (bit_vector);
    assert forall|px: int, py: int| 0 <= px < 64 && 0 <= py < 32 implies #[trigger] d1.pix(px, py)
        == in_sprite(x0, y0, n, px, py) by {
        if in_sprite(x0, y0, n, px, py) {
            assert(mem[i + (py - y0)] == 0xFF);
            assert(((7 - (px - x0)) as u8) < 8);
            assert(sprite_bit(mem, i, x0, y0, px, py));
        }
    }
}

/// Drawing the same sprite twice in succession restores every in-bounds
/// pixel to what it was before the first draw.
pub proof fn lemma_draw_twice_restores(
    d0: Display,
    d1: Display,
    d2: Display,
    mem: Seq<u8>,
    i: int,
    x0: int,
    y0: int,
    n: int,
)
    requires
        draw_applied(d0, d1, mem, i, x0, y0, n),
        draw_applied(d1, d2, mem, i, x0, y0, n),
    ensures
        forall|px: int, py: int|
            0 <= px < 64 && 0 <= py < 32 ==> #[trigger] d2.pix(px, py) == d0.pix(px, py),
{
    assert forall|px: int, py: int| 0 <= px < 64 && 0 <= py < 32 implies #[trigger] d2.pix(px, py)
        == d0.pix(px, py) by {
        assert(d1.pix(px, py) == (if in_sprite(x0, y0, n, px, py) {
            d0.pix(px, py) != sprite_bit(mem, i, x0, y0, px, py)
        } else {
            d0.pix(px, py)
        }));
    }
}

/// Drawing an all-set sprite of positive height again, over the image it
/// just produced on an all-clear screen, erases pixels: the second draw
/// reports a collision.
pub proof fn lemma_redraw_collides(
    d0: Display,
    d1: Display,
    mem: Seq<u8>,
    i: int,
    x0: int,
    y0: int,
    n: int,
)
    requires
        0 <= x0 < 64,
        0 <= y0 < 32,
        0 < n,
        forall|px: int, py: int| 0 <= px < 64 && 0 <= py < 32 ==> !d0.pix(px, py),
        forall|k: int| 0 <= k < n ==> #[trigger] mem[i + k] == 0xFF,
        draw_applied(d0, d1, mem, i, x0, y0, n),
    ensures
        draw_collision(d1, mem, i, x0, y0, n),
{
    lemma_draw_all_set_on_clear(d0, d1, mem, i, x0, y0, n);
    assert(in_sprite(x0, y0, n, x0, y0));
    assert(((0xFFu8 >> 7u8) & 1) == 1) by (bit_vector);
    assert(mem[i + 0] == 0xFF);
    assert(sprite_bit(mem, i, x0, y0, x0, y0));
    assert(d1.pix(x0, y0));
}

/// With every one of the 16 stack slots in use, a further subroutine
/// call is a fatal stack overflow and leaves the machine unchanged.
pub proof fn lemma_call_overflow(s0: Cpu, s1: Cpu, nnn: u16, r: Result<(), Chip8Error>)
    requires
        s0.wf(),
        s0.sp == 16,
        nnn < 4095,
        call_addr_post(s0, s1, nnn, r),
    ensures
        r == Err::<(), Chip8Error>(Chip8Error::StackOverflow { addr: s0.pc }),
        same_cpu(s0, s1),
{
}

} // verus!
