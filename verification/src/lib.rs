//! An emulator core for the classic 8-bit virtual machine with a 4096-byte
//! address space, a 64 by 32 monochrome framebuffer, 16 buttons and two
//! 60 Hz countdown timers.  Every instruction's effect on the machine
//! state is stated as a contract and proved; the host supplies the I/O:
//! the program image as bytes, the button bitmask and wall-clock time per
//! tick, and a renderer for the framebuffer.

pub mod cpu;
pub mod decode;
pub mod display;
pub mod ram;

pub use cpu::Chip8Error;
pub use cpu::Cpu;
pub use decode::Opcode;
pub use display::Display;
pub use ram::Ram;
