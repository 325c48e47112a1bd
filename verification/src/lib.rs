//! A small byte-oriented virtual machine, and an assembler for it.
//!
//! The machine runs a program that lies in a circular memory of bytes: the
//! program counter and every address wrap at the end of the memory, so that
//! any non-empty sequence of bytes is a program that runs for ever. What a
//! program puts out is a stream of bytes, meant to be listened to.
//!
//! - [`instruction`] holds the operands, the operations and the decoded
//!   instructions, and the entry point of the assembler, `assemble`.
//! - [`state`] says what the machine does: how an instruction is read from
//!   memory, what it changes, and what a run of cycles comes to.
//! - [`alu`] and [`alu_wide`] say what each operation computes, at a width
//!   of 32 and of 64 bits.
//! - [`machine`] is the machine itself.
//! - [`encoding`] gives the binary form of an instruction.
//! - [`assembler`] says what a program text assembles to; [`text`],
//!   [`parser`] and [`linker`] do the work.
//! - [`mutation`], [`population`], [`preview`] and [`playback`] serve the
//!   breeding of programs by ear: random changes to programs, the choice of
//!   parents, the output that a program is judged by, and its way to the
//!   audio device.
//! - [`bytes`] and [`hex`] deal with byte order and hexadecimal rendering.

pub mod alu;
pub mod alu_wide;
pub mod assembler;
pub mod bytes;
pub mod encoding;
pub mod hex;
pub mod instruction;
pub mod linker;
pub mod machine;
pub mod mutation;
pub mod parser;
pub mod playback;
pub mod population;
pub mod preview;
pub mod state;
pub mod text;
