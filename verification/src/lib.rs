//! A verified interpreter for the LC-3, a 16-bit educational instruction set
//! with eight general-purpose registers, a program counter, a one-of-three
//! condition code, a 65,536-word memory, and a small set of console traps.
//!
//! The machine itself — fetch, decode, the fifteen live opcodes, the
//! memory-mapped keyboard registers and the trap routines — is pure
//! computation on 16-bit words and is verified against a specification-level
//! model of the architecture. Console and file handling stay outside: the
//! interpreter consumes queued key bytes and produces output bytes, and a
//! host program moves those bytes to and from the real terminal.

pub mod decode;
pub mod semantics;
pub mod machine;
pub mod laws;
