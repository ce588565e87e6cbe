//! A verified CHIP-8 virtual machine core: the instruction pipeline
//! (fetch, decode, execute), the byte-addressable memory with the
//! font table and the call stack, and the monochrome display
//! compositor with XOR sprite blits and collision detection.
//!
//! Presentation, input events and ROM loading are left to a backend;
//! the core consumes plain values (key bitmasks, byte slices) and
//! hands plain values back.

pub mod cpu;
pub mod display;
pub mod isa;
pub mod memory;
pub mod stack;
pub mod util;
