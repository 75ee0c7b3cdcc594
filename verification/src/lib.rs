//! A function interception engine: it overwrites the entry bytes of a function
//! with a jump to a replacement and keeps the displaced bytes, so that the
//! original behaviour stays reachable through a relocated copy (a trampoline).
//!
//! The engine never touches memory it was not handed. Target code and
//! trampoline buffers are borrowed as byte slices, and page protection is
//! reached through [`memory::MemoryProtection`], which forwards each request
//! to a primitive that the embedding program supplies.

pub mod bytes;
pub mod error;
pub mod arch;
pub mod memory;
pub mod advanced;
pub mod disasm;
pub mod hook;
pub mod utils;
pub mod debug;
