//! Slot-indexed bit sets in the packed word layout that a POSIX-like
//! platform's descriptor-multiplexing and CPU-affinity primitives read.
//!
//! A set holds membership flags for small non-negative integers ("slots":
//! file descriptor numbers or logical CPU indices), packed into an array of
//! unsigned machine words: slot `s` is a member iff bit `s % 64` of word
//! `s / 64` is 1.  Two instantiations exist, with the same layout but
//! different range-checking conventions:
//!
//! * [`fd::fd_set`]: the descriptor set.  The native accessors are unchecked
//!   macros that trust the caller; here the same operations are
//!   bounds-checked and report [`fd::OutOfRange`] instead of touching memory
//!   out of bounds.
//! * [`cpu::cpu_set_t`]: the CPU set.  The native accessors carry their own
//!   internal guard, so an out-of-range slot is a silent no-op; that
//!   convention is kept exactly.
#![allow(non_camel_case_types)]
#![allow(non_snake_case)]

use vstd::prelude::*;

pub mod bits;
pub mod cpu;
pub mod fd;
pub mod laws;

verus! {

/// Number of slots a descriptor set can hold (the platform's `FD_SETSIZE`).
pub const FD_SETSIZE: usize = 1024;

/// Number of slots a CPU set can hold (the platform's `CPU_SETSIZE`).
pub const CPU_SETSIZE: i32 = 0x400;

/// Storage word of a descriptor set: the platform's unsigned long
/// (64-bit addressing mode).
pub type fd_mask = u64;

/// Opaque marker behind the platform's timezone pointers; no value of it
/// can be made outside this crate, and none is made inside it.
#[derive(Clone, Copy)]
pub enum timezone {
    #[non_exhaustive]
    Opaque,
}

/// Opaque marker behind the platform's semaphore pointers; no value of it
/// can be made outside this crate, and none is made inside it.
#[derive(Clone, Copy)]
pub enum sem {
    #[non_exhaustive]
    Opaque,
}

} // verus!
