//! Core of a small RISC-V supervisor-mode kernel: the physical bump
//! allocator, the three-level Sv39 page-table builder, the process table,
//! the cooperative round-robin scheduler, and the callee-saved register
//! context-switch contract that ties them together.
//!
//! Hardware state (control and status registers, MMIO, the live register
//! file) is represented as plain data so that every decision the kernel
//! makes about it can be verified; the thin layer that programs the real
//! hardware lives outside this library.

pub mod dtree;
pub mod ext2;
pub mod interrupt;
pub mod paging;
pub mod palloc;
pub mod proc;
pub mod registers;
pub mod sbi;
pub mod shell;
pub mod static_alloc;
pub mod syscall;
pub mod tar;
pub mod virtio;

use vstd::prelude::*;

verus! {

/// Marker for storage backends; the kernel keeps its file table behind it.
pub trait Filesystem {}

} // verus!
