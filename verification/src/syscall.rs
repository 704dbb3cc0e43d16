//! Syscall numbers and the typed results that cross the user/kernel
//! boundary, with the decoders for the raw register pairs the `ecall`
//! instruction hands back.

use vstd::prelude::*;

verus! {

pub const SYS_PUTCHAR: u64 = 1;

pub const SYS_GETCHAR: u64 = 2;

pub const SYS_EXIT: u64 = 3;

pub const SYS_WRITE: u64 = 4;

pub const SYS_READ: u64 = 5;

/// Errors a syscall can report.
#[derive(Clone, Copy, PartialEq, Eq, Structural, Debug)]
pub enum SysErr {
    NotFound,
    BufferSize,
    OutOfMemory,
}

/// Result of a general syscall: a small payload or a typed error.
#[derive(Clone, Copy, PartialEq, Eq, Structural, Debug)]
pub enum SyscallResult {
    Success(u32),
    Failure(SysErr),
}

/// Errors of the file syscalls.
#[derive(Clone, Copy, PartialEq, Eq, Structural, Debug)]
pub enum FileErr {
    FileNotFound,
    BufferTooLarge,
}

/// Result of a file syscall: a byte count or a typed error.
#[derive(Clone, Copy, PartialEq, Eq, Structural, Debug)]
pub enum FileResult {
    Success(u64),
    Failure(FileErr),
}

impl SysErr {
    /// The on-wire code of the error (-1, -2, -3).
    pub fn code(self) -> (r: i64)
        ensures
            self is NotFound ==> r == -1,
            self is BufferSize ==> r == -2,
            self is OutOfMemory ==> r == -3,
    {
        match self {
            SysErr::NotFound => -1,
            SysErr::BufferSize => -2,
            SysErr::OutOfMemory => -3,
        }
    }
}

impl FileResult {
    /// Decode the two registers a file syscall returns: the first is
    /// the tag (0 ok, -1 error), the second the byte count or the
    /// error code.
    pub fn from_regs(tag: i64, payload: u64) -> (r: FileResult)
        requires
            tag == 0 || tag == -1,
            tag == -1 ==> payload <= 1,
        ensures
            r == FileResult::from_regs_spec(tag, payload),
            tag == 0 ==> r == FileResult::Success(payload),
            tag == -1 && payload == 0 ==> r == FileResult::Failure(FileErr::FileNotFound),
            tag == -1 && payload == 1 ==> r == FileResult::Failure(FileErr::BufferTooLarge),
    {
        if tag == 0 {
            FileResult::Success(payload)
        } else if payload == 0 {
            FileResult::Failure(FileErr::FileNotFound)
        } else {
            FileResult::Failure(FileErr::BufferTooLarge)
        }
    }

    /// Encode back into the register pair; inverse of `from_regs`.
    pub fn to_regs(self) -> (r: (i64, u64))
        ensures
            self == FileResult::from_regs_spec(r.0, r.1),
            r.0 == 0 || r.0 == -1,
            r.0 == -1 ==> r.1 <= 1,
    {
        match self {
            FileResult::Success(n) => (0, n),
            FileResult::Failure(FileErr::FileNotFound) => (-1, 0),
            FileResult::Failure(FileErr::BufferTooLarge) => (-1, 1),
        }
    }

    /// What `from_regs` returns, as a specification.
    pub open spec fn from_regs_spec(tag: i64, payload: u64) -> FileResult {
        if tag == 0 {
            FileResult::Success(payload)
        } else if payload == 0 {
            FileResult::Failure(FileErr::FileNotFound)
        } else {
            FileResult::Failure(FileErr::BufferTooLarge)
        }
    }
}

} // verus!
