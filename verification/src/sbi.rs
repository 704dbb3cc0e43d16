//! Types of the Supervisor Binary Interface.
//!
//! The `ecall` into the SBI firmware is made by the boot layer; what
//! belongs here is the decoding of the two returned registers into the
//! typed result.

use vstd::prelude::*;

verus! {

/// Known SBI implementations, by implementation ID.
#[derive(Clone, Copy, PartialEq, Eq, Structural, Debug)]
pub enum ImplId {
    BerkeleyBootLoader,
    OpenSBI,
    Xvisor,
    KVM,
    RustSBI,
    Diosix,
    Coffer,
}

/// Hart lifecycle states reported by the hart-state-management calls.
#[derive(Clone, Copy, PartialEq, Eq, Structural, Debug)]
pub enum HartState {
    Started,
    Stopped,
    StartPending,
    StopPending,
    Suspended,
    SuspendPending,
    ResumePending,
}

/// A decoded SBI return: success carries the value register, the rest
/// are the standard error codes (0, -1, .., -8 in the error register).
#[derive(Clone, Copy, PartialEq, Eq, Structural, Debug)]
pub enum SbiRet {
    SbiSuccess { value: i64 },
    SbiErrFailed,
    SbiErrNotSupported,
    SbiErrInvalidParam,
    SbiErrDenied,
    SbiErrInvalidAddress,
    SbiErrAlreadyAvailable,
    SbiErrAlreadyStarted,
    SbiErrAlreadyStopped,
}

/// The raw pair of registers an SBI call hands back.
#[derive(Clone, Copy, PartialEq, Eq, Structural, Debug)]
pub struct SbiRetInto {
    pub error: i64,
    pub value: i64,
}

impl SbiRetInto {
    /// Decode the register pair.  The firmware only produces error
    /// codes 0 down to -8.
    pub fn decode(self) -> (r: SbiRet)
        requires
            -8 <= self.error <= 0,
        ensures
            self.error == 0 ==> r == (SbiRet::SbiSuccess { value: self.value }),
            self.error == -1 ==> r == SbiRet::SbiErrFailed,
            self.error == -2 ==> r == SbiRet::SbiErrNotSupported,
            self.error == -3 ==> r == SbiRet::SbiErrInvalidParam,
            self.error == -4 ==> r == SbiRet::SbiErrDenied,
            self.error == -5 ==> r == SbiRet::SbiErrInvalidAddress,
            self.error == -6 ==> r == SbiRet::SbiErrAlreadyAvailable,
            self.error == -7 ==> r == SbiRet::SbiErrAlreadyStarted,
            self.error == -8 ==> r == SbiRet::SbiErrAlreadyStopped,
    {
        if self.error == 0 {
            SbiRet::SbiSuccess { value: self.value }
        } else if self.error == -1 {
            SbiRet::SbiErrFailed
        } else if self.error == -2 {
            SbiRet::SbiErrNotSupported
        } else if self.error == -3 {
            SbiRet::SbiErrInvalidParam
        } else if self.error == -4 {
            SbiRet::SbiErrDenied
        } else if self.error == -5 {
            SbiRet::SbiErrInvalidAddress
        } else if self.error == -6 {
            SbiRet::SbiErrAlreadyAvailable
        } else if self.error == -7 {
            SbiRet::SbiErrAlreadyStarted
        } else {
            SbiRet::SbiErrAlreadyStopped
        }
    }
}

} // verus!
