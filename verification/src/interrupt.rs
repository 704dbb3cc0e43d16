//! Interrupt enablement and the timer-interrupt decision.
//!
//! The control-and-status registers themselves are written by the boot
//! layer; this module fixes the values to program and the decision the
//! handler takes.

use vstd::prelude::*;

verus! {

/// Enables external interrupts.
pub const SIE_SUPERVISOR_EXTERNAL_INTERRUPT_ENABLE: u64 = 512;

/// Enables timer interrupts.
pub const SIE_TIMER_EXTERNAL_INTERRUPT_ENABLE: u64 = 32;

/// Enables software interrupts.
pub const SIE_SOFTWARE_EXTERNAL_INTERRUPT_ENABLE: u64 = 2;

/// Enables SIE interrupts as supervisor.
pub const SSTATUS_SIE: u64 = 2;

/// The `scause` value of a supervisor timer interrupt (interrupt bit
/// over cause 5).
pub const SCAUSE_TIMER: u64 = 0x8000000000000005;

/// How far ahead of now each timer shot is programmed (about two
/// seconds).
pub const TIMER_INTERVAL: u64 = 0xffffff;

/// The values interrupt enablement programs: the `sie` mask (timer,
/// external and software interrupts) and the first `stimecmp` deadline.
pub fn interrupt_enable() -> (r: (u64, u64))
    ensures
        r.0 == SIE_TIMER_EXTERNAL_INTERRUPT_ENABLE | SIE_SUPERVISOR_EXTERNAL_INTERRUPT_ENABLE
            | SIE_SOFTWARE_EXTERNAL_INTERRUPT_ENABLE,
        r.1 == TIMER_INTERVAL,
{
    (
        SIE_TIMER_EXTERNAL_INTERRUPT_ENABLE | SIE_SUPERVISOR_EXTERNAL_INTERRUPT_ENABLE
            | SIE_SOFTWARE_EXTERNAL_INTERRUPT_ENABLE,
        TIMER_INTERVAL,
    )
}

/// The interrupt handler's one decision: a supervisor timer interrupt
/// re-arms the timer one interval past the current time; every other
/// interrupt cause is left alone.  `sepc` and `stval` are reported by
/// the trap but do not influence the decision.
pub fn handle_interrupt(scause: u64, _sepc: u64, _stval: u64, mtime: u64) -> (r: Option<u64>)
    requires
        mtime <= u64::MAX - TIMER_INTERVAL,
    ensures
        scause == SCAUSE_TIMER ==> r == Some((mtime + TIMER_INTERVAL) as u64),
        scause != SCAUSE_TIMER ==> r is None,
{
    if scause == SCAUSE_TIMER {
        Some(mtime + TIMER_INTERVAL)
    } else {
        None
    }
}

} // verus!
