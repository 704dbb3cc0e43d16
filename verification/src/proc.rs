//! The process table, the cooperative scheduler and the context-switch
//! contract.
//!
//! A process is a slot of the fixed-capacity table: its pid is its slot
//! index, its kernel stack is an array of words, and its saved stack
//! pointer is a word index into that stack.  The scheduler is explicit
//! state in a kernel context struct rather than ambient globals: the
//! current-process cursor and the images of the two privileged registers
//! (`satp`, and the process whose stack top sits in `sscratch`) live
//! here, and the boot layer programs the hardware from them.
//!
//! The context switch is the register save/restore/stack-swap primitive:
//! it pushes the return address and the twelve callee-saved registers
//! onto the outgoing stack, parks the decremented stack pointer in the
//! outgoing slot, adopts the incoming slot's stack pointer and pops the
//! same register set from the incoming stack.  On hardware this is a
//! short assembly routine; its contract over the stack words and the
//! callee-saved window is stated and checked here.

use vstd::prelude::*;

use crate::paging::{
    entry_bits, flags_ok, map_spec, pt_wf, vpn0, vpn1, vpn2, walk_va, PAddr, PageTable, PtView,
    VAddr, PAGE_R, PAGE_SIZE, PAGE_U, PAGE_V, PAGE_W, PAGE_X,
};
use crate::palloc::{fits, round_up, BumpAlloc};

verus! {

/// Capacity of the process table (slot 0 is the idle process).
pub const PROC_MAX: usize = 22;

/// Kernel stack size per process, in words (0x2000 bytes).
pub const KSTACK_WORDS: usize = 1024;

/// Words in one context-switch frame: the return address plus the
/// twelve callee-saved registers s0..s11.
pub const CTX_FRAME_WORDS: usize = 13;

/// Fixed virtual base at which a process image is mapped.
pub const USER_BASE: u64 = 0x1000000;

/// Lifecycle of a process-table slot.  InUse is the only schedulable
/// state; an Exited or Unused slot is never selected, and slots are not
/// currently reclaimed.
#[derive(Clone, Copy, PartialEq, Eq, Structural, Debug)]
pub enum ProcessState {
    Unused,
    InUse,
    Exited,
}

impl Default for ProcessState {
    fn default() -> (r: Self)
        ensures
            r == ProcessState::Unused,
    {
        ProcessState::Unused
    }
}

/// The one recoverable failure of this core: every slot of the process
/// table is taken.
#[derive(Clone, Copy, PartialEq, Eq, Structural, Debug)]
pub enum ProcessError {
    MaxProcsUsed,
}

/// One process-table slot.
pub struct Process {
    /// Slot index; meaningful once the slot leaves Unused.
    pub pid: usize,
    /// Lifecycle state.
    pub state: ProcessState,
    /// Saved stack pointer: a word index into `kstack`, parked by the
    /// context switch (or seeded at creation) while the process is not
    /// running.
    pub sp: usize,
    /// Root of the process's address space, built at creation.
    pub page_table: Option<PageTable>,
    /// The kernel stack, one machine word per element.
    pub kstack: Vec<u64>,
    /// Content of the physical frames the process image was copied
    /// into, one page-sized chunk per mapped user page (the last chunk
    /// may be short).
    pub image: Vec<Vec<u8>>,
}

impl Default for Process {
    /// An Unused slot: no pid, no stack pointer, a zeroed kernel stack.
    fn default() -> (r: Self)
        ensures
            r.pid == usize::MAX,
            r.state == ProcessState::Unused,
            r.sp == usize::MAX,
            r.page_table is None,
            r.kstack@ == Seq::new(KSTACK_WORDS as nat, |i: int| 0u64),
            r.image@ == Seq::<Vec<u8>>::empty(),
    {
        let kstack: Vec<u64> = vec![0u64; KSTACK_WORDS];
        proof {
            assert(kstack@ =~= Seq::new(KSTACK_WORDS as nat, |i: int| 0u64));
        }
        let image: Vec<Vec<u8>> = Vec::new();
        proof {
            assert(image@ =~= Seq::<Vec<u8>>::empty());
        }
        Process {
            pid: usize::MAX,
            state: ProcessState::Unused,
            sp: usize::MAX,
            page_table: None,
            kstack,
            image,
        }
    }
}

/// A slot is schedulable when it is InUse and not the idle process.
pub open spec fn schedulable(p: Process) -> bool {
    p.state is InUse && p.pid > 0
}

/// Well-formedness of slot `j`: the stack has its fixed size, and a
/// created (non-Unused) slot carries its own index as pid, a stack
/// pointer a full context frame below the stack top, and a well-formed
/// address space.
pub open spec fn slot_wf(p: Process, j: int) -> bool {
    &&& p.kstack@.len() == KSTACK_WORDS
    &&& !(p.state is Unused) ==> {
        &&& p.pid == j
        &&& p.sp + CTX_FRAME_WORDS <= KSTACK_WORDS
        &&& p.page_table is Some
        &&& pt_wf(p.page_table->Some_0@)
    }
}

/// The live callee-saved register window of the hart, together with the
/// stack pointer as a word index into the current process's kernel
/// stack.  The context switch is specified over this window; caller-
/// saved registers are already preserved by the compiler around the
/// call and play no part.
pub struct Registers {
    /// Return address register.
    pub ra: u64,
    /// Stack pointer: word index into the running process's kstack.
    pub sp: usize,
    /// Callee-saved registers s0..s11, in order.
    pub saved: Vec<u64>,
}

/// The register window is full-sized and the stack pointer leaves room
/// to push one context frame.
pub open spec fn regs_wf(r: Registers) -> bool {
    &&& r.saved@.len() == 12
    &&& CTX_FRAME_WORDS <= r.sp <= KSTACK_WORDS
}

/// Switch execution from the process in slot `prev` to the one in slot
/// `next`: push the live window onto `prev`'s stack ([ra, s0..s11]
/// downward from the stack pointer), park the decremented pointer in
/// `prev`'s slot, adopt `next`'s parked pointer and pop the same window
/// from `next`'s stack.  Execution then resumes wherever the restored
/// return address leads: inside `next`'s own earlier call of this
/// primitive, or in the entry trampoline a fresh process was seeded
/// with.
pub fn switch_context(procs: &mut Vec<Process>, prev: usize, next: usize, regs: &mut Registers)
    requires
        prev != next,
        prev < old(procs)@.len(),
        next < old(procs)@.len(),
        old(procs)@[prev as int].kstack@.len() == KSTACK_WORDS,
        old(procs)@[next as int].kstack@.len() == KSTACK_WORDS,
        old(procs)@[next as int].sp + CTX_FRAME_WORDS <= KSTACK_WORDS,
        regs_wf(*old(regs)),
    ensures
        final(procs)@.len() == old(procs)@.len(),
        final(procs)@[prev as int].kstack@.len() == KSTACK_WORDS,
        // the outgoing stack holds the parked frame and the parked pointer
        final(procs)@[prev as int].sp == old(regs).sp - CTX_FRAME_WORDS,
        final(procs)@[prev as int].kstack@[old(regs).sp - CTX_FRAME_WORDS] == old(regs).ra,
        forall|k: int|
            0 <= k < 12 ==> final(procs)@[prev as int].kstack@[old(regs).sp - CTX_FRAME_WORDS + 1
                + k] == old(regs).saved@[k],
        forall|w: int|
            0 <= w < KSTACK_WORDS && !(old(regs).sp - CTX_FRAME_WORDS <= w < old(regs).sp)
                ==> final(procs)@[prev as int].kstack@[w] == old(procs)@[prev as int].kstack@[w],
        final(procs)@[prev as int].pid == old(procs)@[prev as int].pid,
        final(procs)@[prev as int].state == old(procs)@[prev as int].state,
        final(procs)@[prev as int].page_table == old(procs)@[prev as int].page_table,
        final(procs)@[prev as int].image == old(procs)@[prev as int].image,
        // every other slot, the incoming one included, is untouched
        forall|j: int|
            0 <= j < old(procs)@.len() && j != prev ==> final(procs)@[j] == old(procs)@[j],
        // the incoming window is read back from the incoming stack
        final(regs).ra == old(procs)@[next as int].kstack@[old(procs)@[next as int].sp as int],
        forall|k: int|
            0 <= k < 12 ==> final(regs).saved@[k] == old(procs)@[next as int].kstack@[old(
                procs,
            )@[next as int].sp + 1 + k],
        final(regs).sp == old(procs)@[next as int].sp + CTX_FRAME_WORDS,
        regs_wf(*final(regs)),
{
    let sp_new = regs.sp - CTX_FRAME_WORDS;
    procs[prev].kstack[sp_new] = regs.ra;
    let mut k: usize = 0;
    while k < 12
        invariant
            k <= 12,
            prev < procs@.len(),
            procs@.len() == old(procs)@.len(),
            regs_wf(*regs),
            *regs == *old(regs),
            sp_new == old(regs).sp - CTX_FRAME_WORDS,
            procs@[prev as int].kstack@.len() == KSTACK_WORDS,
            procs@[prev as int].kstack@[sp_new as int] == old(regs).ra,
            forall|i: int|
                0 <= i < k ==> procs@[prev as int].kstack@[sp_new + 1 + i] == old(regs).saved@[i],
            forall|w: int|
                0 <= w < KSTACK_WORDS && !(sp_new <= w < sp_new + 1 + k)
                    ==> procs@[prev as int].kstack@[w] == old(procs)@[prev as int].kstack@[w],
            procs@[prev as int].pid == old(procs)@[prev as int].pid,
            procs@[prev as int].state == old(procs)@[prev as int].state,
            procs@[prev as int].sp == old(procs)@[prev as int].sp,
            procs@[prev as int].page_table == old(procs)@[prev as int].page_table,
            procs@[prev as int].image == old(procs)@[prev as int].image,
            forall|j: int|
                0 <= j < old(procs)@.len() && j != prev ==> procs@[j] == old(procs)@[j],
        decreases 12 - k,
    {
        procs[prev].kstack[sp_new + 1 + k] = regs.saved[k];
        k = k + 1;
    }
    procs[prev].sp = sp_new;
    let next_sp = procs[next].sp;
    regs.ra = procs[next].kstack[next_sp];
    let mut k2: usize = 0;
    while k2 < 12
        invariant
            k2 <= 12,
            next < procs@.len(),
            next_sp + CTX_FRAME_WORDS <= KSTACK_WORDS,
            procs@[next as int].kstack@.len() == KSTACK_WORDS,
            next_sp == procs@[next as int].sp,
            regs.saved@.len() == 12,
            regs.sp == old(regs).sp,
            regs.ra == procs@[next as int].kstack@[next_sp as int],
            forall|i: int|
                0 <= i < k2 ==> regs.saved@[i] == procs@[next as int].kstack@[next_sp + 1 + i],
        decreases 12 - k2,
    {
        let w = procs[next].kstack[next_sp + 1 + k2];
        regs.saved[k2] = w;
        k2 = k2 + 1;
    }
    regs.sp = next_sp + CTX_FRAME_WORDS;
}

/// The kernel context: the process table, the scheduler cursor and the
/// images of the privileged state the scheduler programs.  The boot
/// sequence builds one of these and threads it through every call; it
/// replaces ambient globals.
pub struct Kernel {
    /// The fixed-capacity process table.
    pub procs: Vec<Process>,
    /// Index of the currently executing process.
    pub current: usize,
    /// The physical allocator.
    pub palloc: BumpAlloc,
    /// Image of the address-space register: Sv39 mode bits over the
    /// current root frame's page number.
    pub satp: u64,
    /// Which process's kernel-stack top is programmed into the
    /// trap-entry scratch register (the concrete address is formed by
    /// the layer that owns the stacks' placement).
    pub trap_stack: usize,
    /// First byte of the kernel's own code/data range, mapped
    /// identically into every address space.
    pub kernel_base: u64,
    /// End of the kernel heap; also the end of the identity-mapped
    /// range.
    pub heap_end: u64,
}

/// The slot the scan settles on when it has rejected the first `i`
/// offsets past `cur`: the first schedulable slot at or after offset
/// `i`, the idle process (slot 0) if the whole table yields none.
pub open spec fn scan_from(procs: Seq<Process>, cur: int, i: int) -> int
    decreases PROC_MAX - i,
{
    if i < 0 || i >= PROC_MAX {
        0
    } else {
        let j = (cur + i + 1) % (PROC_MAX as int);
        if schedulable(procs[j]) {
            j
        } else {
            scan_from(procs, cur, i + 1)
        }
    }
}

/// The slot the scheduler hands control to next: starting one past
/// `cur` and wrapping, the first InUse slot other than idle; idle when
/// there is none.
pub open spec fn next_of(procs: Seq<Process>, cur: int) -> int {
    scan_from(procs, cur, 0)
}

/// The scan lands in range, and never on an unschedulable slot other
/// than idle.
pub proof fn lemma_scan_from_range(procs: Seq<Process>, cur: int, i: int)
    requires
        procs.len() == PROC_MAX,
        0 <= cur < PROC_MAX,
    ensures
        0 <= scan_from(procs, cur, i) < PROC_MAX,
        scan_from(procs, cur, i) == 0 || schedulable(procs[scan_from(procs, cur, i)]),
    decreases PROC_MAX - i,
{
    if 0 <= i < PROC_MAX {
        if !schedulable(procs[(cur + i + 1) % (PROC_MAX as int)]) {
            lemma_scan_from_range(procs, cur, i + 1);
        }
    }
}

/// Idempotent self-yield: when no schedulable process other than
/// possibly `cur` itself exists, the scan comes back to `cur` (so a
/// yield performs no switch), provided `cur` is itself InUse or the
/// idle slot.
pub proof fn lemma_self_yield(procs: Seq<Process>, cur: int)
    requires
        procs.len() == PROC_MAX,
        0 <= cur < PROC_MAX,
        forall|j: int| 0 <= j < PROC_MAX && j != cur ==> !schedulable(#[trigger] procs[j]),
        schedulable(procs[cur]) || cur == 0,
    ensures
        next_of(procs, cur) == cur,
{
    lemma_self_yield_rec(procs, cur, 0);
}

proof fn lemma_self_yield_rec(procs: Seq<Process>, cur: int, i: int)
    requires
        procs.len() == PROC_MAX,
        0 <= cur < PROC_MAX,
        0 <= i < PROC_MAX,
        forall|j: int| 0 <= j < PROC_MAX && j != cur ==> !schedulable(#[trigger] procs[j]),
        schedulable(procs[cur]) || cur == 0,
    ensures
        scan_from(procs, cur, i) == cur,
    decreases PROC_MAX - i,
{
    let j = (cur + i + 1) % (PROC_MAX as int);
    if j == cur {
        // Last offset of the scan: either cur is schedulable and found
        // here, or cur is the idle slot and the exhausted scan falls
        // back to it.
        assert(i == PROC_MAX - 1) by (nonlinear_arith)
            requires
                0 <= cur < PROC_MAX,
                0 <= i < PROC_MAX,
                (cur + i + 1) % (PROC_MAX as int) == cur,
        ;
        if schedulable(procs[cur]) {
            assert(scan_from(procs, cur, i) == j);
        } else {
            assert(scan_from(procs, cur, i) == scan_from(procs, cur, i + 1));
            assert(scan_from(procs, cur, i + 1) == 0);
        }
    } else {
        assert(!schedulable(procs[j]));
        assert(i != PROC_MAX - 1);
        lemma_self_yield_rec(procs, cur, i + 1);
    }
}

/// Scheduler-relevant profile: which slots are schedulable and what
/// the pids are.  Yields leave it untouched.
pub open spec fn same_profile(a: Seq<Process>, b: Seq<Process>) -> bool {
    &&& a.len() == b.len()
    &&& forall|j: int|
        0 <= j < a.len() ==> (#[trigger] a[j]).state == b[j].state && a[j].pid == b[j].pid
}

/// The scan only reads states and pids.
pub proof fn lemma_scan_profile(a: Seq<Process>, b: Seq<Process>, cur: int, i: int)
    requires
        same_profile(a, b),
        a.len() == PROC_MAX,
        0 <= cur < PROC_MAX,
    ensures
        scan_from(a, cur, i) == scan_from(b, cur, i),
    decreases PROC_MAX - i,
{
    if 0 <= i < PROC_MAX {
        let j = (cur + i + 1) % (PROC_MAX as int);
        assert(0 <= j < PROC_MAX);
        assert(schedulable(a[j]) == schedulable(b[j]));
        lemma_scan_profile(a, b, cur, i + 1);
    }
}

/// The first Unused slot at or after index `i`, if any.
pub open spec fn first_unused_from(procs: Seq<Process>, i: int) -> Option<int>
    decreases PROC_MAX - i,
{
    if i < 0 || i >= PROC_MAX {
        None
    } else if procs[i].state is Unused {
        Some(i)
    } else {
        first_unused_from(procs, i + 1)
    }
}

/// The slot `create_process` claims: the first Unused one.
pub open spec fn first_unused(procs: Seq<Process>) -> Option<int> {
    first_unused_from(procs, 0)
}

/// How many page-sized frames an image of `len` bytes occupies.
pub open spec fn pages_of(len: int) -> int {
    (len + 4095) / 4096
}

/// The virtual address of the `j`-th page of a process image.
pub open spec fn user_page_va(j: int) -> u64 {
    (USER_BASE + j * 4096) as u64
}

/// The user page addresses are page-aligned, below the kernel range,
/// and distinct for distinct page numbers.
pub proof fn lemma_user_va_props(j: int, bound: int)
    requires
        0 <= j < bound,
        USER_BASE + bound * 4096 <= 0x8000000000,
    ensures
        user_page_va(j) == USER_BASE + j * 4096,
        user_page_va(j) % 4096 == 0,
        user_page_va(j) < USER_BASE + bound * 4096,
{
    assert(USER_BASE + j * 4096 < USER_BASE + bound * 4096) by (nonlinear_arith)
        requires
            0 <= j < bound,
    ;
    assert((USER_BASE + j * 4096) % 4096 == 0) by (nonlinear_arith)
        requires
            j >= 0,
    ;
}

/// The kernel stack as creation seeds it: all zeros, except that the
/// word which the first context switch will restore into the return
/// address register holds the entry point.  The twelve zero words
/// above it land in s0..s11.
pub open spec fn seeded_kstack(pc: u64) -> Seq<u64> {
    Seq::new(
        KSTACK_WORDS as nat,
        |i: int|
            if i == KSTACK_WORDS - CTX_FRAME_WORDS {
                pc
            } else {
                0u64
            },
    )
}

/// Two distinct page-aligned addresses below the Sv39 limit differ in
/// at least one of their three table indices.
pub proof fn lemma_distinct_triples(a: u64, b: u64)
    by (bit_vector)
    requires
        a & 0xfff == 0,
        b & 0xfff == 0,
        a < 0x8000000000,
        b < 0x8000000000,
        a != b,
    ensures
        !(vpn2(a) == vpn2(b) && vpn1(a) == vpn1(b) && vpn0(a) == vpn0(b)),
{
}

/// One mapping leaves every other page-aligned Sv39 address's
/// translation unchanged.
pub proof fn lemma_map_preserves_other(v: PtView, va: u64, pa: u64, flags: u64, other: u64)
    requires
        pt_wf(v),
        pa % 4096 == 0,
        flags_ok(flags),
        va % 4096 == 0,
        other % 4096 == 0,
        va < 0x8000000000,
        other < 0x8000000000,
        other != va,
    ensures
        walk_va(map_spec(v, va, pa, flags), other) == walk_va(v, other),
{
    crate::paging::lemma_align_mask(va);
    crate::paging::lemma_align_mask(other);
    lemma_distinct_triples(va, other);
    crate::paging::lemma_vpn_bounds(va);
    crate::paging::lemma_vpn_bounds(other);
    crate::paging::lemma_map_frame(v, va, pa, flags);
}

/// The offset (0-based, starting one past `c`) at which the wrapping
/// scan from `c` meets slot `x`; `c` itself is met last, at offset
/// `PROC_MAX - 1`.
pub open spec fn cyc_dist(c: int, x: int) -> int {
    if x > c {
        x - c - 1
    } else {
        x - c - 1 + PROC_MAX
    }
}

/// The set of schedulable slots.
pub open spec fn sched_set(procs: Seq<Process>) -> Set<int> {
    Set::new(|j: int| 0 <= j < PROC_MAX && schedulable(procs[j]))
}

/// The schedulable slots the rotation that began at `start` has still
/// to visit once it stands at `c`.
pub open spec fn ahead_of(procs: Seq<Process>, start: int, c: int) -> Set<int> {
    Set::new(
        |s: int|
            0 <= s < PROC_MAX && schedulable(procs[s]) && cyc_dist(start, s) > cyc_dist(start, c),
    )
}

/// The slot the scheduler stands at after `k` consecutive yields from
/// `c` (each yield moving to `next_of` the one before).
pub open spec fn iterate(procs: Seq<Process>, c: int, k: int) -> int
    decreases k,
{
    if k <= 0 {
        c
    } else {
        next_of(procs, iterate(procs, c, k - 1))
    }
}

proof fn lemma_dist_slot(c: int, i: int)
    by (nonlinear_arith)
    requires
        0 <= c < PROC_MAX,
        0 <= i < PROC_MAX,
    ensures
        0 <= (c + i + 1) % (PROC_MAX as int) < PROC_MAX,
        cyc_dist(c, (c + i + 1) % (PROC_MAX as int)) == i,
{
}

proof fn lemma_dist_unique(c: int, x: int, y: int)
    requires
        0 <= c < PROC_MAX,
        0 <= x < PROC_MAX,
        0 <= y < PROC_MAX,
    ensures
        (cyc_dist(c, x) == cyc_dist(c, y)) <==> x == y,
        0 <= cyc_dist(c, x) < PROC_MAX,
        cyc_dist(c, c) == PROC_MAX - 1,
        x != c ==> cyc_dist(c, x) < PROC_MAX - 1,
{
}

/// The scan, once it has rejected every offset below `i`, settles on
/// the schedulable slot nearest in the rotation (or idle if there is
/// none at all).
proof fn lemma_scan_min(procs: Seq<Process>, c: int, i: int)
    requires
        procs.len() == PROC_MAX,
        0 <= c < PROC_MAX,
        0 <= i <= PROC_MAX,
        forall|s: int|
            0 <= s < PROC_MAX && schedulable(#[trigger] procs[s]) ==> cyc_dist(c, s) >= i,
    ensures
        (exists|s: int| 0 <= s < PROC_MAX && schedulable(#[trigger] procs[s])) ==> {
            let r = scan_from(procs, c, i);
            &&& 0 <= r < PROC_MAX
            &&& schedulable(procs[r])
            &&& forall|s: int|
                0 <= s < PROC_MAX && schedulable(#[trigger] procs[s]) ==> cyc_dist(c, r)
                    <= cyc_dist(c, s)
        },
        !(exists|s: int| 0 <= s < PROC_MAX && schedulable(#[trigger] procs[s])) ==> scan_from(
            procs,
            c,
            i,
        ) == 0,
    decreases PROC_MAX - i,
{
    if i == PROC_MAX {
        if exists|s: int| 0 <= s < PROC_MAX && schedulable(#[trigger] procs[s]) {
            let s = choose|s: int| 0 <= s < PROC_MAX && schedulable(#[trigger] procs[s]);
            assert(cyc_dist(c, s) < PROC_MAX);
            assert(false);
        }
    } else {
        let j = (c + i + 1) % (PROC_MAX as int);
        lemma_dist_slot(c, i);
        if schedulable(procs[j]) {
            assert(scan_from(procs, c, i) == j);
        } else {
            assert forall|s: int|
                0 <= s < PROC_MAX && schedulable(#[trigger] procs[s]) implies cyc_dist(c, s) >= i
                + 1 by {
                lemma_dist_unique(c, s, j);
            }
            lemma_scan_min(procs, c, i + 1);
        }
    }
}

/// The trajectory of yields from `c` visits, in scan order, exactly
/// the schedulable slots still ahead in the rotation that began at
/// `start`, and lands back on `start` when they are spent.
proof fn lemma_traj(procs: Seq<Process>, start: int, c: int)
    requires
        procs.len() == PROC_MAX,
        0 <= start < PROC_MAX,
        0 <= c < PROC_MAX,
        schedulable(procs[start]),
        schedulable(procs[c]),
    ensures
        ahead_of(procs, start, c).finite(),
        ahead_of(procs, start, c).len() <= PROC_MAX,
        iterate(procs, c, ahead_of(procs, start, c).len() as int) == start,
        forall|k: int|
            1 <= k <= ahead_of(procs, start, c).len() ==> ahead_of(procs, start, c).contains(
                #[trigger] iterate(procs, c, k),
            ),
        forall|s: int|
            ahead_of(procs, start, c).contains(s) ==> exists|k: int|
                1 <= k <= ahead_of(procs, start, c).len() && #[trigger] iterate(procs, c, k) == s,
        forall|k1: int, k2: int|
            1 <= k1 < k2 <= ahead_of(procs, start, c).len() ==> cyc_dist(
                start,
                #[trigger] iterate(procs, c, k1),
            ) < cyc_dist(start, #[trigger] iterate(procs, c, k2)),
    decreases PROC_MAX - 1 - cyc_dist(start, c),
{
    let ahead = ahead_of(procs, start, c);
    vstd::set_lib::lemma_int_range(0, PROC_MAX as int);
    vstd::set_lib::lemma_len_subset(ahead, vstd::set_lib::set_int_range(0, PROC_MAX as int));
    if c == start {
        assert(ahead =~= Set::<int>::empty());
        assert(ahead.len() == 0);
        assert(iterate(procs, c, 0) == start);
    } else {
        lemma_dist_unique(start, c, start);
        assert(cyc_dist(start, c) < PROC_MAX - 1);
        // The next choice exists, is schedulable and nearest in the
        // rotation from c.
        lemma_scan_min(procs, c, 0);
        let x = next_of(procs, c);
        assert(schedulable(procs[x]));
        // start is ahead of c, so the minimum cannot have wrapped past
        // it: x is ahead of c, with the smallest distance from start.
        assert(cyc_dist(c, start) == cyc_dist(start, start) - cyc_dist(start, c) - 1);
        if cyc_dist(start, x) <= cyc_dist(start, c) {
            if x == c {
                assert(cyc_dist(c, x) == PROC_MAX - 1);
                assert(cyc_dist(c, start) < PROC_MAX - 1);
                assert(false);
            } else {
                lemma_dist_unique(start, x, c);
                assert(cyc_dist(start, x) < cyc_dist(start, c));
                assert(cyc_dist(c, x) == cyc_dist(start, x) - cyc_dist(start, c) - 1 + PROC_MAX);
                assert(cyc_dist(c, x) > cyc_dist(c, start));
                assert(false);
            }
        }
        assert(ahead.contains(x));
        // x is the nearest-from-start element of ahead
        assert forall|s: int| ahead.contains(s) && s != x implies cyc_dist(start, x) < cyc_dist(
            start,
            s,
        ) by {
            assert(cyc_dist(c, s) == cyc_dist(start, s) - cyc_dist(start, c) - 1);
            assert(cyc_dist(c, x) <= cyc_dist(c, s));
            lemma_dist_unique(start, s, x);
        }
        // Stepping to x consumes exactly x from the ahead set.
        let ahead_x = ahead_of(procs, start, x);
        assert(ahead_x =~= ahead.remove(x)) by {
            assert forall|s: int| #[trigger]
                ahead_x.contains(s) implies ahead.remove(x).contains(s) by {
                assert(cyc_dist(start, s) > cyc_dist(start, x));
                assert(cyc_dist(start, s) > cyc_dist(start, c));
            }
            assert forall|s: int| #[trigger]
                ahead.remove(x).contains(s) implies ahead_x.contains(s) by {
                assert(cyc_dist(start, x) < cyc_dist(start, s));
            }
        }
        vstd::set::axiom_set_remove_len(ahead, x);
        assert(ahead.len() == ahead_x.len() + 1);
        assert(iterate(procs, c, 0) == c);
        assert(iterate(procs, c, 1) == x);
        lemma_traj(procs, start, x);
        let m = ahead_x.len() as int;
        // shift the recursive trajectory by one step
        lemma_iterate_shift(procs, c, m + 1);
        assert(iterate(procs, c, m + 1) == iterate(procs, x, m));
        assert forall|k: int| 1 <= k <= ahead.len() implies ahead.contains(
            #[trigger] iterate(procs, c, k),
        ) by {
            if k == 1 {
                assert(iterate(procs, c, 1) == x);
            } else {
                lemma_iterate_shift(procs, c, k);
                assert(iterate(procs, c, k) == iterate(procs, x, k - 1));
                assert(ahead_x.contains(iterate(procs, x, k - 1)));
            }
        }
        assert forall|s: int| ahead.contains(s) implies exists|k: int|
            1 <= k <= ahead.len() && #[trigger] iterate(procs, c, k) == s by {
            if s == x {
                assert(iterate(procs, c, 1) == x);
            } else {
                assert(ahead_x.contains(s));
                let k0 = choose|k0: int|
                    1 <= k0 <= ahead_x.len() && #[trigger] iterate(procs, x, k0) == s;
                lemma_iterate_shift(procs, c, k0 + 1);
                assert(iterate(procs, c, k0 + 1) == s);
            }
        }
        assert forall|k1: int, k2: int| 1 <= k1 < k2 <= ahead.len() implies cyc_dist(
            start,
            #[trigger] iterate(procs, c, k1),
        ) < cyc_dist(start, #[trigger] iterate(procs, c, k2)) by {
            lemma_iterate_shift(procs, c, k2);
            assert(ahead_x.contains(iterate(procs, x, k2 - 1)));
            if k1 == 1 {
                assert(iterate(procs, c, k1) == x);
            } else {
                lemma_iterate_shift(procs, c, k1);
            }
        }
    }
}

proof fn lemma_iterate_shift(procs: Seq<Process>, c: int, k: int)
    requires
        k >= 1,
    ensures
        iterate(procs, c, k) == iterate(procs, next_of(procs, c), k - 1),
    decreases k,
{
    if k == 1 {
        assert(iterate(procs, c, 0) == c);
    } else {
        lemma_iterate_shift(procs, c, k - 1);
    }
}

/// Round-robin fairness: with the table in any state, starting from a
/// schedulable process, the consecutive scheduler choices visit every
/// schedulable process exactly once — each appears at one step within
/// the first |S| yields, no step repeats a slot — and the |S|-th yield
/// is back at the start (S being the set of schedulable slots).
pub proof fn lemma_round_robin(procs: Seq<Process>, start: int)
    requires
        procs.len() == PROC_MAX,
        0 <= start < PROC_MAX,
        schedulable(procs[start]),
    ensures
        sched_set(procs).finite(),
        1 <= sched_set(procs).len() <= PROC_MAX,
        iterate(procs, start, sched_set(procs).len() as int) == start,
        forall|s: int|
            sched_set(procs).contains(s) ==> exists|k: int|
                1 <= k <= sched_set(procs).len() && #[trigger] iterate(procs, start, k) == s,
        forall|k1: int, k2: int|
            1 <= k1 < k2 <= sched_set(procs).len() ==> iterate(procs, start, k1) != iterate(
                procs,
                start,
                k2,
            ),
{
    let s_all = sched_set(procs);
    vstd::set_lib::lemma_int_range(0, PROC_MAX as int);
    vstd::set_lib::lemma_len_subset(s_all, vstd::set_lib::set_int_range(0, PROC_MAX as int));
    assert(s_all.contains(start));
    if s_all.len() == 0 {
        assert(s_all.remove(start).insert(start) =~= s_all);
        vstd::set::axiom_set_remove_len(s_all, start);
        assert(false);
    }
    if s_all.len() == 1 {
        // Only start is schedulable: the single yield comes straight
        // back (the self-yield case).
        assert forall|j: int|
            0 <= j < PROC_MAX && j != start implies !schedulable(#[trigger] procs[j]) by {
            if schedulable(procs[j]) {
                assert(s_all.contains(j));
                vstd::set_lib::lemma_len_subset(
                    Set::<int>::empty().insert(start).insert(j),
                    s_all,
                );
                assert(Set::<int>::empty().insert(start).insert(j).len() == 2);
                assert(false);
            }
        }
        lemma_self_yield(procs, start);
        assert(iterate(procs, start, 0) == start);
        assert(iterate(procs, start, 1) == start);
        assert forall|s: int| s_all.contains(s) implies exists|k: int|
            1 <= k <= s_all.len() && #[trigger] iterate(procs, start, k) == s by {
            if s != start {
                vstd::set_lib::lemma_len_subset(
                    Set::<int>::empty().insert(start).insert(s),
                    s_all,
                );
                assert(false);
            }
            assert(iterate(procs, start, 1) == s);
        }
    } else {
        // More than one schedulable slot: the first yield goes to the
        // nearest other one, and the trajectory lemma walks the rest
        // of the rotation.
        assert forall|s: int|
            0 <= s < PROC_MAX && schedulable(#[trigger] procs[s]) implies cyc_dist(start, s)
            >= 0 by {
            lemma_dist_unique(start, s, s);
        }
        lemma_scan_min(procs, start, 0);
        let x = next_of(procs, start);
        assert(schedulable(procs[x]));
        // x is not start: any other schedulable slot sits strictly
        // nearer than start's own wrap-around distance.
        if !(exists|s: int| s_all.contains(s) && s != start) {
            assert forall|s: int| #[trigger] s_all.contains(s) implies Set::<int>::empty().insert(
                start,
            ).contains(s) by {
                assert(s == start);
            }
            vstd::set_lib::lemma_len_subset(s_all, Set::<int>::empty().insert(start));
            assert(false);
        }
        let other = choose|s: int| s_all.contains(s) && s != start;
        lemma_dist_unique(start, other, start);
        assert(cyc_dist(start, other) < PROC_MAX - 1);
        assert(cyc_dist(start, x) <= cyc_dist(start, other));
        if x == start {
            lemma_dist_unique(start, x, x);
            assert(cyc_dist(start, x) == PROC_MAX - 1);
            assert(false);
        }
        // every schedulable slot other than x lies ahead of x
        let ahead_x = ahead_of(procs, start, x);
        assert(ahead_x =~= s_all.remove(x)) by {
            assert forall|s: int| #[trigger]
                s_all.contains(s) && s != x implies ahead_x.contains(s) by {
                lemma_dist_unique(start, s, x);
                assert(cyc_dist(start, x) <= cyc_dist(start, s));
            }
        }
        vstd::set::axiom_set_remove_len(s_all, x);
        assert(iterate(procs, start, 0) == start);
        assert(iterate(procs, start, 1) == x);
        lemma_traj(procs, start, x);
        let m = ahead_x.len() as int;
        assert(m == s_all.len() - 1);
        lemma_iterate_shift(procs, start, s_all.len() as int);
        assert(iterate(procs, start, s_all.len() as int) == iterate(procs, x, m) == start);
        assert forall|s: int| s_all.contains(s) implies exists|k: int|
            1 <= k <= s_all.len() && #[trigger] iterate(procs, start, k) == s by {
            if s == x {
                assert(iterate(procs, start, 1) == s);
            } else {
                assert(ahead_x.contains(s));
                let k0 = choose|k0: int|
                    1 <= k0 <= ahead_x.len() && #[trigger] iterate(procs, x, k0) == s;
                lemma_iterate_shift(procs, start, k0 + 1);
                assert(iterate(procs, start, k0 + 1) == s);
            }
        }
        assert forall|k1: int, k2: int| 1 <= k1 < k2 <= s_all.len() implies iterate(
            procs,
            start,
            k1,
        ) != iterate(procs, start, k2) by {
            lemma_iterate_shift(procs, start, k2);
            assert(iterate(procs, start, k2) == iterate(procs, x, k2 - 1));
            assert(ahead_x.contains(iterate(procs, x, k2 - 1)));
            if k1 == 1 {
                assert(iterate(procs, start, k1) == x);
                assert(!ahead_x.contains(x));
            } else {
                lemma_iterate_shift(procs, start, k1);
                assert(iterate(procs, start, k1) == iterate(procs, x, k1 - 1));
            }
        }
    }
}

/// Fields of the kernel context that process creation leaves alone
/// while it builds the new process (only the allocator and, at the
/// end, the claimed slot change).
pub open spec fn kernel_wf_frame(k: Kernel, k0: Kernel) -> bool {
    &&& k.procs == k0.procs
    &&& k.current == k0.current
    &&& k.satp == k0.satp
    &&& k.trap_stack == k0.trap_stack
    &&& k.kernel_base == k0.kernel_base
    &&& k.heap_end == k0.heap_end
}

/// Everything `yield_now` and `create_process` keep invariant about
/// the kernel context apart from the process slots and the scheduler
/// cursor.
pub open spec fn base_wf(k: Kernel) -> bool {
    &&& k.procs@.len() == PROC_MAX
    &&& k.current < PROC_MAX
    &&& forall|j: int| 0 <= j < PROC_MAX ==> slot_wf(#[trigger] k.procs@[j], j)
    &&& k.palloc.is_init()
    &&& k.kernel_base % 4096 == 0
    &&& k.heap_end % 4096 == 0
    &&& k.kernel_base <= k.heap_end
    &&& k.heap_end <= 0x8000000000
}

/// Full kernel invariant: on top of `base_wf`, the idle process exists
/// (slot 0 was created at boot) and the cursor points at a created
/// slot.
pub open spec fn kernel_wf(k: Kernel) -> bool {
    &&& base_wf(k)
    &&& !(k.procs@[0].state is Unused)
    &&& !(k.procs@[k.current as int].state is Unused)
}

impl Kernel {
    /// Boot a kernel context: an empty process table, the allocator
    /// initialised with the heap extent, and the idle process (pid 0)
    /// created as the scheduler's fallback, owning the kernel's own
    /// address space and marked current.
    pub fn new(kernel_base: u64, heap_start: u64, heap_end: u64) -> (r: Kernel)
        requires
            kernel_base % 4096 == 0,
            heap_end % 4096 == 0,
            kernel_base <= heap_end,
            heap_end <= 0x8000000000,
            USER_BASE <= kernel_base,
            fits(heap_start, heap_end, 4096, 4096),
        ensures
            kernel_wf(r),
            r.current == 0,
            r.trap_stack == 0,
            r.kernel_base == kernel_base,
            r.heap_end == heap_end,
            r.procs@[0].state == ProcessState::InUse,
            r.procs@[0].pid == 0,
            forall|j: int| 0 < j < PROC_MAX ==> (#[trigger] r.procs@[j]).state is Unused,
            r.palloc.is_init(),
            r.palloc.end() == heap_end,
    {
        let mut procs: Vec<Process> = Vec::new();
        let mut i: usize = 0;
        while i < PROC_MAX
            invariant
                i <= PROC_MAX,
                procs@.len() == i,
                forall|j: int|
                    0 <= j < i ==> (#[trigger] procs@[j]).state is Unused && procs@[j].kstack@.len()
                        == KSTACK_WORDS,
            decreases PROC_MAX - i,
        {
            procs.push(Process::default());
            i = i + 1;
        }
        let mut palloc = BumpAlloc::new();
        palloc.init(heap_start, heap_end);
        let mut k = Kernel {
            procs,
            current: 0,
            palloc,
            satp: 0,
            trap_stack: 0,
            kernel_base,
            heap_end,
        };
        let empty: Vec<u8> = Vec::new();
        proof {
            assert(k.procs@[0].state is Unused);
            assert(first_unused(k.procs@) == Some(0int));
        }
        let created = k.create_process(0, &empty);
        match created {
            Ok(_) => (),
            Err(_) => {
                proof {
                    assert(false);
                }
            },
        }
        k
    }

    /// Claim the first Unused slot and set a process up in it: seed its
    /// kernel stack so that the first switch into it "returns" to
    /// `entry_pc`, build a fresh address space with the kernel range
    /// mapped identically, copy the image into newly allocated frames a
    /// page at a time (the final page short if the image size is not
    /// page-aligned) and map them at the fixed user base, then fill the
    /// slot.  Fails with `MaxProcsUsed`, touching nothing, exactly when
    /// no slot is Unused.
    pub fn create_process(&mut self, entry_pc: u64, image: &Vec<u8>) -> (r: Result<
        usize,
        ProcessError,
    >)
        requires
            base_wf(*old(self)),
            USER_BASE + pages_of(image@.len() as int) * 4096 <= old(self).kernel_base,
            fits(
                old(self).palloc.next(),
                old(self).palloc.end(),
                ((1 + pages_of(image@.len() as int)) * 4096) as u64,
                4096,
            ),
        ensures
            base_wf(*final(self)),
            r is Ok <==> first_unused(old(self).procs@) is Some,
            r is Err ==> *final(self) == *old(self) && r == Err::<usize, ProcessError>(
                ProcessError::MaxProcsUsed,
            ),
            r is Ok ==> ({
                let slot = r->Ok_0 as int;
                let npages = pages_of(image@.len() as int);
                let base0 = round_up(old(self).palloc.next(), 4096);
                &&& Some(slot) == first_unused(old(self).procs@)
                &&& final(self).procs@[slot].pid == slot
                &&& final(self).procs@[slot].state == ProcessState::InUse
                &&& final(self).procs@[slot].sp == KSTACK_WORDS - CTX_FRAME_WORDS
                &&& final(self).procs@[slot].kstack@ == seeded_kstack(entry_pc)
                &&& final(self).procs@[slot].page_table is Some
                &&& pt_wf(final(self).procs@[slot].page_table->Some_0@)
                &&& final(self).procs@[slot].page_table->Some_0@.base == base0
                // the kernel's code/data range is visible identically
                &&& forall|a: u64|
                    old(self).kernel_base <= a < old(self).heap_end && a % 4096 == 0
                        ==> walk_va(final(self).procs@[slot].page_table->Some_0@, a) == Some(
                        entry_bits(a, PAGE_X | PAGE_R | PAGE_W | PAGE_V),
                    )
                // each image page is mapped at the user base, in order,
                // in the frames allocated right after the root
                &&& forall|j: int|
                    0 <= j < npages ==> walk_va(
                        final(self).procs@[slot].page_table->Some_0@,
                        #[trigger] user_page_va(j),
                    ) == Some(
                        entry_bits(
                            (base0 + (j + 1) * 4096) as u64,
                            PAGE_R | PAGE_W | PAGE_X | PAGE_U | PAGE_V,
                        ),
                    )
                // the image content, chunked a page at a time
                &&& final(self).procs@[slot].image@.len() == npages
                &&& forall|j: int|
                    0 <= j < npages ==> (#[trigger] final(self).procs@[slot].image@[j])@
                        == image@.subrange(
                        j * 4096,
                        if (j + 1) * 4096 <= image@.len() {
                            (j + 1) * 4096
                        } else {
                            image@.len() as int
                        },
                    )
                &&& forall|j: int|
                    0 <= j < PROC_MAX && j != slot ==> final(self).procs@[j] == old(self).procs@[j]
                &&& final(self).current == old(self).current
                &&& final(self).satp == old(self).satp
                &&& final(self).trap_stack == old(self).trap_stack
                &&& final(self).kernel_base == old(self).kernel_base
                &&& final(self).heap_end == old(self).heap_end
                &&& final(self).palloc.is_init()
                &&& final(self).palloc.end() == old(self).palloc.end()
                &&& final(self).palloc.next() == base0 + (1 + npages) * 4096
                &&& ((!(old(self).procs@[0].state is Unused) || slot == 0)
                    ==> !(final(self).procs@[0].state is Unused))
            }),
    {
        let ghost npages = pages_of(image@.len() as int);
        let ghost base0 = round_up(old(self).palloc.next(), 4096);
        // Find the first Unused slot; fail without touching anything if
        // the table is full.
        let mut slot: usize = 0;
        let mut found = false;
        while slot < PROC_MAX && !found
            invariant
                slot <= PROC_MAX,
                self.procs@.len() == PROC_MAX,
                *self == *old(self),
                !found ==> first_unused(old(self).procs@) == first_unused_from(
                    old(self).procs@,
                    slot as int,
                ),
                found ==> slot < PROC_MAX && first_unused(old(self).procs@) == Some(slot as int)
                    && old(self).procs@[slot as int].state is Unused,
            decreases PROC_MAX - slot + (if found {
                0int
            } else {
                1int
            }),
        {
            if self.procs[slot].state == ProcessState::Unused {
                found = true;
            } else {
                slot = slot + 1;
            }
        }
        if !found {
            return Err(ProcessError::MaxProcsUsed);
        }
        // Seed the kernel stack: a full context frame at the top, all
        // zero but for the return-address slot, which gets the entry
        // point.
        let mut kstack: Vec<u64> = vec![0u64; KSTACK_WORDS];
        let sp = KSTACK_WORDS - CTX_FRAME_WORDS;
        kstack[sp] = entry_pc;
        proof {
            assert(kstack@ =~= seeded_kstack(entry_pc));
        }
        // A fresh address space in a newly allocated root frame.
        proof {
            crate::palloc::lemma_round_up(old(self).palloc.next(), 4096);
        }
        let root = self.palloc.allocate_page();
        let mut pt = PageTable::new(root);
        // Map the kernel's own range identically, so traps and
        // allocator calls work whichever process is current.
        let kflags = PAGE_X | PAGE_R | PAGE_W;
        proof {
            assert(flags_ok(PAGE_X | PAGE_R | PAGE_W)) by (bit_vector);
            assert(flags_ok(PAGE_R | PAGE_W | PAGE_X | PAGE_U)) by (bit_vector);
        }
        let mut addr = self.kernel_base;
        while addr < self.heap_end
            invariant
                kernel_wf_frame(*self, *old(self)),
                base_wf(*old(self)),
                self.palloc.is_init(),
                self.palloc.end() == old(self).palloc.end(),
                self.palloc.next() == base0 + 4096,
                base0 % 4096 == 0,
                base0 + (1 + npages) * 4096 <= old(self).palloc.end(),
                npages == pages_of(image@.len() as int),
                USER_BASE + npages * 4096 <= self.kernel_base,
                self.kernel_base <= addr <= self.heap_end,
                addr % 4096 == 0,
                addr <= 0x8000000000,
                pt_wf(pt@),
                pt@.base == base0,
                root == base0,
                kflags == PAGE_X | PAGE_R | PAGE_W,
                flags_ok(kflags),
                forall|a: u64|
                    self.kernel_base <= a < addr && a % 4096 == 0 ==> walk_va(pt@, a) == Some(
                        entry_bits(a, PAGE_X | PAGE_R | PAGE_W | PAGE_V),
                    ),
            decreases self.heap_end - addr,
        {
            let ghost before = pt@;
            pt.map_page(VAddr(addr), PAddr(addr), kflags);
            proof {
                crate::paging::lemma_map_reaches(before, addr, addr, kflags);
                assert forall|a: u64| #[trigger]
                    (a % 4096) == 0 && a < 0x8000000000 && a != addr implies walk_va(pt@, a)
                    == walk_va(before, a) by {
                    lemma_map_preserves_other(before, addr, addr, kflags, a);
                }
            }
            addr = addr + 4096;
        }
        // Copy the image into fresh frames one page at a time and map
        // each at the fixed user base with user permissions.
        let uflags = PAGE_R | PAGE_W | PAGE_X | PAGE_U;
        let image_len = image.len();
        proof {
            assert(image@.len() <= npages * 4096) by (nonlinear_arith)
                requires
                    npages == (image@.len() as int + 4095) / 4096,
                    image@.len() >= 0,
            ;
        }
        let mut pages: Vec<Vec<u8>> = Vec::new();
        let mut offset: u64 = 0;
        while offset < image_len as u64
            invariant
                kernel_wf_frame(*self, *old(self)),
                base_wf(*old(self)),
                image_len == image@.len(),
                image@.len() <= npages * 4096,
                offset % 4096 == 0,
                offset == pages@.len() * 4096,
                pages@.len() <= npages,
                uflags == PAGE_R | PAGE_W | PAGE_X | PAGE_U,
                flags_ok(uflags),
                USER_BASE + npages * 4096 <= self.kernel_base,
                self.kernel_base <= 0x8000000000,
                npages == pages_of(image@.len() as int),
                self.palloc.is_init(),
                self.palloc.end() == old(self).palloc.end(),
                self.palloc.next() == base0 + (1 + pages@.len()) * 4096,
                base0 + (1 + npages) * 4096 <= old(self).palloc.end(),
                base0 % 4096 == 0,
                pt_wf(pt@),
                pt@.base == base0,
                forall|a: u64|
                    self.kernel_base <= a < self.heap_end && a % 4096 == 0 ==> walk_va(pt@, a)
                        == Some(entry_bits(a, PAGE_X | PAGE_R | PAGE_W | PAGE_V)),
                forall|j: int|
                    0 <= j < pages@.len() ==> walk_va(pt@, #[trigger] user_page_va(j)) == Some(
                        entry_bits((base0 + (j + 1) * 4096) as u64, PAGE_R | PAGE_W | PAGE_X
                            | PAGE_U | PAGE_V),
                    ),
                forall|j: int|
                    0 <= j < pages@.len() ==> (#[trigger] pages@[j])@ == image@.subrange(
                        j * 4096,
                        if (j + 1) * 4096 <= image@.len() {
                            (j + 1) * 4096
                        } else {
                            image@.len() as int
                        },
                    ),
            decreases image@.len() + 4096 - offset,
        {
            let ghost done = pages@.len() as int;
            proof {
                assert(done < npages) by (nonlinear_arith)
                    requires
                        offset < image@.len(),
                        offset == done * 4096,
                        npages == (image@.len() as int + 4095) / 4096,
                        done >= 0,
                ;
                crate::palloc::lemma_round_up(self.palloc.next(), 4096);
            }
            let frame = self.palloc.allocate_page();
            let rem = image_len as u64 - offset;
            let copy_size: usize = if 4096 <= rem {
                4096
            } else {
                rem as usize
            };
            let base_idx = offset as usize;
            proof {
                assert(base_idx as u64 == offset);
                assert(base_idx + copy_size <= image@.len());
            }
            let mut page: Vec<u8> = Vec::new();
            let mut k: usize = 0;
            while k < copy_size
                invariant
                    k <= copy_size,
                    image_len == image@.len(),
                    base_idx + copy_size <= image@.len(),
                    page@.len() == k,
                    forall|t: int| 0 <= t < k ==> page@[t] == image@[base_idx + t],
                decreases copy_size - k,
            {
                let b = image[base_idx + k];
                page.push(b);
                k = k + 1;
            }
            let ghost before = pt@;
            proof {
                assert(offset < npages * 4096) by (nonlinear_arith)
                    requires
                        offset == done * 4096,
                        done < npages,
                        done >= 0,
                ;
            }
            let uva = USER_BASE + offset;
            proof {
                assert(uva % 4096 == 0) by (nonlinear_arith)
                    requires
                        uva == USER_BASE + offset,
                        offset % 4096 == 0,
                        USER_BASE % 4096 == 0,
                        USER_BASE + offset <= 0x8000000000,
                ;
            }
            pt.map_page(VAddr(uva), PAddr(frame), uflags);
            proof {
                crate::paging::lemma_map_reaches(before, uva, frame, uflags);
                assert forall|a: u64| #[trigger]
                    (a % 4096) == 0 && a < 0x8000000000 && a != uva implies walk_va(pt@, a)
                    == walk_va(before, a) by {
                    lemma_map_preserves_other(before, uva, frame, uflags, a);
                }
                assert(uva < self.kernel_base) by {
                    lemma_user_va_props(done, npages);
                }
                assert(user_page_va(done) == uva) by {
                    lemma_user_va_props(done, npages);
                }
                assert forall|j: int| 0 <= j < done implies walk_va(
                    pt@,
                    #[trigger] user_page_va(j),
                ) == walk_va(before, user_page_va(j)) by {
                    lemma_user_va_props(j, npages);
                    lemma_user_va_props(done, npages);
                }
            }
            pages.push(page);
            offset = offset + 4096;
        }
        proof {
            assert(pages@.len() == npages) by (nonlinear_arith)
                requires
                    offset >= image@.len(),
                    offset == pages@.len() * 4096,
                    pages@.len() <= npages,
                    npages == (image@.len() as int + 4095) / 4096,
                    pages@.len() >= 0,
            ;
        }
        // Populate the claimed slot.
        self.procs[slot].pid = slot;
        self.procs[slot].state = ProcessState::InUse;
        self.procs[slot].sp = sp;
        self.procs[slot].kstack = kstack;
        self.procs[slot].page_table = Some(pt);
        self.procs[slot].image = pages;
        Ok(slot)
    }

    /// The slot the next yield will hand control to.
    pub fn pick_next(&self) -> (r: usize)
        requires
            kernel_wf(*self),
        ensures
            r as int == next_of(self.procs@, self.current as int),
            r < PROC_MAX,
            r == 0 || schedulable(self.procs@[r as int]),
    {
        proof {
            lemma_scan_from_range(self.procs@, self.current as int, 0);
        }
        let cur = self.current;
        let mut i: usize = 0;
        while i < PROC_MAX
            invariant
                i <= PROC_MAX,
                cur < PROC_MAX,
                cur == self.current,
                kernel_wf(*self),
                next_of(self.procs@, cur as int) == scan_from(self.procs@, cur as int, i as int),
            decreases PROC_MAX - i,
        {
            let idx = (cur + i + 1) % PROC_MAX;
            let p = &self.procs[idx];
            if p.state == ProcessState::InUse && p.pid > 0 {
                return idx;
            }
            i = i + 1;
        }
        0
    }

    /// Mark the current process Exited; it will never be selected
    /// again.  The trap layer calls this on the exit syscall and then
    /// yields.
    pub fn exit_current(&mut self)
        requires
            kernel_wf(*old(self)),
        ensures
            kernel_wf(*final(self)),
            final(self).procs@[old(self).current as int].state == ProcessState::Exited,
            final(self).procs@[old(self).current as int].pid == old(self).procs@[old(
                self,
            ).current as int].pid,
            final(self).procs@[old(self).current as int].sp == old(self).procs@[old(
                self,
            ).current as int].sp,
            final(self).procs@[old(self).current as int].kstack == old(self).procs@[old(
                self,
            ).current as int].kstack,
            final(self).procs@[old(self).current as int].page_table == old(self).procs@[old(
                self,
            ).current as int].page_table,
            final(self).procs@[old(self).current as int].image == old(self).procs@[old(
                self,
            ).current as int].image,
            forall|j: int|
                0 <= j < PROC_MAX && j != old(self).current ==> final(self).procs@[j] == old(
                    self,
                ).procs@[j],
            final(self).current == old(self).current,
            final(self).palloc == old(self).palloc,
            final(self).satp == old(self).satp,
            final(self).trap_stack == old(self).trap_stack,
            final(self).kernel_base == old(self).kernel_base,
            final(self).heap_end == old(self).heap_end,
    {
        let cur = self.current;
        self.procs[cur].state = ProcessState::Exited;
    }

    /// Cooperatively give up the hart.
    ///
    /// The scheduler scans for the next schedulable process (idle as
    /// the fallback).  If the choice is the current process itself,
    /// nothing at all happens — the kernel context and the live
    /// register window are left exactly as they were.  Otherwise the
    /// address-space register image is loaded with the next process's
    /// root, the trap-entry stack is pointed at the next process's
    /// stack top, the cursor moves, and the context switch parks the
    /// live window on the outgoing stack and restores the incoming
    /// one, resuming the next process exactly where it stopped.
    pub fn yield_now(&mut self, regs: &mut Registers)
        requires
            kernel_wf(*old(self)),
            regs_wf(*old(regs)),
        ensures
            kernel_wf(*final(self)),
            regs_wf(*final(regs)),
            same_profile(final(self).procs@, old(self).procs@),
            final(self).palloc == old(self).palloc,
            final(self).kernel_base == old(self).kernel_base,
            final(self).heap_end == old(self).heap_end,
            // no other schedulable process: complete no-op
            next_of(old(self).procs@, old(self).current as int) == old(self).current as int ==> {
                &&& *final(self) == *old(self)
                &&& *final(regs) == *old(regs)
            },
            // a switch: cursor, satp image and trap stack follow the choice
            next_of(old(self).procs@, old(self).current as int) != old(self).current as int ==> {
                let n = next_of(old(self).procs@, old(self).current as int);
                let prev = old(self).current as int;
                &&& final(self).current as int == n
                &&& final(self).satp == crate::paging::SATP_SV39_ENABLE | (old(
                    self,
                ).procs@[n].page_table->Some_0@.base / PAGE_SIZE)
                &&& final(self).trap_stack as int == n
                &&& final(self).procs@[prev].sp == old(regs).sp - CTX_FRAME_WORDS
                &&& final(self).procs@[prev].kstack@[old(regs).sp - CTX_FRAME_WORDS] == old(
                    regs,
                ).ra
                &&& forall|k: int|
                    0 <= k < 12 ==> final(self).procs@[prev].kstack@[old(regs).sp
                        - CTX_FRAME_WORDS + 1 + k] == old(regs).saved@[k]
                &&& forall|j: int|
                    0 <= j < PROC_MAX && j != prev ==> final(self).procs@[j] == old(self).procs@[j]
                &&& final(regs).ra == old(self).procs@[n].kstack@[old(self).procs@[n].sp as int]
                &&& forall|k: int|
                    0 <= k < 12 ==> final(regs).saved@[k] == old(self).procs@[n].kstack@[old(
                        self,
                    ).procs@[n].sp + 1 + k]
                &&& final(regs).sp == old(self).procs@[n].sp + CTX_FRAME_WORDS
            },
    {
        let next = self.pick_next();
        if next == self.current {
            // Nothing else to run (or only idle, and we are idle):
            // return without touching any state.
            return;
        }
        proof {
            assert(!(self.procs@[next as int].state is Unused));
        }
        let satp_val = match &self.procs[next].page_table {
            Some(pt) => pt.satp(),
            None => vstd::pervasive::unreached(),
        };
        self.satp = satp_val;
        self.trap_stack = next;
        let prev = self.current;
        self.current = next;
        switch_context(&mut self.procs, prev, next, regs);
    }
}

} // verus!
