use jimos_core::palloc::BumpAlloc;
use jimos_core::proc::{
    Kernel, ProcessError, ProcessState, Registers, CTX_FRAME_WORDS, KSTACK_WORDS, PROC_MAX,
    USER_BASE,
};
use jimos_core::paging::{VAddr, PAGE_R, PAGE_U, PAGE_V, PAGE_W, PAGE_X, SATP_SV39_ENABLE};

const KERNEL_BASE: u64 = 0x8000_0000;
const HEAP_START: u64 = 0x8000_0000;
const HEAP_END: u64 = 0x8010_0000;

fn boot() -> Kernel {
    // kernel_base == heap_end keeps the identity-mapped range empty,
    // which is all these scheduling tests need
    Kernel::new(HEAP_END, HEAP_START, HEAP_END)
}

fn live_regs() -> Registers {
    Registers { ra: 0xdead_0000, sp: KSTACK_WORDS, saved: vec![7u64; 12] }
}

#[test]
fn boot_creates_idle_as_current() {
    let k = boot();
    assert_eq!(k.current, 0);
    assert_eq!(k.procs.len(), PROC_MAX);
    assert_eq!(k.procs[0].pid, 0);
    assert_eq!(k.procs[0].state, ProcessState::InUse);
    for j in 1..PROC_MAX {
        assert_eq!(k.procs[j].state, ProcessState::Unused);
    }
}

#[test]
fn self_yield_changes_nothing() {
    // Idempotent self-yield: no other InUse process exists, so the
    // current pointer and the whole register window stay untouched.
    let mut k = boot();
    let mut regs = live_regs();
    k.yield_now(&mut regs);
    assert_eq!(k.current, 0);
    assert_eq!(regs.ra, 0xdead_0000);
    assert_eq!(regs.sp, KSTACK_WORDS);
    assert_eq!(regs.saved, vec![7u64; 12]);
}

#[test]
fn self_yield_with_one_running_process() {
    let mut k = boot();
    let pid = k.create_process(0x1111, &Vec::new()).unwrap();
    assert_eq!(pid, 1);
    k.current = 1;
    let mut regs = live_regs();
    k.yield_now(&mut regs);
    // no other schedulable process: still process 1, registers as they
    // were
    assert_eq!(k.current, 1);
    assert_eq!(regs.ra, 0xdead_0000);
    assert_eq!(regs.sp, KSTACK_WORDS);
}

#[test]
fn first_switch_restores_the_seeded_frame() {
    let mut k = boot();
    let pid = k.create_process(0x1111, &Vec::new()).unwrap();
    assert_eq!(pid, 1);
    let root = k.procs[1].page_table.as_ref().unwrap().base();
    let mut regs = live_regs();
    k.yield_now(&mut regs);
    assert_eq!(k.current, 1);
    // the restored window is the seeded one: entry point in ra, zeroed
    // callee-saved registers, stack pointer at the stack top
    assert_eq!(regs.ra, 0x1111);
    assert_eq!(regs.saved, vec![0u64; 12]);
    assert_eq!(regs.sp, KSTACK_WORDS);
    // the privileged-state images follow the switch
    assert_eq!(k.satp, SATP_SV39_ENABLE | (root / 4096));
    assert_eq!(k.trap_stack, 1);
    // the outgoing (idle) frame was parked on idle's stack
    assert_eq!(k.procs[0].sp, KSTACK_WORDS - CTX_FRAME_WORDS);
    assert_eq!(k.procs[0].kstack[KSTACK_WORDS - CTX_FRAME_WORDS], 0xdead_0000);
    for i in 0..12 {
        assert_eq!(k.procs[0].kstack[KSTACK_WORDS - CTX_FRAME_WORDS + 1 + i], 7);
    }
}

#[test]
fn round_robin_visits_each_process_once() {
    // Round-robin fairness: with processes 1, 2, 3 InUse, three
    // consecutive yields from 1 visit 2 and 3 exactly once and come
    // back to 1.
    let mut k = boot();
    assert_eq!(k.create_process(0x1111, &Vec::new()).unwrap(), 1);
    assert_eq!(k.create_process(0x2222, &Vec::new()).unwrap(), 2);
    assert_eq!(k.create_process(0x3333, &Vec::new()).unwrap(), 3);
    let mut regs = live_regs();
    // enter process 1 first
    k.yield_now(&mut regs);
    assert_eq!(k.current, 1);
    let mut visited = Vec::new();
    for _ in 0..3 {
        k.yield_now(&mut regs);
        visited.push(k.current);
    }
    assert_eq!(visited, vec![2, 3, 1]);
}

#[test]
fn scheduler_skips_exited_processes() {
    let mut k = boot();
    assert_eq!(k.create_process(0x1111, &Vec::new()).unwrap(), 1);
    assert_eq!(k.create_process(0x2222, &Vec::new()).unwrap(), 2);
    let mut regs = live_regs();
    k.yield_now(&mut regs);
    assert_eq!(k.current, 1);
    // process 1 exits; the next yield must pick 2, and once 2 exits
    // the scheduler falls back to idle
    k.exit_current();
    assert_eq!(k.procs[1].state, ProcessState::Exited);
    k.yield_now(&mut regs);
    assert_eq!(k.current, 2);
    k.exit_current();
    k.yield_now(&mut regs);
    assert_eq!(k.current, 0);
}

#[test]
fn creation_fills_the_table_then_fails() {
    // Process-creation exhaustion: after boot the idle process holds
    // slot 0; every further creation claims the next slot with an
    // increasing pid starting at 1, and the first creation past the
    // table's capacity reports exhaustion.
    let mut k = boot();
    for expect in 1..PROC_MAX {
        let pid = k.create_process(0x4000, &Vec::new()).unwrap();
        assert_eq!(pid, expect);
        assert_eq!(k.procs[pid].state, ProcessState::InUse);
    }
    let r = k.create_process(0x4000, &Vec::new());
    assert_eq!(r, Err(ProcessError::MaxProcsUsed));
}

#[test]
fn creation_seeds_stack_and_maps_image() {
    let mut k = Kernel::new(0x8000_0000, 0x8000_0000, 0x8000_4000);
    // a 5000-byte image: one full page and one short 904-byte copy
    let image: Vec<u8> = (0..5000u32).map(|i| (i % 251) as u8).collect();
    let pid = k.create_process(0x2000, &image).unwrap();
    assert_eq!(pid, 1);
    let p = &k.procs[1];
    assert_eq!(p.pid, 1);
    assert_eq!(p.state, ProcessState::InUse);
    assert_eq!(p.sp, KSTACK_WORDS - CTX_FRAME_WORDS);
    assert_eq!(p.kstack[p.sp], 0x2000);
    for w in p.sp + 1..KSTACK_WORDS {
        assert_eq!(p.kstack[w], 0);
    }
    // the image was copied page by page, the last page short
    assert_eq!(p.image.len(), 2);
    assert_eq!(p.image[0].len(), 4096);
    assert_eq!(p.image[1].len(), 904);
    assert_eq!(&p.image[0][..], &image[..4096]);
    assert_eq!(&p.image[1][..], &image[4096..]);
    // both pages are mapped at the user base with user permissions
    let pt = p.page_table.as_ref().unwrap();
    let uflags = PAGE_R | PAGE_W | PAGE_X | PAGE_U | PAGE_V;
    let f0 = pt.lookup(VAddr(USER_BASE)).unwrap();
    let f1 = pt.lookup(VAddr(USER_BASE + 4096)).unwrap();
    assert_eq!(f0.1, uflags);
    assert_eq!(f1.1, uflags);
    // frames come one after the other from the bump allocator, right
    // after the root table's frame
    assert_eq!(f1.0, f0.0 + 4096);
    assert_eq!(pt.lookup(VAddr(USER_BASE + 2 * 4096)), None);
}

#[test]
fn creation_maps_the_kernel_range_identically() {
    // a 4-page identity-mapped kernel range
    let mut k = Kernel::new(0x8000_4000, 0x8000_0000, 0x8000_8000);
    let pid = k.create_process(0x2000, &Vec::new()).unwrap();
    let pt = k.procs[pid].page_table.as_ref().unwrap();
    let kflags = PAGE_X | PAGE_R | PAGE_W | PAGE_V;
    for page in 0..4u64 {
        let va = 0x8000_4000 + page * 4096;
        assert_eq!(pt.lookup(VAddr(va)), Some((va, kflags)));
    }
    assert_eq!(pt.lookup(VAddr(0x8000_8000)), None);
}

#[test]
fn allocator_is_monotonic_and_aligned() {
    let mut a = BumpAlloc::new();
    a.init(0x1001, 0x10000);
    let first = a.allocate(16, 256);
    assert_eq!(first, 0x1100);
    let second = a.allocate(16, 256);
    assert_eq!(second, 0x1200);
    assert!(second > first);
    let page = a.allocate_page();
    assert_eq!(page % 4096, 0);
    assert!(page > second);
}

#[test]
fn allocator_exhaustion_returns_nothing() {
    // Allocator exhaustion: a request past the configured extent never
    // produces an address, and the allocator is untouched.
    let mut a = BumpAlloc::new();
    a.init(0x1000, 0x3000);
    assert_eq!(a.try_allocate(0x10000, 8), None);
    // the cursor did not move: a fitting request still starts at the
    // extent's base
    assert_eq!(a.try_allocate(0x800, 8), Some(0x1000));
    // exactly the remaining space still fits, one byte more does not
    assert_eq!(a.try_allocate(0x1801, 8), None);
    assert_eq!(a.try_allocate(0x1800, 8), Some(0x1800));
    assert_eq!(a.try_allocate(1, 1), None);
}

#[test]
fn allocator_uninitialised_returns_nothing() {
    let mut a = BumpAlloc::new();
    assert_eq!(a.try_allocate(8, 8), None);
}

#[test]
fn deallocate_is_a_no_op() {
    let mut a = BumpAlloc::new();
    a.init(0x1000, 0x3000);
    let first = a.allocate(8, 8);
    a.deallocate(first);
    // freed memory is never reused
    let second = a.allocate(8, 8);
    assert!(second > first);
}
