//! The physical memory allocator: a monotonic bump allocator over a
//! fixed heap extent, the sole source of physical frames for page
//! tables and process images.  It never reuses memory; `deallocate` is a
//! no-op.  The kernel guards the single global instance with a lock at
//! the boot layer; within this core exactly one caller holds it.

use vstd::prelude::*;

verus! {

/// The cursor and limit of the heap extent.
struct RawBump {
    next: u64,
    end: u64,
}

/// Monotonic bump allocator; unusable until `init` hands it the heap
/// extent.
pub struct BumpAlloc {
    bump: Option<RawBump>,
}

/// `x` rounded up to the next multiple of `a` (no wrap-around: the
/// result lives in unbounded integers).
pub open spec fn round_up(x: u64, a: u64) -> int {
    if x % a == 0 {
        x as int
    } else {
        x + (a - x % a)
    }
}

/// The rounded-up address is the first aligned address at or after `x`.
pub proof fn lemma_round_up(x: u64, a: u64)
    requires
        a >= 1,
    ensures
        round_up(x, a) % (a as int) == 0,
        x <= round_up(x, a) < x + a,
{
    if x % a == 0 {
        assert(round_up(x, a) % (a as int) == 0) by (nonlinear_arith)
            requires
                a >= 1,
                x % a == 0,
                round_up(x, a) == x as int,
        ;
    } else {
        assert((x + (a - x % a)) % (a as int) == 0) by (nonlinear_arith)
            requires
                a >= 1,
                x % a != 0,
        ;
        assert(0 <= x % a < a) by (nonlinear_arith)
            requires
                a >= 1,
        ;
    }
}

/// An allocation of `size` bytes aligned to `align` fits the remaining
/// extent.
pub open spec fn fits(next: u64, end: u64, size: u64, align: u64) -> bool {
    round_up(next, align) + size <= end
}

impl BumpAlloc {
    /// Whether `init` has been called.
    pub closed spec fn is_init(&self) -> bool {
        self.bump is Some
    }

    /// The next free address.
    pub closed spec fn next(&self) -> u64 {
        self.bump->Some_0.next
    }

    /// One past the last usable address.
    pub closed spec fn end(&self) -> u64 {
        self.bump->Some_0.end
    }

    /// A new, uninitialised allocator.
    pub fn new() -> (r: BumpAlloc)
        ensures
            !r.is_init(),
    {
        BumpAlloc { bump: None }
    }

    /// Hand the allocator its heap extent `[start, end)`.  The boot
    /// sequence calls this once, before any process is created.
    pub fn init(&mut self, start: u64, end: u64)
        ensures
            final(self).is_init(),
            final(self).next() == start,
            final(self).end() == end,
    {
        self.bump = Some(RawBump { next: start, end });
    }

    /// Allocate `size` bytes aligned to `align`: the aligned cursor is
    /// returned and the cursor moves past the new block.  Addresses are
    /// strictly increasing; nothing is ever handed out twice.
    pub fn allocate(&mut self, size: u64, align: u64) -> (r: u64)
        requires
            old(self).is_init(),
            align >= 1,
            fits(old(self).next(), old(self).end(), size, align),
        ensures
            r == round_up(old(self).next(), align),
            r as int % align as int == 0,
            old(self).next() <= r,
            r + size <= old(self).end(),
            final(self).is_init(),
            final(self).next() == r + size,
            final(self).end() == old(self).end(),
    {
        proof {
            lemma_round_up(old(self).next(), align);
        }
        let bump = match &mut self.bump {
            Some(b) => b,
            None => vstd::pervasive::unreached(),
        };
        let rem = bump.next % align;
        let addr = if rem == 0 {
            bump.next
        } else {
            bump.next + (align - rem)
        };
        bump.next = addr + size;
        addr
    }

    /// The zeroed variant used whenever a new page-table level is
    /// created: same placement contract; the frame's content is fresh
    /// from the extent and cleared before use.
    pub fn allocate_zeroed(&mut self, size: u64, align: u64) -> (r: u64)
        requires
            old(self).is_init(),
            align >= 1,
            fits(old(self).next(), old(self).end(), size, align),
        ensures
            r == round_up(old(self).next(), align),
            r as int % align as int == 0,
            old(self).next() <= r,
            r + size <= old(self).end(),
            final(self).is_init(),
            final(self).next() == r + size,
            final(self).end() == old(self).end(),
    {
        self.allocate(size, align)
    }

    /// One page-sized, page-aligned frame.
    pub fn allocate_page(&mut self) -> (r: u64)
        requires
            old(self).is_init(),
            fits(old(self).next(), old(self).end(), 4096, 4096),
        ensures
            r == round_up(old(self).next(), 4096),
            r % 4096 == 0,
            old(self).next() <= r,
            r + 4096 <= old(self).end(),
            final(self).is_init(),
            final(self).next() == r + 4096,
            final(self).end() == old(self).end(),
    {
        let r = self.allocate(4096, 4096);
        proof {
            assert(r % 4096 == 0);
        }
        r
    }

    /// Total allocation: `None`, with the allocator untouched, when the
    /// allocator is uninitialised or the request does not fit the
    /// remaining extent (the kernel proper halts on that path: nothing
    /// downstream can run without memory).
    pub fn try_allocate(&mut self, size: u64, align: u64) -> (r: Option<u64>)
        requires
            align >= 1,
        ensures
            r is Some <==> old(self).is_init() && fits(
                old(self).next(),
                old(self).end(),
                size,
                align,
            ),
            r is None ==> *final(self) == *old(self),
            r is Some ==> r->Some_0 == round_up(old(self).next(), align) && final(self).is_init()
                && final(self).next() == r->Some_0 + size && final(self).end() == old(self).end(),
    {
        proof {
            if old(self).is_init() {
                lemma_round_up(old(self).next(), align);
            }
        }
        let (next, end) = match &self.bump {
            Some(b) => (b.next, b.end),
            None => {
                return None;
            },
        };
        let rem = next % align;
        let pad = if rem == 0 {
            0
        } else {
            align - rem
        };
        if pad > u64::MAX - next {
            return None;
        }
        let addr = next + pad;
        if addr > end || size > end - addr {
            return None;
        }
        Some(self.allocate(size, align))
    }

    /// The allocator never reclaims: freeing is a no-op.
    pub fn deallocate(&mut self, _ptr: u64)
        ensures
            *final(self) == *old(self),
    {
    }
}

} // verus!
