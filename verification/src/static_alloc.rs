//! Fixed-capacity storage utilities: a push-only arena and an indexed
//! free list, the building blocks for static allocation.

use vstd::prelude::*;

use crate::syscall::SysErr;

verus! {

/// Progress of a lazily initialised cell.
#[derive(Clone, Copy, PartialEq, Eq, Structural, Debug)]
pub enum InitStatus {
    Uninit,
    InProgress,
    Init,
}

/// A push-only arena of at most `cap` values.
pub struct Arena<T> {
    data: Vec<T>,
    cap: usize,
}

impl<T> Arena<T> {
    /// The stored values, oldest first.
    pub closed spec fn view(&self) -> Seq<T> {
        self.data@
    }

    /// The fixed capacity.
    pub closed spec fn capacity(&self) -> usize {
        self.cap
    }

    pub closed spec fn wf(&self) -> bool {
        self.data@.len() <= self.cap
    }

    /// An empty arena of the given capacity.
    pub fn new(cap: usize) -> (r: Arena<T>)
        ensures
            r.wf(),
            r.view() == Seq::<T>::empty(),
            r.capacity() == cap,
    {
        Arena { data: Vec::new(), cap }
    }

    /// Store one more value; out of memory exactly when the arena is
    /// at capacity.
    pub fn insert(&mut self, val: T) -> (r: Result<usize, SysErr>)
        requires
            old(self).wf(),
        ensures
            final(self).wf(),
            final(self).capacity() == old(self).capacity(),
            r is Ok <==> old(self).view().len() < old(self).capacity(),
            r is Err ==> r == Err::<usize, SysErr>(SysErr::OutOfMemory) && final(self).view()
                == old(self).view(),
            r is Ok ==> r->Ok_0 == old(self).view().len() && final(self).view() == old(
                self,
            ).view().push(val),
    {
        if self.data.len() >= self.cap {
            Err(SysErr::OutOfMemory)
        } else {
            let i = self.data.len();
            self.data.push(val);
            Ok(i)
        }
    }
}

/// A fixed-capacity pool threaded by an index-based free list: every
/// slot is either occupied or on the free list, and allocation pops
/// the list's head.
pub struct FreeList<T> {
    slots: Vec<Option<T>>,
    free: Vec<usize>,
}

impl<T> FreeList<T> {
    /// The slots as they stand.
    pub closed spec fn view(&self) -> Seq<Option<T>> {
        self.slots@
    }

    /// The free indices, next-to-allocate last.
    pub closed spec fn free_list(&self) -> Seq<usize> {
        self.free@
    }

    /// Free indices point at empty slots, without repetition.
    pub closed spec fn wf(&self) -> bool {
        &&& forall|k: int|
            0 <= k < self.free@.len() ==> (#[trigger] self.free@[k]) < self.slots@.len()
                && self.slots@[self.free@[k] as int] is None
        &&& forall|k1: int, k2: int|
            0 <= k1 < k2 < self.free@.len() ==> self.free@[k1] != self.free@[k2]
    }

    /// A pool of `n` empty slots, all free; lower indices are handed
    /// out first.
    pub fn new(n: usize) -> (r: FreeList<T>)
        ensures
            r.wf(),
            r.view().len() == n,
            forall|k: int| 0 <= k < n ==> r.view()[k] is None,
            r.free_list().len() == n,
    {
        let mut slots: Vec<Option<T>> = Vec::new();
        let mut free: Vec<usize> = Vec::new();
        let mut i: usize = 0;
        while i < n
            invariant
                i <= n,
                slots@.len() == i,
                free@.len() == i,
                forall|k: int| 0 <= k < i ==> slots@[k] is None,
                forall|k: int| 0 <= k < i ==> (#[trigger] free@[k]) == n - 1 - k,
            decreases n - i,
        {
            slots.push(None);
            free.push(n - 1 - i);
            i = i + 1;
        }
        FreeList { slots, free }
    }

    /// Take a slot off the free list and store `val` in it; out of
    /// memory exactly when no slot is free.
    pub fn allocate(&mut self, val: T) -> (r: Result<usize, SysErr>)
        requires
            old(self).wf(),
        ensures
            final(self).wf(),
            final(self).view().len() == old(self).view().len(),
            r is Err <==> old(self).free_list().len() == 0,
            r is Err ==> r == Err::<usize, SysErr>(SysErr::OutOfMemory) && *final(self) == *old(
                self,
            ),
            r is Ok ==> ({
                let i = r->Ok_0;
                &&& i < old(self).view().len()
                &&& old(self).view()[i as int] is None
                &&& i == old(self).free_list().last()
                &&& final(self).free_list() == old(self).free_list().drop_last()
                &&& final(self).view() == old(self).view().update(i as int, Some(val))
            }),
    {
        if self.free.len() == 0 {
            return Err(SysErr::OutOfMemory);
        }
        let i = match self.free.pop() {
            None => vstd::pervasive::unreached(),
            Some(i) => i,
        };
        self.slots[i] = Some(val);
        Ok(i)
    }

    /// Return a slot to the free list.
    pub fn free(&mut self, i: usize)
        requires
            old(self).wf(),
            i < old(self).view().len(),
            old(self).view()[i as int] is Some,
        ensures
            final(self).wf(),
            final(self).view() == old(self).view().update(i as int, Option::<T>::None),
            final(self).free_list() == old(self).free_list().push(i),
    {
        self.slots[i] = None;
        self.free.push(i);
        proof {
            assert forall|k1: int, k2: int|
                0 <= k1 < k2 < self.free@.len() implies self.free@[k1] != self.free@[k2] by {
                if k2 == self.free@.len() - 1 {
                    assert(old(self).view()[old(self).free_list()[k1] as int] is None);
                }
            }
        }
    }
}

} // verus!
