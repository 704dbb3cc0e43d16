//! Sv39 virtual paging.
//!
//! An Sv39 virtual address carries three 9-bit page-table indices
//! (VPN2, VPN1, VPN0, bits 38:30, 29:21 and 20:12) above a 12-bit page
//! offset.  A page-table entry packs a physical page number (shifted left
//! by 10) over ten low bits holding the flags.
//!
//! The three-level radix tree is kept as an arena of 512-entry tables: a
//! typed frame handle (the table's index at its level) stands for the
//! physical frame the table occupies, and a non-leaf entry stores that
//! handle as its physical page number, exactly as the hardware entry
//! stores the child table's frame number.

use vstd::prelude::*;

verus! {

/// Size and alignment of one page, in bytes.
pub const PAGE_SIZE: u64 = 4096;
/// Number of entries in one table level.
pub const PAGE_TABLE_SIZE: usize = 512;

/// "Valid" bit (entry is enabled).
pub const PAGE_V: u64 = 1;
/// Readable.
pub const PAGE_R: u64 = 2;
/// Writable.
pub const PAGE_W: u64 = 4;
/// Executable.
pub const PAGE_X: u64 = 8;
/// User (accessible in user mode).
pub const PAGE_U: u64 = 16;

/// Mode field of `satp` selecting Sv39 translation (8 << 60).
pub const SATP_SV39_ENABLE: u64 = 0x8000000000000000;

/// Index into the level-2 (root) table: bits 38:30.
pub open spec fn vpn2(va: u64) -> u64 {
    (va >> 30) & 0x1ff
}

/// Index into the level-1 table: bits 29:21.
pub open spec fn vpn1(va: u64) -> u64 {
    (va >> 21) & 0x1ff
}

/// Index into the level-0 table: bits 20:12.
pub open spec fn vpn0(va: u64) -> u64 {
    (va >> 12) & 0x1ff
}

/// Each virtual-page index selects one of the 512 slots of its level.
pub proof fn lemma_vpn_bounds(va: u64)
    by (bit_vector)
    ensures
        vpn2(va) < 512,
        vpn1(va) < 512,
        vpn0(va) < 512,
{
}

/// A single page-table entry word.
#[derive(Clone, Copy, PartialEq, Eq, Structural, Debug)]
pub struct Entry(pub u64);

/// Bit image of an entry built from a page-aligned address and flags.
pub open spec fn entry_bits(addr: u64, flags: u64) -> u64 {
    ((addr >> 12) << 10) | flags
}

/// The Valid bit of an entry word.
pub open spec fn entry_valid(e: u64) -> bool {
    e & PAGE_V == 1
}

/// The physical page number packed in an entry word.
pub open spec fn entry_ppn(e: u64) -> u64 {
    e >> 10
}

/// The physical address an entry translates to.
pub open spec fn entry_addr(e: u64) -> u64 {
    (e >> 10) << 12
}

/// The flag bits of an entry word.
pub open spec fn entry_flags(e: u64) -> u64 {
    e & 0x3ff
}

/// The entry word that points at the next-level table in frame `h`:
/// valid, with no permission bits, as a non-leaf entry must be.
pub open spec fn child_bits(h: u64) -> u64 {
    (h << 10) | 1
}

/// Packing a page-aligned address with in-range flags round-trips: the
/// address, page number and flags can all be read back from the word.
pub proof fn lemma_entry_roundtrip(addr: u64, flags: u64)
    by (bit_vector)
    requires
        addr & 0xfff == 0,
        flags < 1024,
    ensures
        entry_addr(entry_bits(addr, flags)) == addr,
        entry_ppn(entry_bits(addr, flags)) == addr >> 12,
        entry_flags(entry_bits(addr, flags)) == flags,
        entry_valid(entry_bits(addr, flags)) <==> flags & PAGE_V == 1,
{
}

/// A non-leaf entry built for frame handle `h` decodes back to `h`.
pub proof fn lemma_child_roundtrip(h: u64)
    by (bit_vector)
    requires
        h < 0x40000000000000,
    ensures
        entry_ppn(child_bits(h)) == h,
        entry_valid(child_bits(h)),
        child_bits(h) == ((child_bits(h) >> 10) << 10) | 1,
{
}

impl Entry {
    /// Pack a physical address and flag bits into one entry word.
    pub fn new(addr: u64, flags: u64) -> (r: Entry)
        ensures
            r.0 == entry_bits(addr, flags),
    {
        Entry(((addr >> 12) << 10) | flags)
    }
}

/// A page-aligned virtual address.
#[derive(Clone, Copy, PartialEq, Eq, Structural, Debug)]
pub struct VAddr(pub u64);

/// A page-aligned physical address.
#[derive(Clone, Copy, PartialEq, Eq, Structural, Debug)]
pub struct PAddr(pub u64);

/// Mathematical image of a page-table tree: the root table and the two
/// arenas of lower-level tables, each table a sequence of entry words.
#[verifier::ext_equal]
pub struct PtView {
    /// Physical address of the root table (what `satp` is built from).
    pub base: u64,
    /// The level-2 table.
    pub root: Seq<u64>,
    /// Level-1 tables, addressed by frame handle.
    pub mids: Seq<Seq<u64>>,
    /// Level-0 tables, addressed by frame handle.
    pub leaves: Seq<Seq<u64>>,
}

/// An all-invalid table, as a freshly zeroed frame holds.
pub open spec fn zero_table() -> Seq<u64> {
    Seq::new(512, |i: int| 0u64)
}

/// How many entries of one table have their Valid bit set.
pub open spec fn count_valid(s: Seq<u64>) -> nat
    decreases s.len(),
{
    if s.len() == 0 {
        0
    } else {
        count_valid(s.drop_last()) + if entry_valid(s.last()) {
            1nat
        } else {
            0nat
        }
    }
}

/// How many entries of a whole arena of tables are valid.
pub open spec fn total_valid(ts: Seq<Seq<u64>>) -> nat
    decreases ts.len(),
{
    if ts.len() == 0 {
        0
    } else {
        total_valid(ts.drop_last()) + count_valid(ts.last())
    }
}

/// `e` is a well-formed non-leaf entry into an arena of `n` tables.
pub open spec fn is_child_entry(e: u64, n: int) -> bool {
    &&& entry_ppn(e) < n
    &&& e == ((e >> 10) << 10) | 1
}

/// Well-formedness of a page-table tree: every table has 512 slots,
/// every valid non-leaf entry holds exactly the Valid bit plus a frame
/// handle inside its arena, no two non-leaf entries of one level share a
/// child, and the arenas hold exactly as many tables as there are valid
/// entries one level up (tables are allocated lazily, one per entry).
pub open spec fn pt_wf(v: PtView) -> bool {
    &&& v.base % 4096 == 0
    &&& v.root.len() == 512
    &&& forall|m: int| 0 <= m < v.mids.len() ==> (#[trigger] v.mids[m]).len() == 512
    &&& forall|l: int| 0 <= l < v.leaves.len() ==> (#[trigger] v.leaves[l]).len() == 512
    &&& forall|i: int|
        0 <= i < 512 && entry_valid(#[trigger] v.root[i]) ==> is_child_entry(
            v.root[i],
            v.mids.len() as int,
        )
    &&& forall|m: int, i: int|
        0 <= m < v.mids.len() && 0 <= i < 512 && entry_valid(#[trigger] v.mids[m][i])
            ==> is_child_entry(v.mids[m][i], v.leaves.len() as int)
    &&& forall|i: int, j: int|
        0 <= i < 512 && 0 <= j < 512 && i != j && entry_valid(#[trigger] v.root[i]) && entry_valid(
            #[trigger] v.root[j],
        ) ==> entry_ppn(v.root[i]) != entry_ppn(v.root[j])
    &&& forall|m: int, i: int, m2: int, i2: int|
        0 <= m < v.mids.len() && 0 <= i < 512 && 0 <= m2 < v.mids.len() && 0 <= i2 < 512 && (m != m2
            || i != i2) && entry_valid(#[trigger] v.mids[m][i]) && entry_valid(
            #[trigger] v.mids[m2][i2],
        ) ==> entry_ppn(v.mids[m][i]) != entry_ppn(v.mids[m2][i2])
    &&& v.mids.len() == count_valid(v.root)
    &&& v.leaves.len() == total_valid(v.mids)
}

/// The tree a freshly allocated, zeroed root frame describes.
pub open spec fn empty_pt(base: u64) -> PtView {
    PtView { base, root: zero_table(), mids: Seq::empty(), leaves: Seq::empty() }
}

/// The flag sets `map_page` accepts: permission bits only (they fit
/// under the page-number field) with at least one of R/W/X set, as a
/// terminal leaf entry requires.
pub open spec fn flags_ok(flags: u64) -> bool {
    &&& flags < 1024
    &&& flags & 14 != 0
}

/// Walk the three levels from the root along indices (i2, i1, i0); the
/// leaf entry word if every step is valid.
pub open spec fn walk_idx(v: PtView, i2: int, i1: int, i0: int) -> Option<u64> {
    if !entry_valid(v.root[i2]) {
        None
    } else {
        let m = entry_ppn(v.root[i2]) as int;
        if !entry_valid(v.mids[m][i1]) {
            None
        } else {
            let l = entry_ppn(v.mids[m][i1]) as int;
            if !entry_valid(v.leaves[l][i0]) {
                None
            } else {
                Some(v.leaves[l][i0])
            }
        }
    }
}

/// Walk the tree for a virtual address.
pub open spec fn walk_va(v: PtView, va: u64) -> Option<u64> {
    walk_idx(v, vpn2(va) as int, vpn1(va) as int, vpn0(va) as int)
}

/// Functional model of `map_page`: ensure a level-1 and a level-0 table
/// exist on the path (allocating a zeroed one lazily where an entry is
/// not yet valid), then install the leaf entry, overwriting any previous
/// translation.
pub open spec fn map_spec(v: PtView, va: u64, pa: u64, flags: u64) -> PtView {
    let i2 = vpn2(va) as int;
    let i1 = vpn1(va) as int;
    let i0 = vpn0(va) as int;
    let v1 = if !entry_valid(v.root[i2]) {
        PtView {
            root: v.root.update(i2, child_bits(v.mids.len() as u64)),
            mids: v.mids.push(zero_table()),
            ..v
        }
    } else {
        v
    };
    let m = entry_ppn(v1.root[i2]) as int;
    let v2 = if !entry_valid(v1.mids[m][i1]) {
        PtView {
            mids: v1.mids.update(m, v1.mids[m].update(i1, child_bits(v1.leaves.len() as u64))),
            leaves: v1.leaves.push(zero_table()),
            ..v1
        }
    } else {
        v1
    };
    let l = entry_ppn(v2.mids[m][i1]) as int;
    PtView {
        leaves: v2.leaves.update(l, v2.leaves[l].update(i0, entry_bits(pa, flags | PAGE_V))),
        ..v2
    }
}

/// A table allocated on the path, if any: how many level-1 tables the
/// mapping adds (0 or 1).
pub open spec fn new_mid_count(v: PtView, va: u64) -> int {
    if !entry_valid(v.root[vpn2(va) as int]) {
        1
    } else {
        0
    }
}

/// How many level-0 tables the mapping adds (0 or 1).
pub open spec fn new_leaf_count(v: PtView, va: u64) -> int {
    if !entry_valid(v.root[vpn2(va) as int]) {
        1
    } else {
        let m = entry_ppn(v.root[vpn2(va) as int]) as int;
        if !entry_valid(v.mids[m][vpn1(va) as int]) {
            1
        } else {
            0
        }
    }
}

proof fn lemma_count_valid_le(s: Seq<u64>)
    ensures
        count_valid(s) <= s.len(),
    decreases s.len(),
{
    if s.len() > 0 {
        lemma_count_valid_le(s.drop_last());
    }
}

proof fn lemma_count_valid_update(s: Seq<u64>, i: int, e: u64)
    requires
        0 <= i < s.len(),
    ensures
        count_valid(s.update(i, e)) == count_valid(s) + (if entry_valid(e) {
            1int
        } else {
            0int
        }) - (if entry_valid(s[i]) {
            1int
        } else {
            0int
        }),
    decreases s.len(),
{
    let t = s.update(i, e);
    if i == s.len() - 1 {
        assert(t.drop_last() =~= s.drop_last());
    } else {
        assert(t.drop_last() =~= s.drop_last().update(i, e));
        lemma_count_valid_update(s.drop_last(), i, e);
    }
}

proof fn lemma_count_valid_zero()
    ensures
        count_valid(zero_table()) == 0,
    decreases 512int,
{
    lemma_count_valid_zero_prefix(zero_table());
}

proof fn lemma_count_valid_zero_prefix(s: Seq<u64>)
    requires
        forall|i: int| 0 <= i < s.len() ==> s[i] == 0u64,
    ensures
        count_valid(s) == 0,
    decreases s.len(),
{
    if s.len() > 0 {
        lemma_count_valid_zero_prefix(s.drop_last());
        assert(s.last() == 0u64);
        assert(!entry_valid(0u64)) by (bit_vector);
    }
}

proof fn lemma_total_valid_push(ts: Seq<Seq<u64>>, t: Seq<u64>)
    ensures
        total_valid(ts.push(t)) == total_valid(ts) + count_valid(t),
{
    assert(ts.push(t).drop_last() =~= ts);
}

proof fn lemma_total_valid_update(ts: Seq<Seq<u64>>, m: int, t: Seq<u64>)
    requires
        0 <= m < ts.len(),
    ensures
        total_valid(ts.update(m, t)) == total_valid(ts) + count_valid(t) - count_valid(ts[m]),
    decreases ts.len(),
{
    let u = ts.update(m, t);
    if m == ts.len() - 1 {
        assert(u.drop_last() =~= ts.drop_last());
    } else {
        assert(u.drop_last() =~= ts.drop_last().update(m, t));
        lemma_total_valid_update(ts.drop_last(), m, t);
    }
}

/// Zero entry words are invalid: an untouched slot of a zeroed table
/// translates nothing.
pub proof fn lemma_zero_entry_invalid()
    by (bit_vector)
    ensures
        !entry_valid(0u64),
        entry_ppn(0u64) == 0,
{
}

/// A freshly allocated root frame is a well-formed (empty) tree.
pub proof fn lemma_empty_pt_wf(base: u64)
    requires
        base % 4096 == 0,
    ensures
        pt_wf(empty_pt(base)),
        forall|i2: int, i1: int, i0: int|
            0 <= i2 < 512 ==> walk_idx(empty_pt(base), i2, i1, i0) is None,
{
    lemma_count_valid_zero();
    assert(!entry_valid(0u64)) by (bit_vector);
}

/// Mapping keeps the tree well-formed.
pub proof fn lemma_map_wf(v: PtView, va: u64, pa: u64, flags: u64)
    requires
        pt_wf(v),
        pa % 4096 == 0,
        flags_ok(flags),
    ensures
        pt_wf(map_spec(v, va, pa, flags)),
        map_spec(v, va, pa, flags).base == v.base,
        map_spec(v, va, pa, flags).mids.len() == v.mids.len() + new_mid_count(v, va),
        map_spec(v, va, pa, flags).leaves.len() == v.leaves.len() + new_leaf_count(v, va),
{
    let i2 = vpn2(va) as int;
    let i1 = vpn1(va) as int;
    let i0 = vpn0(va) as int;
    lemma_vpn_bounds(va);
    lemma_count_valid_zero();
    lemma_count_valid_le(v.root);
    let v1 = if !entry_valid(v.root[i2]) {
        PtView {
            root: v.root.update(i2, child_bits(v.mids.len() as u64)),
            mids: v.mids.push(zero_table()),
            ..v
        }
    } else {
        v
    };
    if !entry_valid(v.root[i2]) {
        let h = v.mids.len() as u64;
        assert(h < 0x40000000000000) by {
            lemma_count_valid_le(v.root);
        }
        lemma_child_roundtrip(h);
        lemma_count_valid_update(v.root, i2, child_bits(h));
        lemma_total_valid_push(v.mids, zero_table());
    }
    assert(pt_wf(v1));
    assert(entry_valid(v1.root[i2]));
    let m = entry_ppn(v1.root[i2]) as int;
    assert(0 <= m < v1.mids.len());
    let v2 = if !entry_valid(v1.mids[m][i1]) {
        PtView {
            mids: v1.mids.update(m, v1.mids[m].update(i1, child_bits(v1.leaves.len() as u64))),
            leaves: v1.leaves.push(zero_table()),
            ..v1
        }
    } else {
        v1
    };
    if !entry_valid(v1.mids[m][i1]) {
        let h = v1.leaves.len() as u64;
        assert(total_valid(v1.mids) <= v1.mids.len() * 512) by {
            lemma_total_valid_le(v1.mids);
        }
        assert(h < 0x40000000000000);
        lemma_child_roundtrip(h);
        lemma_count_valid_update(v1.mids[m], i1, child_bits(h));
        lemma_total_valid_update(v1.mids, m, v1.mids[m].update(i1, child_bits(h)));
        lemma_total_valid_push(v1.leaves, zero_table());
        lemma_count_valid_zero();
    }
    assert(pt_wf(v2));
    assert(entry_valid(v2.mids[m][i1]));
    let l = entry_ppn(v2.mids[m][i1]) as int;
    assert(0 <= l < v2.leaves.len());
    let leaf = entry_bits(pa, flags | PAGE_V);
    let v3 = PtView {
        leaves: v2.leaves.update(l, v2.leaves[l].update(i0, leaf)),
        ..v2
    };
    assert(map_spec(v, va, pa, flags) == v3);
    assert(pt_wf(v3));
}

/// Alignment of an address as the hardware tests it: the low 12 bits.
pub proof fn lemma_align_mask(x: u64)
    by (bit_vector)
    ensures
        x % 4096 == 0 <==> x & 0xfff == 0,
{
}

proof fn lemma_flags_with_valid(flags: u64)
    by (bit_vector)
    requires
        flags < 1024,
    ensures
        flags | PAGE_V < 1024,
        (flags | PAGE_V) & PAGE_V == 1,
{
}

/// The intermediate state after ensuring the level-1 table on `va`'s path.
spec fn map_step1(v: PtView, va: u64) -> PtView {
    let i2 = vpn2(va) as int;
    if !entry_valid(v.root[i2]) {
        PtView {
            root: v.root.update(i2, child_bits(v.mids.len() as u64)),
            mids: v.mids.push(zero_table()),
            ..v
        }
    } else {
        v
    }
}

/// The intermediate state after also ensuring the level-0 table.
spec fn map_step2(v: PtView, va: u64) -> PtView {
    let i1 = vpn1(va) as int;
    let v1 = map_step1(v, va);
    let m = entry_ppn(v1.root[vpn2(va) as int]) as int;
    if !entry_valid(v1.mids[m][i1]) {
        PtView {
            mids: v1.mids.update(m, v1.mids[m].update(i1, child_bits(v1.leaves.len() as u64))),
            leaves: v1.leaves.push(zero_table()),
            ..v1
        }
    } else {
        v1
    }
}

proof fn lemma_map_steps_wf(v: PtView, va: u64)
    requires
        pt_wf(v),
    ensures
        pt_wf(map_step1(v, va)),
        pt_wf(map_step2(v, va)),
        entry_valid(map_step1(v, va).root[vpn2(va) as int]),
        map_step2(v, va).root == map_step1(v, va).root,
        entry_valid(
            map_step2(v, va).mids[entry_ppn(map_step1(v, va).root[vpn2(va) as int]) as int][vpn1(
                va,
            ) as int],
        ),
{
    let i2 = vpn2(va) as int;
    let i1 = vpn1(va) as int;
    lemma_vpn_bounds(va);
    lemma_count_valid_zero();
    lemma_count_valid_le(v.root);
    let v1 = map_step1(v, va);
    if !entry_valid(v.root[i2]) {
        let h = v.mids.len() as u64;
        lemma_child_roundtrip(h);
        lemma_count_valid_update(v.root, i2, child_bits(h));
        lemma_total_valid_push(v.mids, zero_table());
    }
    assert(pt_wf(v1));
    let m = entry_ppn(v1.root[i2]) as int;
    let v2 = map_step2(v, va);
    if !entry_valid(v1.mids[m][i1]) {
        let h = v1.leaves.len() as u64;
        lemma_total_valid_le(v1.mids);
        lemma_child_roundtrip(h);
        lemma_count_valid_update(v1.mids[m], i1, child_bits(h));
        lemma_total_valid_update(v1.mids, m, v1.mids[m].update(i1, child_bits(h)));
        lemma_total_valid_push(v1.leaves, zero_table());
    }
    assert(pt_wf(v2));
}

/// The mapped path is reached (this is the round trip): after the
/// mapping, the walk along `va`'s indices ends in a leaf entry whose
/// decoded physical address and flags are exactly the inputs.
pub proof fn lemma_map_reaches(v: PtView, va: u64, pa: u64, flags: u64)
    requires
        pt_wf(v),
        pa % 4096 == 0,
        flags_ok(flags),
    ensures
        walk_va(map_spec(v, va, pa, flags), va) == Some(entry_bits(pa, flags | PAGE_V)),
        entry_addr(entry_bits(pa, flags | PAGE_V)) == pa,
        entry_flags(entry_bits(pa, flags | PAGE_V)) == flags | PAGE_V,
        entry_valid(entry_bits(pa, flags | PAGE_V)),
{
    let i2 = vpn2(va) as int;
    let i1 = vpn1(va) as int;
    let i0 = vpn0(va) as int;
    lemma_vpn_bounds(va);
    lemma_map_steps_wf(v, va);
    let v1 = map_step1(v, va);
    let v2 = map_step2(v, va);
    let m = entry_ppn(v1.root[i2]) as int;
    let l = entry_ppn(v2.mids[m][i1]) as int;
    let w = map_spec(v, va, pa, flags);
    assert(w == (PtView {
        leaves: v2.leaves.update(l, v2.leaves[l].update(i0, entry_bits(pa, flags | PAGE_V))),
        ..v2
    }));
    assert(w.leaves[l][i0] == entry_bits(pa, flags | PAGE_V));
    lemma_flags_with_valid(flags);
    lemma_align_mask(pa);
    lemma_entry_roundtrip(pa, flags | PAGE_V);
}

/// Determinism of everything else: a mapping changes no walk along any
/// other index triple.
pub proof fn lemma_map_frame(v: PtView, va: u64, pa: u64, flags: u64)
    requires
        pt_wf(v),
        pa % 4096 == 0,
        flags_ok(flags),
    ensures
        forall|j2: int, j1: int, j0: int|
            0 <= j2 < 512 && 0 <= j1 < 512 && 0 <= j0 < 512 && !(j2 == vpn2(va) && j1 == vpn1(va)
                && j0 == vpn0(va)) ==> walk_idx(map_spec(v, va, pa, flags), j2, j1, j0) == walk_idx(
                v,
                j2,
                j1,
                j0,
            ),
{
    let w = map_spec(v, va, pa, flags);
    assert forall|j2: int, j1: int, j0: int|
        0 <= j2 < 512 && 0 <= j1 < 512 && 0 <= j0 < 512 && !(j2 == vpn2(va) && j1 == vpn1(va) && j0
            == vpn0(va)) implies walk_idx(w, j2, j1, j0) == walk_idx(v, j2, j1, j0) by {
        lemma_map_frame_point(v, va, pa, flags, j2, j1, j0);
    }
}

proof fn lemma_map_frame_point(v: PtView, va: u64, pa: u64, flags: u64, j2: int, j1: int, j0: int)
    requires
        pt_wf(v),
        pa % 4096 == 0,
        flags_ok(flags),
        0 <= j2 < 512,
        0 <= j1 < 512,
        0 <= j0 < 512,
        !(j2 == vpn2(va) && j1 == vpn1(va) && j0 == vpn0(va)),
    ensures
        walk_idx(map_spec(v, va, pa, flags), j2, j1, j0) == walk_idx(v, j2, j1, j0),
{
    let i2 = vpn2(va) as int;
    let i1 = vpn1(va) as int;
    let i0 = vpn0(va) as int;
    lemma_vpn_bounds(va);
    lemma_map_steps_wf(v, va);
    lemma_zero_entry_invalid();
    lemma_count_valid_le(v.root);
    lemma_child_roundtrip(v.mids.len() as u64);
    let v1 = map_step1(v, va);
    lemma_total_valid_le(v1.mids);
    lemma_child_roundtrip(v1.leaves.len() as u64);
    let v2 = map_step2(v, va);
    let m = entry_ppn(v1.root[i2]) as int;
    let l = entry_ppn(v2.mids[m][i1]) as int;
    let w = map_spec(v, va, pa, flags);
    assert(w == (PtView {
        leaves: v2.leaves.update(l, v2.leaves[l].update(i0, entry_bits(pa, flags | PAGE_V))),
        ..v2
    }));
    if j2 != i2 {
        assert(w.root[j2] == v.root[j2]);
        if entry_valid(v.root[j2]) {
            let m2 = entry_ppn(v.root[j2]) as int;
            // The path through j2 goes to a different level-1 table: the
            // entry at i2 either already pointed elsewhere or got a fresh
            // frame beyond every old handle.
            assert(m2 != m);
            assert(w.mids[m2] == v.mids[m2]);
            if entry_valid(v.mids[m2][j1]) {
                let l2 = entry_ppn(v.mids[m2][j1]) as int;
                assert(l2 != l);
                assert(w.leaves[l2] == v.leaves[l2]);
            }
        }
    } else {
        if !entry_valid(v.root[i2]) {
            // The whole subtree under i2 is new: the old walk found
            // nothing, and the new tables are zero everywhere off the
            // mapped path.
            assert(walk_idx(v, j2, j1, j0) is None);
            if j1 != i1 {
                assert(v2.mids[m][j1] == zero_table().update(i1, v2.mids[m][i1])[j1]);
                assert(!entry_valid(w.mids[m][j1]));
            } else {
                assert(w.leaves[l][j0] == 0u64);
            }
        } else {
            if j1 != i1 {
                assert(w.mids[m][j1] == v.mids[m][j1]);
                if entry_valid(v.mids[m][j1]) {
                    let l2 = entry_ppn(v.mids[m][j1]) as int;
                    assert(l2 != l);
                    assert(w.leaves[l2] == v.leaves[l2]);
                }
            } else {
                // Same level-0 table, different slot.
                if !entry_valid(v1.mids[m][i1]) {
                    assert(walk_idx(v, j2, j1, j0) is None);
                    assert(w.leaves[l][j0] == 0u64);
                } else {
                    assert(w.leaves[l][j0] == v.leaves[l][j0]);
                }
            }
        }
    }
}

/// Lazy table creation is idempotent: once a mapping has built the
/// level-1 and level-0 tables for a VPN2/VPN1 prefix, mapping any other
/// address with the same prefix allocates no further table.
pub proof fn lemma_lazy_tables(v: PtView, va1: u64, pa1: u64, f1: u64, va2: u64, pa2: u64, f2: u64)
    requires
        pt_wf(v),
        pa1 % 4096 == 0,
        pa2 % 4096 == 0,
        flags_ok(f1),
        flags_ok(f2),
        vpn2(va1) == vpn2(va2),
        vpn1(va1) == vpn1(va2),
    ensures
        map_spec(map_spec(v, va1, pa1, f1), va2, pa2, f2).mids.len() == map_spec(
            v,
            va1,
            pa1,
            f1,
        ).mids.len(),
        map_spec(map_spec(v, va1, pa1, f1), va2, pa2, f2).leaves.len() == map_spec(
            v,
            va1,
            pa1,
            f1,
        ).leaves.len(),
{
    let i2 = vpn2(va1) as int;
    let i1 = vpn1(va1) as int;
    lemma_vpn_bounds(va1);
    lemma_map_steps_wf(v, va1);
    lemma_map_wf(v, va1, pa1, f1);
    let v1 = map_step1(v, va1);
    let v2 = map_step2(v, va1);
    let m = entry_ppn(v1.root[i2]) as int;
    let w = map_spec(v, va1, pa1, f1);
    let l = entry_ppn(v2.mids[m][i1]) as int;
    assert(w == (PtView {
        leaves: v2.leaves.update(
            l,
            v2.leaves[l].update(vpn0(va1) as int, entry_bits(pa1, f1 | PAGE_V)),
        ),
        ..v2
    }));
    assert(entry_valid(w.root[i2]));
    assert(entry_ppn(w.root[i2]) as int == m);
    assert(entry_valid(w.mids[m][i1]));
    lemma_map_wf(w, va2, pa2, f2);
    assert(new_mid_count(w, va2) == 0);
    assert(new_leaf_count(w, va2) == 0);
}

proof fn lemma_total_valid_le(ts: Seq<Seq<u64>>)
    requires
        forall|m: int| 0 <= m < ts.len() ==> (#[trigger] ts[m]).len() == 512,
    ensures
        total_valid(ts) <= ts.len() * 512,
    decreases ts.len(),
{
    if ts.len() > 0 {
        lemma_total_valid_le(ts.drop_last());
        lemma_count_valid_le(ts.last());
        assert((ts.len() - 1) * 512 + 512 == ts.len() * 512) by (nonlinear_arith);
    }
}

proof fn lemma_valid_bit(e: u64)
    by (bit_vector)
    ensures
        e & PAGE_V == 0 <==> !entry_valid(e),
{
}

/// Rejection of an unaligned address handed to the mapper.
#[derive(Clone, Copy, PartialEq, Eq, Structural, Debug)]
pub enum MapError {
    /// The virtual address has a nonzero page offset.
    UnalignedVaddr,
    /// The physical address has a nonzero page offset.
    UnalignedPaddr,
}

/// A three-level Sv39 page-table tree.
///
/// `base` is the physical address of the root frame (handed out by the
/// physical allocator); the lower-level tables live in two arenas and
/// are referred to by frame handle, both in the entries and here.
pub struct PageTable {
    base: u64,
    root: Vec<u64>,
    mids: Vec<Vec<u64>>,
    leaves: Vec<Vec<u64>>,
}

impl View for PageTable {
    type V = PtView;

    closed spec fn view(&self) -> PtView {
        PtView {
            base: self.base,
            root: self.root@,
            mids: Seq::new(self.mids@.len() as nat, |i: int| self.mids@[i]@),
            leaves: Seq::new(self.leaves@.len() as nat, |i: int| self.leaves@[i]@),
        }
    }
}

/// One freshly zeroed 512-entry table.
fn zeroed_table() -> (r: Vec<u64>)
    ensures
        r@ == zero_table(),
{
    let r: Vec<u64> = vec![0u64; 512];
    proof {
        assert(r@ =~= zero_table());
    }
    r
}

impl PageTable {
    /// A new address space: one zeroed root table in the frame at `base`.
    pub fn new(base: u64) -> (r: PageTable)
        requires
            base % 4096 == 0,
        ensures
            r@ == empty_pt(base),
            pt_wf(r@),
    {
        let r = PageTable { base, root: zeroed_table(), mids: Vec::new(), leaves: Vec::new() };
        proof {
            assert(r@ =~~= empty_pt(base));
            lemma_empty_pt_wf(base);
        }
        r
    }

    /// The physical address of the root frame.
    pub fn base(&self) -> (r: u64)
        ensures
            r == self@.base,
    {
        self.base
    }

    /// The value to program into `satp` to activate this address space:
    /// the Sv39 mode bits over the root frame's page number.
    pub fn satp(&self) -> (r: u64)
        ensures
            r == SATP_SV39_ENABLE | (self@.base / PAGE_SIZE),
    {
        SATP_SV39_ENABLE | (self.base / PAGE_SIZE)
    }

    /// How many level-1 tables have been allocated so far.
    pub fn level1_tables(&self) -> (r: usize)
        ensures
            r == self@.mids.len(),
    {
        self.mids.len()
    }

    /// How many level-0 tables have been allocated so far.
    pub fn level0_tables(&self) -> (r: usize)
        ensures
            r == self@.leaves.len(),
    {
        self.leaves.len()
    }

    /// Install the translation `vaddr -> paddr` with the given permission
    /// flags, building missing intermediate tables lazily and silently
    /// overwriting any entry previously present at that address.
    pub fn map_page(&mut self, vaddr: VAddr, paddr: PAddr, flags: u64)
        requires
            pt_wf(old(self)@),
            vaddr.0 % 4096 == 0,
            paddr.0 % 4096 == 0,
            flags_ok(flags),
        ensures
            final(self)@ == map_spec(old(self)@, vaddr.0, paddr.0, flags),
            pt_wf(final(self)@),
            final(self)@.base == old(self)@.base,
            final(self)@.mids.len() == old(self)@.mids.len() + new_mid_count(old(self)@, vaddr.0),
            final(self)@.leaves.len() == old(self)@.leaves.len() + new_leaf_count(
                old(self)@,
                vaddr.0,
            ),
    {
        let va = vaddr.0;
        let pa = paddr.0;
        let ghost v0 = self@;
        proof {
            lemma_vpn_bounds(va);
            lemma_map_steps_wf(v0, va);
            lemma_map_wf(v0, va, pa, flags);
            lemma_count_valid_le(v0.root);
            lemma_child_roundtrip(v0.mids.len() as u64);
            lemma_total_valid_le(map_step1(v0, va).mids);
            lemma_child_roundtrip(map_step1(v0, va).leaves.len() as u64);
        }
        let i2 = ((va >> 30) & 0x1ff) as usize;
        let e2 = self.root[i2];
        proof {
            lemma_valid_bit(e2);
        }
        let m: usize;
        if e2 & PAGE_V == 0 {
            let h = self.mids.len();
            self.root[i2] = ((h as u64) << 10) | 1;
            self.mids.push(zeroed_table());
            m = h;
        } else {
            m = (e2 >> 10) as usize;
        }
        proof {
            assert(self@ =~~= map_step1(v0, va));
            assert(m as int == entry_ppn(map_step1(v0, va).root[vpn2(va) as int]) as int);
        }
        let i1 = ((va >> 21) & 0x1ff) as usize;
        let e1 = self.mids[m][i1];
        proof {
            lemma_valid_bit(e1);
        }
        let l: usize;
        if e1 & PAGE_V == 0 {
            let h = self.leaves.len();
            let row = &mut self.mids[m];
            row[i1] = ((h as u64) << 10) | 1;
            self.leaves.push(zeroed_table());
            l = h;
        } else {
            l = (e1 >> 10) as usize;
        }
        proof {
            assert(self@ =~~= map_step2(v0, va));
            assert(l as int == entry_ppn(
                map_step2(v0, va).mids[entry_ppn(map_step1(v0, va).root[vpn2(va) as int]) as int][vpn1(
                    va,
                ) as int],
            ) as int);
        }
        let leaf = Entry::new(pa, flags | PAGE_V);
        let row = &mut self.leaves[l];
        let i0 = ((va >> 12) & 0x1ff) as usize;
        row[i0] = leaf.0;
        proof {
            assert(self@ =~~= map_spec(v0, va, pa, flags));
        }
    }

    /// Check both alignments and map; an unaligned address is rejected
    /// without touching any table (the kernel proper treats that as a
    /// fatal caller error).
    pub fn try_map_page(&mut self, vaddr: VAddr, paddr: PAddr, flags: u64) -> (r: Result<
        (),
        MapError,
    >)
        requires
            pt_wf(old(self)@),
            flags_ok(flags),
        ensures
            r is Ok <==> vaddr.0 % 4096 == 0 && paddr.0 % 4096 == 0,
            vaddr.0 % 4096 != 0 ==> r == Err::<(), MapError>(MapError::UnalignedVaddr),
            vaddr.0 % 4096 == 0 && paddr.0 % 4096 != 0 ==> r == Err::<(), MapError>(
                MapError::UnalignedPaddr,
            ),
            r is Err ==> *final(self) == *old(self),
            r is Ok ==> final(self)@ == map_spec(old(self)@, vaddr.0, paddr.0, flags) && pt_wf(
                final(self)@,
            ),
    {
        if vaddr.0 % 4096 != 0 {
            return Err(MapError::UnalignedVaddr);
        }
        if paddr.0 % 4096 != 0 {
            return Err(MapError::UnalignedPaddr);
        }
        self.map_page(vaddr, paddr, flags);
        Ok(())
    }

    /// Walk the three levels for `vaddr`; the translated physical
    /// address and the flags of the leaf entry, if one is installed.
    pub fn lookup(&self, vaddr: VAddr) -> (r: Option<(u64, u64)>)
        requires
            pt_wf(self@),
        ensures
            (match walk_va(self@, vaddr.0) {
                Option::None => r is None,
                Option::Some(e) => r == Some((entry_addr(e), entry_flags(e))),
            }),
    {
        let va = vaddr.0;
        proof {
            lemma_vpn_bounds(va);
        }
        let i2 = ((va >> 30) & 0x1ff) as usize;
        let e2 = self.root[i2];
        proof {
            lemma_valid_bit(e2);
        }
        if e2 & PAGE_V == 0 {
            return None;
        }
        let n1 = self.mids.len();
        proof {
            assert(e2 == self@.root[vpn2(va) as int]);
            assert(entry_ppn(e2) < n1 as u64);
        }
        let m = (e2 >> 10) as usize;
        proof {
            assert(m as u64 == entry_ppn(e2));
        }
        let i1 = ((va >> 21) & 0x1ff) as usize;
        let e1 = self.mids[m][i1];
        proof {
            lemma_valid_bit(e1);
        }
        if e1 & PAGE_V == 0 {
            return None;
        }
        let n0 = self.leaves.len();
        proof {
            assert(e1 == self@.mids[m as int][vpn1(va) as int]);
            assert(entry_ppn(e1) < n0 as u64);
        }
        let l = (e1 >> 10) as usize;
        proof {
            assert(l as u64 == entry_ppn(e1));
        }
        let i0 = ((va >> 12) & 0x1ff) as usize;
        let e0 = self.leaves[l][i0];
        proof {
            lemma_valid_bit(e0);
        }
        if e0 & PAGE_V == 0 {
            return None;
        }
        Some(((e0 >> 10) << 12, e0 & 0x3ff))
    }
}

} // verus!
