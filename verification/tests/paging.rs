use jimos_core::paging::{Entry, MapError, PAddr, PageTable, VAddr, PAGE_R, PAGE_U, PAGE_V, PAGE_W, PAGE_X, SATP_SV39_ENABLE};

#[test]
fn entry_packs_address_and_flags() {
    let e = Entry::new(0x12345000, 0xF);
    assert_eq!(e.0, ((0x12345000u64 >> 12) << 10) | 0xF);
    assert_eq!(e.0, 0x048D_140F);
}

#[test]
fn entry_of_zero_is_flags_only() {
    let e = Entry::new(0, PAGE_V);
    assert_eq!(e.0, 1);
}

#[test]
fn map_then_lookup_round_trips() {
    // Page-table round trip: a mapping walks back to exactly the
    // physical page and flags that went in.
    let mut pt = PageTable::new(0x8020_0000);
    pt.map_page(VAddr(0x4000_0000), PAddr(0x8765_4000), PAGE_R | PAGE_W);
    let hit = pt.lookup(VAddr(0x4000_0000));
    assert_eq!(hit, Some((0x8765_4000, PAGE_R | PAGE_W | PAGE_V)));
}

#[test]
fn lookup_of_unmapped_address_is_none() {
    let mut pt = PageTable::new(0x8020_0000);
    assert_eq!(pt.lookup(VAddr(0x4000_0000)), None);
    pt.map_page(VAddr(0x4000_0000), PAddr(0x8765_4000), PAGE_R | PAGE_W);
    // a different VPN0 in the same tables is still unmapped
    assert_eq!(pt.lookup(VAddr(0x4000_1000)), None);
    // and so is a different VPN2
    assert_eq!(pt.lookup(VAddr(0x8000_0000)), None);
}

#[test]
fn remapping_overwrites_the_translation() {
    let mut pt = PageTable::new(0x8020_0000);
    pt.map_page(VAddr(0x4000_0000), PAddr(0x1111_1000), PAGE_R | PAGE_W);
    pt.map_page(VAddr(0x4000_0000), PAddr(0x2222_2000), PAGE_R | PAGE_X);
    assert_eq!(
        pt.lookup(VAddr(0x4000_0000)),
        Some((0x2222_2000, PAGE_R | PAGE_X | PAGE_V))
    );
}

#[test]
fn lazy_tables_are_shared_within_a_prefix() {
    // Two addresses sharing VPN2/VPN1 but differing in VPN0 allocate
    // exactly one level-1 and one level-0 table, not two.
    let mut pt = PageTable::new(0x8020_0000);
    pt.map_page(VAddr(0x4000_0000), PAddr(0x1000_0000), PAGE_R | PAGE_W);
    assert_eq!(pt.level1_tables(), 1);
    assert_eq!(pt.level0_tables(), 1);
    pt.map_page(VAddr(0x4000_1000), PAddr(0x1000_1000), PAGE_R | PAGE_W);
    assert_eq!(pt.level1_tables(), 1);
    assert_eq!(pt.level0_tables(), 1);
    // both translations live side by side
    assert_eq!(
        pt.lookup(VAddr(0x4000_0000)),
        Some((0x1000_0000, PAGE_R | PAGE_W | PAGE_V))
    );
    assert_eq!(
        pt.lookup(VAddr(0x4000_1000)),
        Some((0x1000_1000, PAGE_R | PAGE_W | PAGE_V))
    );
}

#[test]
fn distinct_prefixes_get_their_own_tables() {
    let mut pt = PageTable::new(0x8020_0000);
    pt.map_page(VAddr(0x4000_0000), PAddr(0x1000_0000), PAGE_R | PAGE_W);
    // a different VPN1 under the same VPN2 needs a new level-0 table
    pt.map_page(VAddr(0x4020_0000), PAddr(0x1000_1000), PAGE_R | PAGE_W);
    assert_eq!(pt.level1_tables(), 1);
    assert_eq!(pt.level0_tables(), 2);
    // a different VPN2 needs both levels afresh
    pt.map_page(VAddr(0x8000_0000), PAddr(0x1000_2000), PAGE_R | PAGE_W);
    assert_eq!(pt.level1_tables(), 2);
    assert_eq!(pt.level0_tables(), 3);
}

#[test]
fn unaligned_vaddr_is_rejected_without_mutation() {
    // Alignment rejection: a virtual address with a nonzero page
    // offset fails and no table changes.
    let mut pt = PageTable::new(0x8020_0000);
    let r = pt.try_map_page(VAddr(0x4000_0001), PAddr(0x1000_0000), PAGE_R | PAGE_W);
    assert_eq!(r, Err(MapError::UnalignedVaddr));
    assert_eq!(pt.level1_tables(), 0);
    assert_eq!(pt.level0_tables(), 0);
    assert_eq!(pt.lookup(VAddr(0x4000_0000)), None);
}

#[test]
fn unaligned_paddr_is_rejected_without_mutation() {
    let mut pt = PageTable::new(0x8020_0000);
    let r = pt.try_map_page(VAddr(0x4000_0000), PAddr(0x1000_0ABC), PAGE_R | PAGE_W);
    assert_eq!(r, Err(MapError::UnalignedPaddr));
    assert_eq!(pt.level1_tables(), 0);
    assert_eq!(pt.level0_tables(), 0);
    assert_eq!(pt.lookup(VAddr(0x4000_0000)), None);
}

#[test]
fn aligned_try_map_succeeds() {
    let mut pt = PageTable::new(0x8020_0000);
    let r = pt.try_map_page(VAddr(0x4000_0000), PAddr(0x1000_0000), PAGE_R | PAGE_W | PAGE_X | PAGE_U);
    assert_eq!(r, Ok(()));
    assert_eq!(
        pt.lookup(VAddr(0x4000_0000)),
        Some((0x1000_0000, PAGE_R | PAGE_W | PAGE_X | PAGE_U | PAGE_V))
    );
}

#[test]
fn satp_encodes_mode_and_root_frame() {
    let pt = PageTable::new(0x8020_0000);
    assert_eq!(pt.base(), 0x8020_0000);
    assert_eq!(pt.satp(), SATP_SV39_ENABLE | (0x8020_0000u64 / 4096));
}
