use arceos_tutorial::mmu::{
    enable_mmu, full_page_index_sv39, full_page_index_sv48, get_page_number, post_mmu, pre_mmu,
    to_page_table_entry, BootPageTables, PagingScheme, ReturnFrame, SatpMode, SatpSetting,
    BOOT_LEAF_FLAG, COUNT_PTE, KERNEL_BASE, PHYS_VIRT_OFFSET, POINTER_FLAG,
};

const LEAF: u64 = 0x2000_00ef;

fn tables() -> BootPageTables {
    BootPageTables::new(0x8021_0000, 0x8021_1000, 0x8021_2000)
}

/// Walks Sv39 root-level 1 GiB leaves the way the MMU does.
fn walk_sv39(root: &[u64; 512], va: u64) -> Option<u64> {
    let pte = root[((va >> 30) & 0x1ff) as usize];
    let ppn = (pte >> 10) & 0xfff_ffff_ffff;
    if pte & 1 == 1 && pte & 0xe != 0 && ppn % 0x40000 == 0 {
        Some((ppn << 12) + (va & 0x3fff_ffff))
    } else {
        None
    }
}

/// Walks Sv48 boot tables: a pointer entry at the root, a 1 GiB leaf below it.
fn walk_sv48(t: &BootPageTables, va: u64) -> Option<u64> {
    let e = t.root[((va >> 39) & 0x1ff) as usize];
    if e & 1 != 1 || e & 0xe != 0 {
        return None;
    }
    let next = (e >> 10) & 0xfff_ffff_ffff;
    let table = if next == t.low_addr >> 12 {
        &t.low
    } else if next == t.high_addr >> 12 {
        &t.high
    } else {
        return None;
    };
    walk_sv39(table, va)
}

#[test]
fn constants_have_their_documented_values() {
    assert_eq!(KERNEL_BASE, 0xffff_ffff_c000_0000);
    assert_eq!(PHYS_VIRT_OFFSET, 0xffff_ffc0_0000_0000);
    assert_eq!(COUNT_PTE, 512);
    assert_eq!(BOOT_LEAF_FLAG, 0xef);
    assert_eq!(POINTER_FLAG, 1);
}

#[test]
fn sv39_index_joins_the_three_indices() {
    assert_eq!(full_page_index_sv39(2, 0, 0), 0x80000);
    assert_eq!(full_page_index_sv39(1, 2, 3), 0x40403);
    assert_eq!(full_page_index_sv39(0x1ff, 0x1ff, 0x1ff), 0x7ff_ffff);
    let n = full_page_index_sv39(5, 7, 9);
    assert_eq!((n >> 18, (n >> 9) & 0x1ff, n & 0x1ff), (5, 7, 9));
}

#[test]
fn sv48_index_joins_the_four_indices() {
    assert_eq!(full_page_index_sv48(0, 2, 0, 0), 0x80000);
    assert_eq!(full_page_index_sv48(1, 1, 1, 1), 0x804_0201);
    assert_eq!(full_page_index_sv48(0x1ff, 0x102, 0, 0), 0xf_fc08_0000);
}

#[test]
fn entry_holds_page_and_flags() {
    assert_eq!(to_page_table_entry(0x80000, 0xef), LEAF);
    assert_eq!(to_page_table_entry(0x80000, 0xef), (0x80000 << 10) | 0xef);
    let pte = to_page_table_entry(0x8_1234_5678, 0x3ff);
    assert_eq!(pte >> 10, 0x8_1234_5678);
    assert_eq!(pte & 0x3ff, 0x3ff);
}

#[test]
fn page_number_drops_the_offset() {
    assert_eq!(get_page_number(0x8020_3000), 0x80203);
    assert_eq!(get_page_number(0x8020_3fff), 0x80203);
    assert_eq!(get_page_number(0xfff), 0);
}

#[test]
fn new_tables_are_empty() {
    let t = tables();
    assert!(t.root.iter().chain(t.low.iter()).chain(t.high.iter()).all(|e| *e == 0));
    assert_eq!((t.root_addr, t.low_addr, t.high_addr), (0x8021_0000, 0x8021_1000, 0x8021_2000));
}

#[test]
fn pre_mmu_sv39_writes_three_blocks() {
    let mut t = tables();
    pre_mmu(PagingScheme::Sv39, &mut t);
    for (i, e) in t.root.iter().enumerate() {
        let want = if i == 2 || i == 0x102 || i == 0x1ff { LEAF } else { 0 };
        assert_eq!(*e, want, "root entry {:#x}", i);
    }
    assert!(t.low.iter().chain(t.high.iter()).all(|e| *e == 0));
}

#[test]
fn pre_mmu_sv48_links_two_tables() {
    let mut t = tables();
    pre_mmu(PagingScheme::Sv48, &mut t);
    assert_eq!(t.root[0], 0x2008_4401);
    assert_eq!(t.root[0x1ff], 0x2008_4801);
    assert_eq!(t.root.iter().filter(|e| **e != 0).count(), 2);
    assert_eq!(t.low[2], LEAF);
    assert_eq!(t.low.iter().filter(|e| **e != 0).count(), 1);
    assert_eq!(t.high[0x102], LEAF);
    assert_eq!(t.high[0x1ff], LEAF);
    assert_eq!(t.high.iter().filter(|e| **e != 0).count(), 2);
}

#[test]
fn pre_mmu_disabled_writes_nothing() {
    let mut t = tables();
    t.root[7] = 42;
    pre_mmu(PagingScheme::Disabled, &mut t);
    assert_eq!(t.root[7], 42);
    assert_eq!(t.root.iter().filter(|e| **e != 0).count(), 1);
    assert!(t.low.iter().chain(t.high.iter()).all(|e| *e == 0));
}

#[test]
fn pre_mmu_keeps_other_entries() {
    let mut t = tables();
    t.root[3] = 0x55;
    t.root[2] = 0x66;
    pre_mmu(PagingScheme::Sv39, &mut t);
    assert_eq!(t.root[3], 0x55);
    assert_eq!(t.root[2], LEAF);
}

#[test]
fn enable_mmu_points_satp_at_the_root() {
    let t = tables();
    assert_eq!(
        enable_mmu(PagingScheme::Sv39, &t),
        Some(SatpSetting { mode: SatpMode::Sv39, asid: 0, ppn: 0x80210 })
    );
    assert_eq!(
        enable_mmu(PagingScheme::Sv48, &t),
        Some(SatpSetting { mode: SatpMode::Sv48, asid: 0, ppn: 0x80210 })
    );
    assert_eq!(enable_mmu(PagingScheme::Disabled, &t), None);
}

#[test]
fn post_mmu_moves_the_frame_to_the_high_half() {
    let frame = ReturnFrame { sp: 0x8020_8000, ra: 0x8020_0100 };
    let moved = post_mmu(PagingScheme::Sv39, frame);
    assert_eq!(moved, ReturnFrame { sp: 0xffff_ffc0_8020_8000, ra: 0xffff_ffc0_8020_0100 });
    assert_eq!(post_mmu(PagingScheme::Sv48, frame), moved);
    assert_eq!(post_mmu(PagingScheme::Disabled, frame), frame);
}

#[test]
fn post_mmu_wraps_like_the_machine() {
    let frame = ReturnFrame { sp: 0x50_0000_0000, ra: 0 };
    let moved = post_mmu(PagingScheme::Sv39, frame);
    assert_eq!(moved.sp, 0x10_0000_0000);
    assert_eq!(moved.ra, PHYS_VIRT_OFFSET);
}

#[test]
fn sv39_boot_block_is_reached_three_ways() {
    let mut t = tables();
    pre_mmu(PagingScheme::Sv39, &mut t);
    for pa in [0x8000_0000u64, 0x8020_0000, 0x8765_4321, 0xbfff_ffff] {
        assert_eq!(walk_sv39(&t.root, pa), Some(pa));
        assert_eq!(walk_sv39(&t.root, pa + PHYS_VIRT_OFFSET), Some(pa));
        assert_eq!(walk_sv39(&t.root, KERNEL_BASE + (pa - 0x8000_0000)), Some(pa));
    }
    assert_eq!(walk_sv39(&t.root, 0x4000_0000), None);
}

#[test]
fn sv48_boot_block_is_reached_three_ways() {
    let mut t = tables();
    pre_mmu(PagingScheme::Sv48, &mut t);
    for pa in [0x8000_0000u64, 0x8020_0000, 0x8765_4321, 0xbfff_ffff] {
        assert_eq!(walk_sv48(&t, pa), Some(pa));
        assert_eq!(walk_sv48(&t, pa + PHYS_VIRT_OFFSET), Some(pa));
        assert_eq!(walk_sv48(&t, KERNEL_BASE + (pa - 0x8000_0000)), Some(pa));
    }
    assert_eq!(walk_sv48(&t, 0xc000_0000), None);
}

#[test]
fn relocated_frame_still_reaches_the_same_memory() {
    let mut t = tables();
    pre_mmu(PagingScheme::Sv39, &mut t);
    let frame = ReturnFrame { sp: 0x8040_0000, ra: 0x8020_1234 };
    let moved = post_mmu(PagingScheme::Sv39, frame);
    assert_eq!(walk_sv39(&t.root, moved.sp), Some(frame.sp));
    assert_eq!(walk_sv39(&t.root, moved.ra), Some(frame.ra));
}
