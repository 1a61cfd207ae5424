//! Boot page tables for RISC-V: the entries written before paging is turned
//! on, the `satp` setting that turns it on, and the relocation of the return
//! frame into the high half afterwards.

use vstd::prelude::*;

verus! {

/// Length in bits of the byte offset inside a page (4096 bytes per page).
pub const BITS_PAGE_OFFSET: usize = 12;

/// Length in bits of each level of page index (3 levels in Sv39, 4 in Sv48).
pub const BITS_PAGE_INDEX: usize = 9;

/// Length in bits of the flags field of a page table entry.
pub const BITS_PTE_FLAGS: usize = 10;

/// Length in bits of a page table entry.
pub const BITS_PTE: usize = 64;

/// Number of entries in one page of page table.
pub const COUNT_PTE: usize = 512;

/// Page number of the kernel base.
pub const KERNEL_BASE_PAGE: u64 = 0xf_ffff_fffc_0000;

/// Virtual address of the kernel base.
pub const KERNEL_BASE: u64 = KERNEL_BASE_PAGE << BITS_PAGE_OFFSET;

/// Page number of the offset between physical and virtual addresses.
pub const VIRTUAL_BASE_OFFSET_PAGE: u64 = 0xf_ffff_fc00_0000;

/// Offset that maps a physical address to its alias in the high half.
pub const PHYS_VIRT_OFFSET: u64 = VIRTUAL_BASE_OFFSET_PAGE << BITS_PAGE_OFFSET;

/// Flags of the boot leaf entries: Valid, Read, Write, eXecute, Global, Accessed, Dirty.
pub const BOOT_LEAF_FLAG: u64 = 0b1110_1111;

/// Flags of an entry that points at a next-level table: Valid only.
pub const POINTER_FLAG: u64 = 0b1;

/// `COUNT_PTE` 64-bit entries fill one 4 KiB page; `KERNEL_BASE` and `PHYS_VIRT_OFFSET`
/// written out in full.
pub proof fn lemma_constants()
    ensures
        COUNT_PTE as int == (1usize << BITS_PAGE_OFFSET) as int * 8 / BITS_PTE as int,
        KERNEL_BASE == 0xffff_ffff_c000_0000u64,
        PHYS_VIRT_OFFSET == 0xffff_ffc0_0000_0000u64,
{
    assert(0xf_ffff_fffc_0000u64 << 12usize == 0xffff_ffff_c000_0000u64) by (bit_vector);
    assert(0xf_ffff_fc00_0000u64 << 12usize == 0xffff_ffc0_0000_0000u64) by (bit_vector);
    assert(1usize << 12usize == 4096usize) by (bit_vector);
}

/// Flags of a page table entry: _ _ Dirty Accessed Global User eXecute Write Read Valid.
pub type Flag = u64;

/// A page table entry: physical page number above bit 10, flags below.
pub type PTE = u64;

/// A physical page number, or a virtual page number made of page indices.
pub type PageNumber = u64;

/// One page of page table.
pub type PageTable = [PTE; COUNT_PTE];

/// The page number whose Sv39 indices, from the root level down, are `i1`, `i2` and `i3`.
pub open spec fn sv39_page_number(i1: int, i2: int, i3: int) -> int {
    (i1 * 512 + i2) * 512 + i3
}

/// The page number whose Sv48 indices, from the root level down, are `i1` to `i4`.
pub open spec fn sv48_page_number(i1: int, i2: int, i3: int, i4: int) -> int {
    ((i1 * 512 + i2) * 512 + i3) * 512 + i4
}

/// Joins three Sv39 page indices into one page number.
pub fn full_page_index_sv39(i1: u64, i2: u64, i3: u64) -> (n: PageNumber)
    ensures
        n == (((i1 << BITS_PAGE_INDEX) | i2) << BITS_PAGE_INDEX) | i3,
        i1 < 0x4000_0000_0000 && i2 < 512 && i3 < 512 ==> n == sv39_page_number(
            i1 as int,
            i2 as int,
            i3 as int,
        ),
{
    let n = ((i1 << BITS_PAGE_INDEX) | i2) << BITS_PAGE_INDEX | i3;
    proof {
        if i1 < 0x4000_0000_0000 && i2 < 512 && i3 < 512 {
            assert(((((i1 << 9u64) | i2) << 9u64) | i3) == (i1 * 512 + i2) * 512 + i3)
                by (bit_vector)
                requires
                    i1 < 0x4000_0000_0000,
                    i2 < 512,
                    i3 < 512,
            ;
        }
    }
    n
}

/// Joins four Sv48 page indices into one page number.
pub fn full_page_index_sv48(i1: u64, i2: u64, i3: u64, i4: u64) -> (n: PageNumber)
    ensures
        n == (((((i1 << BITS_PAGE_INDEX) | i2) << BITS_PAGE_INDEX) | i3) << BITS_PAGE_INDEX) | i4,
        i1 < 0x20_0000_0000 && i2 < 512 && i3 < 512 && i4 < 512 ==> n == sv48_page_number(
            i1 as int,
            i2 as int,
            i3 as int,
            i4 as int,
        ),
{
    let n = (((i1 << BITS_PAGE_INDEX) | i2) << BITS_PAGE_INDEX | i3) << BITS_PAGE_INDEX | i4;
    proof {
        if i1 < 0x20_0000_0000 && i2 < 512 && i3 < 512 && i4 < 512 {
            assert(((((((i1 << 9u64) | i2) << 9u64) | i3) << 9u64) | i4) == ((i1 * 512 + i2)
                * 512 + i3) * 512 + i4) by (bit_vector)
                requires
                    i1 < 0x20_0000_0000,
                    i2 < 512,
                    i3 < 512,
                    i4 < 512,
            ;
        }
    }
    n
}

/// Builds the page table entry that holds `page` with the flags `flag`.
pub fn to_page_table_entry(page: PageNumber, flag: Flag) -> (pte: PTE)
    ensures
        pte == (page << BITS_PTE_FLAGS) | flag,
        page < 0x40_0000_0000_0000 && flag < 1024 ==> pte == page * 1024 + flag,
{
    let pte = page << BITS_PTE_FLAGS | flag;
    proof {
        if page < 0x40_0000_0000_0000 && flag < 1024 {
            assert(((page << 10u64) | flag) == page * 1024 + flag) by (bit_vector)
                requires
                    page < 0x40_0000_0000_0000,
                    flag < 1024,
            ;
        }
    }
    pte
}

/// The number of the page that holds the physical address `addr`.
pub fn get_page_number(addr: u64) -> (n: PageNumber)
    ensures
        n == addr >> BITS_PAGE_OFFSET,
        n == addr / 4096,
{
    let n = addr >> BITS_PAGE_OFFSET;
    assert(n == addr / 4096) by (bit_vector)
        requires
            n == addr >> 12u64,
    ;
    n
}

/// The leaf entry that maps the 1 GiB block at physical 0x8000_0000 with the boot flags.
pub open spec fn boot_leaf_entry() -> PTE {
    0x2000_00efu64
}

/// The entry that points at the next-level table stored at physical address `addr`.
pub open spec fn pointer_entry(addr: u64) -> PTE {
    ((addr >> BITS_PAGE_OFFSET) << BITS_PTE_FLAGS) | POINTER_FLAG
}

/// Which paging scheme is turned on at boot, or none.
#[derive(Clone, Copy, Debug, PartialEq, Eq, Structural)]
pub enum PagingScheme {
    /// Paging stays off: every step is a no-op.
    Disabled,
    /// Three-level paging with 39-bit virtual addresses.
    Sv39,
    /// Four-level paging with 48-bit virtual addresses.
    Sv48,
}

/// The boot page tables and the physical addresses they are stored at.
///
/// `root` is the table that `satp` points at. Under Sv48, `low` and `high` are the
/// second-level tables hung below root entries `0` and `0x1ff`; Sv39 uses `root` alone.
pub struct BootPageTables {
    pub root: PageTable,
    pub root_addr: u64,
    pub low: PageTable,
    pub low_addr: u64,
    pub high: PageTable,
    pub high_addr: u64,
}

impl BootPageTables {
    /// Empty (all-zero) tables stored at the given physical addresses.
    pub fn new(root_addr: u64, low_addr: u64, high_addr: u64) -> (t: Self)
        ensures
            t.root@ == Seq::new(512, |i: int| 0u64),
            t.low@ == Seq::new(512, |i: int| 0u64),
            t.high@ == Seq::new(512, |i: int| 0u64),
            t.root_addr == root_addr,
            t.low_addr == low_addr,
            t.high_addr == high_addr,
    {
        let t = BootPageTables {
            root: [0u64; 512],
            root_addr,
            low: [0u64; 512],
            low_addr,
            high: [0u64; 512],
            high_addr,
        };
        assert(t.root@ =~= Seq::new(512, |i: int| 0u64));
        assert(t.low@ =~= Seq::new(512, |i: int| 0u64));
        assert(t.high@ =~= Seq::new(512, |i: int| 0u64));
        t
    }
}

/// The Sv39 root table after the boot entries are written: the 1 GiB block at physical
/// 0x8000_0000 is mapped at its own address (index 2), at `PHYS_VIRT_OFFSET` above it
/// (index 0x102) and at `KERNEL_BASE` (index 0x1ff).
pub open spec fn sv39_boot_root(root: Seq<PTE>) -> Seq<PTE> {
    root.update(2, boot_leaf_entry()).update(0x102, boot_leaf_entry()).update(
        0x1ff,
        boot_leaf_entry(),
    )
}

/// The Sv48 root table after the boot entries are written: index 0 points at the low
/// table, index 0x1ff at the high table.
pub open spec fn sv48_boot_root(root: Seq<PTE>, low_addr: u64, high_addr: u64) -> Seq<PTE> {
    root.update(0, pointer_entry(low_addr)).update(0x1ff, pointer_entry(high_addr))
}

/// The Sv48 low table after the boot entries are written: the identity block (index 2).
pub open spec fn sv48_boot_low(low: Seq<PTE>) -> Seq<PTE> {
    low.update(2, boot_leaf_entry())
}

/// The Sv48 high table after the boot entries are written: the block at
/// `PHYS_VIRT_OFFSET` (index 0x102) and at `KERNEL_BASE` (index 0x1ff).
pub open spec fn sv48_boot_high(high: Seq<PTE>) -> Seq<PTE> {
    high.update(0x102, boot_leaf_entry()).update(0x1ff, boot_leaf_entry())
}

/// The leaf entry written by the three-level scheme.
fn boot_leaf_entry_sv39() -> (pte: PTE)
    ensures
        pte == boot_leaf_entry(),
{
    let page = full_page_index_sv39(2, 0, 0);
    let pte = page << BITS_PTE_FLAGS | BOOT_LEAF_FLAG;
    assert(((page << 10u64) | 0xefu64) == 0x2000_00efu64) by (bit_vector)
        requires
            page == 0x80000u64,
    ;
    pte
}

/// The leaf entry written by the four-level scheme.
fn boot_leaf_entry_sv48() -> (pte: PTE)
    ensures
        pte == boot_leaf_entry(),
{
    let page = full_page_index_sv48(0, 2, 0, 0);
    to_page_table_entry(page, BOOT_LEAF_FLAG)
}

/// Writes the boot entries of `scheme` into the tables, before paging is turned on.
///
/// Under Sv39 the root table maps the 1 GiB block at physical 0x8000_0000 three times:
/// at 0x8000_0000, at `PHYS_VIRT_OFFSET + 0x8000_0000` and at `KERNEL_BASE`. Sv48 builds
/// the same three mappings one level lower. With paging disabled nothing is written.
pub fn pre_mmu(scheme: PagingScheme, tables: &mut BootPageTables)
    ensures
        final(tables).root_addr == old(tables).root_addr,
        final(tables).low_addr == old(tables).low_addr,
        final(tables).high_addr == old(tables).high_addr,
        scheme == PagingScheme::Disabled ==> {
            &&& final(tables).root@ == old(tables).root@
            &&& final(tables).low@ == old(tables).low@
            &&& final(tables).high@ == old(tables).high@
        },
        scheme == PagingScheme::Sv39 ==> {
            &&& final(tables).root@ == sv39_boot_root(old(tables).root@)
            &&& final(tables).low@ == old(tables).low@
            &&& final(tables).high@ == old(tables).high@
        },
        scheme == PagingScheme::Sv48 ==> {
            &&& final(tables).root@ == sv48_boot_root(
                old(tables).root@,
                old(tables).low_addr,
                old(tables).high_addr,
            )
            &&& final(tables).low@ == sv48_boot_low(old(tables).low@)
            &&& final(tables).high@ == sv48_boot_high(old(tables).high@)
        },
        // Entry by entry: which entries change, and to what.
        scheme == PagingScheme::Sv39 ==> {
            &&& forall|i: int|
                0 <= i < 512 && i != 2 && i != 0x102 && i != 0x1ff ==> #[trigger] final(tables).root@[i] == old(tables).root@[i]
            &&& final(tables).root@[2] == 0x2000_00efu64
            &&& final(tables).root@[0x102] == 0x2000_00efu64
            &&& final(tables).root@[0x1ff] == 0x2000_00efu64
        },
        scheme == PagingScheme::Sv48 ==> {
            &&& forall|i: int|
                0 <= i < 512 && i != 0 && i != 0x1ff ==> #[trigger] final(tables).root@[i] == old(tables).root@[i]
            &&& final(tables).root@[0] == (((old(tables).low_addr >> 12u64) << 10u64) | 1u64)
            &&& final(tables).root@[0x1ff] == (((old(tables).high_addr >> 12u64) << 10u64) | 1u64)
            &&& forall|i: int|
                0 <= i < 512 && i != 2 ==> #[trigger] final(tables).low@[i] == old(tables).low@[i]
            &&& final(tables).low@[2] == 0x2000_00efu64
            &&& forall|i: int|
                0 <= i < 512 && i != 0x102 && i != 0x1ff ==> #[trigger] final(tables).high@[i]
                    == old(tables).high@[i]
            &&& final(tables).high@[0x102] == 0x2000_00efu64
            &&& final(tables).high@[0x1ff] == 0x2000_00efu64
        },
{
    match scheme {
        PagingScheme::Disabled => {},
        PagingScheme::Sv39 => {
            let pte = boot_leaf_entry_sv39();
            // 0x8000_0000..0xc000_0000, VRWX_GAD, 1G block
            tables.root[2] = pte;
            // PHYS_VIRT_OFFSET + 0x8000_0000: 0xffff_ffc0_8000_0000..0xffff_ffc0_c000_0000
            tables.root[0x102] = pte;
            // KERNEL_BASE: 0xffff_ffff_c000_0000..highest
            tables.root[0x1ff] = pte;
        },
        PagingScheme::Sv48 => {
            let pte = boot_leaf_entry_sv48();
            let low_page = get_page_number(tables.low_addr);
            let high_page = get_page_number(tables.high_addr);
            // 000000000
            tables.root[0x000] = to_page_table_entry(low_page, POINTER_FLAG);
            // 111111111
            tables.root[0x1ff] = to_page_table_entry(high_page, POINTER_FLAG);
            // 000000010
            tables.low[0x002] = pte;
            // PHYS_VIRT_OFFSET + 0x8000_0000
            tables.high[0x102] = pte;
            // KERNEL_BASE
            tables.high[0x1ff] = pte;
        },
    }
}

/// The translation mode written into the `satp` register.
#[derive(Clone, Copy, Debug, PartialEq, Eq, Structural)]
pub enum SatpMode {
    Sv39,
    Sv48,
}

/// What `satp` is set to: translation mode, address space id and root page number.
#[derive(Clone, Copy, Debug, PartialEq, Eq, Structural)]
pub struct SatpSetting {
    pub mode: SatpMode,
    pub asid: u64,
    pub ppn: PageNumber,
}

/// The `satp` setting that turns paging on with the root table of `tables`, or `None`
/// when paging is disabled and `satp` is left alone. The TLB is to be flushed after the
/// write.
pub fn enable_mmu(scheme: PagingScheme, tables: &BootPageTables) -> (setting: Option<SatpSetting>)
    ensures
        scheme == PagingScheme::Disabled ==> setting is None,
        scheme == PagingScheme::Sv39 ==> setting == Some(
            SatpSetting { mode: SatpMode::Sv39, asid: 0, ppn: tables.root_addr / 4096 },
        ),
        scheme == PagingScheme::Sv48 ==> setting == Some(
            SatpSetting { mode: SatpMode::Sv48, asid: 0, ppn: tables.root_addr / 4096 },
        ),
{
    match scheme {
        PagingScheme::Disabled => None,
        PagingScheme::Sv39 => Some(
            SatpSetting { mode: SatpMode::Sv39, asid: 0, ppn: get_page_number(tables.root_addr) },
        ),
        PagingScheme::Sv48 => Some(
            SatpSetting { mode: SatpMode::Sv48, asid: 0, ppn: get_page_number(tables.root_addr) },
        ),
    }
}

/// The stack pointer and return address of the function that turns paging on.
#[derive(Clone, Copy, Debug, PartialEq, Eq, Structural)]
pub struct ReturnFrame {
    pub sp: u64,
    pub ra: u64,
}

/// The alias of `addr` in the high half: `addr + PHYS_VIRT_OFFSET`, wrapping as the
/// machine's `add` does.
pub open spec fn relocate(addr: u64) -> u64 {
    ((addr + PHYS_VIRT_OFFSET) % 0x1_0000_0000_0000_0000int) as u64
}

/// The return frame after paging is on: the stack pointer and return address move to
/// their aliases at `PHYS_VIRT_OFFSET`, so execution goes on in the high half. With
/// paging disabled the frame is left as it is.
pub fn post_mmu(scheme: PagingScheme, frame: ReturnFrame) -> (moved: ReturnFrame)
    ensures
        scheme == PagingScheme::Disabled ==> moved == frame,
        scheme != PagingScheme::Disabled ==> moved == (ReturnFrame {
            sp: relocate(frame.sp),
            ra: relocate(frame.ra),
        }),
        scheme != PagingScheme::Disabled ==> {
            &&& moved.sp as int == (frame.sp as int + PHYS_VIRT_OFFSET as int)
                % 0x1_0000_0000_0000_0000int
            &&& moved.ra as int == (frame.ra as int + PHYS_VIRT_OFFSET as int)
                % 0x1_0000_0000_0000_0000int
        },
        // A frame in the boot block lands in the alias window, on the same memory.
        scheme != PagingScheme::Disabled && 0x8000_0000 <= frame.sp < 0xc000_0000
            ==> boot_window_target(moved.sp) == Some(frame.sp as int),
        scheme != PagingScheme::Disabled && 0x8000_0000 <= frame.ra < 0xc000_0000
            ==> boot_window_target(moved.ra) == Some(frame.ra as int),
{
    proof {
        lemma_constants();
    }
    match scheme {
        PagingScheme::Disabled => frame,
        _ => ReturnFrame {
            sp: frame.sp.wrapping_add(PHYS_VIRT_OFFSET),
            ra: frame.ra.wrapping_add(PHYS_VIRT_OFFSET),
        },
    }
}

/// The V bit of an entry.
pub open spec fn pte_valid(pte: PTE) -> bool {
    pte % 2 == 1
}

/// Whether an entry is a leaf: one of its R, W and X bits is set.
pub open spec fn pte_is_leaf(pte: PTE) -> bool {
    (pte / 2) % 8 != 0
}

/// The physical page number field of an entry (bits 10 to 53).
pub open spec fn pte_ppn(pte: PTE) -> int {
    (pte / 1024) as int % 0x1000_0000_0000
}

/// The flags field of an entry (bits 0 to 9).
pub open spec fn pte_flags(pte: PTE) -> int {
    pte as int % 1024
}

/// Where the 1 GiB block of a leaf entry sends `va`, or `None` when the entry is not a
/// valid leaf or its page number is not aligned to 1 GiB.
pub open spec fn block_target(pte: PTE, va: u64) -> Option<int> {
    if pte_valid(pte) && pte_is_leaf(pte) && pte_ppn(pte) % 0x40000 == 0 {
        Some(pte_ppn(pte) * 4096 + va as int % 0x4000_0000)
    } else {
        None
    }
}

/// Whether `va` is a well-formed Sv39 address: bits 63 to 39 copy bit 38.
pub open spec fn sv39_canonical(va: u64) -> bool {
    va < 0x40_0000_0000 || va >= 0xffff_ffc0_0000_0000
}

/// Whether `va` is a well-formed Sv48 address: bits 63 to 48 copy bit 47.
pub open spec fn sv48_canonical(va: u64) -> bool {
    va < 0x8000_0000_0000 || va >= 0xffff_8000_0000_0000
}

/// Where an Sv39 root table sends `va` through a root-level (1 GiB) leaf; `None` where
/// no such leaf maps it.
pub open spec fn sv39_translate(root: Seq<PTE>, va: u64) -> Option<int> {
    if sv39_canonical(va) {
        block_target(root[(va / 0x4000_0000) as int % 512], va)
    } else {
        None
    }
}

/// Where Sv48 boot tables send `va`: the root entry must point at the low or the high
/// table, whose entry must be a 1 GiB leaf; `None` otherwise.
pub open spec fn sv48_translate(
    root: Seq<PTE>,
    low: Seq<PTE>,
    low_addr: u64,
    high: Seq<PTE>,
    high_addr: u64,
    va: u64,
) -> Option<int> {
    if !sv48_canonical(va) {
        None
    } else {
        let e = root[(va / 0x80_0000_0000) as int % 512];
        let idx = (va / 0x4000_0000) as int % 512;
        if !pte_valid(e) || pte_is_leaf(e) {
            None
        } else if pte_ppn(e) == low_addr / 4096 {
            block_target(low[idx], va)
        } else if pte_ppn(e) == high_addr / 4096 {
            block_target(high[idx], va)
        } else {
            None
        }
    }
}

/// An entry built from a page number below 2^44 and flags below 2^10 gives both back.
pub proof fn lemma_entry_fields(page: PageNumber, flag: Flag)
    requires
        page < 0x1000_0000_0000,
        flag < 1024,
    ensures
        pte_ppn((page << BITS_PTE_FLAGS) | flag) == page,
        pte_flags((page << BITS_PTE_FLAGS) | flag) == flag,
{
    let pte = (page << 10u64) | flag;
    assert(pte == page * 1024 + flag) by (bit_vector)
        requires
            page < 0x1000_0000_0000,
            flag < 1024,
            pte == (page << 10u64) | flag,
    ;
}

/// The Sv39 page indices below 512 are read back from the page number they make.
pub proof fn lemma_sv39_indices(i1: int, i2: int, i3: int)
    requires
        0 <= i1 < 512,
        0 <= i2 < 512,
        0 <= i3 < 512,
    ensures
        sv39_page_number(i1, i2, i3) / 0x40000 == i1,
        (sv39_page_number(i1, i2, i3) / 512) % 512 == i2,
        sv39_page_number(i1, i2, i3) % 512 == i3,
{
    assert((i1 * 512 + i2) * 512 + i3 == i1 * 0x40000 + i2 * 512 + i3) by (nonlinear_arith);
    vstd::arithmetic::div_mod::lemma_fundamental_div_mod_converse(
        sv39_page_number(i1, i2, i3),
        0x40000,
        i1,
        i2 * 512 + i3,
    );
    vstd::arithmetic::div_mod::lemma_fundamental_div_mod_converse(
        sv39_page_number(i1, i2, i3),
        512,
        i1 * 512 + i2,
        i3,
    );
    vstd::arithmetic::div_mod::lemma_fundamental_div_mod_converse(i1 * 512 + i2, 512, i1, i2);
}

/// The Sv48 page indices below 512 are read back from the page number they make.
pub proof fn lemma_sv48_indices(i1: int, i2: int, i3: int, i4: int)
    requires
        0 <= i1 < 512,
        0 <= i2 < 512,
        0 <= i3 < 512,
        0 <= i4 < 512,
    ensures
        sv48_page_number(i1, i2, i3, i4) / 0x800_0000 == i1,
        (sv48_page_number(i1, i2, i3, i4) / 0x40000) % 512 == i2,
        (sv48_page_number(i1, i2, i3, i4) / 512) % 512 == i3,
        sv48_page_number(i1, i2, i3, i4) % 512 == i4,
{
    let n = sv48_page_number(i1, i2, i3, i4);
    let upper = sv39_page_number(i1, i2, i3);
    assert(n == upper * 512 + i4);
    assert(0 <= upper < 0x800_0000) by (nonlinear_arith)
        requires
            upper == (i1 * 512 + i2) * 512 + i3,
            0 <= i1 < 512,
            0 <= i2 < 512,
            0 <= i3 < 512,
    ;
    lemma_sv39_indices(i1, i2, i3);
    vstd::arithmetic::div_mod::lemma_fundamental_div_mod_converse(n, 512, upper, i4);
    vstd::arithmetic::div_mod::lemma_div_denominator(n, 512, 512);
    vstd::arithmetic::div_mod::lemma_div_denominator(n, 512, 0x40000);
}

/// Facts about the boot leaf entry: a valid leaf whose 1 GiB block starts at 0x8000_0000.
pub proof fn lemma_boot_leaf_entry(va: u64)
    ensures
        block_target(boot_leaf_entry(), va) == Some(0x8000_0000 + va as int % 0x4000_0000),
        pte_flags(boot_leaf_entry()) == BOOT_LEAF_FLAG,
{
    assert(pte_valid(0x2000_00efu64));
    assert(pte_is_leaf(0x2000_00efu64));
    assert(pte_ppn(0x2000_00efu64) == 0x80000);
    assert(pte_flags(0x2000_00efu64) == 0xef);
}

/// The virtual addresses at which the boot entries place the block: a 1 GiB block that
/// holds `pa` is reached from `pa`, from `relocate(pa)` and from `KERNEL_BASE` onward.
proof fn lemma_boot_addresses(pa: u64)
    requires
        0x8000_0000 <= pa < 0xc000_0000,
    ensures
        ({
            let alias = relocate(pa);
            let kernel = (KERNEL_BASE + (pa - 0x8000_0000)) as u64;
            &&& sv39_canonical(pa) && sv39_canonical(alias) && sv39_canonical(kernel)
            &&& sv48_canonical(pa) && sv48_canonical(alias) && sv48_canonical(kernel)
            &&& (pa / 0x80_0000_0000) as int % 512 == 0
            &&& (pa / 0x4000_0000) as int % 512 == 2
            &&& (alias / 0x80_0000_0000) as int % 512 == 0x1ff
            &&& (alias / 0x4000_0000) as int % 512 == 0x102
            &&& (kernel / 0x80_0000_0000) as int % 512 == 0x1ff
            &&& (kernel / 0x4000_0000) as int % 512 == 0x1ff
            &&& 0x8000_0000 + pa as int % 0x4000_0000 == pa
            &&& 0x8000_0000 + alias as int % 0x4000_0000 == pa
            &&& 0x8000_0000 + kernel as int % 0x4000_0000 == pa
        }),
{
    lemma_constants();
    let alias = relocate(pa);
    let kernel = (KERNEL_BASE + (pa - 0x8000_0000)) as u64;
    assert(alias == 0xffff_ffc0_0000_0000u64 + pa);
    assert(kernel == 0xffff_ffff_4000_0000u64 + pa);
    assert((pa / 0x80_0000_0000) as int % 512 == 0 && (pa / 0x4000_0000) as int % 512 == 2
        && pa % 0x4000_0000 == pa - 0x8000_0000) by (bit_vector)
        requires
            0x8000_0000 <= pa < 0xc000_0000,
    ;
    assert((alias / 0x80_0000_0000) as int % 512 == 0x1ff && (alias / 0x4000_0000) as int % 512
        == 0x102 && alias % 0x4000_0000 == pa - 0x8000_0000) by (bit_vector)
        requires
            0x8000_0000 <= pa < 0xc000_0000,
            alias == 0xffff_ffc0_0000_0000u64 + pa,
    ;
    assert((kernel / 0x80_0000_0000) as int % 512 == 0x1ff && (kernel / 0x4000_0000) as int
        % 512 == 0x1ff && kernel % 0x4000_0000 == pa - 0x8000_0000) by (bit_vector)
        requires
            0x8000_0000 <= pa < 0xc000_0000,
            kernel == 0xffff_ffff_4000_0000u64 + pa,
    ;
}

/// In the Sv39 boot root, an address at root index 2, 0x102 or 0x1ff is sent into the
/// 1 GiB block at 0x8000_0000.
proof fn lemma_sv39_boot_walk(root: Seq<PTE>, va: u64)
    requires
        root.len() == 512,
        sv39_canonical(va),
        ({
            let i = (va / 0x4000_0000) as int % 512;
            i == 2 || i == 0x102 || i == 0x1ff
        }),
    ensures
        sv39_translate(sv39_boot_root(root), va) == Some(0x8000_0000 + va as int % 0x4000_0000),
{
    lemma_boot_leaf_entry(va);
}

/// After the Sv39 boot entries are written, each address `pa` of the 1 GiB block at
/// 0x8000_0000 is reached from three virtual addresses: `pa` itself, its alias
/// `PHYS_VIRT_OFFSET` above, and the same offset into the block from `KERNEL_BASE`.
pub proof fn lemma_sv39_boot_mappings(root: Seq<PTE>, pa: u64)
    requires
        root.len() == 512,
        0x8000_0000 <= pa < 0xc000_0000,
    ensures
        sv39_translate(sv39_boot_root(root), pa) == Some(pa as int),
        sv39_translate(sv39_boot_root(root), relocate(pa)) == Some(pa as int),
        sv39_translate(sv39_boot_root(root), (KERNEL_BASE + (pa - 0x8000_0000)) as u64) == Some(
            pa as int,
        ),
{
    lemma_boot_addresses(pa);
    lemma_sv39_boot_walk(root, pa);
    lemma_sv39_boot_walk(root, relocate(pa));
    lemma_sv39_boot_walk(root, (KERNEL_BASE + (pa - 0x8000_0000)) as u64);
}

/// In the Sv48 boot tables, an address whose root index is `0` and whose next index is
/// `2`, or whose root index is `0x1ff` and next index `0x102` or `0x1ff`, is sent into the
/// 1 GiB block at 0x8000_0000.
proof fn lemma_sv48_boot_walk(
    root: Seq<PTE>,
    low: Seq<PTE>,
    low_addr: u64,
    high: Seq<PTE>,
    high_addr: u64,
    va: u64,
)
    requires
        root.len() == 512,
        low.len() == 512,
        high.len() == 512,
        low_addr < 0x100_0000_0000_0000,
        high_addr < 0x100_0000_0000_0000,
        low_addr / 4096 != high_addr / 4096,
        sv48_canonical(va),
        ({
            let i3 = (va / 0x80_0000_0000) as int % 512;
            let i2 = (va / 0x4000_0000) as int % 512;
            ||| (i3 == 0 && i2 == 2)
            ||| (i3 == 0x1ff && (i2 == 0x102 || i2 == 0x1ff))
        }),
    ensures
        sv48_translate(
            sv48_boot_root(root, low_addr, high_addr),
            sv48_boot_low(low),
            low_addr,
            sv48_boot_high(high),
            high_addr,
            va,
        ) == Some(0x8000_0000 + va as int % 0x4000_0000),
{
    lemma_boot_leaf_entry(va);
    lemma_pointer_entry(low_addr);
    lemma_pointer_entry(high_addr);
}

/// After the Sv48 boot entries are written into tables stored at distinct pages below
/// 2^56, the same three virtual addresses of each `pa` in the 1 GiB block at 0x8000_0000
/// reach `pa`.
pub proof fn lemma_sv48_boot_mappings(
    root: Seq<PTE>,
    low: Seq<PTE>,
    low_addr: u64,
    high: Seq<PTE>,
    high_addr: u64,
    pa: u64,
)
    requires
        root.len() == 512,
        low.len() == 512,
        high.len() == 512,
        low_addr < 0x100_0000_0000_0000,
        high_addr < 0x100_0000_0000_0000,
        low_addr / 4096 != high_addr / 4096,
        0x8000_0000 <= pa < 0xc000_0000,
    ensures
        ({
            let r = sv48_boot_root(root, low_addr, high_addr);
            let l = sv48_boot_low(low);
            let h = sv48_boot_high(high);
            &&& sv48_translate(r, l, low_addr, h, high_addr, pa) == Some(pa as int)
            &&& sv48_translate(r, l, low_addr, h, high_addr, relocate(pa)) == Some(pa as int)
            &&& sv48_translate(
                r,
                l,
                low_addr,
                h,
                high_addr,
                (KERNEL_BASE + (pa - 0x8000_0000)) as u64,
            ) == Some(pa as int)
        }),
{
    lemma_boot_addresses(pa);
    lemma_sv48_boot_walk(root, low, low_addr, high, high_addr, pa);
    lemma_sv48_boot_walk(root, low, low_addr, high, high_addr, relocate(pa));
    lemma_sv48_boot_walk(
        root,
        low,
        low_addr,
        high,
        high_addr,
        (KERNEL_BASE + (pa - 0x8000_0000)) as u64,
    );
}

/// Where the boot mappings send `va`: the identity window 0x8000_0000..0xc000_0000, its
/// alias at `PHYS_VIRT_OFFSET` above, and the window from `KERNEL_BASE` to the top each
/// cover the 1 GiB block at physical 0x8000_0000; every other address is left unmapped.
pub open spec fn boot_window_target(va: u64) -> Option<int> {
    if 0x8000_0000 <= va < 0xc000_0000 {
        Some(va as int)
    } else if PHYS_VIRT_OFFSET as int + 0x8000_0000 <= va < PHYS_VIRT_OFFSET as int + 0xc000_0000 {
        Some(va - PHYS_VIRT_OFFSET)
    } else if KERNEL_BASE <= va {
        Some(va - KERNEL_BASE + 0x8000_0000)
    } else {
        None
    }
}

/// The three boot windows in terms of page indices: an Sv39 address is in one of them
/// exactly when its root index is 2, 0x102 or 0x1ff, and its target is then the offset
/// of `va` into its 1 GiB block, from 0x8000_0000.
proof fn lemma_sv39_windows(va: u64)
    ensures
        ({
            let i = (va / 0x4000_0000) as int % 512;
            &&& (sv39_canonical(va) && (i == 2 || i == 0x102 || i == 0x1ff)) <==> boot_window_target(
                va,
            ) is Some
            &&& boot_window_target(va) is Some ==> boot_window_target(va) == Some(
                0x8000_0000 + va as int % 0x4000_0000,
            )
        }),
{
    lemma_constants();
    let i = (va / 0x4000_0000) % 512;
    let id = 0x8000_0000 <= va && va < 0xc000_0000;
    let al = 0xffff_ffc0_8000_0000u64 <= va && va < 0xffff_ffc0_c000_0000u64;
    let ke = 0xffff_ffff_c000_0000u64 <= va;
    assert((va < 0x40_0000_0000 || va >= 0xffff_ffc0_0000_0000u64) && i == 2 <==> id)
        by (bit_vector)
        requires
            i == (va / 0x4000_0000) % 512,
            id == (0x8000_0000 <= va && va < 0xc000_0000),
    ;
    assert((va < 0x40_0000_0000 || va >= 0xffff_ffc0_0000_0000u64) && i == 0x102 <==> al)
        by (bit_vector)
        requires
            i == (va / 0x4000_0000) % 512,
            al == (0xffff_ffc0_8000_0000u64 <= va && va < 0xffff_ffc0_c000_0000u64),
    ;
    assert((va < 0x40_0000_0000 || va >= 0xffff_ffc0_0000_0000u64) && i == 0x1ff <==> ke)
        by (bit_vector)
        requires
            i == (va / 0x4000_0000) % 512,
            ke == (0xffff_ffff_c000_0000u64 <= va),
    ;
    assert(id ==> va == 0x8000_0000 + va % 0x4000_0000) by (bit_vector)
        requires
            id == (0x8000_0000 <= va && va < 0xc000_0000),
    ;
    assert(al ==> va - 0xffff_ffc0_0000_0000u64 == 0x8000_0000 + va % 0x4000_0000)
        by (bit_vector)
        requires
            al == (0xffff_ffc0_8000_0000u64 <= va && va < 0xffff_ffc0_c000_0000u64),
    ;
    assert(ke ==> va - 0xffff_ffff_c000_0000u64 + 0x8000_0000 == 0x8000_0000 + va % 0x4000_0000)
        by (bit_vector)
        requires
            ke == (0xffff_ffff_c000_0000u64 <= va),
    ;
}

/// The three boot windows in terms of Sv48 page indices: an address is in one of them
/// exactly when it is well formed and its two top indices are (0, 2), (0x1ff, 0x102) or
/// (0x1ff, 0x1ff).
proof fn lemma_sv48_windows(va: u64)
    ensures
        ({
            let i3 = (va / 0x80_0000_0000) as int % 512;
            let i2 = (va / 0x4000_0000) as int % 512;
            (sv48_canonical(va) && ((i3 == 0 && i2 == 2) || (i3 == 0x1ff && (i2 == 0x102 || i2
                == 0x1ff)))) <==> boot_window_target(va) is Some
        }),
{
    lemma_constants();
    let i3 = (va / 0x80_0000_0000) % 512;
    let i2 = (va / 0x4000_0000) % 512;
    let c = va < 0x8000_0000_0000 || va >= 0xffff_8000_0000_0000u64;
    let id = 0x8000_0000 <= va && va < 0xc000_0000;
    let al = 0xffff_ffc0_8000_0000u64 <= va && va < 0xffff_ffc0_c000_0000u64;
    let ke = 0xffff_ffff_c000_0000u64 <= va;
    assert(c && i3 == 0 && i2 == 2 <==> id) by (bit_vector)
        requires
            i3 == (va / 0x80_0000_0000) % 512,
            i2 == (va / 0x4000_0000) % 512,
            c == (va < 0x8000_0000_0000 || va >= 0xffff_8000_0000_0000u64),
            id == (0x8000_0000 <= va && va < 0xc000_0000),
    ;
    assert(c && i3 == 0x1ff && i2 == 0x102 <==> al) by (bit_vector)
        requires
            i3 == (va / 0x80_0000_0000) % 512,
            i2 == (va / 0x4000_0000) % 512,
            c == (va < 0x8000_0000_0000 || va >= 0xffff_8000_0000_0000u64),
            al == (0xffff_ffc0_8000_0000u64 <= va && va < 0xffff_ffc0_c000_0000u64),
    ;
    assert(c && i3 == 0x1ff && i2 == 0x1ff <==> ke) by (bit_vector)
        requires
            i3 == (va / 0x80_0000_0000) % 512,
            i2 == (va / 0x4000_0000) % 512,
            c == (va < 0x8000_0000_0000 || va >= 0xffff_8000_0000_0000u64),
            ke == (0xffff_ffff_c000_0000u64 <= va),
    ;
}

/// Written into an empty root table, the Sv39 boot entries map exactly the three boot
/// windows onto the 1 GiB block at 0x8000_0000, and no other virtual address.
pub proof fn lemma_sv39_boot_maps_only_windows(root: Seq<PTE>, va: u64)
    requires
        root == Seq::new(512, |i: int| 0u64),
    ensures
        sv39_translate(sv39_boot_root(root), va) == boot_window_target(va),
{
    lemma_sv39_windows(va);
    let i = (va / 0x4000_0000) as int % 512;
    if sv39_canonical(va) && (i == 2 || i == 0x102 || i == 0x1ff) {
        lemma_sv39_boot_walk(root, va);
    } else if sv39_canonical(va) {
        assert(sv39_boot_root(root)[i] == 0u64);
    }
}

/// Written into empty tables stored at distinct pages below 2^56, the Sv48 boot entries
/// map exactly the three boot windows onto the 1 GiB block at 0x8000_0000, and no other
/// virtual address.
pub proof fn lemma_sv48_boot_maps_only_windows(
    root: Seq<PTE>,
    low: Seq<PTE>,
    low_addr: u64,
    high: Seq<PTE>,
    high_addr: u64,
    va: u64,
)
    requires
        root == Seq::new(512, |i: int| 0u64),
        low == Seq::new(512, |i: int| 0u64),
        high == Seq::new(512, |i: int| 0u64),
        low_addr < 0x100_0000_0000_0000,
        high_addr < 0x100_0000_0000_0000,
        low_addr / 4096 != high_addr / 4096,
    ensures
        sv48_translate(
            sv48_boot_root(root, low_addr, high_addr),
            sv48_boot_low(low),
            low_addr,
            sv48_boot_high(high),
            high_addr,
            va,
        ) == boot_window_target(va),
{
    lemma_sv48_windows(va);
    lemma_sv39_windows(va);
    lemma_pointer_entry(low_addr);
    lemma_pointer_entry(high_addr);
    lemma_boot_leaf_entry(va);
    let i3 = (va / 0x80_0000_0000) as int % 512;
    let i2 = (va / 0x4000_0000) as int % 512;
    let r = sv48_boot_root(root, low_addr, high_addr);
    let l = sv48_boot_low(low);
    let h = sv48_boot_high(high);
    if sv48_canonical(va) && ((i3 == 0 && i2 == 2) || (i3 == 0x1ff && (i2 == 0x102 || i2
        == 0x1ff))) {
        lemma_sv48_boot_walk(root, low, low_addr, high, high_addr, va);
    } else if sv48_canonical(va) {
        if i3 == 0 {
            assert(l[i2] == 0u64);
        } else if i3 == 0x1ff {
            assert(h[i2] == 0u64);
        } else {
            assert(r[i3] == 0u64);
        }
    }
}

/// A return frame whose stack pointer and return address point into the 1 GiB block at
/// 0x8000_0000 still reaches the same memory after `post_mmu` moves it, through the
/// tables that `pre_mmu` wrote under either scheme.
pub proof fn lemma_moved_frame_reaches_same_memory(
    t: BootPageTables,
    frame: ReturnFrame,
)
    requires
        t.low_addr < 0x100_0000_0000_0000,
        t.high_addr < 0x100_0000_0000_0000,
        t.low_addr / 4096 != t.high_addr / 4096,
        0x8000_0000 <= frame.sp < 0xc000_0000,
        0x8000_0000 <= frame.ra < 0xc000_0000,
    ensures
        sv39_translate(sv39_boot_root(t.root@), relocate(frame.sp)) == Some(frame.sp as int),
        sv39_translate(sv39_boot_root(t.root@), relocate(frame.ra)) == Some(frame.ra as int),
        sv48_translate(
            sv48_boot_root(t.root@, t.low_addr, t.high_addr),
            sv48_boot_low(t.low@),
            t.low_addr,
            sv48_boot_high(t.high@),
            t.high_addr,
            relocate(frame.sp),
        ) == Some(frame.sp as int),
        sv48_translate(
            sv48_boot_root(t.root@, t.low_addr, t.high_addr),
            sv48_boot_low(t.low@),
            t.low_addr,
            sv48_boot_high(t.high@),
            t.high_addr,
            relocate(frame.ra),
        ) == Some(frame.ra as int),
{
    lemma_sv39_boot_mappings(t.root@, frame.sp);
    lemma_sv39_boot_mappings(t.root@, frame.ra);
    lemma_sv48_boot_mappings(t.root@, t.low@, t.low_addr, t.high@, t.high_addr, frame.sp);
    lemma_sv48_boot_mappings(t.root@, t.low@, t.low_addr, t.high@, t.high_addr, frame.ra);
}

/// A pointer entry is valid, not a leaf, and holds the page number of its table.
pub proof fn lemma_pointer_entry(addr: u64)
    requires
        addr < 0x100_0000_0000_0000,
    ensures
        pte_valid(pointer_entry(addr)),
        !pte_is_leaf(pointer_entry(addr)),
        pte_ppn(pointer_entry(addr)) == addr / 4096,
{
    let e = pointer_entry(addr);
    assert(e == (addr / 4096) * 1024 + 1) by (bit_vector)
        requires
            addr < 0x100_0000_0000_0000,
            e == ((addr >> 12u64) << 10u64) | 1u64,
    ;
}

} // verus!
