# arceos_tutorial

Boot-time paging for a RISC-V kernel and its driver registry, verified with Verus.

- `src/mmu.rs`: page table entries and indices, the boot page tables of the Sv39 and
  Sv48 schemes (`pre_mmu`), the `satp` setting that turns paging on (`enable_mmu`), the
  move of the return frame into the high half (`post_mmu`), and the proofs that the
  boot tables map the 1 GiB block at 0x8000_0000 where the kernel expects it.
- `src/driver.rs`, `src/drivers.rs`: driver descriptions, init entries and the walk
  over a table of entries.
- `app/`: the kernel side: the tables in their link section, the `satp` write, the
  register fix-up in assembly, and the printing of the drivers found.
