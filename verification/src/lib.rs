//! Boot-time paging set-up for RISC-V (the Sv39 and Sv48 schemes) and a
//! registry of driver init entries.

pub mod mmu;
pub mod driver;
pub mod drivers;
