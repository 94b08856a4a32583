//! Memory management: physical page allocation and page table flags.

pub mod paging;
pub mod physical;
