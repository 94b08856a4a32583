//! Verified core logic of the APOLLO microkernel: boot data validation,
//! capability tokens, CPU feature checks, page flags and the physical page
//! allocator.

pub mod boot;
pub mod memory;
pub mod capabilities;
pub mod hw;
pub mod ipc;
